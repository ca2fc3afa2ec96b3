//! A catalogue of artists and audio tracks, built by classifying the files of
//! an assets directory, and the read-only queries served over it.
pub mod classify;
pub mod laws;
pub mod models;
pub mod routes;
pub mod text;
pub mod track_service;
