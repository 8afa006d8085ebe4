//! Azimuth keeps notes as plain files in a directory tree. This library
//! holds what the application decides: which files are synchronised with
//! a remote store and how, what becomes of a conflict, what is shown for a
//! note, and how the notes are searched and ordered. It reads no file and
//! sends no request; the application hands it what it found and carries
//! out what the library decided.

pub mod appconfig;
pub mod attachments;
pub mod config;
pub mod conflict;
pub mod error;
pub mod guard;
pub mod hasher;
pub mod http;
pub mod json;
pub mod lists;
pub mod manifest;
pub mod media;
pub mod model;
pub mod notebooks;
pub mod notes;
pub mod order;
pub mod paths;
pub mod rank;
pub mod reconcile;
pub mod relocate;
pub mod run;
pub mod scanner;
pub mod search;
pub mod settings;
pub mod store;
pub mod table;
pub mod text;
