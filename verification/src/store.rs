//! The remote stores. Each module says how one kind of store is asked to
//! list its objects, to take a file and to hand an object out, and how its
//! answers are read.

pub mod dropbox;
pub mod gdrive;
pub mod onedrive;
pub mod s3;
pub mod tags;
