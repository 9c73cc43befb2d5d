//! Tags stock photos and videos: which files are tagged, what a vision model is
//! asked about them, what its reply means, and how the metadata gets into the
//! files. Calls over the network, files and tools are left to the program around
//! this library, which hands in what happened and carries out what comes next.
pub mod config;
pub mod exiftool;
pub mod frames;
pub mod media;
pub mod metadata;
pub mod numbers;
pub mod photos;
pub mod prompt;
pub mod reading;
pub mod reply;
pub mod request;
pub mod text;
pub mod tools;
pub mod videos;
