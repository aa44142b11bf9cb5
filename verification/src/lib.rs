pub mod search;
pub mod text;
pub mod json;
pub mod types;
pub mod spotify;
pub mod config;
pub mod downloader;
pub mod tags;
pub mod cover;
