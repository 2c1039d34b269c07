//! Crawls a sheet-music catalog (series, games, sheets) and plans the
//! download of every sheet in every file format.

pub mod crawler;
pub mod dom;
pub mod downloader;
pub mod model;
pub mod text;
pub mod worker;
