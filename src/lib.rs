pub mod text;
pub mod format;
pub mod compare;
pub mod summary;
pub mod laws;
pub mod config;
pub mod listing;
