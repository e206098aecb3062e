//! What the project database stores, as records.
pub mod project_repo;
pub mod audio_cache;
