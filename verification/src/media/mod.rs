pub mod cache_manager;
pub mod media_probe;
pub mod settings;
pub mod video_manager;
