pub mod cache;
pub mod state;
pub mod cached_client;
pub mod diff;
pub mod batch_loader;
pub mod now_playing;
pub mod playback;
