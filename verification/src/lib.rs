//! Verified core of the Workspace overlay runtime: capability rights,
//! audio ring buffering, fuzzy matching, key mapping and the host shim's
//! platform-independent state.

pub mod app_state;
pub mod audio;
pub mod events;
pub mod fuzzy;
pub mod host_event;
pub mod input;
pub mod logging;
pub mod platform;
pub mod security;
pub mod storage;
pub mod text_atlas;
mod text_buf;
pub mod window;
