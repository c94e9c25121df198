//! A minimal plugin contract: the linear memory a plugin instance shares with
//! its host, the length-prefixed buffers exchanged through it, and the
//! operations a host may call.

pub mod codec;
pub mod instance;
pub mod plugin;

pub use crate::instance::{on_load, on_unload, plugin_alloc, plugin_dealloc, Instance, Lifecycle};
pub use crate::plugin::{plugin_info, recognize};
