//! Host-side bindings for the Retrovert plugin ABI, version 2: the values that cross the
//! ABI, and the rules a host applies to what plugins hand back.

pub mod ffi;
pub mod loader;
pub mod plugin_string;
pub mod service;
pub mod text;
pub mod visualization;
pub mod session;

