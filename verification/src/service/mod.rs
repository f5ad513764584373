//! The services a host lends to plugins: the bookkeeping behind each vtable, kept apart
//! from the C entry points that carry it.

pub mod io;
pub mod log;
pub mod metadata;
pub mod registry;
pub mod schema;
pub mod settings;
