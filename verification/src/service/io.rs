//! The io service's limits, and which whole-file reads reach a plugin.

use vstd::prelude::*;

use crate::plugin_string::StringLimitExceeded;

verus! {

/// Longest URL or path accepted from an I/O callback, in bytes.
pub const IO_URL_LIMIT: usize = 65536;
/// Largest whole-file buffer the I/O service returns to a plugin.
pub const IO_DATA_LIMIT: usize = 268435456;

/// File access a host lends to plugins.
///
/// A url is whatever the host's backends understand: a plain path, an entry inside an
/// archive, a remote address. Buffers are returned owned; the host hands them across the
/// ABI and takes them back, so no implementor ever frees plugin memory.
pub trait Io: Send + Sync {
    /// Returns whether `url` can be read by this backend.
    fn url_exists(&self, url: &str) -> bool;

    /// `None` when the url cannot be read within `max_bytes`.
    ///
    /// Implementations must enforce `max_bytes` before allocating storage controlled by the
    /// resource size.
    fn read_to_memory(&self, url: &str, max_bytes: usize) -> Option<Vec<u8>>;
}

/// The url an I/O callback acts on: none for a null or over-limit string.
pub fn requested_url(url: Result<Option<String>, StringLimitExceeded>) -> (target: Option<String>)
    ensures
        target == match url {
            Ok(Some(u)) => Some(u),
            _ => None,
        },
{
    match url {
        Ok(Some(url)) => Some(url),
        _ => None,
    }
}

/// Whether a backend's read is handed to the plugin: an empty or over-sized buffer is
/// answered as no data at all.
pub fn deliverable_read(byte_count: usize) -> (deliver: bool)
    ensures
        deliver == (byte_count != 0 && byte_count <= IO_DATA_LIMIT),
{
    byte_count != 0 && byte_count <= IO_DATA_LIMIT
}

/// Whether a file of `byte_count` bytes may be read under a budget of `max_bytes`.
pub fn within_read_budget(byte_count: u64, max_bytes: usize) -> (allowed: bool)
    ensures
        allowed == (byte_count <= max_bytes),
{
    byte_count <= max_bytes as u64
}

} // verus!
