//! Mirror of the value parts of `retrovert/metadata.h`.

use vstd::prelude::*;

verus! {

pub const RV_METADATA_API_VERSION: i32 = 1;

/// The id the metadata service gives a record.
pub type RVMetadataId = u64;

} // verus!
