//! Mirror of the value parts of `retrovert/io.h`.

use vstd::prelude::*;

verus! {

pub const RV_IO_API_VERSION: i32 = 1;

} // verus!
