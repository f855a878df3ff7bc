//! Channel settings for a data-acquisition host, read from a YAML document
//! and served through a handle with indexed, non-panicking accessors.

pub mod document;
pub mod limits;
pub mod parser;
pub mod store;
pub mod yaml;

use vstd::prelude::*;

verus! {

/// Adds one to `value`; the smallest entry point a host can call to confirm
/// that the library is linked.
pub fn rust_increment(value: u32) -> (r: u32)
    requires
        value < u32::MAX,
    ensures
        r == value + 1,
{
    value + 1
}

} // verus!
