//! What the operators of a fragment do, as bits of a mask.

use vstd::prelude::*;

verus! {

pub const SOURCE: u32 = 1;

pub const MVIEW: u32 = 2;

pub const SINK: u32 = 4;

pub const NOW: u32 = 8;

pub const STREAM_SCAN: u32 = 16;

pub const BARRIER_RECV: u32 = 32;

pub const VALUES: u32 = 64;

pub const SOURCE_SCAN: u32 = 1024;

/// The mask has one of these bits.
pub open spec fn has_flag(mask: u32, flag: u32) -> bool {
    mask & flag != 0
}

/// Barriers are injected at fragments that read a source, the time, values or barriers.
pub open spec fn injectable(mask: u32) -> bool {
    has_flag(mask, SOURCE) || has_flag(mask, NOW) || has_flag(mask, VALUES) || has_flag(
        mask,
        BARRIER_RECV,
    )
}

} // verus!
