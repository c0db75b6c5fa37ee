//! The H.264 profiles and levels.

use vstd::prelude::*;

verus! {

/// `profile_idc` (A.2).
#[derive(Clone, Copy, Debug, PartialEq, Eq)]
pub enum Profile {
    Baseline,
    Main,
    Extended,
    High,
    High10,
    High422P,
}

/// `level_idc` (A.3).
#[derive(Clone, Copy, Debug, PartialEq, Eq)]
pub enum Level {
    L1,
    L1B,
    L1_1,
    L1_2,
    L1_3,
    L2_0,
    L2_1,
    L2_2,
    L3,
    L3_1,
    L3_2,
    L4,
    L4_1,
    L4_2,
    L5,
    L5_1,
    L5_2,
    L6,
    L6_1,
    L6_2,
}

} // verus!
