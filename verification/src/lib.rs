//! A growable-array container with an explicit, observable capacity policy:
//! when an operation needs more room, the capacity becomes the next power of
//! two at or above the required minimum, and it never shrinks except through
//! `shrink_to_fit`. The crate also offers a small borrowed-or-owned wrapper.

pub mod growth;
pub mod maybe_owned;
pub mod me_vec;
pub mod model;
