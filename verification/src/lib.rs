//! A small fitness-tracker library: user profiles owning workout sessions
//! and exercises, kept as JSON documents in flat files.
//!
//! The library itself never touches the file system.  A caller reads a file
//! (or finds it missing, or fails) and hands the result in as a
//! `ReadOutcome`; every mutating operation returns the full text of the
//! document to be written back.  Encoding and decoding of the documents is
//! done by the verified codec in [`json`], which round-trips every value.

use vstd::prelude::*;

pub mod codec;
pub mod errors;
pub mod exercise;
pub mod json;
pub mod user_profile;
pub mod utils;
pub mod workout_session;
pub mod workout_set;

verus! {

/// The sequence of mathematical images of a sequence of values.
pub open spec fn views_of<T: View>(s: Seq<T>) -> Seq<T::V> {
    Seq::new(s.len(), |i: int| s[i]@)
}

/// The mathematical image of a result: the image of whichever side it
/// holds.
pub open spec fn res_view<T: View, E: View>(r: Result<T, E>) -> Result<T::V, E::V> {
    match r {
        Ok(t) => Ok(t@),
        Err(e) => Err(e@),
    }
}

} // verus!
