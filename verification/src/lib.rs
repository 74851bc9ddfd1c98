//! Session engine for an interactive terminal feed client.
//!
//! The crate owns the state that the surrounding program mutates on every
//! iteration of its control loop: the in-memory post list with its selection
//! cursor and refresh countdown, a disk-backed cache with a freshness window,
//! and the pure projections that turn posts into displayable rows. Network
//! calls, terminal handling and file access stay outside; the library hands
//! the caller the request it must perform and consumes the outcome.

use vstd::prelude::*;

pub mod cache;
pub mod codec;
pub mod img;
pub mod input;
pub mod numfmt;
pub mod post;
pub mod render;
pub mod session;

verus! {

/// Relies on `String::push`: appends the given char to the end of the string.
pub assume_specification[ String::push ](s: &mut String, c: char)
    ensures
        final(s)@ == old(s)@.push(c),
;

} // verus!
