//! The per-connection driver of a robot homing server: it frames and
//! decodes the robots' messages, authenticates each robot with a keyed
//! checksum, steers it to the origin around obstacles and collects the
//! secret found there.
use vstd::prelude::*;

pub mod auth;
pub mod codec;
pub mod frame;
pub mod navigator;
pub mod session;

verus! {

} // verus!
