//! What the client is told at start.

use vstd::prelude::*;

verus! {

/// The arguments of the program: where to connect, which channel to enter,
/// and under which name; the password may be empty.
#[derive(Debug, PartialEq, Eq)]
pub struct Args {
    pub server: String,
    pub channel: String,
    pub username: String,
    pub password: String,
}

} // verus!
