//! Steam Guard codes: the 5-character time-based codes of Steam's mobile authenticator,
//! derived from a Base32 shared secret and a Unix timestamp, with the helpers that log
//! steamcmd in with such a code.
use vstd::prelude::*;

pub mod base32;
pub mod code;
pub mod generator;
pub mod laws;
pub mod steamcmd;

verus! {

} // verus!
