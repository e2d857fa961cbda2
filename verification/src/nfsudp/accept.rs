//! RPC accept-status values (RFC 1057). Every host is allowed, so auth never
//! fails; these cover protocol-level outcomes only.

use vstd::prelude::*;

verus! {

pub const SUCCESS: u32 = 0;

pub const PROG_UNAVAIL: u32 = 1;

pub const PROG_MISMATCH: u32 = 2;

pub const PROC_UNAVAIL: u32 = 3;

pub const GARBAGE_ARGS: u32 = 4;

pub const SYSTEM_ERR: u32 = 5;

} // verus!
