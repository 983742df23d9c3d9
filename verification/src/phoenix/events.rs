//! The events of the Phoenix protocol itself.

use vstd::prelude::*;

verus! {

pub const PHX_JOIN: &'static str = "phx_join";

pub const PHX_LEAVE: &'static str = "phx_leave";

pub const PHX_REPLY: &'static str = "phx_reply";

pub const PHX_ERROR: &'static str = "phx_error";

pub const PHX_CLOSE: &'static str = "phx_close";

pub const HEARTBEAT: &'static str = "heartbeat";

} // verus!
