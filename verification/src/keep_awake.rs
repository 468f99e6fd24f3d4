//! Keeping a session awake while it is viewed.
use crate::input_block::{Injection, KEEP_AWAKE_TAG, MOUSE_MOVE};
use vstd::prelude::*;

verus! {

/// How long a session is idle before it is kept awake.
pub const IDLE_MS: u32 = 1_000;

/// What a wish to keep a session awake or not leads to.
#[derive(Debug, Clone, Copy, PartialEq, Eq, Structural)]
pub enum KeepAwakeAction {
    Nothing,
    Start,
    Stop,
}

pub fn set_enabled(current: bool, enabled: bool) -> (action: KeepAwakeAction)
    ensures
        action == (if enabled == current {
            KeepAwakeAction::Nothing
        } else if enabled {
            KeepAwakeAction::Start
        } else {
            KeepAwakeAction::Stop
        }),
{
    if enabled == current {
        KeepAwakeAction::Nothing
    } else if enabled {
        KeepAwakeAction::Start
    } else {
        KeepAwakeAction::Stop
    }
}

/// How long ago something was on a clock that starts again from 0 after its
/// largest value.
pub open spec fn elapsed(now: u32, last: u32) -> u32 {
    if now >= last {
        (now - last) as u32
    } else {
        (now + 0x1_0000_0000 - last) as u32
    }
}

/// The input that keeps a session awake, where it was idle for long enough: a
/// movement by nothing, which neither moves the pointer nor claims the input.
pub fn pulse(now: u32, last_input: u32) -> (input: Option<Injection>)
    ensures
        input == (if elapsed(now, last_input) < IDLE_MS {
            None
        } else {
            Some(
                Injection::Mouse { flags: MOUSE_MOVE, dx: 0, dy: 0, data: 0, tag: KEEP_AWAKE_TAG },
            )
        }),
{
    let idle: u32 = if now >= last_input {
        now - last_input
    } else {
        (now as u64 + 0x1_0000_0000 - last_input as u64) as u32
    };
    if idle < IDLE_MS {
        None
    } else {
        Some(Injection::Mouse { flags: MOUSE_MOVE, dx: 0, dy: 0, data: 0, tag: KEEP_AWAKE_TAG })
    }
}

/// What was so long ago, and that long after it, is now, even if the clock has
/// started again meanwhile.
pub proof fn elapsed_time_leads_to_now(now: u32, last: u32)
    ensures
        (last + elapsed(now, last)) % 0x1_0000_0000 == now,
{
}

} // verus!
