//! Blocking local input, and telling whose input moves the pointer.
use vstd::prelude::*;

verus! {

/// Marks the input that keeps a session awake; it belongs to nobody.
pub const KEEP_AWAKE_TAG: usize = 0x4d524d4b;

/// Marks the viewer's input.
pub const INPUT_TAG: usize = 0x4d524d4d;

pub const MOUSE_MOVE: u32 = 0x0001;

pub const LEFT_DOWN: u32 = 0x0002;

pub const LEFT_UP: u32 = 0x0004;

pub const RIGHT_DOWN: u32 = 0x0008;

pub const RIGHT_UP: u32 = 0x0010;

pub const MIDDLE_DOWN: u32 = 0x0020;

pub const MIDDLE_UP: u32 = 0x0040;

pub const X_DOWN: u32 = 0x0080;

pub const X_UP: u32 = 0x0100;

pub const KEY_UP: u32 = 0x0002;

/// An input that is handed to Windows.
#[derive(Debug, Clone, Copy, PartialEq, Eq, Structural)]
pub enum Injection {
    Mouse { flags: u32, dx: i32, dy: i32, data: u32, tag: usize },
    Key { virtual_key: u16, scan_code: u16, flags: u32, tag: usize },
}

/// What the hooks are there for.
#[derive(Debug, Clone, Copy, PartialEq, Eq, Structural)]
pub enum HookMode {
    /// Keep local input away.
    Block,
    /// Tell whose input it is.
    Track,
}

/// Whether an input is kept away.
pub open spec fn suppressed(mode: HookMode, tag: usize) -> bool {
    mode == HookMode::Block && tag != KEEP_AWAKE_TAG && tag != INPUT_TAG
}

/// Whether the viewer controls the input afterwards.
pub open spec fn viewer_after(mode: HookMode, viewer: bool, tag: usize, takes_control: bool) -> bool {
    if mode == HookMode::Track && tag != KEEP_AWAKE_TAG && (tag != INPUT_TAG || takes_control) {
        tag == INPUT_TAG
    } else {
        viewer
    }
}

/// Handles an input that a hook sees; whether it is kept away. Releases do not
/// hand control back to the viewer: they are also injected when a session ends.
pub fn handle_input(mode: HookMode, viewer: &mut bool, tag: usize, takes_control: bool) -> (kept:
    bool)
    ensures
        kept == suppressed(mode, tag),
        *final(viewer) == viewer_after(mode, *old(viewer), tag, takes_control),
{
    if tag == KEEP_AWAKE_TAG {
        return false;
    }
    match mode {
        HookMode::Block => tag != INPUT_TAG,
        HookMode::Track => {
            if tag != INPUT_TAG || takes_control {
                *viewer = tag == INPUT_TAG;
            }
            false
        },
    }
}

/// Input that keeps a session awake is neither kept away nor anybody's, and a
/// release of the viewer's does not give the viewer control.
pub proof fn cleanup_claims_nothing(mode: HookMode, viewer: bool, takes_control: bool)
    ensures
        !suppressed(mode, KEEP_AWAKE_TAG),
        viewer_after(mode, viewer, KEEP_AWAKE_TAG, takes_control) == viewer,
        viewer_after(mode, viewer, INPUT_TAG, false) == viewer,
{
}

/// While local input is kept away it changes nothing about who has control: the
/// hooks that tell do not see it, and the viewer's input still passes.
pub proof fn blocking_lets_the_viewer_through(viewer: bool, tag: usize, takes_control: bool)
    ensures
        !suppressed(HookMode::Block, INPUT_TAG),
        viewer_after(HookMode::Block, viewer, tag, takes_control) == viewer,
        !suppressed(HookMode::Track, tag),
{
}

/// Whether a keyboard message is a key that goes down.
pub fn key_takes_control(message: u32) -> (takes: bool)
    ensures
        takes == (message == 0x0100 || message == 0x0104),
{
    message == 0x0100 || message == 0x0104
}

/// Whether a mouse message is a movement, a button that goes down, or a wheel.
pub fn mouse_takes_control(message: u32) -> (takes: bool)
    ensures
        takes == (message == 0x0200 || message == 0x0201 || message == 0x0204 || message == 0x0207
            || message == 0x020b || message == 0x020a || message == 0x020e),
{
    message == 0x0200 || message == 0x0201 || message == 0x0204 || message == 0x0207 || message
        == 0x020b || message == 0x020a || message == 0x020e
}

/// What releases a key or a button that is held, by its virtual key.
pub open spec fn release_of(key: u16) -> Injection {
    if key == 1 {
        Injection::Mouse { flags: LEFT_UP, dx: 0, dy: 0, data: 0, tag: INPUT_TAG }
    } else if key == 2 {
        Injection::Mouse { flags: RIGHT_UP, dx: 0, dy: 0, data: 0, tag: INPUT_TAG }
    } else if key == 4 {
        Injection::Mouse { flags: MIDDLE_UP, dx: 0, dy: 0, data: 0, tag: INPUT_TAG }
    } else if key == 5 {
        Injection::Mouse { flags: X_UP, dx: 0, dy: 0, data: 1, tag: INPUT_TAG }
    } else if key == 6 {
        Injection::Mouse { flags: X_UP, dx: 0, dy: 0, data: 2, tag: INPUT_TAG }
    } else {
        Injection::Key { virtual_key: key, scan_code: 0, flags: KEY_UP, tag: INPUT_TAG }
    }
}

fn release(key: u16) -> (injection: Injection)
    ensures
        injection == release_of(key),
{
    match key {
        1 => Injection::Mouse { flags: LEFT_UP, dx: 0, dy: 0, data: 0, tag: INPUT_TAG },
        2 => Injection::Mouse { flags: RIGHT_UP, dx: 0, dy: 0, data: 0, tag: INPUT_TAG },
        4 => Injection::Mouse { flags: MIDDLE_UP, dx: 0, dy: 0, data: 0, tag: INPUT_TAG },
        5 => Injection::Mouse { flags: X_UP, dx: 0, dy: 0, data: 1, tag: INPUT_TAG },
        6 => Injection::Mouse { flags: X_UP, dx: 0, dy: 0, data: 2, tag: INPUT_TAG },
        _ => Injection::Key { virtual_key: key, scan_code: 0, flags: KEY_UP, tag: INPUT_TAG },
    }
}

/// The last virtual key.
pub const LAST_KEY: u16 = 254;

/// What releases those of the virtual keys from 1 to `last` that are held; a key
/// with a negative state is.
pub open spec fn releases_of(states: Seq<i16>, last: nat) -> Seq<Injection>
    decreases last,
{
    if last == 0 {
        seq![]
    } else {
        let before = releases_of(states, (last - 1) as nat);
        if states[last - 1] < 0 {
            before.push(release_of(last as u16))
        } else {
            before
        }
    }
}

/// What releases everything that is held: a key that was down before local input
/// was blocked must not stay down. `states` are those of the virtual keys, from
/// the first on, as Windows gives them.
pub fn release_pressed_input(states: &Vec<i16>) -> (releases: Vec<Injection>)
    requires
        states@.len() == LAST_KEY,
    ensures
        releases@ == releases_of(states@, LAST_KEY as nat),
{
    let mut releases: Vec<Injection> = Vec::new();
    let mut key: u16 = 0;
    while key < LAST_KEY
        invariant
            key <= LAST_KEY,
            states@.len() == LAST_KEY,
            releases@ == releases_of(states@, key as nat),
        decreases LAST_KEY - key,
    {
        key += 1;
        if states[key as usize - 1] < 0 {
            releases.push(release(key));
        }
    }
    releases
}

/// What is said when not all that was held could be released.
pub fn release_result(sent: usize, releases: usize) -> (result: Result<(), &'static str>)
    ensures
        result is Ok == (sent == releases),
        result matches Err(message) ==> message@ == "could not release held endpoint input"@,
{
    if sent == releases {
        Ok(())
    } else {
        Err("could not release held endpoint input")
    }
}

/// Blocked input is all input but the viewer's own and what keeps the session
/// awake; while input is only followed, none is kept away, local input takes
/// control from the viewer, and the viewer takes it back with anything but a
/// release.
pub proof fn local_input_is_told_from_the_viewers(viewer: bool, tag: usize, takes_control: bool)
    ensures
        suppressed(HookMode::Block, tag) <==> tag != 0x4d52_4d4d && tag != 0x4d52_4d4b,
        !suppressed(HookMode::Track, tag),
        tag != 0x4d52_4d4d && tag != 0x4d52_4d4b ==> !viewer_after(
            HookMode::Track,
            viewer,
            tag,
            takes_control,
        ),
        viewer_after(HookMode::Track, viewer, 0x4d52_4d4d, true),
        viewer_after(HookMode::Track, viewer, 0x4d52_4d4d, false) == viewer,
        viewer_after(HookMode::Track, viewer, 0x4d52_4d4b, takes_control) == viewer,
{
}

/// What is held when local input is blocked is released: of each virtual key, in
/// order, exactly when it is down, the mouse's buttons as buttons and every other
/// as a key.
pub proof fn held_local_input_is_released(states: Seq<i16>, last: nat, key: u16)
    requires
        0 < key <= last <= 254,
        states.len() == 254,
    ensures
        releases_of(states, last).contains(release_of(key)) <==> states[key - 1] < 0,
        releases_of(states, last).len() <= last,
        match release_of(key) {
            Injection::Mouse { flags, dx, dy, data, tag } => {
                &&& (dx, dy, tag) == (0i32, 0i32, 0x4d52_4d4dusize)
                &&& (key, flags, data) == (1u16, 0x4u32, 0u32) || (key, flags, data) == (
                    2u16,
                    0x10u32,
                    0u32,
                ) || (key, flags, data) == (4u16, 0x40u32, 0u32) || (key, flags, data) == (
                    5u16,
                    0x100u32,
                    1u32,
                ) || (key, flags, data) == (6u16, 0x100u32, 2u32)
            },
            Injection::Key { virtual_key, scan_code, flags, tag } => {
                &&& virtual_key == key && scan_code == 0 && flags == 2 && tag == 0x4d52_4d4d
                &&& key != 1 && key != 2 && key != 4 && key != 5 && key != 6
            },
        },
    decreases last,
{
    let before = releases_of(states, (last - 1) as nat);
    let all = releases_of(states, last);
    if key < last {
        held_local_input_is_released(states, (last - 1) as nat, key);
        if before.contains(release_of(key)) {
            let at = choose|at: int| 0 <= at < before.len() && before[at] == release_of(key);
            assert(all[at] == release_of(key));
        }
        if all.contains(release_of(key)) && !before.contains(release_of(key)) {
            let at = choose|at: int| 0 <= at < all.len() && all[at] == release_of(key);
            if at < before.len() {
                assert(before[at] == release_of(key));
            } else {
                assert(release_of(last as u16) == release_of(key));
            }
        }
    } else {
        lemma_only_earlier(states, (last - 1) as nat, key);
        if states[last - 1] < 0 {
            assert(all[all.len() - 1] == release_of(key));
        }
    }
}

proof fn lemma_only_earlier(states: Seq<i16>, last: nat, key: u16)
    requires
        last < key <= 254,
        states.len() == 254,
    ensures
        !releases_of(states, last).contains(release_of(key)),
        releases_of(states, last).len() <= last,
    decreases last,
{
    if last > 0 {
        let before = releases_of(states, (last - 1) as nat);
        let all = releases_of(states, last);
        lemma_only_earlier(states, (last - 1) as nat, key);
        if all.contains(release_of(key)) {
            let at = choose|at: int| 0 <= at < all.len() && all[at] == release_of(key);
            if at < before.len() {
                assert(before[at] == release_of(key));
            } else {
                assert(release_of(last as u16) == release_of(key));
            }
        }
    }
}

} // verus!
