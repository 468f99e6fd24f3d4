//! The viewer's input: what is handed to Windows, what is held down, and when
//! local input is kept away.
use crate::input_block::{
    Injection, INPUT_TAG, KEY_UP, LEFT_DOWN, LEFT_UP, MIDDLE_DOWN, MIDDLE_UP, RIGHT_DOWN, RIGHT_UP,
    X_DOWN, X_UP,
};
use crate::model;
use crate::model::{Display, DisplayId, DisplayView, Protocol};
use crate::text;
use crate::text::{encode_utf16, find_char, push_decimal, push_str};
use vstd::prelude::*;
use vstd::string::StrSliceExecFns;
use vstd::utf8;

verus! {

pub const WHEEL: u32 = 0x0800;

pub const HORIZONTAL_WHEEL: u32 = 0x1000;

/// Moves the pointer to a place on the whole desktop, and is not merged with
/// other movements.
pub const MOVE_TO: u32 = 0xe001;

pub const EXTENDED_KEY: u32 = 0x0001;

pub const UNICODE_KEY: u32 = 0x0004;

pub const SCAN_CODE: u32 = 0x0008;

pub const KEY_TAB: u16 = 0x09;

pub const KEY_RETURN: u16 = 0x0d;

/// How many inputs of a typed text are handed to Windows at once.
pub const TEXT_BATCH: usize = 128;

#[derive(Debug, Clone, Copy, PartialEq, Eq, Structural)]
pub enum PointerButton {
    Left,
    Right,
    Middle,
    Back,
    Forward,
}

/// Input for a display.
#[derive(Debug)]
pub enum RemoteInput {
    TypeText { display_id: DisplayId, text: String },
    PointerMove { display_id: DisplayId, x: u16, y: u16 },
    PointerButton { display_id: DisplayId, button: PointerButton, pressed: bool },
    PointerButtonAt {
        display_id: DisplayId,
        x: u16,
        y: u16,
        button: PointerButton,
        pressed: bool,
    },
    Wheel { display_id: DisplayId, horizontal: i16, vertical: i16 },
    WheelAt { display_id: DisplayId, x: u16, y: u16, horizontal: i16, vertical: i16 },
    Key { display_id: DisplayId, scan_code: u16, extended: bool, pressed: bool },
}

impl RemoteInput {
    pub open spec fn display(self) -> DisplayId {
        match self {
            RemoteInput::TypeText { display_id, .. } => display_id,
            RemoteInput::PointerMove { display_id, .. } => display_id,
            RemoteInput::PointerButton { display_id, .. } => display_id,
            RemoteInput::PointerButtonAt { display_id, .. } => display_id,
            RemoteInput::Wheel { display_id, .. } => display_id,
            RemoteInput::WheelAt { display_id, .. } => display_id,
            RemoteInput::Key { display_id, .. } => display_id,
        }
    }

    pub fn display_id(&self) -> (id: DisplayId)
        ensures
            id == self.display(),
    {
        match self {
            RemoteInput::TypeText { display_id, .. } => *display_id,
            RemoteInput::PointerMove { display_id, .. } => *display_id,
            RemoteInput::PointerButton { display_id, .. } => *display_id,
            RemoteInput::PointerButtonAt { display_id, .. } => *display_id,
            RemoteInput::Wheel { display_id, .. } => *display_id,
            RemoteInput::WheelAt { display_id, .. } => *display_id,
            RemoteInput::Key { display_id, .. } => *display_id,
        }
    }
}

#[derive(Debug, Clone, Copy, PartialEq, Eq, Structural)]
pub enum InputError {
    NoDisplay,
    StaleDisplay { wanted: u32, active: u32 },
    InvalidText,
    InvalidDesktop,
    EmptyScanCode,
}

impl InputError {
    pub open spec fn text_of(self) -> Seq<char> {
        match self {
            InputError::NoDisplay => "remote input arrived before a display was selected"@,
            InputError::StaleDisplay { wanted, active } => "input targeted stale display "@
                + text::decimal(wanted as nat) + " while display "@ + text::decimal(active as nat)
                + " is active"@,
            InputError::InvalidText => "invalid text input"@,
            InputError::InvalidDesktop => "Windows virtual desktop dimensions are invalid"@,
            InputError::EmptyScanCode => "remote keyboard event had an empty scan code"@,
        }
    }

    pub fn message(&self) -> (text: String)
        ensures
            text@ == self.text_of(),
    {
        match self {
            InputError::NoDisplay => "remote input arrived before a display was selected".to_owned(),
            InputError::StaleDisplay { wanted, active } => {
                let mut text = "input targeted stale display ".to_owned();
                push_decimal(&mut text, *wanted as u64);
                push_str(&mut text, " while display ");
                push_decimal(&mut text, *active as u64);
                push_str(&mut text, " is active");
                text
            },
            InputError::InvalidText => "invalid text input".to_owned(),
            InputError::InvalidDesktop => {
                "Windows virtual desktop dimensions are invalid".to_owned()
            },
            InputError::EmptyScanCode => "remote keyboard event had an empty scan code".to_owned(),
        }
    }
}

/// The desktop that spans all monitors.
#[derive(Debug, Clone, Copy, PartialEq, Eq, Structural)]
pub struct VirtualScreen {
    pub x: i32,
    pub y: i32,
    pub width: i32,
    pub height: i32,
}

/// Where a place on a display, from 0 to 65535, is on the desktop.
pub open spec fn desktop_position(origin: i32, size: u32, place: u16) -> int {
    origin + place * (size - 1) / 65535
}

/// Where a place on the desktop is on the virtual screen, from 0 to 65535.
pub open spec fn screen_position(position: int, origin: i32, size: i32) -> int {
    let scaled = (position - origin) * 65535 / (size - 1);
    if position < origin {
        0
    } else if scaled > 65535 {
        65535
    } else {
        scaled
    }
}

pub open spec fn normalized(display: i32, extent: u32, place: u16, origin: i32, size: i32) -> int {
    screen_position(desktop_position(display, extent, place), origin, size)
}

fn normalize(display: i32, extent: u32, place: u16, origin: i32, size: i32) -> (position: i32)
    requires
        extent > 0,
        size > 1,
    ensures
        position == normalized(display, extent, place, origin, size),
        0 <= position <= 65535,
{
    let wide: u64 = (extent - 1) as u64;
    assert(place * wide <= 65535 * 0xffff_ffff) by (nonlinear_arith)
        requires
            place <= 65535,
            wide <= 0xffff_ffff,
    ;
    let offset: u64 = place as u64 * wide / 65535;
    assert(offset <= 0xffff_ffff);
    let position: i64 = display as i64 + offset as i64;
    let distance: i64 = position - origin as i64;
    if distance < 0 {
        return 0;
    }
    let scaled: u64 = distance as u64 * 65535 / (size - 1) as u64;
    if scaled > 65535 {
        65535
    } else {
        scaled as i32
    }
}

/// Places further along a display are further along the desktop, and the ends of
/// the range are the first and the last pixel.
pub proof fn pointer_spans_the_display(origin: i32, size: u32, first: u16, second: u16)
    requires
        size > 0,
        first <= second,
    ensures
        desktop_position(origin, size, 0) == origin,
        desktop_position(origin, size, 65535) == origin + size - 1,
        origin <= desktop_position(origin, size, first) <= desktop_position(origin, size, second)
            <= origin + size - 1,
{
    let extent = size - 1;
    assert(0 <= first * extent <= second * extent <= 65535 * extent) by (nonlinear_arith)
        requires
            0 <= first <= second <= 65535,
            extent >= 0,
    ;
    assert(0 * extent / 65535 == 0);
    assert(65535 * extent / 65535 == extent);
}

/// Whether the pointer can be placed at all.
pub open spec fn placeable(display: DisplayView, screen: VirtualScreen) -> bool {
    screen.width > 1 && screen.height > 1 && display.width > 0 && display.height > 0
}

pub open spec fn move_of(display: DisplayView, x: u16, y: u16, screen: VirtualScreen) -> Injection {
    Injection::Mouse {
        flags: MOVE_TO,
        dx: normalized(display.x, display.width, x, screen.x, screen.width) as i32,
        dy: normalized(display.y, display.height, y, screen.y, screen.height) as i32,
        data: 0,
        tag: INPUT_TAG,
    }
}

fn pointer_move(display: &Display, x: u16, y: u16, screen: &VirtualScreen) -> (input: Result<
    Injection,
    InputError,
>)
    ensures
        input == (if placeable(display@, *screen) {
            Ok::<Injection, InputError>(move_of(display@, x, y, *screen))
        } else {
            Err(InputError::InvalidDesktop)
        }),
{
    if screen.width <= 1 || screen.height <= 1 || display.width == 0 || display.height == 0 {
        return Err(InputError::InvalidDesktop);
    }
    let dx: i32 = normalize(display.x, display.width, x, screen.x, screen.width);
    let dy: i32 = normalize(display.y, display.height, y, screen.y, screen.height);
    Ok(Injection::Mouse { flags: MOVE_TO, dx, dy, data: 0, tag: INPUT_TAG })
}

pub open spec fn mouse(flags: u32, data: u32) -> Injection {
    Injection::Mouse { flags, dx: 0, dy: 0, data, tag: INPUT_TAG }
}

fn mouse_input(flags: u32, data: u32) -> (input: Injection)
    ensures
        input == mouse(flags, data),
{
    Injection::Mouse { flags, dx: 0, dy: 0, data, tag: INPUT_TAG }
}

pub open spec fn button_of(button: PointerButton, pressed: bool) -> Injection {
    match button {
        PointerButton::Left => mouse(
            if pressed {
                LEFT_DOWN
            } else {
                LEFT_UP
            },
            0,
        ),
        PointerButton::Right => mouse(
            if pressed {
                RIGHT_DOWN
            } else {
                RIGHT_UP
            },
            0,
        ),
        PointerButton::Middle => mouse(
            if pressed {
                MIDDLE_DOWN
            } else {
                MIDDLE_UP
            },
            0,
        ),
        PointerButton::Back => mouse(
            if pressed {
                X_DOWN
            } else {
                X_UP
            },
            1,
        ),
        PointerButton::Forward => mouse(
            if pressed {
                X_DOWN
            } else {
                X_UP
            },
            2,
        ),
    }
}

fn mouse_button_input(button: PointerButton, pressed: bool) -> (input: Injection)
    ensures
        input == button_of(button, pressed),
{
    match (button, pressed) {
        (PointerButton::Left, true) => mouse_input(LEFT_DOWN, 0),
        (PointerButton::Left, false) => mouse_input(LEFT_UP, 0),
        (PointerButton::Right, true) => mouse_input(RIGHT_DOWN, 0),
        (PointerButton::Right, false) => mouse_input(RIGHT_UP, 0),
        (PointerButton::Middle, true) => mouse_input(MIDDLE_DOWN, 0),
        (PointerButton::Middle, false) => mouse_input(MIDDLE_UP, 0),
        (PointerButton::Back, true) => mouse_input(X_DOWN, 1),
        (PointerButton::Back, false) => mouse_input(X_UP, 1),
        (PointerButton::Forward, true) => mouse_input(X_DOWN, 2),
        (PointerButton::Forward, false) => mouse_input(X_UP, 2),
    }
}

/// How far a wheel turned, in two's complement.
pub open spec fn wheel_data(turned: i16) -> u32 {
    if turned < 0 {
        (turned + 0x1_0000_0000) as u32
    } else {
        turned as u32
    }
}

fn wheel_amount(turned: i16) -> (data: u32)
    ensures
        data == wheel_data(turned),
{
    if turned < 0 {
        (turned as i64 + 0x1_0000_0000) as u32
    } else {
        turned as u32
    }
}

pub open spec fn key_flags(extended: bool, pressed: bool) -> u32 {
    if extended {
        if pressed {
            0x0009
        } else {
            0x000b
        }
    } else if pressed {
        0x0008
    } else {
        0x000a
    }
}

pub open spec fn key_of(scan_code: u16, extended: bool, pressed: bool) -> Injection {
    Injection::Key {
        virtual_key: 0,
        scan_code,
        flags: key_flags(extended, pressed),
        tag: INPUT_TAG,
    }
}

/// The flags of a key say just what they should: a scan code, extended or not,
/// down or up.
pub proof fn key_flags_are_combined(extended: bool, pressed: bool)
    ensures
        key_flags(extended, pressed) == SCAN_CODE | (if extended {
            EXTENDED_KEY
        } else {
            0
        }) | (if pressed {
            0
        } else {
            KEY_UP
        }),
{
    assert(8u32 | 0u32 | 0u32 == 8u32) by (bit_vector);
    assert(8u32 | 1u32 | 0u32 == 9u32) by (bit_vector);
    assert(8u32 | 0u32 | 2u32 == 10u32) by (bit_vector);
    assert(8u32 | 1u32 | 2u32 == 11u32) by (bit_vector);
}

fn key_input(scan_code: u16, extended: bool, pressed: bool) -> (input: Injection)
    ensures
        input == key_of(scan_code, extended, pressed),
{
    let flags: u32 = match (extended, pressed) {
        (true, true) => 0x0009,
        (true, false) => 0x000b,
        (false, true) => 0x0008,
        (false, false) => 0x000a,
    };
    Injection::Key { virtual_key: 0, scan_code, flags, tag: INPUT_TAG }
}

pub open spec fn text_key(virtual_key: u16, unit: u16, release: bool) -> Injection {
    Injection::Key {
        virtual_key,
        scan_code: unit,
        flags: if virtual_key == 0 {
            if release {
                0x0006
            } else {
                UNICODE_KEY
            }
        } else if release {
            KEY_UP
        } else {
            0
        },
        tag: INPUT_TAG,
    }
}

fn text_key_input(virtual_key: u16, unit: u16, release: bool) -> (input: Injection)
    ensures
        input == text_key(virtual_key, unit, release),
{
    let flags: u32 = if virtual_key == 0 {
        if release {
            0x0006
        } else {
            UNICODE_KEY
        }
    } else if release {
        KEY_UP
    } else {
        0
    };
    Injection::Key { virtual_key, scan_code: unit, flags, tag: INPUT_TAG }
}

/// A key that goes down and up.
pub open spec fn stroke(virtual_key: u16, unit: u16) -> Seq<Injection> {
    seq![text_key(virtual_key, unit, false), text_key(virtual_key, unit, true)]
}

/// The strokes for code units.
pub open spec fn strokes(units: Seq<u16>) -> Seq<Injection>
    decreases units.len(),
{
    if units.len() == 0 {
        seq![]
    } else {
        strokes(units.drop_last()) + stroke(0, units.last())
    }
}

/// The strokes for a character: a key for an end of line or a tab, Unicode for
/// anything else.
pub open spec fn typed_char(character: char) -> Seq<Injection> {
    if character == '\r' || character == '\n' {
        stroke(KEY_RETURN, 0)
    } else if character == '\t' {
        stroke(KEY_TAB, 0)
    } else {
        strokes(text::utf16_of(character))
    }
}

/// How many characters go together: a carriage return and a line feed are one
/// end of line.
pub open spec fn together(text: Seq<char>) -> nat {
    if text.len() > 1 && text[0] == '\r' && text[1] == '\n' {
        2
    } else {
        1
    }
}

/// The inputs that type a text.
pub open spec fn typed(text: Seq<char>) -> Seq<Injection>
    decreases text.len(),
{
    if text.len() == 0 {
        seq![]
    } else {
        typed_char(text[0]) + typed(text.skip(together(text) as int))
    }
}

fn push_stroke(inputs: &mut Vec<Injection>, virtual_key: u16, unit: u16)
    ensures
        final(inputs)@ == old(inputs)@ + stroke(virtual_key, unit),
{
    inputs.push(text_key_input(virtual_key, unit, false));
    inputs.push(text_key_input(virtual_key, unit, true));
    assert(inputs@ =~= old(inputs)@ + stroke(virtual_key, unit));
}

fn push_char(inputs: &mut Vec<Injection>, character: char)
    ensures
        final(inputs)@ == old(inputs)@ + typed_char(character),
{
    if character == '\r' || character == '\n' {
        push_stroke(inputs, KEY_RETURN, 0);
        return;
    }
    if character == '\t' {
        push_stroke(inputs, KEY_TAB, 0);
        return;
    }
    let units = encode_utf16(character);
    let mut next: usize = 0;
    while next < units.len()
        invariant
            next <= units@.len(),
            inputs@ == old(inputs)@ + strokes(units@.take(next as int)),
        decreases units@.len() - next,
    {
        let ghost before = inputs@;
        push_stroke(inputs, 0, units[next]);
        proof {
            assert(units@.take(next + 1).drop_last() =~= units@.take(next as int));
            assert(inputs@ =~= old(inputs)@ + strokes(units@.take(next + 1)));
        }
        next += 1;
    }
    assert(units@.take(next as int) =~= units@);
}

/// The inputs that type a text.
pub fn text_inputs(text: &str) -> (inputs: Vec<Injection>)
    ensures
        inputs@ == typed(text@),
{
    let length: usize = text.unicode_len();
    let mut inputs: Vec<Injection> = Vec::new();
    let mut at: usize = 0;
    assert(text@.skip(0) =~= text@);
    while at < length
        invariant
            at <= length,
            length == text@.len(),
            inputs@ + typed(text@.skip(at as int)) == typed(text@),
        decreases length - at,
    {
        let ghost rest = text@.skip(at as int);
        let ghost before = inputs@;
        let character = text.get_char(at);
        let count: usize = if length - at > 1 && character == '\r' && text.get_char(at + 1)
            == '\n' {
            2
        } else {
            1
        };
        push_char(&mut inputs, character);
        proof {
            assert(rest.skip(count as int) =~= text@.skip(at + count));
            assert(count == together(rest));
            assert(before + (typed_char(character) + typed(rest.skip(count as int))) =~= inputs@
                + typed(text@.skip(at + count)));
        }
        at += count;
    }
    assert(inputs@ + typed(text@.skip(at as int)) =~= inputs@);
    inputs
}

proof fn lemma_strokes(units: Seq<u16>, at: int)
    requires
        0 <= at < units.len(),
    ensures
        strokes(units).len() == 2 * units.len(),
        strokes(units)[2 * at] == text_key(0, units[at], false),
        strokes(units)[2 * at + 1] == text_key(0, units[at], true),
    decreases units.len(),
{
    if units.len() > 1 {
        let shorter = units.drop_last();
        if at < shorter.len() {
            lemma_strokes(shorter, at);
        } else {
            lemma_strokes(shorter, 0);
        }
    } else {
        assert(strokes(units.drop_last()) =~= seq![]);
    }
}

/// Every key that typing a text presses is released by the next input.
pub proof fn typed_keys_are_released(text: Seq<char>, at: int)
    ensures
        typed(text).len() % 2 == 0,
        0 <= at && 2 * at + 1 < typed(text).len() ==> exists|virtual_key: u16, unit: u16|
            typed(text)[2 * at] == #[trigger] text_key(virtual_key, unit, false) && typed(text)[2
                * at + 1] == text_key(virtual_key, unit, true),
    decreases text.len(),
{
    if text.len() > 0 {
        let head = typed_char(text[0]);
        let rest = typed(text.skip(together(text) as int));
        let units = text::utf16_of(text[0]);
        let special = text[0] == '\r' || text[0] == '\n' || text[0] == '\t';
        if !special {
            lemma_strokes(units, 0);
        }
        assert(head.len() % 2 == 0);
        typed_keys_are_released(text.skip(together(text) as int), at - head.len() as int / 2);
        if 0 <= at && 2 * at + 1 < typed(text).len() {
            if 2 * at + 1 < head.len() {
                if special {
                    let virtual_key = if text[0] == '\t' {
                        KEY_TAB
                    } else {
                        KEY_RETURN
                    };
                    assert(typed(text)[2 * at] == text_key(virtual_key, 0, false));
                    assert(typed(text)[2 * at + 1] == text_key(virtual_key, 0, true));
                } else {
                    lemma_strokes(units, at);
                    assert(typed(text)[2 * at] == text_key(0, units[at], false));
                    assert(typed(text)[2 * at + 1] == text_key(0, units[at], true));
                }
            } else {
                let inner = at - head.len() as int / 2;
                assert(typed(text)[2 * at] == rest[2 * inner]);
                assert(typed(text)[2 * at + 1] == rest[2 * inner + 1]);
                let (virtual_key, unit) = choose|virtual_key: u16, unit: u16|
                    rest[2 * inner] == #[trigger] text_key(virtual_key, unit, false) && rest[2
                        * inner + 1] == text_key(virtual_key, unit, true);
                assert(typed(text)[2 * at] == text_key(virtual_key, unit, false));
            }
        }
    }
}

/// Inputs in batches of at most `size`.
pub open spec fn batches(inputs: Seq<Injection>, size: nat) -> Seq<Seq<Injection>>
    decreases inputs.len(),
{
    if inputs.len() == 0 || size == 0 {
        seq![]
    } else if inputs.len() <= size {
        seq![inputs]
    } else {
        seq![inputs.take(size as int)] + batches(inputs.skip(size as int), size)
    }
}

pub open spec fn batch_views(list: Seq<Vec<Injection>>) -> Seq<Seq<Injection>> {
    Seq::new(list.len(), |i: int| list[i]@)
}

fn in_batches(inputs: &Vec<Injection>) -> (list: Vec<Vec<Injection>>)
    ensures
        batch_views(list@) == batches(inputs@, TEXT_BATCH as nat),
{
    let total: usize = inputs.len();
    let mut list: Vec<Vec<Injection>> = Vec::new();
    let mut start: usize = 0;
    assert(inputs@.skip(0) =~= inputs@);
    assert(batch_views(list@) + batches(inputs@.skip(0), TEXT_BATCH as nat) =~= batches(
        inputs@,
        TEXT_BATCH as nat,
    ));
    while start < total
        invariant
            start <= total,
            total == inputs@.len(),
            batch_views(list@) + batches(inputs@.skip(start as int), TEXT_BATCH as nat) == batches(
                inputs@,
                TEXT_BATCH as nat,
            ),
        decreases total - start,
    {
        let ghost rest = inputs@.skip(start as int);
        let ghost before = batch_views(list@);
        let end: usize = if total - start > TEXT_BATCH {
            start + TEXT_BATCH
        } else {
            total
        };
        let batch = vstd::slice::slice_to_vec(
            vstd::slice::slice_subrange(inputs.as_slice(), start, end),
        );
        proof {
            assert(batch@ =~= rest.take(end - start));
            assert(rest.skip(end - start) =~= inputs@.skip(end as int));
            if rest.len() <= TEXT_BATCH {
                assert(batch@ =~= rest);
                assert(inputs@.skip(end as int) =~= seq![]);
                assert(batches(rest, TEXT_BATCH as nat) =~= seq![rest] + batches(
                    inputs@.skip(end as int),
                    TEXT_BATCH as nat,
                ));
            }
            assert(batches(rest, TEXT_BATCH as nat) =~= seq![batch@] + batches(
                inputs@.skip(end as int),
                TEXT_BATCH as nat,
            ));
        }
        list.push(batch);
        proof {
            assert(batch_views(list@) =~= before.push(batch@));
            assert(batch_views(list@) + batches(inputs@.skip(end as int), TEXT_BATCH as nat)
                =~= before + batches(rest, TEXT_BATCH as nat));
        }
        start = end;
    }
    assert(inputs@.skip(start as int) =~= seq![]);
    assert(batch_views(list@) + batches(inputs@.skip(start as int), TEXT_BATCH as nat)
        =~= batch_views(list@));
    list
}

/// What an input comes to: whether everything held is released first, and what
/// is then handed to Windows, batch by batch.
#[derive(Debug)]
pub struct InputPlan {
    pub release_first: bool,
    pub batches: Vec<Vec<Injection>>,
}

pub struct PlanView {
    pub release_first: bool,
    pub batches: Seq<Seq<Injection>>,
}

impl View for InputPlan {
    type V = PlanView;

    open spec fn view(&self) -> PlanView {
        PlanView { release_first: self.release_first, batches: batch_views(self.batches@) }
    }
}

/// Whether a text may be typed.
pub open spec fn typeable(text: Seq<char>, protocol: Protocol) -> bool {
    utf8::encode_utf8(text).len() <= protocol.clipboard_text_bytes && text::first_index(
        text,
        '\0',
    ) is None
}

/// The inputs for the two directions of a wheel.
pub open spec fn wheel_inputs(horizontal: i16, vertical: i16) -> Seq<Injection> {
    let down = if vertical != 0 {
        seq![mouse(WHEEL, wheel_data(vertical))]
    } else {
        seq![]
    };
    if horizontal != 0 {
        down.push(mouse(HORIZONTAL_WHEEL, wheel_data(horizontal)))
    } else {
        down
    }
}

/// What an input for the active display comes to.
pub open spec fn planned(
    display: DisplayView,
    input: RemoteInput,
    screen: VirtualScreen,
    protocol: Protocol,
) -> Result<PlanView, InputError> {
    match input {
        RemoteInput::TypeText { text, .. } => if typeable(text@, protocol) {
            Ok(
                PlanView {
                    release_first: true,
                    batches: batches(typed(text@), TEXT_BATCH as nat),
                },
            )
        } else {
            Err(InputError::InvalidText)
        },
        RemoteInput::PointerMove { x, y, .. } => if placeable(display, screen) {
            Ok(
                PlanView {
                    release_first: false,
                    batches: seq![seq![move_of(display, x, y, screen)]],
                },
            )
        } else {
            Err(InputError::InvalidDesktop)
        },
        RemoteInput::PointerButton { button, pressed, .. } => Ok(
            PlanView { release_first: false, batches: seq![seq![button_of(button, pressed)]] },
        ),
        RemoteInput::PointerButtonAt { x, y, button, pressed, .. } => if placeable(
            display,
            screen,
        ) {
            Ok(
                PlanView {
                    release_first: false,
                    batches: seq![
                        seq![move_of(display, x, y, screen), button_of(button, pressed)],
                    ],
                },
            )
        } else {
            Err(InputError::InvalidDesktop)
        },
        RemoteInput::Wheel { horizontal, vertical, .. } => Ok(
            PlanView {
                release_first: false,
                batches: Seq::new(
                    wheel_inputs(horizontal, vertical).len(),
                    |i: int| seq![wheel_inputs(horizontal, vertical)[i]],
                ),
            },
        ),
        RemoteInput::WheelAt { x, y, horizontal, vertical, .. } => if placeable(display, screen) {
            Ok(
                PlanView {
                    release_first: false,
                    batches: seq![
                        seq![move_of(display, x, y, screen)] + wheel_inputs(horizontal, vertical),
                    ],
                },
            )
        } else {
            Err(InputError::InvalidDesktop)
        },
        RemoteInput::Key { scan_code, extended, pressed, .. } => if scan_code == 0 {
            Err(InputError::EmptyScanCode)
        } else {
            Ok(
                PlanView {
                    release_first: false,
                    batches: seq![seq![key_of(scan_code, extended, pressed)]],
                },
            )
        },
    }
}

fn one(input: Injection) -> (batch: Vec<Injection>)
    ensures
        batch@ == seq![input],
{
    let mut batch: Vec<Injection> = Vec::new();
    batch.push(input);
    assert(batch@ =~= seq![input]);
    batch
}

fn single(batch: Vec<Injection>) -> (plan: InputPlan)
    ensures
        plan@ == (PlanView { release_first: false, batches: seq![batch@] }),
{
    let mut list: Vec<Vec<Injection>> = Vec::new();
    list.push(batch);
    let plan = InputPlan { release_first: false, batches: list };
    assert(plan@.batches =~= seq![batch@]);
    plan
}

fn push_wheel(batch: &mut Vec<Injection>, horizontal: i16, vertical: i16)
    ensures
        final(batch)@ == old(batch)@ + wheel_inputs(horizontal, vertical),
{
    if vertical != 0 {
        batch.push(mouse_input(WHEEL, wheel_amount(vertical)));
    }
    if horizontal != 0 {
        batch.push(mouse_input(HORIZONTAL_WHEEL, wheel_amount(horizontal)));
    }
    assert(batch@ =~= old(batch)@ + wheel_inputs(horizontal, vertical));
}

fn plan_for(display: &Display, input: &RemoteInput, screen: &VirtualScreen, protocol: &Protocol) -> (
plan: Result<InputPlan, InputError>)
    ensures
        match (plan, planned(display@, *input, *screen, *protocol)) {
            (Ok(found), Ok(expected)) => found@ == expected,
            (Err(error), Err(expected)) => error == expected,
            _ => false,
        },
{
    match input {
        RemoteInput::TypeText { text, .. } => {
            if text.as_str().as_bytes().len() > protocol.clipboard_text_bytes || find_char(
                text.as_str(),
                '\0',
            ).is_some() {
                return Err(InputError::InvalidText);
            }
            let inputs = text_inputs(text.as_str());
            Ok(InputPlan { release_first: true, batches: in_batches(&inputs) })
        },
        RemoteInput::PointerMove { x, y, .. } => {
            let movement = pointer_move(display, *x, *y, screen)?;
            Ok(single(one(movement)))
        },
        RemoteInput::PointerButton { button, pressed, .. } => Ok(
            single(one(mouse_button_input(*button, *pressed))),
        ),
        RemoteInput::PointerButtonAt { x, y, button, pressed, .. } => {
            let movement = pointer_move(display, *x, *y, screen)?;
            let mut batch = one(movement);
            batch.push(mouse_button_input(*button, *pressed));
            assert(batch@ =~= seq![
                move_of(display@, *x, *y, *screen),
                button_of(*button, *pressed),
            ]);
            Ok(single(batch))
        },
        RemoteInput::Wheel { horizontal, vertical, .. } => {
            let mut list: Vec<Vec<Injection>> = Vec::new();
            if *vertical != 0 {
                list.push(one(mouse_input(WHEEL, wheel_amount(*vertical))));
            }
            if *horizontal != 0 {
                list.push(one(mouse_input(HORIZONTAL_WHEEL, wheel_amount(*horizontal))));
            }
            let plan = InputPlan { release_first: false, batches: list };
            assert(plan@.batches =~= Seq::new(
                wheel_inputs(*horizontal, *vertical).len(),
                |i: int| seq![wheel_inputs(*horizontal, *vertical)[i]],
            ));
            Ok(plan)
        },
        RemoteInput::WheelAt { x, y, horizontal, vertical, .. } => {
            let movement = pointer_move(display, *x, *y, screen)?;
            let mut batch = one(movement);
            push_wheel(&mut batch, *horizontal, *vertical);
            Ok(single(batch))
        },
        RemoteInput::Key { scan_code, extended, pressed, .. } => {
            if *scan_code == 0 {
                return Err(InputError::EmptyScanCode);
            }
            Ok(single(one(key_input(*scan_code, *extended, *pressed))))
        },
    }
}

/// A key that is held down.
#[derive(Debug, Clone, Copy, PartialEq, Eq, Structural)]
pub struct HeldKey {
    pub scan_code: u16,
    pub extended: bool,
}

#[derive(Debug, Clone, Copy, PartialEq, Eq, Structural)]
pub enum CursorShape {
    Default,
    Text,
    Wait,
    Crosshair,
    UpArrow,
    ResizeNorthWestSouthEast,
    ResizeNorthEastSouthWest,
    ResizeWestEast,
    ResizeNorthSouth,
    Move,
    NotAllowed,
    Pointer,
    Progress,
    Help,
    Pin,
    Person,
}

/// A cursor that Windows has, and what it looks like.
#[derive(Debug, Clone, Copy, PartialEq, Eq, Structural)]
pub struct SystemCursor {
    pub handle: usize,
    pub shape: CursorShape,
}

/// What one of Windows' own cursors looks like, by its number.
pub fn system_cursor(resource: u16) -> (shape: Option<CursorShape>)
    ensures
        shape == (match resource {
            32512 => Some(CursorShape::Default),
            32513 => Some(CursorShape::Text),
            32514 => Some(CursorShape::Wait),
            32515 => Some(CursorShape::Crosshair),
            32516 => Some(CursorShape::UpArrow),
            32642 => Some(CursorShape::ResizeNorthWestSouthEast),
            32643 => Some(CursorShape::ResizeNorthEastSouthWest),
            32644 => Some(CursorShape::ResizeWestEast),
            32645 => Some(CursorShape::ResizeNorthSouth),
            32646 => Some(CursorShape::Move),
            32648 => Some(CursorShape::NotAllowed),
            32649 => Some(CursorShape::Pointer),
            32650 => Some(CursorShape::Progress),
            32651 => Some(CursorShape::Help),
            32671 => Some(CursorShape::Pin),
            32672 => Some(CursorShape::Person),
            _ => None,
        }),
{
    match resource {
        32512 => Some(CursorShape::Default),
        32513 => Some(CursorShape::Text),
        32514 => Some(CursorShape::Wait),
        32515 => Some(CursorShape::Crosshair),
        32516 => Some(CursorShape::UpArrow),
        32642 => Some(CursorShape::ResizeNorthWestSouthEast),
        32643 => Some(CursorShape::ResizeNorthEastSouthWest),
        32644 => Some(CursorShape::ResizeWestEast),
        32645 => Some(CursorShape::ResizeNorthSouth),
        32646 => Some(CursorShape::Move),
        32648 => Some(CursorShape::NotAllowed),
        32649 => Some(CursorShape::Pointer),
        32650 => Some(CursorShape::Progress),
        32651 => Some(CursorShape::Help),
        32671 => Some(CursorShape::Pin),
        32672 => Some(CursorShape::Person),
        _ => None,
    }
}

/// The shape of the first cursor with a handle.
pub open spec fn shape_of(cursors: Seq<SystemCursor>, handle: usize) -> CursorShape
    decreases cursors.len(),
{
    if cursors.len() == 0 {
        CursorShape::Default
    } else if cursors[0].handle == handle {
        cursors[0].shape
    } else {
        shape_of(cursors.skip(1), handle)
    }
}

proof fn lemma_shape(cursors: Seq<SystemCursor>, handle: usize, at: int)
    requires
        0 <= at <= cursors.len(),
        forall|i: int| 0 <= i < at ==> (#[trigger] cursors[i]).handle != handle,
    ensures
        at < cursors.len() && cursors[at].handle == handle ==> shape_of(cursors, handle)
            == cursors[at].shape,
        at == cursors.len() ==> shape_of(cursors, handle) == CursorShape::Default,
    decreases cursors.len(),
{
    if at > 0 {
        assert(cursors[0].handle != handle);
        let rest = cursors.skip(1);
        assert forall|i: int| 0 <= i < at - 1 implies (#[trigger] rest[i]).handle != handle by {
            assert(rest[i] == cursors[i + 1]);
        }
        lemma_shape(rest, handle, at - 1);
    }
}

/// The pointer as Windows shows it.
#[derive(Debug, Clone, Copy, PartialEq, Eq, Structural)]
pub struct PointerInfo {
    pub showing: bool,
    pub handle: usize,
}

/// The state of a display's input. `blocked` and `blacked_out` are what Windows
/// does; `manually_blocked` is what the viewer asked for.
#[derive(Debug)]
pub struct WindowsInputController {
    pub active_display: Option<Display>,
    pub displays: Vec<Display>,
    pub pressed_keys: Vec<HeldKey>,
    pub pressed_buttons: Vec<PointerButton>,
    pub blocked: bool,
    pub blacked_out: bool,
    pub manually_blocked: bool,
    pub viewer_cursor: CursorShape,
    pub system_cursors: Vec<SystemCursor>,
}

/// A list with an entry, at most once.
pub open spec fn with<T>(list: Seq<T>, entry: T) -> Seq<T> {
    if list.contains(entry) {
        list
    } else {
        list.push(entry)
    }
}

/// A list without an entry.
pub open spec fn without<T>(list: Seq<T>, entry: T) -> Seq<T>
    decreases list.len(),
{
    if list.len() == 0 {
        list
    } else if list.last() == entry {
        without(list.drop_last(), entry)
    } else {
        without(list.drop_last(), entry).push(list.last())
    }
}

/// An entry that was taken out is gone, and the others stay.
proof fn lemma_without<T>(list: Seq<T>, entry: T, other: T)
    ensures
        without(list, entry).contains(other) <==> list.contains(other) && other != entry,
    decreases list.len(),
{
    if list.len() > 0 {
        let shorter = list.drop_last();
        lemma_without(shorter, entry, other);
        let kept = without(shorter, entry);
        if list.contains(other) && !shorter.contains(other) {
            let at = choose|at: int| 0 <= at < list.len() && list[at] == other;
            if at < shorter.len() {
                assert(shorter[at] == other);
            }
        }
        if shorter.contains(other) {
            let at = choose|at: int| 0 <= at < shorter.len() && shorter[at] == other;
            assert(list[at] == other);
        }
        if list.last() != entry {
            let all = kept.push(list.last());
            if kept.contains(other) {
                let at = choose|at: int| 0 <= at < kept.len() && kept[at] == other;
                assert(all[at] == other);
            }
            if list.last() == other {
                assert(all[all.len() - 1] == other);
                assert(list[list.len() - 1] == other);
            }
            if all.contains(other) && list.last() != other {
                let at = choose|at: int| 0 <= at < all.len() && all[at] == other;
                assert(kept[at] == other);
            }
        } else if list.contains(other) && other != entry {
            assert(shorter.contains(other));
        }
    }
}

/// A key that was pressed is held until it is released, and releasing it leaves
/// the others alone.
pub proof fn held_until_released(held: Seq<HeldKey>, key: HeldKey, other: HeldKey)
    ensures
        with(held, key).contains(key),
        !without(held, key).contains(key),
        other != key ==> (without(held, key).contains(other) <==> held.contains(other)),
        other != key ==> (with(held, key).contains(other) <==> held.contains(other)),
{
    lemma_without(held, key, key);
    lemma_without(held, key, other);
    let more = held.push(key);
    assert(more[more.len() - 1] == key);
    if held.contains(other) {
        let at = choose|at: int| 0 <= at < held.len() && held[at] == other;
        assert(more[at] == other);
    }
    if more.contains(other) && other != key {
        let at = choose|at: int| 0 <= at < more.len() && more[at] == other;
        assert(held[at] == other);
    }
}

fn hold_key(list: &mut Vec<HeldKey>, entry: HeldKey)
    ensures
        final(list)@ == with(old(list)@, entry),
{
    let mut next: usize = 0;
    while next < list.len()
        invariant
            next <= list@.len(),
            list@ == old(list)@,
            forall|i: int| 0 <= i < next ==> list@[i] != entry,
        decreases list@.len() - next,
    {
        if list[next] == entry {
            assert(list@[next as int] == entry);
            return;
        }
        next += 1;
    }
    list.push(entry);
}

fn let_key_go(list: &mut Vec<HeldKey>, entry: HeldKey)
    ensures
        final(list)@ == without(old(list)@, entry),
{
    let mut kept: Vec<HeldKey> = Vec::new();
    let mut next: usize = 0;
    while next < list.len()
        invariant
            next <= list@.len(),
            list@ == old(list)@,
            kept@ == without(list@.take(next as int), entry),
        decreases list@.len() - next,
    {
        assert(list@.take(next + 1).drop_last() =~= list@.take(next as int));
        if list[next] != entry {
            kept.push(list[next]);
        }
        next += 1;
    }
    assert(list@.take(next as int) =~= list@);
    *list = kept;
}

fn hold_button(list: &mut Vec<PointerButton>, entry: PointerButton)
    ensures
        final(list)@ == with(old(list)@, entry),
{
    let mut next: usize = 0;
    while next < list.len()
        invariant
            next <= list@.len(),
            list@ == old(list)@,
            forall|i: int| 0 <= i < next ==> list@[i] != entry,
        decreases list@.len() - next,
    {
        if list[next] == entry {
            assert(list@[next as int] == entry);
            return;
        }
        next += 1;
    }
    list.push(entry);
}

fn let_button_go(list: &mut Vec<PointerButton>, entry: PointerButton)
    ensures
        final(list)@ == without(old(list)@, entry),
{
    let mut kept: Vec<PointerButton> = Vec::new();
    let mut next: usize = 0;
    while next < list.len()
        invariant
            next <= list@.len(),
            list@ == old(list)@,
            kept@ == without(list@.take(next as int), entry),
        decreases list@.len() - next,
    {
        assert(list@.take(next + 1).drop_last() =~= list@.take(next as int));
        if list[next] != entry {
            kept.push(list[next]);
        }
        next += 1;
    }
    assert(list@.take(next as int) =~= list@);
    *list = kept;
}

/// What is held after an input that was handed to Windows.
pub open spec fn keys_after(held: Seq<HeldKey>, input: RemoteInput) -> Seq<HeldKey> {
    match input {
        RemoteInput::Key { scan_code, extended, pressed, .. } => if pressed {
            with(held, HeldKey { scan_code, extended })
        } else {
            without(held, HeldKey { scan_code, extended })
        },
        _ => held,
    }
}

pub open spec fn buttons_after(held: Seq<PointerButton>, input: RemoteInput) -> Seq<
    PointerButton,
> {
    match input {
        RemoteInput::PointerButton { button, pressed, .. } => if pressed {
            with(held, button)
        } else {
            without(held, button)
        },
        RemoteInput::PointerButtonAt { button, pressed, .. } => if pressed {
            with(held, button)
        } else {
            without(held, button)
        },
        _ => held,
    }
}

/// What of a list did not get through.
pub open spec fn unsent<T>(list: Seq<T>, sent: Seq<bool>) -> Seq<T>
    decreases list.len(),
{
    if list.len() == 0 {
        list
    } else {
        let rest = unsent(list.drop_last(), sent);
        if list.len() <= sent.len() && sent[list.len() - 1] {
            rest
        } else {
            rest.push(list.last())
        }
    }
}

/// An entry that is added at most once, or taken out, leaves a list in which
/// nothing occurs twice such a list.
proof fn lemma_once<T>(list: Seq<T>, entry: T)
    requires
        list.no_duplicates(),
    ensures
        with(list, entry).no_duplicates(),
        without(list, entry).no_duplicates(),
    decreases list.len(),
{
    if !list.contains(entry) {
        let longer = list.push(entry);
        assert forall|i: int, j: int|
            0 <= i < longer.len() && 0 <= j < longer.len() && i != j implies longer[i]
            != longer[j] by {
            if i == list.len() {
                assert(list[j] != entry);
            } else if j == list.len() {
                assert(list[i] != entry);
            }
        }
    }
    if list.len() > 0 {
        let shorter = list.drop_last();
        let kept = without(shorter, entry);
        lemma_once(shorter, entry);
        lemma_without(shorter, entry, list.last());
        if list.last() != entry {
            assert(!shorter.contains(list.last()));
            let all = kept.push(list.last());
            assert forall|i: int, j: int|
                0 <= i < all.len() && 0 <= j < all.len() && i != j implies all[i] != all[j] by {
                if i == kept.len() {
                    assert(kept.contains(kept[j]));
                } else if j == kept.len() {
                    assert(kept.contains(kept[i]));
                }
            }
        }
    }
}

proof fn lemma_keys_after(held: Seq<HeldKey>, input: RemoteInput)
    requires
        held.no_duplicates(),
    ensures
        keys_after(held, input).no_duplicates(),
{
    if let RemoteInput::Key { scan_code, extended, .. } = input {
        lemma_once(held, HeldKey { scan_code, extended });
    }
}

proof fn lemma_buttons_after(held: Seq<PointerButton>, input: RemoteInput)
    requires
        held.no_duplicates(),
    ensures
        buttons_after(held, input).no_duplicates(),
{
    match input {
        RemoteInput::PointerButton { button, .. } => lemma_once(held, button),
        RemoteInput::PointerButtonAt { button, .. } => lemma_once(held, button),
        _ => {},
    }
}

proof fn lemma_unsent_once<T>(list: Seq<T>, sent: Seq<bool>)
    requires
        list.no_duplicates(),
    ensures
        unsent(list, sent).no_duplicates(),
        forall|entry: T| unsent(list, sent).contains(entry) ==> list.contains(entry),
    decreases list.len(),
{
    if list.len() > 0 {
        let shorter = list.drop_last();
        let rest = unsent(shorter, sent);
        lemma_unsent_once(shorter, sent);
        assert forall|entry: T| shorter.contains(entry) implies list.contains(entry) by {
            let at = choose|at: int| 0 <= at < shorter.len() && shorter[at] == entry;
            assert(list[at] == entry);
        }
        assert(!shorter.contains(list.last()));
        let all = rest.push(list.last());
        assert forall|i: int, j: int|
            0 <= i < all.len() && 0 <= j < all.len() && i != j implies all[i] != all[j] by {
            if i == rest.len() {
                assert(rest.contains(rest[j]));
            } else if j == rest.len() {
                assert(rest.contains(rest[i]));
            }
        }
        assert forall|entry: T| all.contains(entry) implies list.contains(entry) by {
            let at = choose|at: int| 0 <= at < all.len() && all[at] == entry;
            if at < rest.len() {
                assert(rest.contains(entry));
            } else {
                assert(list[list.len() - 1] == entry);
            }
        }
    }
}

pub open spec fn view_of(display: Option<Display>) -> Option<DisplayView> {
    match display {
        Some(found) => Some(found@),
        None => None,
    }
}

impl WindowsInputController {
    /// What is the same before and after, but for what is held.
    pub open spec fn same_but_held(self, other: WindowsInputController) -> bool {
        &&& self.active_display == other.active_display
        &&& self.displays == other.displays
        &&& self.same_settings(other)
    }

    pub open spec fn same_settings(self, other: WindowsInputController) -> bool {
        &&& self.blocked == other.blocked
        &&& self.blacked_out == other.blacked_out
        &&& self.manually_blocked == other.manually_blocked
        &&& self.viewer_cursor == other.viewer_cursor
        &&& self.system_cursors == other.system_cursors
    }

    pub open spec fn same_held(self, other: WindowsInputController) -> bool {
        &&& self.pressed_keys == other.pressed_keys
        &&& self.pressed_buttons == other.pressed_buttons
    }

    /// What is the same before and after, but for whether local input counts.
    pub open spec fn same_but_blocking(self, other: WindowsInputController) -> bool {
        &&& self.active_display == other.active_display
        &&& self.displays == other.displays
        &&& self.same_held(other)
        &&& self.viewer_cursor == other.viewer_cursor
        &&& self.system_cursors == other.system_cursors
    }

    /// Monitors that are dark do not take local input, and nothing is held twice.
    pub open spec fn wf(self) -> bool {
        &&& self.blacked_out ==> self.blocked
        &&& self.pressed_keys@.no_duplicates()
        &&& self.pressed_buttons@.no_duplicates()
    }

    pub fn new(system_cursors: Vec<SystemCursor>) -> (controller: Self)
        ensures
            controller.active_display is None,
            controller.displays@.len() == 0,
            controller.pressed_keys@.len() == 0,
            controller.pressed_buttons@.len() == 0,
            !controller.blocked,
            !controller.blacked_out,
            !controller.manually_blocked,
            controller.viewer_cursor == CursorShape::Default,
            controller.system_cursors == system_cursors,
            controller.wf(),
    {
        WindowsInputController {
            active_display: None,
            displays: Vec::new(),
            pressed_keys: Vec::new(),
            pressed_buttons: Vec::new(),
            blocked: false,
            blacked_out: false,
            manually_blocked: false,
            viewer_cursor: CursorShape::Default,
            system_cursors,
        }
    }

    /// What an input comes to: nothing, unless it is for the active display.
    pub open spec fn plan_of(self, input: RemoteInput, screen: VirtualScreen, protocol: Protocol) -> Result<
        PlanView,
        InputError,
    > {
        match self.active_display {
            None => Err(InputError::NoDisplay),
            Some(display) => if input.display() != display@.id {
                Err(
                    InputError::StaleDisplay {
                        wanted: input.display().0,
                        active: display@.id.0,
                    },
                )
            } else {
                planned(display@, input, screen, protocol)
            },
        }
    }

    /// What an input comes to.
    pub fn apply(&self, input: &RemoteInput, screen: &VirtualScreen, protocol: &Protocol) -> (plan:
        Result<InputPlan, InputError>)
        ensures
            match (plan, self.plan_of(*input, *screen, *protocol)) {
                (Ok(found), Ok(expected)) => found@ == expected,
                (Err(error), Err(expected)) => error == expected,
                _ => false,
            },
    {
        match &self.active_display {
            None => Err(InputError::NoDisplay),
            Some(display) => {
                let wanted = input.display_id();
                if wanted != display.id {
                    return Err(
                        InputError::StaleDisplay { wanted: wanted.0, active: display.id.0 },
                    );
                }
                plan_for(display, input, screen, protocol)
            },
        }
    }

    /// Records what an input that was handed to Windows holds or lets go.
    pub fn applied(&mut self, input: &RemoteInput)
        requires
            old(self).wf(),
        ensures
            final(self).wf(),
            final(self).pressed_keys@ == keys_after(old(self).pressed_keys@, *input),
            final(self).pressed_buttons@ == buttons_after(old(self).pressed_buttons@, *input),
            final(self).same_but_held(*old(self)),
    {
        proof {
            lemma_keys_after(old(self).pressed_keys@, *input);
            lemma_buttons_after(old(self).pressed_buttons@, *input);
        }
        match input {
            RemoteInput::Key { scan_code, extended, pressed, .. } => {
                let key = HeldKey { scan_code: *scan_code, extended: *extended };
                if *pressed {
                    hold_key(&mut self.pressed_keys, key);
                } else {
                    let_key_go(&mut self.pressed_keys, key);
                }
            },
            RemoteInput::PointerButton { button, pressed, .. } => {
                if *pressed {
                    hold_button(&mut self.pressed_buttons, *button);
                } else {
                    let_button_go(&mut self.pressed_buttons, *button);
                }
            },
            RemoteInput::PointerButtonAt { button, pressed, .. } => {
                if *pressed {
                    hold_button(&mut self.pressed_buttons, *button);
                } else {
                    let_button_go(&mut self.pressed_buttons, *button);
                }
            },
            _ => {},
        }
    }

    /// The inputs that release everything held: the keys, then the buttons.
    pub open spec fn releases_of(self) -> Seq<Injection> {
        Seq::new(
            self.pressed_keys@.len() + self.pressed_buttons@.len(),
            |i: int|
                if i < self.pressed_keys@.len() {
                    key_of(
                        self.pressed_keys@[i].scan_code,
                        self.pressed_keys@[i].extended,
                        false,
                    )
                } else {
                    button_of(self.pressed_buttons@[i - self.pressed_keys@.len()], false)
                },
        )
    }

    /// What releases everything held, to be handed over one by one.
    pub fn releases(&self) -> (releases: Vec<Injection>)
        ensures
            releases@ == self.releases_of(),
    {
        let keys: usize = self.pressed_keys.len();
        let buttons: usize = self.pressed_buttons.len();
        let mut releases: Vec<Injection> = Vec::new();
        let mut next: usize = 0;
        while next < keys
            invariant
                next <= keys,
                keys == self.pressed_keys@.len(),
                releases@.len() == next,
                forall|i: int|
                    0 <= i < next ==> #[trigger] releases@[i] == key_of(
                        self.pressed_keys@[i].scan_code,
                        self.pressed_keys@[i].extended,
                        false,
                    ),
            decreases keys - next,
        {
            let key = self.pressed_keys[next];
            releases.push(key_input(key.scan_code, key.extended, false));
            next += 1;
        }
        let mut next: usize = 0;
        while next < buttons
            invariant
                next <= buttons,
                keys == self.pressed_keys@.len(),
                buttons == self.pressed_buttons@.len(),
                releases@.len() == keys + next,
                forall|i: int|
                    0 <= i < keys ==> #[trigger] releases@[i] == key_of(
                        self.pressed_keys@[i].scan_code,
                        self.pressed_keys@[i].extended,
                        false,
                    ),
                forall|i: int|
                    keys <= i < keys + next ==> #[trigger] releases@[i] == button_of(
                        self.pressed_buttons@[i - keys],
                        false,
                    ),
            decreases buttons - next,
        {
            releases.push(mouse_button_input(self.pressed_buttons[next], false));
            next += 1;
        }
        assert(releases@ =~= self.releases_of());
        releases
    }

    /// Records which releases got through; what did not is still held. Whether
    /// all did.
    pub fn release_all(&mut self, sent: &Vec<bool>) -> (released: bool)
        requires
            old(self).wf(),
            sent@.len() == old(self).pressed_keys@.len() + old(self).pressed_buttons@.len(),
        ensures
            final(self).wf(),
            final(self).pressed_keys@ == unsent(old(self).pressed_keys@, sent@),
            final(self).pressed_buttons@ == unsent(
                old(self).pressed_buttons@,
                sent@.skip(old(self).pressed_keys@.len() as int),
            ),
            released == (forall|i: int| 0 <= i < sent@.len() ==> sent@[i]),
            final(self).same_but_held(*old(self)),
    {
        let keys: usize = self.pressed_keys.len();
        let buttons: usize = self.pressed_buttons.len();
        let mut kept_keys: Vec<HeldKey> = Vec::new();
        let mut released = true;
        let mut next: usize = 0;
        while next < keys
            invariant
                next <= keys,
                keys == self.pressed_keys@.len(),
                *self == *old(self),
                sent@.len() == keys + self.pressed_buttons@.len(),
                kept_keys@ == unsent(self.pressed_keys@.take(next as int), sent@),
                released == (forall|i: int| 0 <= i < next ==> sent@[i]),
            decreases keys - next,
        {
            assert(self.pressed_keys@.take(next + 1).drop_last() =~= self.pressed_keys@.take(
                next as int,
            ));
            if !sent[next] {
                kept_keys.push(self.pressed_keys[next]);
                released = false;
            }
            next += 1;
        }
        assert(self.pressed_keys@.take(next as int) =~= self.pressed_keys@);
        let ghost tail = sent@.skip(keys as int);
        let total: usize = sent.len();
        let mut kept_buttons: Vec<PointerButton> = Vec::new();
        let mut next: usize = 0;
        while next < buttons
            invariant
                next <= buttons,
                keys == self.pressed_keys@.len(),
                buttons == self.pressed_buttons@.len(),
                *self == *old(self),
                sent@.len() == total,
                total == keys + buttons,
                tail == sent@.skip(keys as int),
                kept_buttons@ == unsent(self.pressed_buttons@.take(next as int), tail),
                released == (forall|i: int| 0 <= i < keys + next ==> sent@[i]),
            decreases buttons - next,
        {
            assert(self.pressed_buttons@.take(next + 1).drop_last()
                =~= self.pressed_buttons@.take(next as int));
            if !sent[keys + next] {
                kept_buttons.push(self.pressed_buttons[next]);
                released = false;
            }
            next += 1;
        }
        assert(self.pressed_buttons@.take(next as int) =~= self.pressed_buttons@);
        proof {
            lemma_unsent_once(old(self).pressed_keys@, sent@);
            lemma_unsent_once(old(self).pressed_buttons@, tail);
        }
        self.pressed_keys = kept_keys;
        self.pressed_buttons = kept_buttons;
        released
    }

    /// Whether what is held has to be released before a display becomes active.
    /// A capture that merely starts again leaves it alone.
    pub fn releases_for(&self, display: DisplayId) -> (release: bool)
        ensures
            release == (self.active_display matches Some(active) && active@.id != display),
    {
        match &self.active_display {
            Some(active) => active.id != display,
            None => false,
        }
    }

    pub fn set_active_display(&mut self, display: Display, displays: Vec<Display>)
        requires
            old(self).wf(),
        ensures
            final(self).wf(),
            view_of(final(self).active_display) == Some(display@),
            final(self).displays == displays,
            final(self).same_settings(*old(self)),
            final(self).same_held(*old(self)),
    {
        self.active_display = Some(display);
        self.displays = displays;
    }

    /// Whether the monitors are dark.
    pub fn blacked_out(&self) -> (dark: bool)
        ensures
            dark == self.blacked_out,
    {
        self.blacked_out
    }

    /// Whether local input is blocked.
    pub fn blocked(&self) -> (blocked: bool)
        ensures
            blocked == self.blocked,
    {
        self.blocked
    }

    /// Whether hooks have to be started to block local input or not.
    pub fn starts_block(&self, blocked: bool) -> (start: bool)
        ensures
            start == (blocked && !self.blocked),
    {
        blocked && !self.blocked
    }

    /// Blocks or unblocks local input at the viewer's wish; `started` is whether
    /// hooks that had to be started were. Dark monitors stay blocked.
    pub fn set_blocked(&mut self, blocked: bool, started: bool) -> (done: bool)
        requires
            old(self).wf(),
        ensures
            final(self).wf(),
            final(self).same_but_blocking(*old(self)),
            final(self).blacked_out == old(self).blacked_out,
            done == (old(self).blocked || !(blocked || old(self).blacked_out) || started),
            final(self).blocked == (if done {
                blocked || old(self).blacked_out
            } else {
                old(self).blocked
            }),
            final(self).manually_blocked == (if done {
                blocked
            } else {
                old(self).manually_blocked
            }),
    {
        let wanted = blocked || self.blacked_out;
        if wanted && !self.blocked && !started {
            return false;
        }
        self.blocked = wanted;
        self.manually_blocked = blocked;
        true
    }

    /// Makes the monitors dark or not. Local input is blocked before they are;
    /// if they cannot be made dark, it is as it was. `started` is whether hooks
    /// that had to be started were, `shown` whether the monitors became dark.
    pub fn set_blackout(&mut self, enabled: bool, started: bool, shown: bool) -> (done: bool)
        requires
            old(self).wf(),
        ensures
            final(self).wf(),
            final(self).same_but_blocking(*old(self)),
            final(self).manually_blocked == old(self).manually_blocked,
            if enabled && old(self).blacked_out {
                done && final(self).blocked == old(self).blocked && final(self).blacked_out
            } else if enabled {
                if !old(self).blocked && !started {
                    !done && final(self).blocked == old(self).blocked && !final(self).blacked_out
                } else {
                    done == shown && final(self).blacked_out == shown && final(self).blocked == (
                    shown || old(self).manually_blocked)
                }
            } else {
                &&& !final(self).blacked_out
                &&& done == (!old(self).manually_blocked || old(self).blocked || started)
                &&& final(self).blocked == (old(self).manually_blocked && (old(self).blocked
                    || started))
            },
    {
        if enabled {
            if self.blacked_out {
                return true;
            }
            if !self.blocked && !started {
                return false;
            }
            self.blocked = true;
            if shown {
                self.blacked_out = true;
                return true;
            }
            self.blocked = self.manually_blocked;
            return false;
        }
        self.blacked_out = false;
        if !self.manually_blocked {
            self.blocked = false;
            return true;
        }
        if !self.blocked && !started {
            return false;
        }
        self.blocked = true;
        true
    }

    /// The cursor as it is now: what Windows shows, or the default one. Dark
    /// monitors hide the pointer, but the viewer still needs its shape.
    pub open spec fn current_shape(self, pointer: Option<PointerInfo>) -> CursorShape {
        match pointer {
            None => CursorShape::Default,
            Some(info) => if !self.blacked_out && !info.showing {
                CursorShape::Default
            } else {
                shape_of(self.system_cursors@, info.handle)
            },
        }
    }

    pub fn current_cursor_shape(&self, pointer: Option<PointerInfo>) -> (shape: CursorShape)
        ensures
            shape == self.current_shape(pointer),
    {
        let info = match pointer {
            None => {
                return CursorShape::Default;
            },
            Some(info) => info,
        };
        if !self.blacked_out && !info.showing {
            return CursorShape::Default;
        }
        let mut next: usize = 0;
        while next < self.system_cursors.len()
            invariant
                next <= self.system_cursors@.len(),
                pointer == Some(info),
                self.blacked_out || info.showing,
                forall|i: int|
                    0 <= i < next ==> (#[trigger] self.system_cursors@[i]).handle != info.handle,
            decreases self.system_cursors@.len() - next,
        {
            if self.system_cursors[next].handle == info.handle {
                proof {
                    lemma_shape(self.system_cursors@, info.handle, next as int);
                }
                return self.system_cursors[next].shape;
            }
            next += 1;
        }
        proof {
            lemma_shape(self.system_cursors@, info.handle, next as int);
        }
        CursorShape::Default
    }

    /// The cursor to show the viewer: while somebody else has the input, the
    /// last one that the viewer had.
    pub fn cursor_shape(&mut self, viewer_controls: bool, pointer: Option<PointerInfo>) -> (shape:
        CursorShape)
        requires
            old(self).wf(),
        ensures
            final(self).wf(),
            shape == (if viewer_controls {
                old(self).current_shape(pointer)
            } else {
                old(self).viewer_cursor
            }),
            final(self).viewer_cursor == shape,
            final(self).active_display == old(self).active_display,
            final(self).displays == old(self).displays,
            final(self).same_held(*old(self)),
            final(self).blocked == old(self).blocked,
            final(self).blacked_out == old(self).blacked_out,
            final(self).manually_blocked == old(self).manually_blocked,
            final(self).system_cursors == old(self).system_cursors,
    {
        if viewer_controls {
            self.viewer_cursor = self.current_cursor_shape(pointer);
        }
        self.viewer_cursor
    }

    /// The display that the local pointer is on, while the viewer does not move
    /// it.
    pub fn agent_pointer_display(
        &self,
        viewer_controls: bool,
        pointer: Option<(i32, i32)>,
        all_monitors: DisplayId,
    ) -> (display: Option<DisplayId>)
        ensures
            display == (match pointer {
                Some((x, y)) => if viewer_controls {
                    None
                } else {
                    display_at(model::display_views(self.displays@), x, y, all_monitors)
                },
                None => None,
            }),
    {
        if viewer_controls {
            return None;
        }
        match pointer {
            Some((x, y)) => pointer_display_at(&self.displays, x, y, all_monitors),
            None => None,
        }
    }
}

/// Whether a point is on a display.
pub open spec fn on_display(display: DisplayView, x: i32, y: i32) -> bool {
    display.x <= x < display.x + display.width && display.y <= y < display.y + display.height
}

/// The first real display that a point is on.
pub open spec fn display_at(displays: Seq<DisplayView>, x: i32, y: i32, all_monitors: DisplayId) -> Option<
    DisplayId,
>
    decreases displays.len(),
{
    if displays.len() == 0 {
        None
    } else if displays[0].id != all_monitors && on_display(displays[0], x, y) {
        Some(displays[0].id)
    } else {
        display_at(displays.skip(1), x, y, all_monitors)
    }
}

proof fn lemma_display_at(
    displays: Seq<DisplayView>,
    x: i32,
    y: i32,
    all_monitors: DisplayId,
    at: int,
)
    requires
        0 <= at <= displays.len(),
        forall|i: int|
            0 <= i < at ==> !((#[trigger] displays[i]).id != all_monitors && on_display(
                displays[i],
                x,
                y,
            )),
    ensures
        display_at(displays, x, y, all_monitors) == display_at(
            displays.skip(at),
            x,
            y,
            all_monitors,
        ),
    decreases at,
{
    if at > 0 {
        let rest = displays.skip(1);
        assert(!(displays[0].id != all_monitors && on_display(displays[0], x, y)));
        assert forall|i: int| 0 <= i < at - 1 implies !((#[trigger] rest[i]).id != all_monitors
            && on_display(rest[i], x, y)) by {
            assert(rest[i] == displays[i + 1]);
        }
        lemma_display_at(rest, x, y, all_monitors, at - 1);
        assert(rest.skip(at - 1) =~= displays.skip(at));
    } else {
        assert(displays.skip(0) =~= displays);
    }
}

/// The real display that a point is on.
pub fn pointer_display_at(displays: &Vec<Display>, x: i32, y: i32, all_monitors: DisplayId) -> (
display: Option<DisplayId>)
    ensures
        display == display_at(model::display_views(displays@), x, y, all_monitors),
{
    let ghost views = model::display_views(displays@);
    let mut next: usize = 0;
    while next < displays.len()
        invariant
            next <= displays@.len(),
            views == model::display_views(displays@),
            forall|i: int|
                0 <= i < next ==> !((#[trigger] views[i]).id != all_monitors && on_display(
                    views[i],
                    x,
                    y,
                )),
        decreases displays@.len() - next,
    {
        let display = &displays[next];
        assert(views[next as int] == displays@[next as int]@);
        if display.id != all_monitors && x >= display.x && (x as i64) < display.x as i64
            + display.width as i64 && y >= display.y && (y as i64) < display.y as i64
            + display.height as i64 {
            proof {
                lemma_display_at(views, x, y, all_monitors, next as int);
                assert(views.skip(next as int)[0] == views[next as int]);
            }
            return Some(display.id);
        }
        next += 1;
    }
    proof {
        lemma_display_at(views, x, y, all_monitors, next as int);
    }
    None
}

/// A button is injected as Windows numbers it, pressed or released, whether the
/// pointer is placed first or not, and with the viewer's mark. No two buttons and
/// no press and release are the same injection.
pub proof fn buttons_are_injected_as_themselves(
    display: DisplayView,
    input: RemoteInput,
    screen: VirtualScreen,
    protocol: Protocol,
    button: PointerButton,
    pressed: bool,
    other: PointerButton,
    other_pressed: bool,
)
    requires
        match input {
            RemoteInput::PointerButton { button: found, pressed: down, .. } => found == button
                && down == pressed,
            RemoteInput::PointerButtonAt { button: found, pressed: down, .. } => found == button
                && down == pressed,
            _ => false,
        },
    ensures
        planned(display, input, screen, protocol) matches Ok(plan) ==> {
            let batch = plan.batches[0];
            &&& !plan.release_first
            &&& plan.batches.len() == 1
            &&& batch.len() == (if input is PointerButton {
                1int
            } else {
                2
            })
            &&& input matches RemoteInput::PointerButtonAt { display_id, x, y, .. } ==> planned(
                display,
                RemoteInput::PointerMove { display_id, x, y },
                screen,
                protocol,
            )->Ok_0.batches[0][0] == batch[0]
            &&& batch.last() matches Injection::Mouse { flags, dx, dy, data, tag }
            &&& (dx, dy) == (0i32, 0i32)
            &&& tag == 0x4d52_4d4d
            &&& flags == (match (button, pressed) {
                (PointerButton::Left, true) => 0x2u32,
                (PointerButton::Left, false) => 0x4,
                (PointerButton::Right, true) => 0x8,
                (PointerButton::Right, false) => 0x10,
                (PointerButton::Middle, true) => 0x20,
                (PointerButton::Middle, false) => 0x40,
                (_, true) => 0x80,
                (_, false) => 0x100,
            })
            &&& data == (match button {
                PointerButton::Back => 1u32,
                PointerButton::Forward => 2,
                _ => 0,
            })
        },
        input is PointerButton ==> planned(display, input, screen, protocol) is Ok,
        button_of(button, pressed) == button_of(other, other_pressed) <==> button == other
            && pressed == other_pressed,
{
}

/// A key is injected by its scan code: extended or not, pressed or released, and
/// with the viewer's mark. A key without a scan code is refused.
pub proof fn keys_are_injected_by_scan_code(
    display: DisplayView,
    display_id: DisplayId,
    scan_code: u16,
    extended: bool,
    pressed: bool,
    screen: VirtualScreen,
    protocol: Protocol,
)
    ensures
        ({
            let input = RemoteInput::Key { display_id, scan_code, extended, pressed };
            match planned(display, input, screen, protocol) {
                Err(error) => scan_code == 0 && error == InputError::EmptyScanCode,
                Ok(plan) => {
                    &&& scan_code != 0
                    &&& !plan.release_first
                    &&& plan.batches.len() == 1 && plan.batches[0].len() == 1
                    &&& plan.batches[0][0] matches Injection::Key {
                        virtual_key,
                        scan_code: code,
                        flags,
                        tag,
                    }
                    &&& virtual_key == 0 && code == scan_code && tag == 0x4d52_4d4d
                    &&& flags == 8 + (if extended {
                        1int
                    } else {
                        0
                    }) + (if pressed {
                        0int
                    } else {
                        2
                    })
                },
            }
        }),
{
}

/// A wheel turns as far as the viewer turned it, forwards or backwards: the
/// vertical one first, a wheel that did not turn not at all. With a place the
/// pointer is put there first, in the same batch.
pub proof fn wheels_turn_as_far_as_told(
    display: DisplayView,
    display_id: DisplayId,
    x: u16,
    y: u16,
    horizontal: i16,
    vertical: i16,
    screen: VirtualScreen,
    protocol: Protocol,
)
    ensures
        ({
            let turned = wheel_inputs(horizontal, vertical);
            &&& turned.len() == (if vertical != 0 {
                1int
            } else {
                0
            }) + (if horizontal != 0 {
                1int
            } else {
                0
            })
            &&& vertical != 0 ==> turned[0] == (Injection::Mouse {
                flags: 0x0800,
                dx: 0,
                dy: 0,
                data: (if vertical < 0 {
                    vertical + 0x1_0000_0000
                } else {
                    vertical as int
                }) as u32,
                tag: 0x4d52_4d4d,
            })
            &&& horizontal != 0 ==> turned.last() == (Injection::Mouse {
                flags: 0x1000,
                dx: 0,
                dy: 0,
                data: (if horizontal < 0 {
                    horizontal + 0x1_0000_0000
                } else {
                    horizontal as int
                }) as u32,
                tag: 0x4d52_4d4d,
            })
            &&& planned(
                display,
                RemoteInput::Wheel { display_id, horizontal, vertical },
                screen,
                protocol,
            ) matches Ok(plan) && !plan.release_first && plan.batches.len() == turned.len() && (
            forall|i: int|
                0 <= i < turned.len() ==> #[trigger] plan.batches[i] == seq![turned[i]])
            &&& planned(
                display,
                RemoteInput::WheelAt { display_id, x, y, horizontal, vertical },
                screen,
                protocol,
            ) matches Ok(plan) ==> !plan.release_first && plan.batches.len() == 1
                && plan.batches[0].len() == turned.len() + 1 && plan.batches[0].skip(1) == turned
                && planned(
                display,
                RemoteInput::PointerMove { display_id, x, y },
                screen,
                protocol,
            )->Ok_0.batches == seq![plan.batches[0].take(1)]
        }),
{
    let at = RemoteInput::WheelAt { display_id, x, y, horizontal, vertical };
    if let Ok(plan) = planned(display, at, screen, protocol) {
        assert(plan.batches[0].skip(1) =~= wheel_inputs(horizontal, vertical));
        assert(plan.batches[0].take(1) =~= seq![move_of(display, x, y, screen)]);
        assert(planned(
            display,
            RemoteInput::PointerMove { display_id, x, y },
            screen,
            protocol,
        )->Ok_0.batches =~= seq![plan.batches[0].take(1)]);
    }
}

proof fn lemma_scaled(display: i32, extent: u32, place: u16, origin: i32, size: i32, pixel: int)
    requires
        extent > 0,
        size > 1,
        (pixel - display) * 65535 <= place * (extent - 1) < (pixel - display + 1) * 65535,
    ensures
        desktop_position(display, extent, place) == pixel,
        origin <= pixel < origin + size ==> {
            let scaled = normalized(display, extent, place, origin, size);
            0 <= scaled <= 65535 && scaled * (size - 1) <= (pixel - origin) * 65535 < (scaled + 1)
                * (size - 1)
        },
        pixel < origin ==> normalized(display, extent, place, origin, size) == 0,
        pixel >= origin + size ==> normalized(display, extent, place, origin, size) == 65535,
{
    let product = place * (extent - 1);
    assert(product / 65535 == pixel - display) by (nonlinear_arith)
        requires
            (pixel - display) * 65535 <= product < (pixel - display + 1) * 65535,
    ;
    let distance = (pixel - origin) * 65535;
    let last = size - 1;
    let scaled = distance / last;
    if pixel >= origin {
        assert(scaled * last <= distance < (scaled + 1) * last) by (nonlinear_arith)
            requires
                last > 0,
                scaled == distance / last,
        ;
        assert(scaled >= 0) by (nonlinear_arith)
            requires
                distance >= 0,
                last > 0,
                scaled == distance / last,
        ;
        if pixel < origin + size {
            assert(scaled <= 65535) by (nonlinear_arith)
                requires
                    scaled * last <= distance,
                    distance <= last * 65535,
                    last > 0,
            ;
        } else {
            assert(scaled >= 65535) by (nonlinear_arith)
                requires
                    distance < (scaled + 1) * last,
                    distance >= (last + 1) * 65535,
                    last > 0,
            ;
        }
    }
}

/// The pointer is put on the pixel of the display that the viewer points at: a
/// pixel of the display that is on the virtual screen is given as the place, from
/// 0 to 65535, that Windows takes for it, in both directions.
pub proof fn pointer_is_put_where_the_viewer_points(
    display: DisplayView,
    display_id: DisplayId,
    x: u16,
    y: u16,
    screen: VirtualScreen,
    protocol: Protocol,
    column: int,
    row: int,
)
    requires
        (column - display.x) * 65535 <= x * (display.width - 1) < (column - display.x + 1) * 65535,
        (row - display.y) * 65535 <= y * (display.height - 1) < (row - display.y + 1) * 65535,
        screen.x <= column < screen.x + screen.width,
        screen.y <= row < screen.y + screen.height,
    ensures
        match planned(
            display,
            RemoteInput::PointerMove { display_id, x, y },
            screen,
            protocol,
        ) {
            Err(error) => error == InputError::InvalidDesktop && (screen.width <= 1 || screen.height
                <= 1 || display.width == 0 || display.height == 0),
            Ok(plan) => {
                &&& screen.width > 1 && screen.height > 1
                &&& !plan.release_first
                &&& plan.batches.len() == 1 && plan.batches[0].len() == 1
                &&& plan.batches[0][0] matches Injection::Mouse { flags, dx, dy, data, tag }
                &&& flags == 0xe001 && data == 0 && tag == 0x4d52_4d4d
                &&& 0 <= dx <= 65535 && 0 <= dy <= 65535
                &&& dx * (screen.width - 1) <= (column - screen.x) * 65535 < (dx + 1) * (
                screen.width - 1)
                &&& dy * (screen.height - 1) <= (row - screen.y) * 65535 < (dy + 1) * (
                screen.height - 1)
            },
        },
{
    if placeable(display, screen) {
        lemma_scaled(display.x, display.width, x, screen.x, screen.width, column);
        lemma_scaled(display.y, display.height, y, screen.y, screen.height, row);
    }
}

proof fn lemma_plain_text(text: Seq<char>, at: int)
    requires
        forall|i: int|
            0 <= i < text.len() ==> #[trigger] text[i] != '\r' && text[i] != '\n' && text[i]
                != '\t',
    ensures
        typed(text).len() == 2 * text::utf16(text).len(),
        0 <= at < text::utf16(text).len() ==> typed(text)[2 * at] == text_key(
            0,
            text::utf16(text)[at],
            false,
        ) && typed(text)[2 * at + 1] == text_key(0, text::utf16(text)[at], true),
    decreases text.len(),
{
    if text.len() > 0 {
        let first = text[0];
        let units = text::utf16_of(first);
        let rest = text.skip(1);
        assert(together(text) == 1);
        assert forall|i: int| 0 <= i < rest.len() implies #[trigger] rest[i] != '\r' && rest[i]
            != '\n' && rest[i] != '\t' by {
            assert(rest[i] == text[i + 1]);
        }
        lemma_plain_text(rest, at - units.len());
        lemma_utf16_first(text);
        if 0 <= at < units.len() {
            lemma_strokes(units, at);
        } else {
            lemma_strokes(units, 0);
        }
    }
}

proof fn lemma_utf16_first(text: Seq<char>)
    requires
        text.len() > 0,
    ensures
        text::utf16(text) == text::utf16_of(text[0]) + text::utf16(text.skip(1)),
    decreases text.len(),
{
    if text.len() == 1 {
        assert(text::utf16(text.drop_last()) =~= seq![]);
        assert(text::utf16(text.skip(1)) =~= seq![]);
    } else {
        let rest = text.skip(1);
        lemma_utf16_first(text.drop_last());
        assert(text.drop_last().skip(1) =~= rest.drop_last());
        assert(text.drop_last()[0] == text[0]);
    }
    assert(text::utf16(text) =~= text::utf16_of(text[0]) + text::utf16(text.skip(1)));
}

/// Text without ends of line and tabs is typed unit by unit: each of its UTF-16
/// code units, in order, goes down and up as a Unicode key with the viewer's
/// mark.
pub proof fn text_is_typed_unit_by_unit(text: Seq<char>, at: int)
    requires
        forall|i: int|
            0 <= i < text.len() ==> #[trigger] text[i] != '\r' && text[i] != '\n' && text[i]
                != '\t',
        0 <= at < text::utf16(text).len(),
    ensures
        typed(text).len() == 2 * text::utf16(text).len(),
        typed(text)[2 * at] == (Injection::Key {
            virtual_key: 0,
            scan_code: text::utf16(text)[at],
            flags: 4,
            tag: 0x4d52_4d4d,
        }),
        typed(text)[2 * at + 1] == (Injection::Key {
            virtual_key: 0,
            scan_code: text::utf16(text)[at],
            flags: 6,
            tag: 0x4d52_4d4d,
        }),
{
    lemma_plain_text(text, at);
}

/// An end of line, however it is written, is one press and release of the Enter
/// key, and a tab one of the Tab key; what follows is typed as it would be alone.
pub proof fn line_ends_and_tabs_are_keys(text: Seq<char>)
    ensures
        ({
            let enter = seq![
                Injection::Key { virtual_key: 0x0d, scan_code: 0, flags: 0, tag: 0x4d52_4d4d },
                Injection::Key { virtual_key: 0x0d, scan_code: 0, flags: 2, tag: 0x4d52_4d4d },
            ];
            let tab = seq![
                Injection::Key { virtual_key: 0x09, scan_code: 0, flags: 0, tag: 0x4d52_4d4d },
                Injection::Key { virtual_key: 0x09, scan_code: 0, flags: 2, tag: 0x4d52_4d4d },
            ];
            &&& typed(seq!['\n'] + text) == enter + typed(text)
            &&& typed(seq!['\r', '\n'] + text) == enter + typed(text)
            &&& text.len() == 0 || text[0] != '\n' ==> typed(seq!['\r'] + text) == enter + typed(
                text,
            )
            &&& typed(seq!['\t'] + text) == tab + typed(text)
        }),
{
    let feed = seq!['\n'] + text;
    let both = seq!['\r', '\n'] + text;
    let carriage = seq!['\r'] + text;
    let tab = seq!['\t'] + text;
    assert(feed.skip(1) =~= text);
    assert(both.skip(2) =~= text);
    assert(carriage.skip(1) =~= text);
    assert(tab.skip(1) =~= text);
    assert(together(feed) == 1 && together(both) == 2 && together(tab) == 1);
    if text.len() == 0 || text[0] != '\n' {
        if carriage.len() > 1 {
            assert(carriage[1] == text[0]);
        }
        assert(together(carriage) == 1);
    }
}

/// Inputs one batch after the other.
pub open spec fn joined_batches(list: Seq<Seq<Injection>>) -> Seq<Injection>
    decreases list.len(),
{
    if list.len() == 0 {
        seq![]
    } else {
        joined_batches(list.drop_last()) + list.last()
    }
}

proof fn lemma_joined_first(list: Seq<Seq<Injection>>)
    requires
        list.len() > 0,
    ensures
        joined_batches(list) == list[0] + joined_batches(list.skip(1)),
    decreases list.len(),
{
    if list.len() == 1 {
        assert(joined_batches(list.drop_last()) =~= seq![]);
        assert(joined_batches(list.skip(1)) =~= seq![]);
    } else {
        lemma_joined_first(list.drop_last());
        assert(list.drop_last().skip(1) =~= list.skip(1).drop_last());
        assert(list.drop_last()[0] == list[0]);
    }
    assert(joined_batches(list) =~= list[0] + joined_batches(list.skip(1)));
}

/// Nothing of a long text is lost, repeated or reordered between its batches:
/// together they are its inputs, none is empty, none is larger than the limit,
/// and only the last is smaller.
pub proof fn batches_keep_every_input(inputs: Seq<Injection>, size: nat)
    requires
        size > 0,
    ensures
        joined_batches(batches(inputs, size)) == inputs,
        forall|i: int|
            0 <= i < batches(inputs, size).len() ==> 0 < (#[trigger] batches(inputs, size)[i]).len()
                <= size,
        forall|i: int|
            0 <= i < batches(inputs, size).len() - 1 ==> (#[trigger] batches(
                inputs,
                size,
            )[i]).len() == size,
    decreases inputs.len(),
{
    let list = batches(inputs, size);
    if inputs.len() == 0 {
    } else if inputs.len() <= size {
        lemma_joined_first(list);
        assert(joined_batches(list.skip(1)) =~= seq![]);
        assert(joined_batches(list) =~= inputs);
    } else {
        let rest = batches(inputs.skip(size as int), size);
        batches_keep_every_input(inputs.skip(size as int), size);
        lemma_joined_first(list);
        assert(list.skip(1) =~= rest);
        assert(joined_batches(list) =~= inputs);
        assert forall|i: int| 0 <= i < list.len() implies 0 < (#[trigger] list[i]).len() <= size by {
            if i > 0 {
                assert(list[i] == rest[i - 1]);
            }
        }
        assert forall|i: int| 0 <= i < list.len() - 1 implies (#[trigger] list[i]).len()
            == size by {
            if i > 0 {
                assert(list[i] == rest[i - 1]);
            }
        }
    }
}

/// Before a text is typed everything held is let go, so that no held key changes
/// what is typed; then all of it is typed in batches of at most 128 inputs. A
/// text with a zero in it, or one over the protocol's limit, is refused.
pub proof fn texts_are_typed_whole(
    display: DisplayView,
    display_id: DisplayId,
    text: String,
    screen: VirtualScreen,
    protocol: Protocol,
)
    ensures
        match planned(display, RemoteInput::TypeText { display_id, text }, screen, protocol) {
            Ok(plan) => {
                &&& plan.release_first
                &&& joined_batches(plan.batches) == typed(text@)
                &&& forall|i: int|
                    0 <= i < plan.batches.len() ==> (#[trigger] plan.batches[i]).len() <= 128
                &&& !text@.contains('\0')
                &&& utf8::encode_utf8(text@).len() <= protocol.clipboard_text_bytes
            },
            Err(error) => {
                &&& error == InputError::InvalidText
                &&& text@.contains('\0') || utf8::encode_utf8(text@).len()
                    > protocol.clipboard_text_bytes
            },
        },
{
    batches_keep_every_input(typed(text@), 128);
    lemma_zero(text@);
}

proof fn lemma_zero(text: Seq<char>)
    ensures
        text::first_index(text, '\0') is None <==> !text.contains('\0'),
    decreases text.len(),
{
    if text.len() > 0 {
        let rest = text.skip(1);
        lemma_zero(rest);
        if text.contains('\0') && text[0] != '\0' {
            let at = choose|at: int| 0 <= at < text.len() && text[at] == '\0';
            assert(rest[at - 1] == '\0');
        }
        if rest.contains('\0') {
            let at = choose|at: int| 0 <= at < rest.len() && rest[at] == '\0';
            assert(text[at + 1] == '\0');
        }
    }
}

/// Input for a display that is not the active one is refused and says so, and
/// so is any input before a display is active; input for the active display is
/// not refused on that account.
pub proof fn stale_input_is_refused(
    controller: WindowsInputController,
    input: RemoteInput,
    screen: VirtualScreen,
    protocol: Protocol,
)
    ensures
        match controller.active_display {
            None => controller.plan_of(input, screen, protocol) == Err::<PlanView, InputError>(
                InputError::NoDisplay,
            ),
            Some(display) => {
                let stale = controller.plan_of(input, screen, protocol) matches Err(
                    InputError::StaleDisplay { .. },
                );
                &&& stale <==> input.display().0 != display@.id.0
                &&& stale ==> controller.plan_of(input, screen, protocol) == Err::<
                    PlanView,
                    InputError,
                >(InputError::StaleDisplay { wanted: input.display().0, active: display@.id.0 })
                &&& !(controller.plan_of(input, screen, protocol) matches Err(
                    InputError::NoDisplay,
                ))
            },
        },
        match input {
            RemoteInput::TypeText { display_id, .. } => input.display() == display_id,
            RemoteInput::PointerMove { display_id, .. } => input.display() == display_id,
            RemoteInput::PointerButton { display_id, .. } => input.display() == display_id,
            RemoteInput::PointerButtonAt { display_id, .. } => input.display() == display_id,
            RemoteInput::Wheel { display_id, .. } => input.display() == display_id,
            RemoteInput::WheelAt { display_id, .. } => input.display() == display_id,
            RemoteInput::Key { display_id, .. } => input.display() == display_id,
        },
{
}

/// A key is held from the input that presses it to the one that releases it; no
/// other input changes which keys are held.
pub proof fn keys_are_held_between_press_and_release(
    held: Seq<HeldKey>,
    input: RemoteInput,
    key: HeldKey,
)
    ensures
        ({
            let pressed = input matches RemoteInput::Key {
                scan_code,
                extended,
                pressed: true,
                ..
            } && scan_code == key.scan_code && extended == key.extended;
            let released = input matches RemoteInput::Key {
                scan_code,
                extended,
                pressed: false,
                ..
            } && scan_code == key.scan_code && extended == key.extended;
            keys_after(held, input).contains(key) <==> pressed || (held.contains(key)
                && !released)
        }),
{
    if let RemoteInput::Key { scan_code, extended, pressed, .. } = input {
        held_until_released(held, HeldKey { scan_code, extended }, key);
        lemma_without(held, HeldKey { scan_code, extended }, key);
    }
}

/// A button is held from the input that presses it to the one that releases it,
/// wherever the pointer is; no other input changes which buttons are held.
pub proof fn buttons_are_held_between_press_and_release(
    held: Seq<PointerButton>,
    input: RemoteInput,
    button: PointerButton,
)
    ensures
        ({
            let told = match input {
                RemoteInput::PointerButton { button: found, pressed, .. } => if found == button {
                    Some(pressed)
                } else {
                    None
                },
                RemoteInput::PointerButtonAt { button: found, pressed, .. } => if found == button {
                    Some(pressed)
                } else {
                    None
                },
                _ => None,
            };
            buttons_after(held, input).contains(button) <==> told == Some(true) || (held.contains(
                button,
            ) && told != Some(false))
        }),
{
    let entry = match input {
        RemoteInput::PointerButton { button: found, .. } => found,
        RemoteInput::PointerButtonAt { button: found, .. } => found,
        _ => button,
    };
    lemma_without(held, entry, button);
    let more = held.push(entry);
    assert(more[more.len() - 1] == entry);
    if held.contains(button) {
        let at = choose|at: int| 0 <= at < held.len() && held[at] == button;
        assert(more[at] == button);
    }
    if more.contains(button) && button != entry {
        let at = choose|at: int| 0 <= at < more.len() && more[at] == button;
        assert(held[at] == button);
    }
}

/// Letting go lets go of everything: each key and each button that is held is
/// released, by the injection that releases it, once.
pub proof fn everything_held_is_released(controller: WindowsInputController, at: int)
    ensures
        controller.releases_of().len() == controller.pressed_keys@.len()
            + controller.pressed_buttons@.len(),
        0 <= at < controller.pressed_keys@.len() ==> controller.releases_of()[at] == (
        Injection::Key {
            virtual_key: 0,
            scan_code: controller.pressed_keys@[at].scan_code,
            flags: if controller.pressed_keys@[at].extended {
                11
            } else {
                10
            },
            tag: 0x4d52_4d4d,
        }),
        0 <= at < controller.pressed_buttons@.len() ==> {
            let (flags, data) = match controller.pressed_buttons@[at] {
                PointerButton::Left => (0x4u32, 0u32),
                PointerButton::Right => (0x10, 0),
                PointerButton::Middle => (0x40, 0),
                PointerButton::Back => (0x100, 1),
                PointerButton::Forward => (0x100, 2),
            };
            controller.releases_of()[controller.pressed_keys@.len() + at] == (Injection::Mouse {
                flags,
                dx: 0,
                dy: 0,
                data,
                tag: 0x4d52_4d4d,
            })
        },
{
}

/// What could not be released is still held, and nothing else is.
pub proof fn unreleased_input_stays_held<T>(list: Seq<T>, sent: Seq<bool>, entry: T)
    requires
        sent.len() >= list.len(),
    ensures
        unsent(list, sent).contains(entry) <==> exists|i: int|
            0 <= i < list.len() && !sent[i] && #[trigger] list[i] == entry,
    decreases list.len(),
{
    if list.len() > 0 {
        let shorter = list.drop_last();
        let rest = unsent(shorter, sent);
        unreleased_input_stays_held(shorter, sent, entry);
        let last = list.len() - 1;
        let all = unsent(list, sent);
        if rest.contains(entry) {
            let i = choose|i: int| 0 <= i < shorter.len() && !sent[i] && #[trigger] shorter[i] == entry;
            assert(list[i] == entry);
            let at = choose|at: int| 0 <= at < rest.len() && rest[at] == entry;
            assert(all[at] == entry);
        }
        if !sent[last] {
            assert(all[all.len() - 1] == list[last]);
        }
        if all.contains(entry) && !rest.contains(entry) {
            let at = choose|at: int| 0 <= at < all.len() && all[at] == entry;
            assert(at == rest.len());
            assert(list[last] == entry);
        }
        if exists|i: int| 0 <= i < list.len() && !sent[i] && #[trigger] list[i] == entry {
            let i = choose|i: int| 0 <= i < list.len() && !sent[i] && #[trigger] list[i] == entry;
            if i < last {
                assert(shorter[i] == entry);
            }
        }
    }
}

/// The viewer sees the shape that Windows shows: that of the first of Windows'
/// own cursors with its handle, and the default one for any other cursor. Where
/// Windows tells of no pointer, or hides it on monitors that are not dark, it is
/// the default one too.
pub proof fn shapes_are_those_shown(controller: WindowsInputController, info: PointerInfo, at: int)
    ensures
        controller.current_shape(None) == CursorShape::Default,
        !info.showing && !controller.blacked_out ==> controller.current_shape(Some(info))
            == CursorShape::Default,
        (info.showing || controller.blacked_out) && 0 <= at < controller.system_cursors@.len()
            && controller.system_cursors@[at].handle == info.handle && (forall|i: int|
            0 <= i < at ==> (#[trigger] controller.system_cursors@[i]).handle != info.handle)
            ==> controller.current_shape(Some(info)) == controller.system_cursors@[at].shape,
        (forall|i: int|
            0 <= i < controller.system_cursors@.len() ==> (
            #[trigger] controller.system_cursors@[i]).handle != info.handle)
            ==> controller.current_shape(Some(info)) == CursorShape::Default,
{
    let cursors = controller.system_cursors@;
    if 0 <= at < cursors.len() && cursors[at].handle == info.handle && (forall|i: int|
        0 <= i < at ==> (#[trigger] cursors[i]).handle != info.handle) {
        lemma_shape(cursors, info.handle, at);
    }
    if forall|i: int| 0 <= i < cursors.len() ==> (#[trigger] cursors[i]).handle != info.handle {
        lemma_shape(cursors, info.handle, cursors.len() as int);
    }
}

/// The display that the pointer is said to be on is a listed monitor that it is
/// on; where none is told, it is on none of them. What stands for all monitors
/// is never told.
pub proof fn pointer_is_on_the_told_display(
    displays: Seq<DisplayView>,
    x: i32,
    y: i32,
    all_monitors: DisplayId,
    other: int,
)
    ensures
        match display_at(displays, x, y, all_monitors) {
            Some(id) => id != all_monitors && exists|i: int|
                0 <= i < displays.len() && (#[trigger] displays[i]).id == id && displays[i].x <= x
                    && x < displays[i].x + displays[i].width && displays[i].y <= y && y
                    < displays[i].y + displays[i].height,
            None => 0 <= other < displays.len() && displays[other].id != all_monitors
                ==> !(displays[other].x <= x < displays[other].x + displays[other].width
                && displays[other].y <= y < displays[other].y + displays[other].height),
        },
    decreases displays.len(),
{
    if displays.len() > 0 {
        let rest = displays.skip(1);
        if displays[0].id != all_monitors && on_display(displays[0], x, y) {
            assert(displays[0].id == display_at(displays, x, y, all_monitors)->Some_0);
        } else {
            pointer_is_on_the_told_display(rest, x, y, all_monitors, other - 1);
            if let Some(id) = display_at(rest, x, y, all_monitors) {
                let i = choose|i: int|
                    0 <= i < rest.len() && (#[trigger] rest[i]).id == id && rest[i].x <= x && x
                        < rest[i].x + rest[i].width && rest[i].y <= y && y < rest[i].y
                        + rest[i].height;
                assert(displays[i + 1] == rest[i]);
            } else if 0 < other < displays.len() {
                assert(rest[other - 1] == displays[other]);
            }
        }
    }
}

/// Input that is refused says why, and names the displays where it was meant for
/// another one.
pub proof fn input_errors_say_what_is_wrong(error: InputError)
    ensures
        error == InputError::NoDisplay ==> error.text_of()
            == "remote input arrived before a display was selected"@,
        error matches InputError::StaleDisplay { wanted, active } ==> error.text_of()
            == "input targeted stale display "@ + text::decimal(wanted as nat)
            + " while display "@ + text::decimal(active as nat) + " is active"@,
        error == InputError::InvalidText ==> error.text_of() == "invalid text input"@,
        error == InputError::InvalidDesktop ==> error.text_of()
            == "Windows virtual desktop dimensions are invalid"@,
        error == InputError::EmptyScanCode ==> error.text_of()
            == "remote keyboard event had an empty scan code"@,
{
}

/// What keeps everything but what is held keeps the display, the monitors and every
/// setting; what keeps everything but whether local input counts keeps all that is
/// held too; and between them nothing is left that could change.
pub proof fn unchanged_controllers_are_the_same(
    before: WindowsInputController,
    after: WindowsInputController,
)
    ensures
        after.same_but_held(before) <==> after.active_display == before.active_display
            && after.displays == before.displays && after.blocked == before.blocked
            && after.blacked_out == before.blacked_out && after.manually_blocked
            == before.manually_blocked && after.viewer_cursor == before.viewer_cursor
            && after.system_cursors == before.system_cursors,
        after.same_but_blocking(before) <==> after.active_display == before.active_display
            && after.displays == before.displays && after.pressed_keys == before.pressed_keys
            && after.pressed_buttons == before.pressed_buttons && after.viewer_cursor
            == before.viewer_cursor && after.system_cursors == before.system_cursors,
        after.same_but_held(before) && after.same_held(before) ==> after == before,
        after.same_settings(before) && after.same_held(before) && after.active_display
            == before.active_display && after.displays == before.displays ==> after == before,
        before.wf() && before.blacked_out ==> before.blocked,
{
}

} // verus!
