//! The notice that somebody is connected: its name, its place, and what a click
//! or a drag does to it.
use crate::text;
use crate::text::{joined3, push_str, trim};
use vstd::prelude::*;
use vstd::string::StrSliceExecFns;

verus! {

/// How much of a name is shown.
pub const MAX_NAME_CHARS: usize = 256;

/// The width of the collapsed notice, and of the button for the chat.
pub const TAB_WIDTH: i32 = 32;

pub const MAX_WIDTH: i32 = 480;

pub const TEXT_MARGIN: i32 = 16;

/// Whether a character is a control character.
pub open spec fn is_control(character: char) -> bool {
    let code = character as u32;
    code <= 0x1f || 0x7f <= code <= 0x9f
}

fn control(character: char) -> (control: bool)
    ensures
        control == is_control(character),
{
    let code: u32 = character as u32;
    code <= 0x1f || (0x7f <= code && code <= 0x9f)
}

/// A text without its control characters.
pub open spec fn printable(text: Seq<char>) -> Seq<char>
    decreases text.len(),
{
    if text.len() == 0 {
        text
    } else if is_control(text.last()) {
        printable(text.drop_last())
    } else {
        printable(text.drop_last()).push(text.last())
    }
}

pub open spec fn shortened(text: Seq<char>) -> Seq<char> {
    if text.len() > MAX_NAME_CHARS {
        text.take(MAX_NAME_CHARS as int)
    } else {
        text
    }
}

/// The name to show: on one line, not too long, and never nothing.
pub open spec fn shown_name(name: Seq<char>) -> Seq<char> {
    let shown = shortened(printable(name));
    if text::trimmed(shown).len() == 0 {
        "Remote user"@
    } else {
        shown
    }
}

proof fn lemma_printable_grows(text: Seq<char>, at: int)
    requires
        0 <= at <= text.len(),
    ensures
        printable(text.take(at)).len() <= printable(text).len(),
        printable(text).take(printable(text.take(at)).len() as int) == printable(text.take(at)),
    decreases text.len(),
{
    if at < text.len() {
        let shorter = text.drop_last();
        lemma_printable_grows(shorter, at);
        assert(shorter.take(at) =~= text.take(at));
        assert(printable(text).take(printable(text.take(at)).len() as int) =~= printable(
            shorter,
        ).take(printable(text.take(at)).len() as int));
    } else {
        assert(text.take(at) =~= text);
        assert(printable(text).take(printable(text).len() as int) =~= printable(text));
    }
}

pub fn display_name(name: &str) -> (shown: String)
    ensures
        shown@ == shown_name(name@),
{
    let total: usize = name.unicode_len();
    let mut shown = String::new();
    let mut count: usize = 0;
    let mut at: usize = 0;
    while at < total && count < MAX_NAME_CHARS
        invariant
            at <= total,
            total == name@.len(),
            count <= MAX_NAME_CHARS,
            count == shown@.len(),
            shown@ == printable(name@.take(at as int)),
        decreases total - at,
    {
        let character = name.get_char(at);
        assert(name@.take(at + 1).drop_last() =~= name@.take(at as int));
        if !control(character) {
            let piece = name.substring_char(at, at + 1);
            let ghost before = shown@;
            push_str(&mut shown, piece);
            assert(shown@ =~= before.push(character));
            count += 1;
        }
        at += 1;
    }
    proof {
        if at == total {
            assert(name@.take(at as int) =~= name@);
            assert(shown@.take(shown@.len() as int) =~= shown@);
        } else {
            lemma_printable_grows(name@, at as int);
            assert(printable(name@).take(MAX_NAME_CHARS as int) == shown@);
            assert(shortened(printable(name@)) =~= shown@);
        }
    }
    if trim(shown.as_str()).is_empty() {
        return "Remote user".to_owned();
    }
    shown
}

/// The part of the screen that windows may cover.
#[derive(Debug, Clone, Copy, PartialEq, Eq, Structural)]
pub struct WorkArea {
    pub left: i32,
    pub top: i32,
    pub right: i32,
    pub bottom: i32,
}

/// A drag that has begun.
#[derive(Debug, Clone, Copy, PartialEq, Eq, Structural)]
pub struct Drag {
    pub pointer_x: i32,
    pub center_x: i64,
    pub moved: bool,
}

/// The notice.
#[derive(Debug)]
pub struct State {
    pub name: String,
    pub collapsed: bool,
    pub work: WorkArea,
    pub expanded_width: i32,
    /// Where it was dragged to; in the middle otherwise.
    pub center_x: Option<i64>,
    pub drag: Option<Drag>,
    /// Whether there is a chat, and how many messages are unread.
    pub chat_status: (bool, usize),
}

/// Half of a distance, without its fraction.
pub open spec fn half(distance: int) -> int {
    if distance >= 0 {
        distance / 2
    } else {
        -((-distance) / 2)
    }
}

fn halved(distance: i64) -> (result: i64)
    requires
        -0x2_0000_0000 <= distance <= 0x2_0000_0000,
    ensures
        result == half(distance as int),
{
    if distance >= 0 {
        (distance as u64 / 2) as i64
    } else {
        -(((-distance) as u64 / 2) as i64)
    }
}

/// Whether the end of a press is a click: the notice was not dragged.
pub open spec fn click_of(drag: Option<Drag>) -> bool {
    drag matches Some(begun) && !begun.moved
}

/// What the notice looks like.
#[derive(Debug, Clone, Copy, PartialEq, Eq, Structural)]
pub struct Layout {
    pub left: i32,
    pub top: i32,
    pub width: i32,
    pub height: i32,
}

/// What a press of the mouse button leads to.
#[derive(Debug, Clone, Copy, PartialEq, Eq, Structural)]
pub enum Press {
    /// The chat opens or closes.
    ToggleChat,
    /// The chat closes, and a drag may begin.
    Grab,
}

/// What a tick leads to.
#[derive(Debug, Clone, Copy, PartialEq, Eq, Structural)]
pub struct Tick {
    pub open_chat: bool,
    pub redraw: bool,
}

impl State {
    /// Where the middle of the notice is.
    pub open spec fn center(self) -> int {
        match self.center_x {
            Some(center) => center as int,
            None => self.work.left + half(self.work.right - self.work.left),
        }
    }

    /// Where a notice of some width begins: around its middle, but on the
    /// screen.
    pub open spec fn left_of(self, width: i32) -> int {
        let wanted = self.center() - half(width as int);
        let last = if self.work.right - width > self.work.left {
            self.work.right - width
        } else {
            self.work.left as int
        };
        if wanted < self.work.left {
            self.work.left as int
        } else if wanted > last {
            last
        } else {
            wanted
        }
    }

    /// A place it was dragged to is one that a pointer can be at, and it is not
    /// too wide.
    pub open spec fn wf(self) -> bool {
        &&& 0 <= self.expanded_width <= MAX_WIDTH
        &&& self.center_x matches Some(center) ==> -0x3_0000_0000 <= center <= 0x3_0000_0000
        &&& self.drag matches Some(drag) ==> -0x1_0000_0000 <= drag.center_x <= 0x1_0000_0000
    }

    pub fn new(name: String, work: WorkArea) -> (state: Self)
        ensures
            state.name == name,
            state.work == work,
            !state.collapsed,
            state.expanded_width == 320,
            state.center_x is None,
            state.drag is None,
            state.chat_status == (false, 0usize),
            state.wf(),
    {
        State {
            name,
            collapsed: false,
            work,
            expanded_width: 320,
            center_x: None,
            drag: None,
            chat_status: (false, 0),
        }
    }

    pub fn left(&self, width: i32) -> (left: i32)
        requires
            self.wf(),
            width >= 0,
        ensures
            left == self.left_of(width),
    {
        let first: i64 = self.work.left as i64;
        let end: i64 = self.work.right as i64;
        let center: i64 = match self.center_x {
            Some(center) => center,
            None => first + halved(end - first),
        };
        let wanted: i64 = center - halved(width as i64);
        let last: i64 = if end - width as i64 > first {
            end - width as i64
        } else {
            first
        };
        if wanted < first {
            self.work.left
        } else if wanted > last {
            last as i32
        } else {
            wanted as i32
        }
    }

    /// What the notice says.
    pub fn label(&self) -> (label: String)
        ensures
            label@ == (if self.collapsed {
                "▾"@
            } else {
                "● "@ + self.name@ + " is connected remotely  ▴"@
            }),
    {
        if self.collapsed {
            "▾".to_owned()
        } else {
            joined3("● ", self.name.as_str(), " is connected remotely  ▴")
        }
    }

    /// Takes the measured width of the expanded text.
    pub fn measured(&mut self, text_width: i32)
        requires
            old(self).wf(),
            0 <= text_width <= i32::MAX - TEXT_MARGIN,
        ensures
            final(self).wf(),
            final(self).expanded_width == (if text_width + TEXT_MARGIN < MAX_WIDTH {
                text_width + TEXT_MARGIN
            } else {
                MAX_WIDTH as int
            }),
            final(self).name == old(self).name,
            final(self).collapsed == old(self).collapsed,
            final(self).work == old(self).work,
            final(self).center_x == old(self).center_x,
            final(self).drag == old(self).drag,
            final(self).chat_status == old(self).chat_status,
    {
        self.expanded_width = if text_width + TEXT_MARGIN < MAX_WIDTH {
            text_width + TEXT_MARGIN
        } else {
            MAX_WIDTH
        };
    }

    /// How wide the notice is, where there is room.
    pub open spec fn width_of(self, chat: bool) -> int {
        let wanted = (if self.collapsed {
            TAB_WIDTH as int
        } else {
            self.expanded_width as int
        }) + (if chat {
            TAB_WIDTH as int
        } else {
            0
        });
        let room = if self.work.right - self.work.left > 1 {
            self.work.right - self.work.left
        } else {
            1
        };
        if wanted < room {
            wanted
        } else {
            room
        }
    }

    /// Where the notice is and how large.
    pub fn layout(&self, chat: bool) -> (layout: Layout)
        requires
            self.wf(),
        ensures
            layout.width == self.width_of(chat),
            layout.height == (if self.collapsed && !chat {
                16int
            } else {
                24int
            }),
            layout.left == self.left_of(layout.width),
            layout.top == self.work.top,
    {
        let mut wanted: i64 = if self.collapsed {
            TAB_WIDTH as i64
        } else {
            self.expanded_width as i64
        };
        if chat {
            wanted += TAB_WIDTH as i64;
        }
        let space: i64 = self.work.right as i64 - self.work.left as i64;
        let room: i64 = if space > 1 {
            space
        } else {
            1
        };
        let width: i32 = if wanted < room {
            wanted as i32
        } else {
            room as i32
        };
        Layout {
            left: self.left(width),
            top: self.work.top,
            width,
            height: if self.collapsed && !chat {
                16
            } else {
                24
            },
        }
    }

    /// Between which columns of the notice its text is centered: not where the
    /// chat's sign is.
    pub fn text_columns(&self, width: i32, chat: bool) -> (columns: (i32, i32))
        requires
            width >= 0,
        ensures
            columns.0 == (if self.collapsed {
                0int
            } else {
                8int
            }),
            columns.1 == width - columns.0 - (if chat {
                TAB_WIDTH as int
            } else {
                0
            }),
    {
        let padding: i32 = if self.collapsed {
            0
        } else {
            8
        };
        let sign: i32 = if chat {
            TAB_WIDTH
        } else {
            0
        };
        (padding, width - padding - sign)
    }

    /// Takes a press at `x` of a notice of some width; `pointer_x` is where the
    /// pointer is, `edges` where the notice begins and ends, if that is known.
    pub fn press(&mut self, x: i32, width: i32, chat: bool, pointer_x: i32, edges: Option<(i32, i32)>) -> (
    press: Press)
        requires
            old(self).wf(),
        ensures
            final(self).wf(),
            press == (if chat && x >= width - TAB_WIDTH {
                Press::ToggleChat
            } else {
                Press::Grab
            }),
            final(self).drag == (match (press, edges) {
                (Press::Grab, Some((left, right))) => Some(
                    Drag {
                        pointer_x,
                        center_x: (left + half(right - left)) as i64,
                        moved: false,
                    },
                ),
                _ => old(self).drag,
            }),
            final(self).collapsed == old(self).collapsed,
            final(self).center_x == old(self).center_x,
            final(self).work == old(self).work,
            final(self).expanded_width == old(self).expanded_width,
            final(self).name == old(self).name,
            final(self).chat_status == old(self).chat_status,
    {
        if chat && x as i64 >= width as i64 - TAB_WIDTH as i64 {
            return Press::ToggleChat;
        }
        if let Some((left, right)) = edges {
            let center_x: i64 = left as i64 + halved(right as i64 - left as i64);
            self.drag = Some(Drag { pointer_x, center_x, moved: false });
        }
        Press::Grab
    }

    /// Whether a pointer at `x` drags the notice: a small movement of the hand
    /// is still a click.
    pub open spec fn drags(self, x: i32, threshold: i32) -> bool {
        self.drag matches Some(drag) && (drag.moved || {
            let distance = if x >= drag.pointer_x {
                x - drag.pointer_x
            } else {
                drag.pointer_x - x
            };
            distance >= threshold && distance >= 4
        })
    }

    /// The drag after a movement of the pointer to `x`.
    pub open spec fn drag_after(self, x: i32, threshold: i32) -> Option<Drag> {
        if self.drags(x, threshold) {
            Some(Drag { moved: true, ..self.drag->Some_0 })
        } else {
            self.drag
        }
    }

    /// Takes a movement of the pointer to `x`; whether the notice moved.
    /// `threshold` is how far Windows lets a click wander.
    pub fn drag_to(&mut self, x: i32, threshold: i32) -> (moved: bool)
        requires
            old(self).wf(),
        ensures
            final(self).wf(),
            moved == old(self).drags(x, threshold),
            final(self).drag == old(self).drag_after(x, threshold),
            final(self).center_x == (if moved {
                Some(
                    (old(self).drag->Some_0.center_x + (x
                        - old(self).drag->Some_0.pointer_x)) as i64,
                )
            } else {
                old(self).center_x
            }),
            final(self).collapsed == old(self).collapsed,
            final(self).work == old(self).work,
            final(self).expanded_width == old(self).expanded_width,
            final(self).name == old(self).name,
            final(self).chat_status == old(self).chat_status,
    {
        let drag = match self.drag {
            Some(drag) => drag,
            None => {
                return false;
            },
        };
        let delta: i64 = x as i64 - drag.pointer_x as i64;
        let distance: i64 = if delta >= 0 {
            delta
        } else {
            -delta
        };
        if !drag.moved && (distance < threshold as i64 || distance < 4) {
            return false;
        }
        self.center_x = Some(drag.center_x + delta);
        self.drag = Some(Drag { pointer_x: drag.pointer_x, center_x: drag.center_x, moved: true });
        true
    }

    /// Takes the end of a press; whether it was a click, which collapses or
    /// expands the notice.
    pub fn release(&mut self) -> (click: bool)
        requires
            old(self).wf(),
        ensures
            final(self).wf(),
            click == click_of(old(self).drag),
            final(self).drag is None,
            final(self).collapsed == (if click {
                !old(self).collapsed
            } else {
                old(self).collapsed
            }),
            final(self).center_x == old(self).center_x,
            final(self).work == old(self).work,
            final(self).expanded_width == old(self).expanded_width,
            final(self).name == old(self).name,
            final(self).chat_status == old(self).chat_status,
    {
        let click = match self.drag {
            Some(drag) => !drag.moved,
            None => false,
        };
        self.drag = None;
        if click {
            self.collapsed = !self.collapsed;
        }
        click
    }

    /// Ends a drag that something else took over.
    pub fn cancel(&mut self)
        requires
            old(self).wf(),
        ensures
            final(self).wf(),
            final(self).drag is None,
            final(self).collapsed == old(self).collapsed,
            final(self).center_x == old(self).center_x,
            final(self).work == old(self).work,
            final(self).expanded_width == old(self).expanded_width,
            final(self).name == old(self).name,
            final(self).chat_status == old(self).chat_status,
    {
        self.drag = None;
    }

    /// Takes a look at the chat: a message that came while it was closed opens
    /// it, and the notice shows whether there are any. `unread` is how many
    /// messages are unread once a chat that opens is open.
    pub fn tick(&mut self, chat: bool, visible: bool, unread_before: usize, unread: usize) -> (tick:
        Tick)
        requires
            old(self).wf(),
        ensures
            final(self).wf(),
            tick.open_chat == (chat && !visible && unread_before > 0),
            tick.redraw == (old(self).chat_status != (chat, unread)),
            final(self).chat_status == (chat, unread),
            final(self).drag == old(self).drag,
            final(self).collapsed == old(self).collapsed,
            final(self).center_x == old(self).center_x,
            final(self).work == old(self).work,
            final(self).expanded_width == old(self).expanded_width,
            final(self).name == old(self).name,
    {
        let redraw = self.chat_status.0 != chat || self.chat_status.1 != unread;
        self.chat_status = (chat, unread);
        Tick { open_chat: chat && !visible && unread_before > 0, redraw }
    }
}

/// The notice is on the screen, wherever it was dragged to and whether it is
/// collapsed or not: all of it, where there is room.
pub proof fn notice_stays_on_the_screen(state: State, width: i32)
    requires
        width >= 0,
        state.work.left <= state.work.right,
    ensures
        state.work.left <= state.left_of(width),
        width <= state.work.right - state.work.left ==> state.left_of(width) + width
            <= state.work.right,
{
}

/// A drag never collapses or expands the notice: once it moved, every further
/// movement of the pointer drags it, and the end of the press is no click.
pub proof fn drags_are_not_clicks(state: State, x: i32, threshold: i32, later: i32)
    requires
        state.drags(x, threshold),
    ensures
        !click_of(state.drag_after(x, threshold)),
        (State { drag: state.drag_after(x, threshold), ..state }).drags(later, threshold),
{
}

proof fn lemma_control(character: char)
    ensures
        is_control(character) <==> !(32 <= character as int && !(127 <= character as int
            && character as int <= 159)),
{
}

/// A name is shown without its control characters, and nothing else of it is left
/// out or moved.
pub proof fn names_are_shown_without_controls(name: Seq<char>)
    ensures
        printable(name) == name.filter(
            |character: char|
                32 <= character as int && !(127 <= character as int && character as int <= 159),
        ),
    decreases name.len(),
{
    reveal(Seq::filter);
    if name.len() > 0 {
        names_are_shown_without_controls(name.drop_last());
        lemma_control(name.last());
    }
}

/// At most two hundred and fifty-six characters of a name are shown, the first
/// ones; a name with nothing to show is somebody all the same.
pub proof fn shown_names_are_short_and_not_empty(name: Seq<char>)
    ensures
        shown_name(name).len() > 0,
        shown_name(name).len() <= 256,
        shown_name(name) == "Remote user"@ || shown_name(name).is_prefix_of(printable(name)),
        printable(name).len() <= 256 && text::trimmed(printable(name)).len() > 0 ==> shown_name(
            name,
        ) == printable(name),
        printable(name).len() > 256 && shown_name(name) != "Remote user"@ ==> shown_name(name).len()
            == 256,
        text::trimmed(printable(name).take(if printable(name).len() < 256 {
            printable(name).len() as int
        } else {
            256
        })).len() == 0 ==> shown_name(name) == "Remote user"@,
{
    reveal_strlit("Remote user");
    let shown = shortened(printable(name));
    assert(printable(name).take(printable(name).len() as int) =~= printable(name));
    if shown.len() == 0 {
        assert(text::trimmed(shown).len() == 0);
    }
}

/// The notice is in the middle of the screen until it is dragged, and around where
/// it was dragged to then, to within half a point, wherever there is room; where
/// there is not, it is as near as it can be.
pub proof fn notices_are_centred_where_they_can_be(state: State, width: i32)
    requires
        width >= 0,
        state.work.left <= state.work.right,
        width <= state.work.right - state.work.left,
    ensures
        ({
            let left = state.left_of(width);
            let wanted = state.center() - width / 2;
            &&& state.work.left <= wanted <= state.work.right - width ==> left == wanted
            &&& wanted < state.work.left ==> left == state.work.left
            &&& wanted > state.work.right - width ==> left == state.work.right - width
            &&& state.center_x matches Some(center) ==> state.center() == center
            &&& state.center_x is None ==> 0 <= state.work.left + state.work.right - 2
                * state.center() <= 1
        }),
{
}

/// A half leaves out at most one, on the side of zero.
pub proof fn halves_are_rounded_to_zero(distance: int)
    ensures
        distance >= 0 ==> 0 <= distance - 2 * half(distance) <= 1,
        distance <= 0 ==> -1 <= distance - 2 * half(distance) <= 0,
        half(-distance) == -half(distance),
{
}

/// A collapsed notice is a tab, an expanded one as wide as its text, and the chat
/// adds a tab to either; no notice is wider than the screen.
pub proof fn notices_fit_what_they_show(state: State)
    requires
        0 <= state.expanded_width,
        state.work.left < state.work.right,
    ensures
        ({
            let room = state.work.right - state.work.left;
            let bare = if state.collapsed {
                32int
            } else {
                state.expanded_width as int
            };
            &&& state.width_of(false) <= room
            &&& state.width_of(true) <= room
            &&& bare <= room ==> state.width_of(false) == bare
            &&& bare + 32 <= room ==> state.width_of(true) == bare + 32
            &&& bare > room ==> state.width_of(false) == room
            &&& bare + 32 > room ==> state.width_of(true) == room
        }),
{
}

/// A press drags once the pointer has gone, to either side, as far as Windows asks
/// and at least four points; until then it is a click. Without a press there is
/// neither.
pub proof fn small_movements_are_clicks(state: State, x: i32, threshold: i32)
    ensures
        state.drag is None ==> !state.drags(x, threshold) && !click_of(state.drag),
        state.drag matches Some(drag) ==> {
            let far = (x - drag.pointer_x >= 4 && x - drag.pointer_x >= threshold) || (
            drag.pointer_x - x >= 4 && drag.pointer_x - x >= threshold);
            &&& state.drags(x, threshold) <==> drag.moved || far
            &&& click_of(state.drag_after(x, threshold)) <==> !drag.moved && !far
            &&& state.drag_after(x, threshold) is Some
            &&& state.drag_after(x, threshold)->0.pointer_x == drag.pointer_x
            &&& state.drag_after(x, threshold)->0.center_x == drag.center_x
            &&& state.drag_after(x, threshold)->0.moved <==> drag.moved || far
        },
{
}

} // verus!
