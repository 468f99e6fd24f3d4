//! Displays, desktops and video formats, as the rest of the library speaks of them.
use vstd::prelude::*;

verus! {

#[derive(Debug, Clone, Copy, PartialEq, Eq, Structural)]
pub struct DisplayId(pub u32);

/// The values that the viewer protocol fixes and this library takes as given.
#[derive(Debug, Clone, Copy, PartialEq, Eq, Structural)]
pub struct Protocol {
    /// The longest encoded clipboard content.
    pub clipboard_wire_bytes: usize,
    /// The longest clipboard or typed text.
    pub clipboard_text_bytes: usize,
    /// The longest chat message.
    pub chat_text_bytes: usize,
    /// The display that stands for the background desktop.
    pub background_display: DisplayId,
    /// The display that stands for all monitors together.
    pub all_monitors: DisplayId,
}

#[derive(Debug, Clone, Copy, PartialEq, Eq, Structural)]
pub enum VideoCodec {
    H264,
    H265,
}

#[derive(Debug, Clone, Copy, PartialEq, Eq, Structural)]
pub enum VideoPixelFormat {
    Yuv420,
    Yuv444,
}

/// What a capture is asked for.
#[derive(Debug, Clone, Copy, PartialEq, Eq, Structural)]
pub struct StreamConfig {
    pub frames_per_second: u32,
    pub bitrate_bits_per_second: u32,
    pub codec: VideoCodec,
    pub pixel_format: VideoPixelFormat,
    pub capture_cursor: bool,
    pub grayscale: bool,
}

/// What a running capture delivers.
#[derive(Debug, Clone, Copy, PartialEq, Eq, Structural)]
pub struct ActiveFormat {
    pub width: u32,
    pub height: u32,
    pub frames_per_second: u32,
    pub bitrate_bits_per_second: u32,
    pub codec: VideoCodec,
    pub pixel_format: VideoPixelFormat,
}

/// The sign-in a display belongs to.
#[derive(Debug)]
pub enum DesktopSession {
    Console,
    Background,
    Rdp { id: u32, user: String },
}

pub enum SessionView {
    Console,
    Background,
    Rdp { id: u32, user: Seq<char> },
}

impl View for DesktopSession {
    type V = SessionView;

    open spec fn view(&self) -> SessionView {
        match *self {
            DesktopSession::Console => SessionView::Console,
            DesktopSession::Background => SessionView::Background,
            DesktopSession::Rdp { id, user } => SessionView::Rdp { id, user: user@ },
        }
    }
}

impl Clone for DesktopSession {
    fn clone(&self) -> (copy: Self)
        ensures
            copy@ == self@,
    {
        match self {
            DesktopSession::Console => DesktopSession::Console,
            DesktopSession::Background => DesktopSession::Background,
            DesktopSession::Rdp { id, user } => DesktopSession::Rdp { id: *id, user: user.clone() },
        }
    }
}

impl DesktopSession {
    pub fn same(&self, other: &DesktopSession) -> (same: bool)
        ensures
            same == (self@ == other@),
    {
        match (self, other) {
            (DesktopSession::Console, DesktopSession::Console) => true,
            (DesktopSession::Background, DesktopSession::Background) => true,
            (
                DesktopSession::Rdp { id, user },
                DesktopSession::Rdp { id: other_id, user: other_user },
            ) => *id == *other_id && *user == *other_user,
            _ => false,
        }
    }

    /// The Remote Desktop session of this sign-in, if it is one.
    pub fn rdp_session(&self) -> (id: Option<u32>)
        ensures
            id == self@.rdp(),
    {
        match self {
            DesktopSession::Rdp { id, .. } => Some(*id),
            _ => None,
        }
    }
}

impl SessionView {
    pub open spec fn rdp(self) -> Option<u32> {
        match self {
            SessionView::Rdp { id, .. } => Some(id),
            _ => None,
        }
    }
}

/// A monitor, or what stands for one.
#[derive(Debug)]
pub struct Display {
    pub session: DesktopSession,
    pub id: DisplayId,
    pub name: String,
    pub x: i32,
    pub y: i32,
    pub width: u32,
    pub height: u32,
    pub primary: bool,
}

pub struct DisplayView {
    pub session: SessionView,
    pub id: DisplayId,
    pub name: Seq<char>,
    pub x: i32,
    pub y: i32,
    pub width: u32,
    pub height: u32,
    pub primary: bool,
}

impl View for Display {
    type V = DisplayView;

    open spec fn view(&self) -> DisplayView {
        DisplayView {
            session: self.session@,
            id: self.id,
            name: self.name@,
            x: self.x,
            y: self.y,
            width: self.width,
            height: self.height,
            primary: self.primary,
        }
    }
}

impl Clone for Display {
    fn clone(&self) -> (copy: Self)
        ensures
            copy@ == self@,
    {
        Display {
            session: self.session.clone(),
            id: self.id,
            name: self.name.clone(),
            x: self.x,
            y: self.y,
            width: self.width,
            height: self.height,
            primary: self.primary,
        }
    }
}

/// The views of a list of displays.
pub open spec fn display_views(displays: Seq<Display>) -> Seq<DisplayView> {
    displays.map_values(|display: Display| display@)
}

/// A capture that has started: what it delivers and the monitors it sees.
#[derive(Debug)]
pub struct StartedDesktop {
    pub format: ActiveFormat,
    pub displays: Vec<Display>,
    pub active_display: Display,
}

pub struct StartedView {
    pub format: ActiveFormat,
    pub displays: Seq<DisplayView>,
    pub active_display: DisplayView,
}

impl View for StartedDesktop {
    type V = StartedView;

    open spec fn view(&self) -> StartedView {
        StartedView {
            format: self.format,
            displays: display_views(self.displays@),
            active_display: self.active_display@,
        }
    }
}

/// A monitor as the capture library lists it.
#[derive(Debug)]
pub struct Monitor {
    pub id: u32,
    pub name: String,
    pub x: i32,
    pub y: i32,
    pub width: u32,
    pub height: u32,
    pub primary: bool,
}

/// The display that a listed monitor of the console is.
pub fn console_display(monitor: Monitor) -> (display: Display)
    ensures
        display@ == (DisplayView {
            session: SessionView::Console,
            id: DisplayId(monitor.id),
            name: monitor.name@,
            x: monitor.x,
            y: monitor.y,
            width: monitor.width,
            height: monitor.height,
            primary: monitor.primary,
        }),
{
    Display {
        session: DesktopSession::Console,
        id: DisplayId(monitor.id),
        name: monitor.name,
        x: monitor.x,
        y: monitor.y,
        width: monitor.width,
        height: monitor.height,
        primary: monitor.primary,
    }
}

/// The display that the background desktop is; it is never the primary one.
pub fn background_display(monitor: Monitor) -> (display: Display)
    ensures
        display@ == (DisplayView {
            session: SessionView::Background,
            id: DisplayId(monitor.id),
            name: monitor.name@,
            x: monitor.x,
            y: monitor.y,
            width: monitor.width,
            height: monitor.height,
            primary: false,
        }),
{
    Display {
        session: DesktopSession::Background,
        id: DisplayId(monitor.id),
        name: monitor.name,
        x: monitor.x,
        y: monitor.y,
        width: monitor.width,
        height: monitor.height,
        primary: false,
    }
}

/// The first display that satisfies a condition.
pub open spec fn first_where(
    displays: Seq<DisplayView>,
    wanted: spec_fn(DisplayView) -> bool,
) -> Option<DisplayView>
    decreases displays.len(),
{
    if displays.len() == 0 {
        None
    } else if wanted(displays[0]) {
        Some(displays[0])
    } else {
        first_where(displays.skip(1), wanted)
    }
}

pub proof fn lemma_first_where(
    displays: Seq<DisplayView>,
    wanted: spec_fn(DisplayView) -> bool,
    at: int,
)
    requires
        0 <= at <= displays.len(),
        forall|i: int| 0 <= i < at ==> !wanted(#[trigger] displays[i]),
    ensures
        at < displays.len() && wanted(displays[at]) ==> first_where(displays, wanted) == Some(
            displays[at],
        ),
        at == displays.len() ==> first_where(displays, wanted) is None,
    decreases displays.len(),
{
    if at > 0 {
        assert forall|i: int| 0 <= i < at - 1 implies !wanted(#[trigger] displays.skip(1)[i]) by {
            assert(displays.skip(1)[i] == displays[i + 1]);
        }
        lemma_first_where(displays.skip(1), wanted, at - 1);
    }
}

/// The display to capture: the requested one if it is there, else the primary
/// one, else the first.
pub open spec fn chosen(displays: Seq<DisplayView>, requested: Option<DisplayId>) -> Option<
    DisplayView,
> {
    let by_id = match requested {
        Some(id) => first_where(displays, |display: DisplayView| display.id == id),
        None => None,
    };
    let primary = first_where(displays, |display: DisplayView| display.primary);
    if by_id is Some {
        by_id
    } else if primary is Some {
        primary
    } else if displays.len() > 0 {
        Some(displays[0])
    } else {
        None
    }
}

fn find_id(displays: &Vec<Display>, id: DisplayId) -> (found: Option<usize>)
    ensures
        ({
            let first = first_where(
                display_views(displays@),
                |display: DisplayView| display.id == id,
            );
            match found {
                Some(at) => at < displays@.len() && first == Some(displays@[at as int]@),
                None => first is None,
            }
        }),
{
    let ghost views = display_views(displays@);
    let ghost wanted = |display: DisplayView| display.id == id;
    let mut at: usize = 0;
    while at < displays.len() && displays[at].id != id
        invariant
            at <= displays@.len(),
            views == display_views(displays@),
            wanted == (|display: DisplayView| display.id == id),
            forall|i: int| 0 <= i < at ==> !wanted(#[trigger] views[i]),
        decreases displays@.len() - at,
    {
        at += 1;
    }
    proof {
        lemma_first_where(views, wanted, at as int);
    }
    if at < displays.len() {
        Some(at)
    } else {
        None
    }
}

fn find_primary(displays: &Vec<Display>) -> (found: Option<usize>)
    ensures
        ({
            let first = first_where(
                display_views(displays@),
                |display: DisplayView| display.primary,
            );
            match found {
                Some(at) => at < displays@.len() && first == Some(displays@[at as int]@),
                None => first is None,
            }
        }),
{
    let ghost views = display_views(displays@);
    let ghost wanted = |display: DisplayView| display.primary;
    let mut at: usize = 0;
    while at < displays.len() && !displays[at].primary
        invariant
            at <= displays@.len(),
            views == display_views(displays@),
            wanted == (|display: DisplayView| display.primary),
            forall|i: int| 0 <= i < at ==> !wanted(#[trigger] views[i]),
        decreases displays@.len() - at,
    {
        at += 1;
    }
    proof {
        lemma_first_where(views, wanted, at as int);
    }
    if at < displays.len() {
        Some(at)
    } else {
        None
    }
}

/// Chooses the display to capture; there is none only if the list is empty.
pub fn choose_display(displays: &Vec<Display>, requested: Option<DisplayId>) -> (choice: Option<
    Display,
>)
    ensures
        match chosen(display_views(displays@), requested) {
            Some(view) => choice is Some && choice->Some_0@ == view,
            None => choice is None,
        },
        choice is None <==> displays@.len() == 0,
{
    proof {
        lemma_chosen(display_views(displays@), requested);
    }
    let by_id = match requested {
        Some(id) => find_id(displays, id),
        None => None,
    };
    match by_id {
        Some(at) => Some(displays[at].clone()),
        None => match find_primary(displays) {
            Some(at) => Some(displays[at].clone()),
            None => if displays.len() > 0 {
                assert(display_views(displays@)[0] == displays@[0]@);
                Some(displays[0].clone())
            } else {
                None
            },
        },
    }
}

proof fn lemma_chosen(displays: Seq<DisplayView>, requested: Option<DisplayId>)
    ensures
        chosen(displays, requested) is None <==> displays.len() == 0,
{
    if displays.len() == 0 {
        if let Some(id) = requested {
            lemma_first_where(displays, |display: DisplayView| display.id == id, 0);
        }
        lemma_first_where(displays, |display: DisplayView| display.primary, 0);
    }
}

/// Finds the display an input helper is asked to serve.
pub fn find_display(displays: &Vec<Display>, id: DisplayId) -> (found: Option<Display>)
    ensures
        match first_where(display_views(displays@), |display: DisplayView| display.id == id) {
            Some(view) => found is Some && found->Some_0@ == view,
            None => found is None,
        },
{
    match find_id(displays, id) {
        Some(at) => Some(displays[at].clone()),
        None => None,
    }
}

/// The display that is asked for is captured wherever it is there. Otherwise, or
/// where none is asked for, it is the primary one, the first of them; without a
/// primary one, the first of all; and there is none to capture only where there is
/// no display.
pub proof fn asked_for_displays_are_captured(
    displays: Seq<DisplayView>,
    requested: Option<DisplayId>,
    at: int,
)
    requires
        0 <= at < displays.len(),
    ensures
        requested == Some(displays[at].id) && (forall|i: int|
            0 <= i < at ==> #[trigger] displays[i].id != displays[at].id) ==> chosen(
            displays,
            requested,
        ) == Some(displays[at]),
        (requested is None || forall|i: int|
            0 <= i < displays.len() ==> Some(#[trigger] displays[i].id) != requested)
            && displays[at].primary && (forall|i: int|
            0 <= i < at ==> !(#[trigger] displays[i].primary)) ==> chosen(displays, requested)
            == Some(displays[at]),
        (requested is None || forall|i: int|
            0 <= i < displays.len() ==> Some(#[trigger] displays[i].id) != requested) && (forall|
            i: int,
        |
            0 <= i < displays.len() ==> !(#[trigger] displays[i].primary)) ==> chosen(
            displays,
            requested,
        ) == Some(displays[0]),
        chosen(displays, requested) is Some,
        chosen(seq![], requested) is None,
{
    let primary = |display: DisplayView| display.primary;
    if let Some(id) = requested {
        let by_id = |display: DisplayView| display.id == id;
        if displays[at].id == id && forall|i: int| 0 <= i < at ==> #[trigger] displays[i].id != id {
            lemma_first_where(displays, by_id, at);
        }
        if forall|i: int| 0 <= i < displays.len() ==> Some(#[trigger] displays[i].id) != requested {
            assert forall|i: int| 0 <= i < displays.len() implies !by_id(#[trigger] displays[i]) by {
                assert(Some(displays[i].id) != requested);
            }
            lemma_first_where(displays, by_id, displays.len() as int);
        }
    }
    if displays[at].primary && forall|i: int|
        0 <= i < at ==> !(#[trigger] displays[i].primary) {
        lemma_first_where(displays, primary, at);
    }
    if forall|i: int| 0 <= i < displays.len() ==> !(#[trigger] displays[i].primary) {
        lemma_first_where(displays, primary, displays.len() as int);
    }
}

/// A session of Remote Desktop has its number, and no other session has one.
pub proof fn only_remote_sessions_have_numbers(session: SessionView, id: u32, user: Seq<char>)
    ensures
        session.rdp() is Some <==> session is Rdp,
        session.rdp() == Some(id) ==> session->Rdp_id == id,
        (SessionView::Rdp { id, user }).rdp() == Some(id),
{
}

} // verus!
