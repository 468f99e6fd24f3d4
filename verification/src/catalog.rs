//! The displays a viewer can choose from: the console's monitors, the
//! background desktop, and the monitors of Remote Desktop sessions.
use crate::helper::DesktopTarget;
use crate::model;
use crate::model::{
    DesktopSession, Display, DisplayId, DisplayView, SessionView, StartedDesktop, StartedView,
};
use vstd::prelude::*;

verus! {

/// The local id under which a session lists all its monitors together.
pub const LOCAL_ALL_MONITORS: u32 = 0xffff_fffe;

/// The first id of Remote Desktop displays.
pub const FIRST_RDP_DISPLAY: u32 = 0x8000_0000;

/// The first of the ids that stand for no display, all monitors and the
/// background.
pub const FIRST_RESERVED_DISPLAY: u32 = 0xffff_fffd;

/// The byte for a monitor inside a session's ids.
pub open spec fn local_code(local: DisplayId) -> u32 {
    if local.0 == LOCAL_ALL_MONITORS {
        255
    } else {
        local.0
    }
}

/// Whether a monitor of a session gets an id: sessions and monitors are bounded
/// so that ids stay apart.
pub open spec fn rdp_addressable(session: u32, local: DisplayId) -> bool {
    session < 0x7fff && (local.0 < 255 || local.0 == LOCAL_ALL_MONITORS)
}

/// The id of a session's monitor.
pub open spec fn rdp_id(session: u32, local: DisplayId) -> DisplayId {
    DisplayId((FIRST_RDP_DISPLAY | (session << 8)) | local_code(local))
}

pub fn rdp_display_id(session: u32, local: DisplayId) -> (id: DisplayId)
    ensures
        id == rdp_id(session, local),
{
    let code: u32 = if local.0 == LOCAL_ALL_MONITORS {
        255
    } else {
        local.0
    };
    DisplayId((0x8000_0000u32 | (session << 8u32)) | code)
}

/// For monitors that get ids, the id is the session and the monitor side by
/// side.
pub proof fn lemma_rdp_id_value(session: u32, local: DisplayId)
    requires
        rdp_addressable(session, local),
    ensures
        rdp_id(session, local).0 == 0x8000_0000 + 256 * session + local_code(local),
{
    let code = local_code(local);
    assert((0x8000_0000u32 | (session << 8u32)) | code == 0x8000_0000u32 + 256 * session + code)
        by (bit_vector)
        requires
            session < 0x7fff,
            code <= 255,
    ;
}

/// Ids of Remote Desktop displays are stable and apart: from each other, from
/// the console's, and from the ids that are reserved.
pub proof fn rdp_ids_do_not_alias(
    session: u32,
    local: DisplayId,
    other_session: u32,
    other_local: DisplayId,
)
    requires
        rdp_addressable(session, local),
        rdp_addressable(other_session, other_local),
    ensures
        rdp_id(session, local) == rdp_id(other_session, other_local) <==> session == other_session
            && local == other_local,
        FIRST_RDP_DISPLAY <= rdp_id(session, local).0 < FIRST_RESERVED_DISPLAY,
{
    lemma_rdp_id_value(session, local);
    lemma_rdp_id_value(other_session, other_local);
}

/// A display of a session, and the id it has inside that session.
#[derive(Debug)]
pub struct SessionDisplay {
    pub display: Display,
    pub local: DisplayId,
}

pub struct SessionDisplayView {
    pub display: DisplayView,
    pub local: DisplayId,
}

impl View for SessionDisplay {
    type V = SessionDisplayView;

    open spec fn view(&self) -> SessionDisplayView {
        SessionDisplayView { display: self.display@, local: self.local }
    }
}

pub open spec fn session_views(displays: Seq<SessionDisplay>) -> Seq<SessionDisplayView> {
    displays.map_values(|display: SessionDisplay| display@)
}

/// A signed-in Remote Desktop user and the monitors of that session, unless
/// they could not be listed.
#[derive(Debug)]
pub struct ActiveSession {
    pub id: u32,
    pub user: String,
    pub displays: Option<Vec<Display>>,
}

pub struct ActiveSessionView {
    pub id: u32,
    pub user: Seq<char>,
    pub displays: Option<Seq<DisplayView>>,
}

impl View for ActiveSession {
    type V = ActiveSessionView;

    open spec fn view(&self) -> ActiveSessionView {
        ActiveSessionView {
            id: self.id,
            user: self.user@,
            displays: match self.displays {
                Some(displays) => Some(model::display_views(displays@)),
                None => None,
            },
        }
    }
}

pub open spec fn active_views(sessions: Seq<ActiveSession>) -> Seq<ActiveSessionView> {
    sessions.map_values(|session: ActiveSession| session@)
}

/// The display that a monitor of a session is offered as.
pub open spec fn offered(display: DisplayView, session: SessionView, id: u32) -> DisplayView {
    DisplayView { session, id: rdp_id(id, display.id), ..display }
}

/// The monitors of a session that get ids, as they are offered.
pub open spec fn offered_displays(displays: Seq<DisplayView>, id: u32, user: Seq<char>) -> Seq<
    SessionDisplayView,
>
    decreases displays.len(),
{
    if displays.len() == 0 {
        seq![]
    } else {
        let before = offered_displays(displays.drop_last(), id, user);
        let display = displays.last();
        if rdp_addressable(id, display.id) {
            before.push(
                SessionDisplayView {
                    display: offered(display, SessionView::Rdp { id, user }, id),
                    local: display.id,
                },
            )
        } else {
            before
        }
    }
}

pub open spec fn has_session(sessions: Seq<ActiveSessionView>, id: u32) -> bool {
    exists|i: int| 0 <= i < sessions.len() && (#[trigger] sessions[i]).id == id
}

/// The displays that satisfy a condition, in order.
pub open spec fn keep(
    displays: Seq<SessionDisplayView>,
    wanted: spec_fn(SessionDisplayView) -> bool,
) -> Seq<SessionDisplayView>
    decreases displays.len(),
{
    if displays.len() == 0 {
        seq![]
    } else if wanted(displays.last()) {
        keep(displays.drop_last(), wanted).push(displays.last())
    } else {
        keep(displays.drop_last(), wanted)
    }
}

pub open spec fn still_active(sessions: Seq<ActiveSessionView>) -> spec_fn(
    SessionDisplayView,
) -> bool {
    |entry: SessionDisplayView|
        match entry.display.session.rdp() {
            Some(id) => has_session(sessions, id),
            None => false,
        }
}

pub open spec fn of_other_session(id: u32) -> spec_fn(SessionDisplayView) -> bool {
    |entry: SessionDisplayView| entry.display.session.rdp() != Some(id)
}

/// The offered displays after the first `count` active sessions have been
/// brought up to date.
pub open spec fn refreshed(
    displays: Seq<SessionDisplayView>,
    sessions: Seq<ActiveSessionView>,
    count: nat,
) -> Seq<SessionDisplayView>
    decreases count,
{
    if count == 0 || count > sessions.len() {
        keep(displays, still_active(sessions))
    } else {
        let before = refreshed(displays, sessions, (count - 1) as nat);
        let session = sessions[count - 1];
        match session.displays {
            Some(listed) => keep(before, of_other_session(session.id)) + offered_displays(
                listed,
                session.id,
                session.user,
            ),
            None => before,
        }
    }
}

fn session_is_active(sessions: &Vec<ActiveSession>, id: u32) -> (active: bool)
    ensures
        active == has_session(active_views(sessions@), id),
{
    let ghost views = active_views(sessions@);
    let mut next: usize = 0;
    while next < sessions.len()
        invariant
            next <= sessions@.len(),
            views == active_views(sessions@),
            forall|i: int| 0 <= i < next ==> (#[trigger] views[i]).id != id,
        decreases sessions@.len() - next,
    {
        if sessions[next].id == id {
            assert(views[next as int].id == id);
            return true;
        }
        next += 1;
    }
    false
}

/// Which displays stay.
enum Wanted<'a> {
    /// Those of sessions that are active.
    Active(&'a Vec<ActiveSession>),
    /// Those that are not of this session.
    NotOf(u32),
    /// Those that are not of exactly this sign-in.
    NotExactly(&'a DesktopSession),
}

pub open spec fn of_other_sign_in(session: SessionView) -> spec_fn(SessionDisplayView) -> bool {
    |entry: SessionDisplayView| entry.display.session != session
}

impl<'a> Wanted<'a> {
    spec fn condition(self) -> spec_fn(SessionDisplayView) -> bool {
        match self {
            Wanted::Active(sessions) => still_active(active_views(sessions@)),
            Wanted::NotOf(id) => of_other_session(id),
            Wanted::NotExactly(session) => of_other_sign_in(session@),
        }
    }

    fn holds(&self, entry: &SessionDisplay) -> (holds: bool)
        ensures
            holds == (self.condition())(entry@),
    {
        match self {
            Wanted::Active(sessions) => match entry.display.session.rdp_session() {
                Some(id) => session_is_active(sessions, id),
                None => false,
            },
            Wanted::NotOf(id) => match entry.display.session.rdp_session() {
                Some(other) => other != *id,
                None => true,
            },
            Wanted::NotExactly(session) => !entry.display.session.same(session),
        }
    }
}

fn retain(displays: &mut Vec<SessionDisplay>, wanted: Wanted)
    ensures
        session_views(final(displays)@) == keep(session_views(old(displays)@), wanted.condition()),
{
    let ghost all = displays@;
    let ghost views = session_views(all);
    let mut kept: Vec<SessionDisplay> = Vec::new();
    let mut next: usize = 0;
    let count: usize = displays.len();
    assert(session_views(kept@) =~= keep(views.take(0), wanted.condition()));
    while next < count
        invariant
            next <= count,
            count == all.len(),
            views == session_views(all),
            displays@ == all.skip(next as int),
            session_views(kept@) == keep(views.take(next as int), wanted.condition()),
        decreases count - next,
    {
        let entry = displays.remove(0);
        assert(displays@ =~= all.skip(next + 1));
        assert(views.take(next + 1).drop_last() =~= views.take(next as int));
        assert(views[next as int] == entry@);
        if wanted.holds(&entry) {
            let ghost before = kept@;
            kept.push(entry);
            assert(session_views(kept@) =~= session_views(before).push(entry@));
        }
        next += 1;
    }
    assert(views.take(count as int) =~= views);
    *displays = kept;
}

fn offer(displays: &mut Vec<SessionDisplay>, listed: &Vec<Display>, id: u32, user: &String)
    ensures
        session_views(final(displays)@) == session_views(old(displays)@) + offered_displays(
            model::display_views(listed@),
            id,
            user@,
        ),
{
    let ghost views = model::display_views(listed@);
    let mut next: usize = 0;
    assert(session_views(displays@) =~= session_views(old(displays)@) + offered_displays(
        views.take(0),
        id,
        user@,
    ));
    while next < listed.len()
        invariant
            next <= listed@.len(),
            views == model::display_views(listed@),
            session_views(displays@) == session_views(old(displays)@) + offered_displays(
                views.take(next as int),
                id,
                user@,
            ),
        decreases listed@.len() - next,
    {
        let local = listed[next].id;
        let ghost before = displays@;
        assert(views.take(next + 1).drop_last() =~= views.take(next as int));
        assert(views[next as int] == listed@[next as int]@);
        if id < 0x7fff && (local.0 < 255 || local.0 == LOCAL_ALL_MONITORS) {
            let mut display = listed[next].clone();
            display.id = rdp_display_id(id, local);
            display.session = DesktopSession::Rdp { id, user: user.clone() };
            displays.push(SessionDisplay { display, local });
            assert(session_views(displays@) =~= session_views(before).push(
                displays@[displays@.len() - 1]@,
            ));
        }
        assert(session_views(displays@) =~= session_views(old(displays)@) + offered_displays(
            views.take(next + 1),
            id,
            user@,
        ));
        next += 1;
    }
    assert(views.take(next as int) =~= views);
}

/// What the coordinator knows of displays, and which of them it shows.
#[derive(Debug)]
pub struct Catalog {
    pub console: Vec<Display>,
    pub sessions: Vec<SessionDisplay>,
    pub selected_session: Option<u32>,
    pub background_active: bool,
    /// The ids on the wire of the displays that are shown, with the ids that
    /// the helpers know them by. Empty where both are the same.
    pub routes: Vec<(DisplayId, DisplayId)>,
    /// The desktop that capture last ran on.
    pub preferred: Option<DesktopTarget>,
}

pub struct CatalogView {
    pub console: Seq<DisplayView>,
    pub sessions: Seq<SessionDisplayView>,
    pub selected_session: Option<u32>,
    pub background_active: bool,
    pub routes: Seq<(DisplayId, DisplayId)>,
    pub preferred: Option<DesktopTarget>,
}

impl View for Catalog {
    type V = CatalogView;

    open spec fn view(&self) -> CatalogView {
        CatalogView {
            console: model::display_views(self.console@),
            sessions: session_views(self.sessions@),
            selected_session: self.selected_session,
            background_active: self.background_active,
            routes: self.routes@,
            preferred: self.preferred,
        }
    }
}

impl Catalog {
    pub fn new() -> (catalog: Self)
        ensures
            catalog@ == (CatalogView {
                console: seq![],
                sessions: seq![],
                selected_session: None,
                background_active: false,
                routes: seq![],
                preferred: None,
            }),
    {
        let catalog = Catalog {
            console: Vec::new(),
            sessions: Vec::new(),
            selected_session: None,
            background_active: false,
            routes: Vec::new(),
            preferred: None,
        };
        assert(model::display_views(catalog.console@) =~= seq![]);
        assert(session_views(catalog.sessions@) =~= seq![]);
        catalog
    }

    /// Brings the offered displays up to date with the sessions that are
    /// active: those of others go, and a session whose monitors could be listed
    /// shows them anew.
    pub fn refresh_sessions(&mut self, sessions: &Vec<ActiveSession>)
        ensures
            final(self)@ == (CatalogView {
                sessions: refreshed(
                    old(self)@.sessions,
                    active_views(sessions@),
                    sessions@.len(),
                ),
                ..old(self)@
            }),
    {
        let ghost views = active_views(sessions@);
        let ghost before = session_views(self.sessions@);
        let ghost original = self@;
        retain(&mut self.sessions, Wanted::Active(sessions));
        let mut next: usize = 0;
        while next < sessions.len()
            invariant
                next <= sessions@.len(),
                views == active_views(sessions@),
                self@ == (CatalogView {
                    sessions: refreshed(before, views, next as nat),
                    ..original
                }),
            decreases sessions@.len() - next,
        {
            let session = &sessions[next];
            assert(views[next as int] == session@);
            if let Some(listed) = &session.displays {
                retain(&mut self.sessions, Wanted::NotOf(session.id));
                offer(&mut self.sessions, listed, session.id, &session.user);
            }
            next += 1;
        }
    }

    /// Whether the console's monitors have to be listed before `record_started`.
    pub fn lacks_console(&self, started: &StartedDesktop) -> (lacks: bool)
        ensures
            lacks == (console_after(self@, started@).len() == 0),
    {
        if self.selected_session.is_none() && !self.background_active {
            started.displays.len() == 0
        } else {
            self.console.len() == 0
        }
    }

    /// Takes over what a started capture reports, and completes it to what the
    /// viewer is offered: the console's monitors, the background desktop, and
    /// the Remote Desktop sessions. `listed` are the console's monitors, used
    /// where none are known.
    pub fn record_started(
        &mut self,
        started: StartedDesktop,
        background: Display,
        listed: Vec<Display>,
    ) -> (offered: StartedDesktop)
        ensures
            final(self)@ == catalog_after(old(self)@, started@, model::display_views(listed@)),
            offered@ == started_after(
                old(self)@,
                started@,
                background@,
                model::display_views(listed@),
            ),
    {
        let ghost original = self@;
        let ghost reported = started@;
        let mut started = started;
        let mut routes: Vec<(DisplayId, DisplayId)> = Vec::new();
        match self.selected_session {
            Some(id) => {
                if let Some(session) = self.sign_in(id) {
                    retain(&mut self.sessions, Wanted::NotExactly(&session));
                    self.map_displays(&mut started, id, &session, &mut routes);
                }
            },
            None => {
                if !self.background_active {
                    self.console = clone_displays(&started.displays);
                }
            },
        }
        assert(self@.console == console_after(original, reported));
        if self.console.len() == 0 {
            self.console = listed;
        }
        self.routes = routes;
        let mut displays = clone_displays(&self.console);
        displays.push(background);
        assert(model::display_views(displays@) =~= self@.console.push(background@));
        append_session_displays(&mut displays, &self.sessions);
        started.displays = displays;
        started
    }

    /// The first known sign-in of a session.
    fn sign_in(&self, id: u32) -> (session: Option<DesktopSession>)
        ensures
            match session {
                Some(found) => sign_in_of(self@.sessions, id) == Some(found@),
                None => sign_in_of(self@.sessions, id) is None,
            },
    {
        let ghost views = session_views(self.sessions@);
        let mut next: usize = 0;
        assert(views.skip(0) =~= views);
        while next < self.sessions.len()
            invariant
                next <= self.sessions@.len(),
                views == session_views(self.sessions@),
                sign_in_of(views, id) == sign_in_of(views.skip(next as int), id),
            decreases self.sessions@.len() - next,
        {
            assert(views.skip(next as int)[0] == self.sessions@[next as int]@);
            assert(views.skip(next as int).skip(1) =~= views.skip(next + 1));
            if let Some(found) = self.sessions[next].display.session.rdp_session() {
                if found == id {
                    return Some(self.sessions[next].display.session.clone());
                }
            }
            next += 1;
        }
        None
    }

    fn map_displays(
        &mut self,
        started: &mut StartedDesktop,
        id: u32,
        session: &DesktopSession,
        routes: &mut Vec<(DisplayId, DisplayId)>,
    )
        requires
            old(routes)@.len() == 0,
        ensures
            final(started).format == old(started).format,
            final(started).displays@ == old(started).displays@,
            final(started).active_display@ == mapped_active(
                old(started)@.displays,
                old(started)@.active_display,
                session@,
                id,
            ),
            final(routes)@ == mapped_routes(old(started)@.displays, id),
            final(self)@ == (CatalogView {
                sessions: old(self)@.sessions + mapped_displays(
                    old(started)@.displays,
                    session@,
                    id,
                ),
                ..old(self)@
            }),
    {
        let ghost views = model::display_views(started.displays@);
        let ghost original = self@;
        let mut next: usize = 0;
        assert(self@.sessions =~= original.sessions + mapped_displays(views.take(0), session@, id));
        while next < started.displays.len()
            invariant
                next <= started.displays@.len(),
                started.format == old(started).format,
                started.displays@ == old(started).displays@,
                views == model::display_views(old(started).displays@),
                started.active_display@ == mapped_active(
                    views.take(next as int),
                    old(started)@.active_display,
                    session@,
                    id,
                ),
                routes@ == mapped_routes(views.take(next as int), id),
                self@ == (CatalogView {
                    sessions: original.sessions + mapped_displays(
                        views.take(next as int),
                        session@,
                        id,
                    ),
                    ..original
                }),
            decreases started.displays@.len() - next,
        {
            let mut display = started.displays[next].clone();
            let local = display.id;
            assert(views.take(next + 1).drop_last() =~= views.take(next as int));
            assert(views[next as int] == started.displays@[next as int]@);
            display.id = rdp_display_id(id, local);
            display.session = session.clone();
            routes.push((display.id, local));
            if local == started.active_display.id {
                started.active_display = display.clone();
            }
            let ghost before = self.sessions@;
            self.sessions.push(SessionDisplay { display, local });
            assert(session_views(self.sessions@) =~= session_views(before).push(
                self.sessions@[self.sessions@.len() - 1]@,
            ));
            assert(self@.sessions =~= original.sessions + mapped_displays(
                views.take(next + 1),
                session@,
                id,
            ));
            next += 1;
        }
        assert(views.take(next as int) =~= views);
    }
}

fn clone_displays(displays: &Vec<Display>) -> (copies: Vec<Display>)
    ensures
        model::display_views(copies@) == model::display_views(displays@),
{
    let mut copies: Vec<Display> = Vec::new();
    let mut next: usize = 0;
    while next < displays.len()
        invariant
            next <= displays@.len(),
            copies@.len() == next,
            forall|i: int| 0 <= i < next ==> (#[trigger] copies@[i])@ == displays@[i]@,
        decreases displays@.len() - next,
    {
        copies.push(displays[next].clone());
        next += 1;
    }
    assert(model::display_views(copies@) =~= model::display_views(displays@));
    copies
}

pub open spec fn displays_of(sessions: Seq<SessionDisplayView>) -> Seq<DisplayView> {
    sessions.map_values(|entry: SessionDisplayView| entry.display)
}

fn append_session_displays(displays: &mut Vec<Display>, sessions: &Vec<SessionDisplay>)
    ensures
        model::display_views(final(displays)@) == model::display_views(old(displays)@)
            + displays_of(session_views(sessions@)),
{
    let ghost views = displays_of(session_views(sessions@));
    let mut next: usize = 0;
    assert(model::display_views(displays@) =~= model::display_views(old(displays)@)
        + views.take(0));
    while next < sessions.len()
        invariant
            next <= sessions@.len(),
            views == displays_of(session_views(sessions@)),
            model::display_views(displays@) == model::display_views(old(displays)@) + views.take(
                next as int,
            ),
        decreases sessions@.len() - next,
    {
        let ghost before = displays@;
        displays.push(sessions[next].display.clone());
        assert(views[next as int] == sessions@[next as int].display@);
        assert(model::display_views(displays@) =~= model::display_views(before).push(
            views[next as int],
        ));
        assert(model::display_views(displays@) =~= model::display_views(old(displays)@)
            + views.take(next + 1));
        next += 1;
    }
    assert(views.take(next as int) =~= views);
}

/// The first known sign-in of a session.
pub open spec fn sign_in_of(sessions: Seq<SessionDisplayView>, id: u32) -> Option<SessionView>
    decreases sessions.len(),
{
    if sessions.len() == 0 {
        None
    } else if sessions[0].display.session.rdp() == Some(id) {
        Some(sessions[0].display.session)
    } else {
        sign_in_of(sessions.skip(1), id)
    }
}

/// The displays of the shown session, as they are offered.
pub open spec fn mapped_displays(displays: Seq<DisplayView>, session: SessionView, id: u32) -> Seq<
    SessionDisplayView,
>
    decreases displays.len(),
{
    if displays.len() == 0 {
        seq![]
    } else {
        mapped_displays(displays.drop_last(), session, id).push(
            SessionDisplayView {
                display: offered(displays.last(), session, id),
                local: displays.last().id,
            },
        )
    }
}

pub open spec fn mapped_routes(displays: Seq<DisplayView>, id: u32) -> Seq<(DisplayId, DisplayId)>
    decreases displays.len(),
{
    if displays.len() == 0 {
        seq![]
    } else {
        mapped_routes(displays.drop_last(), id).push(
            (rdp_id(id, displays.last().id), displays.last().id),
        )
    }
}

/// The active display of the shown session, as it is offered.
pub open spec fn mapped_active(
    displays: Seq<DisplayView>,
    active: DisplayView,
    session: SessionView,
    id: u32,
) -> DisplayView
    decreases displays.len(),
{
    if displays.len() == 0 {
        active
    } else {
        let before = mapped_active(displays.drop_last(), active, session, id);
        if displays.last().id == before.id {
            offered(displays.last(), session, id)
        } else {
            before
        }
    }
}

/// The console's monitors as a started capture leaves them: only a capture of
/// the console itself reports them.
pub open spec fn console_after(catalog: CatalogView, started: StartedView) -> Seq<DisplayView> {
    if catalog.selected_session is None && !catalog.background_active {
        started.displays
    } else {
        catalog.console
    }
}

pub open spec fn shown_sign_in(catalog: CatalogView) -> Option<SessionView> {
    match catalog.selected_session {
        Some(id) => sign_in_of(catalog.sessions, id),
        None => None,
    }
}

/// The catalog after a capture has started.
pub open spec fn catalog_after(
    catalog: CatalogView,
    started: StartedView,
    listed: Seq<DisplayView>,
) -> CatalogView {
    let console = console_after(catalog, started);
    CatalogView {
        console: if console.len() == 0 {
            listed
        } else {
            console
        },
        sessions: match shown_sign_in(catalog) {
            Some(session) => keep(catalog.sessions, of_other_sign_in(session)) + mapped_displays(
                started.displays,
                session,
                catalog.selected_session->Some_0,
            ),
            None => catalog.sessions,
        },
        routes: match shown_sign_in(catalog) {
            Some(session) => mapped_routes(started.displays, catalog.selected_session->Some_0),
            None => seq![],
        },
        ..catalog
    }
}

/// What the viewer is told once a capture has started.
pub open spec fn started_after(
    catalog: CatalogView,
    started: StartedView,
    background: DisplayView,
    listed: Seq<DisplayView>,
) -> StartedView {
    let after = catalog_after(catalog, started, listed);
    StartedView {
        format: started.format,
        displays: after.console.push(background) + displays_of(after.sessions),
        active_display: match shown_sign_in(catalog) {
            Some(session) => mapped_active(
                started.displays,
                started.active_display,
                session,
                catalog.selected_session->Some_0,
            ),
            None => started.active_display,
        },
    }
}

/// An entry of a session.
spec fn entry_of(id: u32) -> spec_fn(SessionDisplayView) -> bool {
    |entry: SessionDisplayView| entry.display.session.rdp() == Some(id)
}

proof fn lemma_keep(
    displays: Seq<SessionDisplayView>,
    wanted: spec_fn(SessionDisplayView) -> bool,
    id: u32,
)
    ensures
        forall|i: int|
            0 <= i < keep(displays, wanted).len() ==> wanted(#[trigger] keep(displays, wanted)[i])
                && displays.contains(keep(displays, wanted)[i]),
        (forall|entry: SessionDisplayView|
            entry.display.session.rdp() == Some(id) ==> #[trigger] wanted(entry)) ==> keep(
            displays,
            wanted,
        ).filter(entry_of(id)) == displays.filter(entry_of(id)),
        (forall|entry: SessionDisplayView|
            entry.display.session.rdp() == Some(id) ==> !(#[trigger] wanted(entry))) ==> keep(
            displays,
            wanted,
        ).filter(entry_of(id)) == Seq::<SessionDisplayView>::empty(),
    decreases displays.len(),
{
    reveal(Seq::filter);
    let kept = keep(displays, wanted);
    if displays.len() > 0 {
        let shorter = displays.drop_last();
        lemma_keep(shorter, wanted, id);
        let before = keep(shorter, wanted);
        if wanted(displays.last()) {
            assert(kept.drop_last() =~= before);
        }
        assert forall|i: int| 0 <= i < kept.len() implies wanted(#[trigger] kept[i])
            && displays.contains(kept[i]) by {
            if i < before.len() {
                assert(kept[i] == before[i]);
                let at = choose|at: int| 0 <= at < shorter.len() && shorter[at] == before[i];
                assert(displays[at] == kept[i]);
            } else {
                assert(displays[displays.len() - 1] == kept[i]);
            }
        }
    }
}

/// A monitor of a session as it is offered: under an id made of the session and
/// the monitor, and as the user's.
spec fn as_offered(id: u32, user: Seq<char>) -> spec_fn(DisplayView) -> SessionDisplayView {
    |display: DisplayView|
        SessionDisplayView {
            display: DisplayView {
                session: SessionView::Rdp { id, user },
                id: DisplayId(
                    (0x8000_0000 + 256 * id + (if display.id.0 == 0xffff_fffe {
                        255
                    } else {
                        display.id.0 as int
                    })) as u32,
                ),
                name: display.name,
                x: display.x,
                y: display.y,
                width: display.width,
                height: display.height,
                primary: display.primary,
            },
            local: display.id,
        }
}

spec fn gets_an_id(id: u32) -> spec_fn(DisplayView) -> bool {
    |display: DisplayView|
        id < 0x7fff && (display.id.0 < 255 || display.id.0 == 0xffff_fffe)
}

proof fn lemma_offered(listed: Seq<DisplayView>, id: u32, user: Seq<char>, other: u32)
    ensures
        offered_displays(listed, id, user) == listed.filter(gets_an_id(id)).map_values(
            as_offered(id, user),
        ),
        offered_displays(listed, id, user).filter(entry_of(id)) == offered_displays(
            listed,
            id,
            user,
        ),
        other != id ==> offered_displays(listed, id, user).filter(entry_of(other)) == Seq::<
            SessionDisplayView,
        >::empty(),
        forall|i: int|
            0 <= i < offered_displays(listed, id, user).len() ==> (#[trigger] offered_displays(
                listed,
                id,
                user,
            )[i]).display.session.rdp() == Some(id),
    decreases listed.len(),
{
    reveal(Seq::filter);
    if listed.len() > 0 {
        let shorter = listed.drop_last();
        let before = offered_displays(shorter, id, user);
        let all = offered_displays(listed, id, user);
        lemma_offered(shorter, id, user, other);
        let display = listed.last();
        if rdp_addressable(id, display.id) {
            lemma_rdp_id_value(id, display.id);
            assert(all.drop_last() =~= before);
            assert(all =~= listed.filter(gets_an_id(id)).map_values(as_offered(id, user)));
            assert(all.filter(entry_of(id)) =~= all);
        }
    } else {
        assert(offered_displays(listed, id, user) =~= listed.filter(gets_an_id(id)).map_values(
            as_offered(id, user),
        ));
    }
}

proof fn lemma_refreshed_active(
    displays: Seq<SessionDisplayView>,
    sessions: Seq<ActiveSessionView>,
    count: nat,
)
    requires
        count <= sessions.len(),
    ensures
        forall|i: int|
            0 <= i < refreshed(displays, sessions, count).len() ==> exists|j: int|
                0 <= j < sessions.len() && (#[trigger] refreshed(
                    displays,
                    sessions,
                    count,
                )[i]).display.session.rdp() == Some((#[trigger] sessions[j]).id),
    decreases count,
{
    if count == 0 {
        lemma_keep(displays, still_active(sessions), 0);
    } else {
        lemma_refreshed_active(displays, sessions, (count - 1) as nat);
        let before = refreshed(displays, sessions, (count - 1) as nat);
        let after = refreshed(displays, sessions, count);
        let session = sessions[count - 1];
        if let Some(listed) = session.displays {
            let kept = keep(before, of_other_session(session.id));
            let shown = offered_displays(listed, session.id, session.user);
            lemma_keep(before, of_other_session(session.id), 0);
            lemma_offered(listed, session.id, session.user, 0);
            assert forall|i: int| 0 <= i < after.len() implies exists|j: int|
                0 <= j < sessions.len() && (#[trigger] after[i]).display.session.rdp() == Some(
                    (#[trigger] sessions[j]).id,
                ) by {
                if i < kept.len() {
                    assert(after[i] == kept[i]);
                    let at = choose|at: int| 0 <= at < before.len() && before[at] == kept[i];
                    assert(before[at] == after[i]);
                } else {
                    assert(after[i] == shown[i - kept.len()]);
                    assert(after[i].display.session.rdp() == Some(sessions[count - 1].id));
                }
            }
        }
    }
}

/// Only users who are signed in are offered: after a refresh every Remote
/// Desktop display belongs to a session that is active.
pub proof fn only_active_sessions_are_offered(
    displays: Seq<SessionDisplayView>,
    sessions: Seq<ActiveSessionView>,
    at: int,
)
    requires
        0 <= at < refreshed(displays, sessions, sessions.len()).len(),
    ensures
        refreshed(displays, sessions, sessions.len())[at].display.session matches SessionView::Rdp {
            id,
            ..
        } && exists|i: int| 0 <= i < sessions.len() && (#[trigger] sessions[i]).id == id,
{
    lemma_refreshed_active(displays, sessions, sessions.len());
    let entry = refreshed(displays, sessions, sessions.len())[at];
    let j = choose|j: int|
        0 <= j < sessions.len() && entry.display.session.rdp() == Some((#[trigger] sessions[j]).id);
    assert(sessions[j].id == entry.display.session->id);
}

proof fn lemma_refreshed_entries(
    displays: Seq<SessionDisplayView>,
    sessions: Seq<ActiveSessionView>,
    count: nat,
    id: u32,
    listed_at: int,
)
    requires
        count <= sessions.len(),
        -1 <= listed_at < count,
        exists|i: int| 0 <= i < sessions.len() && (#[trigger] sessions[i]).id == id,
        listed_at >= 0 ==> sessions[listed_at].id == id && sessions[listed_at].displays is Some,
        forall|i: int|
            listed_at < i < count && (#[trigger] sessions[i]).id == id ==> sessions[i].displays
                is None,
    ensures
        refreshed(displays, sessions, count).filter(entry_of(id)) == (if listed_at < 0 {
            displays.filter(entry_of(id))
        } else {
            sessions[listed_at].displays->Some_0.filter(gets_an_id(id)).map_values(
                as_offered(id, sessions[listed_at].user),
            )
        }),
    decreases count,
{
    if count == 0 {
        lemma_keep(displays, still_active(sessions), id);
        assert forall|entry: SessionDisplayView|
            entry.display.session.rdp() == Some(id) implies #[trigger] (still_active(sessions))(
            entry,
        ) by {
            assert(has_session(sessions, id));
        }
    } else {
        let session = sessions[count - 1];
        let before = refreshed(displays, sessions, (count - 1) as nat);
        if listed_at < count - 1 {
            lemma_refreshed_entries(displays, sessions, (count - 1) as nat, id, listed_at);
        }
        if let Some(listed) = session.displays {
            let kept = keep(before, of_other_session(session.id));
            let shown = offered_displays(listed, session.id, session.user);
            lemma_keep(before, of_other_session(session.id), id);
            lemma_offered(listed, session.id, session.user, id);
            Seq::filter_distributes_over_add(kept, shown, entry_of(id));
            if session.id == id {
                assert(kept.filter(entry_of(id)) + shown.filter(entry_of(id)) =~= shown);
            } else {
                assert(kept.filter(entry_of(id)) + shown.filter(entry_of(id)) =~= kept.filter(
                    entry_of(id),
                ));
            }
        }
    }
}

/// What a session offers is what was last listed of it: after a refresh the
/// displays of an active session are, in order and each once, the monitors that
/// the last listing of it found and that get an id, each under the id that the
/// session and the monitor make and with the user's name. A session that could
/// not be listed keeps the displays that it had.
pub proof fn sessions_offer_what_was_listed(
    displays: Seq<SessionDisplayView>,
    sessions: Seq<ActiveSessionView>,
    at: int,
)
    requires
        0 <= at < sessions.len(),
        forall|i: int|
            0 <= i < sessions.len() && i != at && (#[trigger] sessions[i]).id == sessions[at].id
                ==> i < at || sessions[i].displays is None,
        sessions[at].displays is None ==> forall|i: int|
            0 <= i < sessions.len() && (#[trigger] sessions[i]).id == sessions[at].id
                ==> sessions[i].displays is None,
    ensures
        ({
            let id = sessions[at].id;
            let of_session = |entry: SessionDisplayView|
                entry.display.session matches SessionView::Rdp { id: other, .. } && other == id;
            let after = refreshed(displays, sessions, sessions.len()).filter(of_session);
            match sessions[at].displays {
                None => after == displays.filter(of_session),
                Some(listed) => {
                    let addressed = listed.filter(
                        |display: DisplayView|
                            id < 0x7fff && (display.id.0 < 255 || display.id.0 == 0xffff_fffe),
                    );
                    &&& after.len() == addressed.len()
                    &&& forall|i: int|
                        0 <= i < after.len() ==> {
                            let entry = #[trigger] after[i];
                            let code = if addressed[i].id.0 == 0xffff_fffe {
                                255
                            } else {
                                addressed[i].id.0 as int
                            };
                            &&& entry.local == addressed[i].id
                            &&& entry.display.id.0 == 0x8000_0000 + 256 * id + code
                            &&& entry.display.session == (SessionView::Rdp {
                                id,
                                user: sessions[at].user,
                            })
                            &&& entry.display.name == addressed[i].name
                            &&& (entry.display.x, entry.display.y) == (
                                addressed[i].x,
                                addressed[i].y,
                            )
                            &&& (entry.display.width, entry.display.height) == (
                                addressed[i].width,
                                addressed[i].height,
                            )
                            &&& entry.display.primary == addressed[i].primary
                        }
                },
            }
        }),
{
    let id = sessions[at].id;
    let listed_at = if sessions[at].displays is Some {
        at
    } else {
        -1
    };
    lemma_refreshed_entries(displays, sessions, sessions.len(), id, listed_at);
    let of_session = |entry: SessionDisplayView|
        entry.display.session matches SessionView::Rdp { id: other, .. } && other == id;
    assert(of_session =~= entry_of(id));
    if let Some(listed) = sessions[at].displays {
        let with_id = |display: DisplayView|
            id < 0x7fff && (display.id.0 < 255 || display.id.0 == 0xffff_fffe);
        assert(with_id =~= gets_an_id(id));
        let addressed = listed.filter(with_id);
        assert forall|i: int| 0 <= i < addressed.len() implies #[trigger] with_id(addressed[i]) by {
            listed.lemma_filter_pred(with_id, i);
        }
        let after = refreshed(displays, sessions, sessions.len()).filter(of_session);
        assert forall|i: int| 0 <= i < after.len() implies (#[trigger] after[i]).display.id.0
            == 0x8000_0000 + 256 * id + (if addressed[i].id.0 == 0xffff_fffe {
            255
        } else {
            addressed[i].id.0 as int
        }) by {
            assert(with_id(addressed[i]));
        }
    }
}

/// A capture of the console shows the monitors that it reports, and one of
/// anything else leaves the console's as they were known; where none are known,
/// those listed stand for them. Behind them comes the background, and behind that
/// every session's. The desktop that is shown stays what it was.
pub proof fn starts_offer_everything(
    catalog: CatalogView,
    started: StartedView,
    background: DisplayView,
    listed: Seq<DisplayView>,
)
    ensures
        ({
            let after = catalog_after(catalog, started, listed);
            let told = started_after(catalog, started, background, listed);
            let at_console = catalog.selected_session is None && !catalog.background_active;
            &&& at_console && started.displays.len() > 0 ==> after.console == started.displays
            &&& at_console && started.displays.len() == 0 ==> after.console == listed
            &&& !at_console && catalog.console.len() > 0 ==> after.console == catalog.console
            &&& !at_console && catalog.console.len() == 0 ==> after.console == listed
            &&& after.selected_session == catalog.selected_session
            &&& after.background_active == catalog.background_active
            &&& after.preferred == catalog.preferred
            &&& catalog.selected_session is None ==> after.sessions == catalog.sessions
                && after.routes.len() == 0 && told.active_display == started.active_display
            &&& told.format == started.format
            &&& told.displays.len() == after.console.len() + 1 + after.sessions.len()
            &&& forall|i: int|
                0 <= i < after.console.len() ==> #[trigger] told.displays[i] == after.console[i]
            &&& told.displays[after.console.len() as int] == background
            &&& forall|i: int|
                0 <= i < after.sessions.len() ==> #[trigger] after.sessions[i].display
                    == told.displays[after.console.len() + 1 + i]
        }),
{
}

proof fn lemma_sign_in(sessions: Seq<SessionDisplayView>, at: int)
    requires
        0 <= at < sessions.len(),
        sessions[at].display.session.rdp() is Some,
        forall|i: int|
            0 <= i < at ==> #[trigger] sessions[i].display.session.rdp()
                != sessions[at].display.session.rdp(),
    ensures
        sign_in_of(sessions, sessions[at].display.session.rdp()->0) == Some(
            sessions[at].display.session,
        ),
    decreases at,
{
    if at > 0 {
        assert(sessions[0].display.session.rdp() != sessions[at].display.session.rdp());
        assert forall|i: int| 0 <= i < at - 1 implies #[trigger] sessions.skip(
            1,
        )[i].display.session.rdp() != sessions[at].display.session.rdp() by {
            assert(sessions[i + 1].display.session.rdp() != sessions[at].display.session.rdp());
        }
        lemma_sign_in(sessions.skip(1), at - 1);
    }
}

proof fn lemma_keep_is_filter(
    displays: Seq<SessionDisplayView>,
    wanted: spec_fn(SessionDisplayView) -> bool,
)
    ensures
        keep(displays, wanted) == displays.filter(wanted),
    decreases displays.len(),
{
    reveal(Seq::filter);
    if displays.len() > 0 {
        lemma_keep_is_filter(displays.drop_last(), wanted);
    }
}

proof fn lemma_mapped(displays: Seq<DisplayView>, session: SessionView, id: u32)
    ensures
        mapped_displays(displays, session, id) == displays.map_values(
            |display: DisplayView|
                SessionDisplayView {
                    display: DisplayView {
                        session,
                        id: rdp_id(id, display.id),
                        name: display.name,
                        x: display.x,
                        y: display.y,
                        width: display.width,
                        height: display.height,
                        primary: display.primary,
                    },
                    local: display.id,
                },
        ),
        mapped_routes(displays, id) == displays.map_values(
            |display: DisplayView| (rdp_id(id, display.id), display.id),
        ),
    decreases displays.len(),
{
    if displays.len() > 0 {
        lemma_mapped(displays.drop_last(), session, id);
        assert(displays =~= displays.drop_last().push(displays.last()));
        assert(mapped_displays(displays, session, id) =~= displays.map_values(
            |display: DisplayView|
                SessionDisplayView {
                    display: DisplayView {
                        session,
                        id: rdp_id(id, display.id),
                        name: display.name,
                        x: display.x,
                        y: display.y,
                        width: display.width,
                        height: display.height,
                        primary: display.primary,
                    },
                    local: display.id,
                },
        ));
        assert(mapped_routes(displays, id) =~= displays.map_values(
            |display: DisplayView| (rdp_id(id, display.id), display.id),
        ));
    } else {
        assert(mapped_displays(displays, session, id) =~= displays.map_values(
            |display: DisplayView|
                SessionDisplayView {
                    display: DisplayView {
                        session,
                        id: rdp_id(id, display.id),
                        name: display.name,
                        x: display.x,
                        y: display.y,
                        width: display.width,
                        height: display.height,
                        primary: display.primary,
                    },
                    local: display.id,
                },
        ));
        assert(mapped_routes(displays, id) =~= displays.map_values(
            |display: DisplayView| (rdp_id(id, display.id), display.id),
        ));
    }
}

/// A capture of a session whose user is known replaces what that user's session
/// offered by the monitors that it reports, each as the session's and under the
/// session's id for it, and leaves every other session alone; input for each goes
/// to the monitor that the helper knows by its own id.
pub proof fn session_captures_take_the_sessions_place(
    catalog: CatalogView,
    started: StartedView,
    listed: Seq<DisplayView>,
    at: int,
)
    requires
        0 <= at < catalog.sessions.len(),
        catalog.selected_session is Some,
        catalog.sessions[at].display.session.rdp() == catalog.selected_session,
        forall|i: int|
            0 <= i < at ==> #[trigger] catalog.sessions[i].display.session.rdp()
                != catalog.selected_session,
    ensures
        ({
            let id = catalog.selected_session->0;
            let session = catalog.sessions[at].display.session;
            let after = catalog_after(catalog, started, listed);
            let others = catalog.sessions.filter(
                |entry: SessionDisplayView| entry.display.session != session,
            );
            &&& after.sessions == others + started.displays.map_values(
                |display: DisplayView|
                    SessionDisplayView {
                        display: DisplayView {
                            session,
                            id: rdp_id(id, display.id),
                            name: display.name,
                            x: display.x,
                            y: display.y,
                            width: display.width,
                            height: display.height,
                            primary: display.primary,
                        },
                        local: display.id,
                    },
            )
            &&& after.routes == started.displays.map_values(
                |display: DisplayView| (rdp_id(id, display.id), display.id),
            )
        }),
{
    let id = catalog.selected_session->0;
    let session = catalog.sessions[at].display.session;
    lemma_sign_in(catalog.sessions, at);
    lemma_keep_is_filter(catalog.sessions, of_other_sign_in(session));
    assert(of_other_sign_in(session) =~= (|entry: SessionDisplayView|
        entry.display.session != session));
    lemma_mapped(started.displays, session, id);
}

/// The shown display of a session is told by the session's id for it, if the
/// capture reports it among the session's monitors.
pub proof fn shown_displays_are_the_sessions(
    displays: Seq<DisplayView>,
    active: DisplayView,
    session: SessionView,
    id: u32,
    at: int,
)
    requires
        id < 0x7fff,
        active.id.0 < 255,
        0 <= at < displays.len(),
        displays[at].id == active.id,
        forall|i: int|
            0 <= i < displays.len() ==> #[trigger] displays[i].id.0 < 255 && (i != at
                ==> displays[i].id != active.id),
    ensures
        mapped_active(displays, active, session, id).id == rdp_id(id, active.id),
        mapped_active(displays, active, session, id).session == session,
        mapped_active(displays, active, session, id).name == displays[at].name,
        mapped_active(displays, active, session, id).x == displays[at].x,
        mapped_active(displays, active, session, id).y == displays[at].y,
        mapped_active(displays, active, session, id).width == displays[at].width,
        mapped_active(displays, active, session, id).height == displays[at].height,
        mapped_active(displays, active, session, id).primary == displays[at].primary,
    decreases displays.len(),
{
    lemma_rdp_id_value(id, active.id);
    let shorter = displays.drop_last();
    assert forall|i: int| 0 <= i < shorter.len() implies #[trigger] shorter[i].id.0 < 255 && (i
        != at ==> shorter[i].id != active.id) by {
        assert(displays[i].id.0 < 255);
    }
    if at < shorter.len() {
        shown_displays_are_the_sessions(shorter, active, session, id, at);
        assert(displays[displays.len() - 1].id.0 < 255);
    } else {
        shown_displays_elsewhere_stay(shorter, active, session, id);
    }
}

/// A shown display that the capture does not report among the session's monitors
/// is told as it is.
pub proof fn shown_displays_elsewhere_stay(
    displays: Seq<DisplayView>,
    active: DisplayView,
    session: SessionView,
    id: u32,
)
    requires
        forall|i: int| 0 <= i < displays.len() ==> #[trigger] displays[i].id != active.id,
    ensures
        mapped_active(displays, active, session, id) == active,
    decreases displays.len(),
{
    if displays.len() > 0 {
        let shorter = displays.drop_last();
        assert forall|i: int| 0 <= i < shorter.len() implies #[trigger] shorter[i].id
            != active.id by {
            assert(displays[i].id != active.id);
        }
        shown_displays_elsewhere_stay(shorter, active, session, id);
        assert(displays[displays.len() - 1].id != active.id);
    }
}

} // verus!
