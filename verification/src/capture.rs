//! Starting, steering and watching a desktop capture.
use crate::catalog::{Catalog, CatalogView, SessionDisplayView};
use crate::catalog;
use crate::command::{CommandView, ParentCommand};
use crate::failure::Failure;
use crate::helper::DesktopTarget;
use crate::model::{Display, DisplayId, DisplayView, Protocol, SessionView, StreamConfig};
use crate::wire::WireError;
use vstd::prelude::*;

verus! {

/// The most frames per second that the background desktop is captured at.
pub const MAX_BACKGROUND_FRAMES: u32 = 20;

/// How often the signed-in sessions are listed.
pub const SESSION_CHECK_MS: u64 = 5_000;

/// How long the background desktop may go without a frame.
pub const BACKGROUND_STALL_MS: u64 = 10_000;

/// What starting a capture comes down to.
#[derive(Debug, Clone, Copy, PartialEq, Eq, Structural)]
pub struct StartPlan {
    /// The Remote Desktop session to show, or none for the console.
    pub session: Option<u32>,
    /// The display by the id that helpers know it by.
    pub display: Option<DisplayId>,
    pub background: bool,
    pub config: StreamConfig,
    /// All helpers are stopped first.
    pub shutdown: bool,
}

/// The first offered display with an id.
pub open spec fn offered_with_id(sessions: Seq<SessionDisplayView>, id: DisplayId) -> Option<
    SessionDisplayView,
>
    decreases sessions.len(),
{
    if sessions.len() == 0 {
        None
    } else if sessions[0].display.id == id {
        Some(sessions[0])
    } else {
        offered_with_id(sessions.skip(1), id)
    }
}

pub open spec fn selected(catalog: CatalogView, display: Option<DisplayId>) -> Option<
    SessionDisplayView,
> {
    match display {
        Some(id) => offered_with_id(catalog.sessions, id),
        None => None,
    }
}

/// Whether an id can only be that of a Remote Desktop display.
pub open spec fn is_rdp_id(id: DisplayId) -> bool {
    catalog::FIRST_RDP_DISPLAY <= id.0 < catalog::FIRST_RESERVED_DISPLAY
}

/// A Remote Desktop display that is no longer offered cannot be started.
pub open spec fn gone(catalog: CatalogView, display: Option<DisplayId>) -> bool {
    display matches Some(id) && is_rdp_id(id) && selected(catalog, display) is None
}

pub open spec fn start_session(catalog: CatalogView, display: Option<DisplayId>) -> Option<u32> {
    match selected(catalog, display) {
        Some(entry) => entry.display.session.rdp(),
        None => None,
    }
}

pub open spec fn start_display(catalog: CatalogView, display: Option<DisplayId>) -> Option<
    DisplayId,
> {
    match selected(catalog, display) {
        Some(entry) => Some(entry.local),
        None => display,
    }
}

pub open spec fn start_plan(
    catalog: CatalogView,
    config: StreamConfig,
    display: Option<DisplayId>,
    protocol: Protocol,
) -> StartPlan {
    let session = start_session(catalog, display);
    let local = start_display(catalog, display);
    let background = local == Some(protocol.background_display);
    StartPlan {
        session,
        display: local,
        background,
        config: if background && config.frames_per_second > MAX_BACKGROUND_FRAMES {
            StreamConfig { frames_per_second: MAX_BACKGROUND_FRAMES, ..config }
        } else {
            config
        },
        shutdown: session != catalog.selected_session || background != catalog.background_active,
    }
}

/// The catalog once a start is under way; another session or the background has
/// no preferred desktop yet.
pub open spec fn catalog_for(catalog: CatalogView, plan: StartPlan) -> CatalogView {
    CatalogView {
        selected_session: plan.session,
        background_active: plan.background,
        preferred: if plan.shutdown {
            None
        } else {
            catalog.preferred
        },
        ..catalog
    }
}

/// The display to start instead when no console desktop could be captured: the
/// first primary one of the sessions, else their first.
pub open spec fn fallback_display(catalog: CatalogView, plan: StartPlan) -> Option<DisplayId> {
    if plan.display is Some || plan.background || plan.session is Some {
        None
    } else {
        match first_primary(catalog.sessions) {
            Some(entry) => Some(entry.display.id),
            None => if catalog.sessions.len() > 0 {
                Some(catalog.sessions[0].display.id)
            } else {
                None
            },
        }
    }
}

pub open spec fn first_primary(sessions: Seq<SessionDisplayView>) -> Option<SessionDisplayView>
    decreases sessions.len(),
{
    if sessions.len() == 0 {
        None
    } else if sessions[0].display.primary {
        Some(sessions[0])
    } else {
        first_primary(sessions.skip(1))
    }
}

impl Catalog {
    fn position_of(&self, id: DisplayId) -> (found: Option<usize>)
        ensures
            match found {
                Some(at) => at < self.sessions@.len() && offered_with_id(self@.sessions, id)
                    == Some(self.sessions@[at as int]@),
                None => offered_with_id(self@.sessions, id) is None,
            },
    {
        let ghost views = catalog::session_views(self.sessions@);
        let mut at: usize = 0;
        assert(views.skip(0) =~= views);
        while at < self.sessions.len()
            invariant
                at <= self.sessions@.len(),
                views == catalog::session_views(self.sessions@),
                offered_with_id(views, id) == offered_with_id(views.skip(at as int), id),
            decreases self.sessions@.len() - at,
        {
            assert(views.skip(at as int)[0] == self.sessions@[at as int]@);
            assert(views.skip(at as int).skip(1) =~= views.skip(at + 1));
            if self.sessions[at].display.id == id {
                return Some(at);
            }
            at += 1;
        }
        None
    }

    /// Plans a start on the display that the viewer chose, or on the default
    /// one. `None` means that the chosen Remote Desktop display is gone.
    pub fn plan_start(
        &self,
        config: StreamConfig,
        display: Option<DisplayId>,
        protocol: &Protocol,
    ) -> (plan: Option<StartPlan>)
        ensures
            plan is None <==> gone(self@, display),
            plan matches Some(value) ==> value == start_plan(self@, config, display, *protocol),
    {
        let found = match display {
            Some(id) => self.position_of(id),
            None => None,
        };
        if let Some(id) = display {
            if id.0 >= catalog::FIRST_RDP_DISPLAY && id.0 < catalog::FIRST_RESERVED_DISPLAY
                && found.is_none() {
                return None;
            }
        }
        let (session, local) = match found {
            Some(at) => (
                self.sessions[at].display.session.rdp_session(),
                Some(self.sessions[at].local),
            ),
            None => (None, display),
        };
        let background = match local {
            Some(id) => id == protocol.background_display,
            None => false,
        };
        let mut config = config;
        if background && config.frames_per_second > MAX_BACKGROUND_FRAMES {
            config.frames_per_second = MAX_BACKGROUND_FRAMES;
        }
        let same_session = match (session, self.selected_session) {
            (Some(new), Some(shown)) => new == shown,
            (None, None) => true,
            _ => false,
        };
        Some(
            StartPlan {
                session,
                display: local,
                background,
                config,
                shutdown: !same_session || background != self.background_active,
            },
        )
    }

    /// Takes over a planned start, once the helpers that had to stop have.
    pub fn begin_start(&mut self, plan: &StartPlan)
        ensures
            final(self)@ == catalog_for(old(self)@, *plan),
    {
        self.selected_session = plan.session;
        self.background_active = plan.background;
        if plan.shutdown {
            self.preferred = None;
        }
    }

    /// Records the desktop that capture runs on, or ended on: it is tried first
    /// the next time.
    pub fn prefer(&mut self, target: DesktopTarget)
        ensures
            final(self)@ == (CatalogView { preferred: Some(target), ..old(self)@ }),
    {
        self.preferred = Some(target);
    }

    /// What to start instead, once every desktop has been tried in vain.
    pub fn fallback(&self, plan: &StartPlan) -> (display: Option<DisplayId>)
        ensures
            display == fallback_display(self@, *plan),
    {
        if plan.display.is_some() || plan.background || plan.session.is_some() {
            return None;
        }
        let ghost views = catalog::session_views(self.sessions@);
        let mut at: usize = 0;
        assert(views.skip(0) =~= views);
        while at < self.sessions.len()
            invariant
                at <= self.sessions@.len(),
                views == catalog::session_views(self.sessions@),
                first_primary(views) == first_primary(views.skip(at as int)),
                plan.display is None && !plan.background && plan.session is None,
            decreases self.sessions@.len() - at,
        {
            assert(views.skip(at as int)[0] == self.sessions@[at as int]@);
            assert(views.skip(at as int).skip(1) =~= views.skip(at + 1));
            if self.sessions[at].display.primary {
                return Some(self.sessions[at].display.id);
            }
            at += 1;
        }
        if self.sessions.len() > 0 {
            assert(views[0] == self.sessions@[0]@);
            Some(self.sessions[0].display.id)
        } else {
            None
        }
    }

    /// Whether the console is shown; sound and the secure attention sequence
    /// reach nothing else.
    pub fn is_console_session(&self) -> (console: bool)
        ensures
            console == (!self@.background_active && self@.routes.len() == 0),
    {
        !self.background_active && self.routes.len() == 0
    }

    /// The display that input for a display on the wire goes to, or none if it
    /// is for a display that is not shown.
    pub fn route_input(&self, wire: DisplayId) -> (local: Option<DisplayId>)
        ensures
            local == routed(self@.routes, wire),
    {
        if self.routes.len() == 0 {
            return Some(wire);
        }
        self.local_of(wire)
    }

    fn local_of(&self, wire: DisplayId) -> (local: Option<DisplayId>)
        ensures
            local == local_for(self@.routes, wire),
    {
        let mut at: usize = 0;
        assert(self.routes@.skip(0) =~= self.routes@);
        while at < self.routes.len()
            invariant
                at <= self.routes@.len(),
                local_for(self.routes@, wire) == local_for(self.routes@.skip(at as int), wire),
            decreases self.routes@.len() - at,
        {
            assert(self.routes@.skip(at as int).skip(1) =~= self.routes@.skip(at + 1));
            if self.routes[at].0 == wire {
                return Some(self.routes[at].1);
            }
            at += 1;
        }
        None
    }

    /// The display that files dropped on a display on the wire go to; unknown
    /// ones are passed on.
    pub fn route_files(&self, wire: DisplayId) -> (local: DisplayId)
        ensures
            local == (match local_for(self@.routes, wire) {
                Some(found) => found,
                None => wire,
            }),
    {
        match self.local_of(wire) {
            Some(found) => found,
            None => wire,
        }
    }

    /// The display on the wire that a helper's pointer is on.
    pub fn agent_pointer_display(&self, local: Option<DisplayId>) -> (wire: Option<DisplayId>)
        ensures
            wire == (match local {
                Some(id) => if self@.routes.len() == 0 {
                    Some(id)
                } else {
                    wire_for(self@.routes, id)
                },
                None => None,
            }),
    {
        let id = match local {
            Some(id) => id,
            None => {
                return None;
            },
        };
        if self.routes.len() == 0 {
            return Some(id);
        }
        let mut at: usize = 0;
        assert(self.routes@.skip(0) =~= self.routes@);
        while at < self.routes.len()
            invariant
                at <= self.routes@.len(),
                wire_for(self.routes@, id) == wire_for(self.routes@.skip(at as int), id),
                local == Some(id),
                self.routes@.len() > 0,
            decreases self.routes@.len() - at,
        {
            assert(self.routes@.skip(at as int).skip(1) =~= self.routes@.skip(at + 1));
            if self.routes[at].1 == id {
                return Some(self.routes[at].0);
            }
            at += 1;
        }
        None
    }
}

pub open spec fn local_for(routes: Seq<(DisplayId, DisplayId)>, wire: DisplayId) -> Option<
    DisplayId,
>
    decreases routes.len(),
{
    if routes.len() == 0 {
        None
    } else if routes[0].0 == wire {
        Some(routes[0].1)
    } else {
        local_for(routes.skip(1), wire)
    }
}

pub open spec fn wire_for(routes: Seq<(DisplayId, DisplayId)>, local: DisplayId) -> Option<
    DisplayId,
>
    decreases routes.len(),
{
    if routes.len() == 0 {
        None
    } else if routes[0].1 == local {
        Some(routes[0].0)
    } else {
        wire_for(routes.skip(1), local)
    }
}

pub open spec fn routed(routes: Seq<(DisplayId, DisplayId)>, wire: DisplayId) -> Option<DisplayId> {
    if routes.len() == 0 {
        Some(wire)
    } else {
        local_for(routes, wire)
    }
}

proof fn lemma_routes(displays: Seq<DisplayView>, id: u32, routes: Seq<(DisplayId, DisplayId)>)
    requires
        routes == catalog::mapped_routes(displays, id),
    ensures
        routes.len() == displays.len(),
        forall|i: int|
            0 <= i < displays.len() ==> #[trigger] routes[i] == (
                catalog::rdp_id(id, displays[i].id),
                displays[i].id,
            ),
    decreases displays.len(),
{
    if displays.len() > 0 {
        lemma_routes(
            displays.drop_last(),
            id,
            catalog::mapped_routes(displays.drop_last(), id),
        );
    }
}

proof fn lemma_local_for(routes: Seq<(DisplayId, DisplayId)>, at: int)
    requires
        0 <= at < routes.len(),
        forall|i: int, j: int|
            0 <= i < routes.len() && 0 <= j < routes.len() && (#[trigger] routes[i]).0 == (
            #[trigger] routes[j]).0 ==> routes[i].1 == routes[j].1,
    ensures
        local_for(routes, routes[at].0) == Some(routes[at].1),
    decreases routes.len(),
{
    if routes[0].0 != routes[at].0 {
        lemma_local_for(routes.skip(1), at - 1);
    }
}

proof fn lemma_wire_for(routes: Seq<(DisplayId, DisplayId)>, at: int)
    requires
        0 <= at < routes.len(),
        forall|i: int, j: int|
            0 <= i < routes.len() && 0 <= j < routes.len() && (#[trigger] routes[i]).1 == (
            #[trigger] routes[j]).1 ==> routes[i].0 == routes[j].0,
    ensures
        wire_for(routes, routes[at].1) == Some(routes[at].0),
    decreases routes.len(),
{
    if routes[0].1 != routes[at].1 {
        lemma_wire_for(routes.skip(1), at - 1);
    }
}

/// While a Remote Desktop session is shown, input for each of its displays
/// reaches the monitor that the display stands for, and the pointer on that
/// monitor is reported on that display.
pub proof fn routes_are_inverse(displays: Seq<DisplayView>, id: u32, at: int)
    requires
        0 <= at < displays.len(),
        forall|i: int|
            0 <= i < displays.len() ==> catalog::rdp_addressable(id, (#[trigger] displays[i]).id),
    ensures
        ({
            let routes = catalog::mapped_routes(displays, id);
            let wire = catalog::rdp_id(id, displays[at].id);
            &&& routed(routes, wire) == Some(displays[at].id)
            &&& wire_for(routes, displays[at].id) == Some(wire)
        }),
{
    let routes = catalog::mapped_routes(displays, id);
    lemma_routes(displays, id, routes);
    assert forall|i: int, j: int|
        0 <= i < routes.len() && 0 <= j < routes.len() && (#[trigger] routes[i]).0 == (
        #[trigger] routes[j]).0 implies routes[i].1 == routes[j].1 by {
        catalog::rdp_ids_do_not_alias(id, displays[i].id, id, displays[j].id);
    }
    lemma_local_for(routes, at);
    lemma_wire_for(routes, at);
}

/// The console's monitors survive every start that does not capture them: they
/// stay on offer, first and in order, with the background right behind them.
pub proof fn console_displays_survive(
    catalog: CatalogView,
    started: crate::model::StartedView,
    background: DisplayView,
    listed: Seq<DisplayView>,
)
    requires
        catalog.console.len() > 0,
        catalog.background_active || catalog.selected_session is Some,
    ensures
        ({
            let offered = catalog::started_after(catalog, started, background, listed).displays;
            &&& offered.take(catalog.console.len() as int) == catalog.console
            &&& offered[catalog.console.len() as int] == background
            &&& catalog::catalog_after(catalog, started, listed).console == catalog.console
        }),
{
    let offered = catalog::started_after(catalog, started, background, listed).displays;
    assert(offered.take(catalog.console.len() as int) =~= catalog.console);
}

/// A start that shows another session or leaves or enters the background stops
/// every helper first; no helper of the old desktop sees the new one's input.
pub proof fn switching_stops_every_helper(
    catalog: CatalogView,
    config: StreamConfig,
    display: Option<DisplayId>,
    protocol: Protocol,
)
    ensures
        ({
            let plan = start_plan(catalog, config, display, protocol);
            let after = catalog_for(catalog, plan);
            !plan.shutdown ==> after == catalog
        }),
{
}

/// The command that starts or restarts a capture.
pub fn start_capture(viewer_name: &str, plan: &StartPlan) -> (command: ParentCommand)
    ensures
        command@ == (CommandView::Start {
            viewer_name: viewer_name@,
            display_id: plan.display,
            config: plan.config,
        }),
{
    ParentCommand::Start {
        viewer_name: viewer_name.to_owned(),
        display_id: plan.display,
        config: plan.config,
    }
}

/// Why the monitors of a desktop could not be listed.
#[derive(Debug, Clone, Copy, PartialEq, Eq, Structural)]
pub enum ListingError {
    /// The helper did not answer in time.
    TimedOut,
    Unreadable(WireError),
    /// The helper found none.
    Empty,
}

impl ListingError {
    /// What is said of it, unless whatever read the answer words it.
    pub fn message(&self) -> (text: Option<&'static str>)
        ensures
            match *self {
                ListingError::TimedOut => text is Some && text->Some_0@
                    == "console display enumeration timed out"@,
                ListingError::Empty => text is Some && text->Some_0@
                    == "console desktop reported no displays"@,
                ListingError::Unreadable(_) => text is None,
            },
    {
        match self {
            ListingError::TimedOut => Some("console display enumeration timed out"),
            ListingError::Empty => Some("console desktop reported no displays"),
            ListingError::Unreadable(_) => None,
        }
    }
}

/// The monitors that a helper listed, given its answer if it came in time.
pub fn listed_displays(answer: Option<Result<Vec<Display>, WireError>>) -> (listed: Result<
    Vec<Display>,
    ListingError,
>)
    ensures
        match answer {
            None => listed == Err::<Vec<Display>, ListingError>(ListingError::TimedOut),
            Some(Err(error)) => listed == Err::<Vec<Display>, ListingError>(
                ListingError::Unreadable(error),
            ),
            Some(Ok(displays)) => if displays@.len() == 0 {
                listed == Err::<Vec<Display>, ListingError>(ListingError::Empty)
            } else {
                listed == Ok::<Vec<Display>, ListingError>(displays)
            },
        },
{
    match answer {
        None => Err(ListingError::TimedOut),
        Some(Err(error)) => Err(ListingError::Unreadable(error)),
        Some(Ok(displays)) => if displays.len() == 0 {
            Err(ListingError::Empty)
        } else {
            Ok(displays)
        },
    }
}

/// How a look for the console's monitors goes on.
#[derive(Debug)]
pub enum ConsoleListing {
    Listed(Vec<Display>),
    /// Look on another desktop, which is the last.
    Try(DesktopTarget),
    Failed(Failure),
}

/// How a look for the console's monitors goes on after one desktop; `last` is
/// whether it was the second.
pub fn list_console(
    target: DesktopTarget,
    last: bool,
    outcome: Result<Vec<Display>, Failure>,
) -> (next: ConsoleListing)
    ensures
        match outcome {
            Ok(displays) => next == ConsoleListing::Listed(displays),
            Err(failure) => if last {
                next == ConsoleListing::Failed(failure)
            } else {
                next == ConsoleListing::Try(target.other())
            },
        },
{
    match outcome {
        Ok(displays) => ConsoleListing::Listed(displays),
        Err(failure) => if last {
            ConsoleListing::Failed(failure)
        } else {
            ConsoleListing::Try(target.alternate())
        },
    }
}

/// A Windows session as the system lists it.
#[derive(Debug)]
pub struct ListedSession {
    pub id: u32,
    pub active: bool,
    /// The name of its user, unless it could not be asked.
    pub user: Option<String>,
}

/// Whether a listed session is a signed-in Remote Desktop session.
pub open spec fn is_remote(session: ListedSession, console: u32) -> bool {
    session.active && session.id != console && (session.user matches Some(user) && user@.len() > 0)
}

pub open spec fn remote_sessions(sessions: Seq<ListedSession>, console: u32) -> Seq<
    (u32, Seq<char>),
>
    decreases sessions.len(),
{
    if sessions.len() == 0 {
        seq![]
    } else {
        let before = remote_sessions(sessions.drop_last(), console);
        let last = sessions.last();
        if is_remote(last, console) {
            before.push((last.id, last.user->Some_0@))
        } else {
            before
        }
    }
}

pub open spec fn session_names(sessions: Seq<(u32, String)>) -> Seq<(u32, Seq<char>)> {
    sessions.map_values(|session: (u32, String)| (session.0, session.1@))
}

/// The signed-in Remote Desktop sessions among those that the system lists.
pub fn active_rdp_sessions(sessions: &Vec<ListedSession>, console: u32) -> (found: Vec<
    (u32, String),
>)
    ensures
        session_names(found@) == remote_sessions(sessions@, console),
{
    let mut found: Vec<(u32, String)> = Vec::new();
    let mut next: usize = 0;
    assert(session_names(found@) =~= remote_sessions(sessions@.take(0), console));
    while next < sessions.len()
        invariant
            next <= sessions@.len(),
            session_names(found@) == remote_sessions(sessions@.take(next as int), console),
        decreases sessions@.len() - next,
    {
        let session = &sessions[next];
        assert(sessions@.take(next + 1).drop_last() =~= sessions@.take(next as int));
        if session.active && session.id != console {
            if let Some(user) = &session.user {
                if !user.as_str().is_empty() {
                    let ghost before = found@;
                    found.push((session.id, user.clone()));
                    assert(session_names(found@) =~= session_names(before).push(
                        (session.id, user@),
                    ));
                }
            }
        }
        next += 1;
    }
    assert(sessions@.take(next as int) =~= sessions@);
    found
}

/// Remembers the sessions last seen and when.
#[derive(Debug)]
pub struct SessionWatch {
    pub known: Vec<(u32, String)>,
    pub checked_ms: u64,
}

impl SessionWatch {
    /// Whether the sessions should be listed again; if so, they count as
    /// listed now.
    pub fn due(&mut self, now_ms: u64) -> (due: bool)
        requires
            old(self).checked_ms <= now_ms,
        ensures
            due == (now_ms - old(self).checked_ms >= SESSION_CHECK_MS),
            final(self).known == old(self).known,
            final(self).checked_ms == (if due {
                now_ms
            } else {
                old(self).checked_ms
            }),
    {
        if now_ms - self.checked_ms >= SESSION_CHECK_MS {
            self.checked_ms = now_ms;
            true
        } else {
            false
        }
    }

    /// Whether the sessions have changed, so that capture has to restart to
    /// publish them.
    pub fn changed(&mut self, sessions: Vec<(u32, String)>) -> (changed: bool)
        ensures
            changed == (session_names(sessions@) != session_names(old(self).known@)),
            session_names(final(self).known@) == session_names(sessions@),
            final(self).checked_ms == old(self).checked_ms,
    {
        let same = same_sessions(&sessions, &self.known);
        if !same {
            self.known = sessions;
        }
        !same
    }
}

fn same_sessions(first: &Vec<(u32, String)>, second: &Vec<(u32, String)>) -> (same: bool)
    ensures
        same == (session_names(first@) == session_names(second@)),
{
    if first.len() != second.len() {
        assert(session_names(first@).len() != session_names(second@).len());
        return false;
    }
    let mut next: usize = 0;
    while next < first.len()
        invariant
            next <= first@.len(),
            first@.len() == second@.len(),
            forall|i: int|
                0 <= i < next ==> (#[trigger] first@[i]).0 == second@[i].0 && first@[i].1@
                    == second@[i].1@,
        decreases first@.len() - next,
    {
        if first[next].0 != second[next].0 || first[next].1 != second[next].1 {
            assert(session_names(first@)[next as int] != session_names(second@)[next as int]);
            return false;
        }
        next += 1;
    }
    assert(session_names(first@) =~= session_names(second@));
    true
}

/// Whether a capture has stalled and is ended: only the background desktop
/// promises frames.
pub fn capture_stalled(target: DesktopTarget, since_frame_ms: u64) -> (stalled: bool)
    ensures
        stalled == (target is Background && since_frame_ms > BACKGROUND_STALL_MS),
{
    target == DesktopTarget::Background && since_frame_ms > BACKGROUND_STALL_MS
}

proof fn lemma_offered_with_id(sessions: Seq<SessionDisplayView>, id: DisplayId, at: int)
    requires
        0 <= at <= sessions.len(),
        forall|i: int| 0 <= i < at ==> (#[trigger] sessions[i]).display.id != id,
    ensures
        at < sessions.len() && sessions[at].display.id == id ==> offered_with_id(sessions, id)
            == Some(sessions[at]),
        at == sessions.len() ==> offered_with_id(sessions, id) is None,
    decreases sessions.len(),
{
    if at > 0 {
        let rest = sessions.skip(1);
        assert(sessions[0].display.id != id);
        assert forall|i: int| 0 <= i < at - 1 implies (#[trigger] rest[i]).display.id != id by {
            assert(rest[i] == sessions[i + 1]);
        }
        lemma_offered_with_id(rest, id, at - 1);
    }
}

/// A display of a Remote Desktop session that the viewer chooses is started in
/// that session, on the monitor that it stands for.
pub proof fn chosen_session_displays_are_started(
    catalog: CatalogView,
    config: StreamConfig,
    protocol: Protocol,
    at: int,
)
    requires
        0 <= at < catalog.sessions.len(),
        forall|i: int|
            0 <= i < at ==> (#[trigger] catalog.sessions[i]).display.id
                != catalog.sessions[at].display.id,
    ensures
        ({
            let entry = catalog.sessions[at];
            let plan = start_plan(catalog, config, Some(entry.display.id), protocol);
            &&& !gone(catalog, Some(entry.display.id))
            &&& plan.display == Some(entry.local)
            &&& entry.display.session matches SessionView::Rdp { id, .. } ==> plan.session
                == Some(id)
            &&& !(entry.display.session is Rdp) ==> plan.session is None
        }),
{
    lemma_offered_with_id(catalog.sessions, catalog.sessions[at].display.id, at);
}

/// Any other display is one of the console, and is started by its own id; but an
/// id of a Remote Desktop display that nobody offers any more is refused. Without
/// a choice the console's default display is started.
pub proof fn other_displays_are_the_consoles(
    catalog: CatalogView,
    config: StreamConfig,
    display: Option<DisplayId>,
    protocol: Protocol,
)
    requires
        display matches Some(id) ==> forall|i: int|
            0 <= i < catalog.sessions.len() ==> (#[trigger] catalog.sessions[i]).display.id != id,
    ensures
        ({
            let plan = start_plan(catalog, config, display, protocol);
            &&& plan.session is None
            &&& plan.display == display
            &&& gone(catalog, display) <==> (display matches Some(id) && 0x8000_0000 <= id.0
                && id.0 < 0xffff_fffd)
        }),
{
    if let Some(id) = display {
        lemma_offered_with_id(catalog.sessions, id, catalog.sessions.len() as int);
    }
}

/// A start is in the background exactly when it is of the background's display,
/// and then takes at most 20 frames a second; nothing else of the configuration
/// changes. Every helper is stopped first exactly when the session or the
/// background changes, and no desktop is preferred then.
pub proof fn background_starts_are_slow(
    catalog: CatalogView,
    config: StreamConfig,
    display: Option<DisplayId>,
    protocol: Protocol,
)
    ensures
        ({
            let plan = start_plan(catalog, config, display, protocol);
            let after = catalog_for(catalog, plan);
            &&& plan.background <==> plan.display == Some(protocol.background_display)
            &&& plan.background ==> plan.config.frames_per_second <= 20
            &&& plan.config.frames_per_second <= config.frames_per_second
            &&& !plan.background || config.frames_per_second <= 20 ==> plan.config == config
            &&& plan.config.frames_per_second < config.frames_per_second
                ==> plan.config.frames_per_second == 20
            &&& plan.config.codec == config.codec && plan.config.pixel_format
                == config.pixel_format && plan.config.bitrate_bits_per_second
                == config.bitrate_bits_per_second && plan.config.capture_cursor
                == config.capture_cursor && plan.config.grayscale == config.grayscale
            &&& plan.shutdown <==> plan.session != catalog.selected_session || plan.background
                != catalog.background_active
            &&& plan.shutdown ==> after.preferred is None
            &&& after.selected_session == plan.session && after.background_active
                == plan.background
            &&& after.console == catalog.console && after.sessions == catalog.sessions
                && after.routes == catalog.routes
        }),
{
}

/// A viewer who wanted no display in particular is given one of a session when
/// the console cannot be captured: the first primary monitor if there is one, else
/// the first. Nobody else is given another display than was asked for.
pub proof fn fallbacks_prefer_primary_monitors(catalog: CatalogView, plan: StartPlan, at: int)
    ensures
        plan.display is Some || plan.background || plan.session is Some ==> fallback_display(
            catalog,
            plan,
        ) is None,
        catalog.sessions.len() == 0 ==> fallback_display(catalog, plan) is None,
        plan.display is None && !plan.background && plan.session is None ==> {
            &&& 0 <= at < catalog.sessions.len() && catalog.sessions[at].display.primary && (
            forall|i: int|
                0 <= i < at ==> !(#[trigger] catalog.sessions[i]).display.primary)
                ==> fallback_display(catalog, plan) == Some(catalog.sessions[at].display.id)
            &&& catalog.sessions.len() > 0 && (forall|i: int|
                0 <= i < catalog.sessions.len() ==> !(
                #[trigger] catalog.sessions[i]).display.primary) ==> fallback_display(catalog, plan)
                == Some(catalog.sessions[0].display.id)
        },
{
    if 0 <= at < catalog.sessions.len() && catalog.sessions[at].display.primary && (forall|i: int|
        0 <= i < at ==> !(#[trigger] catalog.sessions[i]).display.primary) {
        lemma_primary(catalog.sessions, at);
    }
    if forall|i: int|
        0 <= i < catalog.sessions.len() ==> !(#[trigger] catalog.sessions[i]).display.primary {
        lemma_primary(catalog.sessions, catalog.sessions.len() as int);
    }
}

proof fn lemma_primary(sessions: Seq<SessionDisplayView>, at: int)
    requires
        0 <= at <= sessions.len(),
        forall|i: int| 0 <= i < at ==> !(#[trigger] sessions[i]).display.primary,
    ensures
        at < sessions.len() && sessions[at].display.primary ==> first_primary(sessions) == Some(
            sessions[at],
        ),
        at == sessions.len() ==> first_primary(sessions) is None,
    decreases sessions.len(),
{
    if at > 0 {
        let rest = sessions.skip(1);
        assert(!sessions[0].display.primary);
        assert forall|i: int| 0 <= i < at - 1 implies !(#[trigger] rest[i]).display.primary by {
            assert(rest[i] == sessions[i + 1]);
        }
        lemma_primary(rest, at - 1);
    }
}

/// Input reaches only what is shown: while ids differ, input for a display goes
/// to the monitor that it is routed to, and is dropped where there is no route;
/// while they do not, it goes where it says. The pointer is told on the display
/// that is routed to its monitor.
pub proof fn input_goes_along_routes(
    routes: Seq<(DisplayId, DisplayId)>,
    wire: DisplayId,
    local: DisplayId,
)
    ensures
        routes.len() == 0 ==> routed(routes, wire) == Some(wire),
        routes.len() > 0 ==> (routed(routes, wire) matches Some(found) ==> exists|i: int|
            0 <= i < routes.len() && #[trigger] routes[i] == (wire, found)),
        routes.len() > 0 && routed(routes, wire) is None ==> forall|i: int|
            0 <= i < routes.len() ==> (#[trigger] routes[i]).0 != wire,
        wire_for(routes, local) matches Some(found) ==> exists|i: int|
            0 <= i < routes.len() && #[trigger] routes[i] == (found, local),
        wire_for(routes, local) is None ==> forall|i: int|
            0 <= i < routes.len() ==> (#[trigger] routes[i]).1 != local,
{
    lemma_found(routes, wire, local);
}

proof fn lemma_found(routes: Seq<(DisplayId, DisplayId)>, wire: DisplayId, local: DisplayId)
    ensures
        local_for(routes, wire) matches Some(found) ==> exists|i: int|
            0 <= i < routes.len() && #[trigger] routes[i] == (wire, found),
        local_for(routes, wire) is None ==> forall|i: int|
            0 <= i < routes.len() ==> (#[trigger] routes[i]).0 != wire,
        wire_for(routes, local) matches Some(found) ==> exists|i: int|
            0 <= i < routes.len() && #[trigger] routes[i] == (found, local),
        wire_for(routes, local) is None ==> forall|i: int|
            0 <= i < routes.len() ==> (#[trigger] routes[i]).1 != local,
    decreases routes.len(),
{
    if routes.len() > 0 {
        let rest = routes.skip(1);
        lemma_found(rest, wire, local);
        assert forall|i: int| 0 < i < routes.len() implies #[trigger] routes[i] == rest[i - 1] by {}
        if let Some(found) = local_for(routes, wire) {
            if routes[0].0 == wire {
                assert(routes[0] == (wire, found));
            } else {
                let i = choose|i: int| 0 <= i < rest.len() && #[trigger] rest[i] == (wire, found);
                assert(routes[i + 1] == (wire, found));
            }
        }
        if let Some(found) = wire_for(routes, local) {
            if routes[0].1 == local {
                assert(routes[0] == (found, local));
            } else {
                let i = choose|i: int| 0 <= i < rest.len() && #[trigger] rest[i] == (found, local);
                assert(routes[i + 1] == (found, local));
            }
        }
    }
}

/// The Remote Desktop users are those of the listed sessions that are active, are
/// not at the console, and have a name, in the order in which they are listed.
pub proof fn signed_in_users_are_found(sessions: Seq<ListedSession>, console: u32)
    ensures
        remote_sessions(sessions, console) == sessions.filter(
            |session: ListedSession|
                session.active && session.id != console && session.user is Some
                    && session.user->Some_0@.len() > 0,
        ).map_values(|session: ListedSession| (session.id, session.user->Some_0@)),
    decreases sessions.len(),
{
    reveal(Seq::filter);
    let wanted = |session: ListedSession|
        session.active && session.id != console && session.user is Some
            && session.user->Some_0@.len() > 0;
    let named = |session: ListedSession| (session.id, session.user->Some_0@);
    if sessions.len() > 0 {
        signed_in_users_are_found(sessions.drop_last(), console);
    }
    assert(remote_sessions(sessions, console) =~= sessions.filter(wanted).map_values(named));
}

} // verus!
