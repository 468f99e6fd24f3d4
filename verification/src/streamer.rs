//! Starting a desktop capture from the first look at the sessions to the first
//! frame, and seeing it end.
use crate::capture;
use crate::capture::{capture_stalled, start_capture, SessionWatch, StartPlan};
use crate::catalog;
use crate::catalog::{ActiveSession, ActiveSessionView, Catalog, CatalogView};
use crate::command::{CommandView, ParentCommand};
use crate::controller::{DesktopInputController, Routed};
use crate::dispatch;
use crate::dispatch::{Progress, ProgressView, Shared};
use crate::failure::Failure;
use crate::helper::{DesktopTarget, HelperKind};
use crate::helper_set;
use crate::helper_set::HelperSettings;
use crate::model;
use crate::model::{
    Display, DisplayId, DisplayView, Protocol, StartedDesktop, StartedView, StreamConfig,
};
use vstd::prelude::*;

verus! {

/// The capture of a desktop and what it may be switched to.
#[derive(Debug)]
pub struct DesktopCaptureStreamer {
    pub catalog: Catalog,
    pub watch: SessionWatch,
    /// The desktop that the capture helper runs on, if it runs.
    pub running: Option<DesktopTarget>,
    pub viewer_name: String,
    /// What a blackout shows.
    pub blackout_message: String,
}

pub struct StreamerView {
    pub catalog: CatalogView,
    pub known: Seq<(u32, Seq<char>)>,
    pub checked_ms: u64,
    pub running: Option<DesktopTarget>,
    pub viewer_name: Seq<char>,
    pub blackout_message: Seq<char>,
}

impl View for DesktopCaptureStreamer {
    type V = StreamerView;

    open spec fn view(&self) -> StreamerView {
        StreamerView {
            catalog: self.catalog@,
            known: capture::session_names(self.watch.known@),
            checked_ms: self.watch.checked_ms,
            running: self.running,
            viewer_name: self.viewer_name@,
            blackout_message: self.blackout_message@,
        }
    }
}

/// What a capture that has started reports, with what it takes to complete the
/// report: the background desktop, and the console's monitors where the catalog
/// lacks them.
#[derive(Debug)]
pub struct Captured {
    pub started: StartedDesktop,
    pub background: Display,
    pub listed: Vec<Display>,
}

pub struct CapturedView {
    pub started: StartedView,
    pub background: DisplayView,
    pub listed: Seq<DisplayView>,
}

impl View for Captured {
    type V = CapturedView;

    open spec fn view(&self) -> CapturedView {
        CapturedView {
            started: self.started@,
            background: self.background@,
            listed: model::display_views(self.listed@),
        }
    }
}

pub open spec fn captured_view(outcome: Result<Captured, Failure>) -> Result<
    CapturedView,
    Seq<Seq<char>>,
> {
    match outcome {
        Ok(captured) => Ok(captured@),
        Err(failure) => Err(failure@),
    }
}

pub open spec fn done_view(outcome: Result<(), Failure>) -> Result<(), Seq<Seq<char>>> {
    match outcome {
        Ok(()) => Ok(()),
        Err(failure) => Err(failure@),
    }
}

/// What starting a capture does next. Each step but the last two names the
/// function that takes how it went.
#[derive(Debug)]
pub enum StartStep {
    /// Stop every helper, the capture too; `after_shutdown`.
    Shutdown(StartPlan),
    /// Make sure that the agent runs where the background desktop can be had;
    /// `after_session_zero`.
    RequireSessionZero(StartPlan),
    /// List the console's monitors; `after_console`.
    ListConsole(StartPlan),
    /// Have the running capture helper start anew, beginning with `reconfigure`;
    /// `after_reconfigure`.
    Reconfigure(StartPlan),
    /// Stop the capture helper; `after_stop`.
    Stop(StartPlan),
    /// Find out which desktop the console shows; `after_console_desktop`.
    AskConsole(StartPlan),
    /// Start a capture helper on a desktop; `after_attempt`. `last` is whether
    /// there is no other desktop to try.
    StartOn { plan: StartPlan, target: DesktopTarget, last: bool, command: ParentCommand },
    /// Begin again with another display.
    BeginAgain(StreamConfig, DisplayId),
    Started(StartedDesktop),
    Failed(Failure),
}

pub enum StepView {
    Shutdown(StartPlan),
    RequireSessionZero(StartPlan),
    ListConsole(StartPlan),
    Reconfigure(StartPlan),
    Stop(StartPlan),
    AskConsole(StartPlan),
    StartOn { plan: StartPlan, target: DesktopTarget, last: bool, command: CommandView },
    BeginAgain(StreamConfig, DisplayId),
    Started(StartedView),
    Failed(Seq<Seq<char>>),
}

impl View for StartStep {
    type V = StepView;

    open spec fn view(&self) -> StepView {
        match *self {
            StartStep::Shutdown(plan) => StepView::Shutdown(plan),
            StartStep::RequireSessionZero(plan) => StepView::RequireSessionZero(plan),
            StartStep::ListConsole(plan) => StepView::ListConsole(plan),
            StartStep::Reconfigure(plan) => StepView::Reconfigure(plan),
            StartStep::Stop(plan) => StepView::Stop(plan),
            StartStep::AskConsole(plan) => StepView::AskConsole(plan),
            StartStep::StartOn { plan, target, last, command } => StepView::StartOn {
                plan,
                target,
                last,
                command: command@,
            },
            StartStep::BeginAgain(config, display) => StepView::BeginAgain(config, display),
            StartStep::Started(started) => StepView::Started(started@),
            StartStep::Failed(failure) => StepView::Failed(failure@),
        }
    }
}

/// The command that starts a planned capture.
pub open spec fn capture_command(viewer_name: Seq<char>, plan: StartPlan) -> CommandView {
    CommandView::Start { viewer_name, display_id: plan.display, config: plan.config }
}

/// The names of listed sessions.
pub open spec fn listed_names(sessions: Seq<ActiveSessionView>) -> Seq<(u32, Seq<char>)> {
    sessions.map_values(|session: ActiveSessionView| (session.id, session.user))
}

/// A list of sessions, if they could be listed.
pub open spec fn listed_view(sessions: Option<Vec<ActiveSession>>) -> Option<
    Seq<ActiveSessionView>,
> {
    match sessions {
        Some(list) => Some(catalog::active_views(list@)),
        None => None,
    }
}

impl StreamerView {
    /// After the sessions were listed; if that failed, all stays as it was.
    pub open spec fn refreshed(self, sessions: Option<Seq<ActiveSessionView>>, now_ms: u64) -> Self {
        match sessions {
            Some(list) => StreamerView {
                catalog: CatalogView {
                    sessions: catalog::refreshed(self.catalog.sessions, list, list.len()),
                    ..self.catalog
                },
                known: listed_names(list),
                checked_ms: now_ms,
                ..self
            },
            None => self,
        }
    }

    /// Once the helpers that a plan stops have stopped.
    pub open spec fn cleared(self, plan: StartPlan) -> Self {
        StreamerView {
            catalog: capture::catalog_for(self.catalog, plan),
            running: None,
            ..self
        }
    }

    pub open spec fn without_capture(self) -> Self {
        StreamerView { running: None, ..self }
    }

    /// Once capture runs on a desktop.
    pub open spec fn running_on(self, target: DesktopTarget) -> Self {
        StreamerView {
            catalog: CatalogView { preferred: Some(target), ..self.catalog },
            running: Some(target),
            ..self
        }
    }

    /// Once the report of a capture has been taken over.
    pub open spec fn recorded(self, captured: CapturedView) -> Self {
        StreamerView {
            catalog: catalog::catalog_after(self.catalog, captured.started, captured.listed),
            ..self
        }
    }

    /// What the viewer is told of a capture.
    pub open spec fn offered(self, captured: CapturedView) -> StepView {
        StepView::Started(
            catalog::started_after(
                self.catalog,
                captured.started,
                captured.background,
                captured.listed,
            ),
        )
    }

    /// The step that starts on a desktop.
    pub open spec fn start_on(self, plan: StartPlan, target: DesktopTarget, last: bool) -> StepView {
        StepView::StartOn { plan, target, last, command: capture_command(self.viewer_name, plan) }
    }

    /// The first desktop to try.
    pub open spec fn first_attempt(self, plan: StartPlan) -> StepView {
        if plan.background {
            self.start_on(plan, DesktopTarget::Background, true)
        } else {
            match self.catalog.preferred {
                Some(target) => self.start_on(plan, target, false),
                None => match self.catalog.selected_session {
                    Some(id) => self.start_on(plan, DesktopTarget::Rdp(id, false), false),
                    None => StepView::AskConsole(plan),
                },
            }
        }
    }

    /// A capture helper that runs is used again.
    pub open spec fn resumed(self, plan: StartPlan) -> StepView {
        if self.running is Some {
            StepView::Reconfigure(plan)
        } else {
            self.first_attempt(plan)
        }
    }

    /// The background desktop has conditions of its own.
    pub open spec fn prepared(self, plan: StartPlan) -> StepView {
        if plan.background {
            StepView::RequireSessionZero(plan)
        } else {
            self.resumed(plan)
        }
    }

    pub open spec fn begun(
        self,
        config: StreamConfig,
        display: Option<DisplayId>,
        protocol: Protocol,
    ) -> StepView {
        if capture::gone(self.catalog, display) {
            StepView::Failed(seq!["selected RDP display is no longer available"@])
        } else {
            let plan = capture::start_plan(self.catalog, config, display, protocol);
            if plan.shutdown {
                StepView::Shutdown(plan)
            } else {
                self.prepared(plan)
            }
        }
    }

    /// After an attempt that failed: the other desktop, or a display of another
    /// session where the viewer wanted none in particular.
    pub open spec fn attempt_failed(
        self,
        plan: StartPlan,
        target: DesktopTarget,
        last: bool,
        failure: Seq<Seq<char>>,
    ) -> StepView {
        if !last {
            self.start_on(plan, target.other(), true)
        } else {
            match capture::fallback_display(self.catalog, plan) {
                Some(id) => StepView::BeginAgain(plan.config, id),
                None => StepView::Failed(failure),
            }
        }
    }
}

fn names_of(sessions: &Vec<ActiveSession>) -> (names: Vec<(u32, String)>)
    ensures
        capture::session_names(names@) == listed_names(catalog::active_views(sessions@)),
{
    let mut names: Vec<(u32, String)> = Vec::new();
    let mut next: usize = 0;
    while next < sessions.len()
        invariant
            next <= sessions@.len(),
            capture::session_names(names@) =~= listed_names(
                catalog::active_views(sessions@),
            ).take(next as int),
        decreases sessions@.len() - next,
    {
        let ghost before = names@;
        names.push((sessions[next].id, sessions[next].user.clone()));
        assert(capture::session_names(names@) =~= capture::session_names(before).push(
            (sessions@[next as int].id, sessions@[next as int].user@),
        ));
        next += 1;
    }
    names
}

impl DesktopCaptureStreamer {
    pub fn new(viewer_name: String, blackout_message: String, now_ms: u64) -> (streamer: Self)
        ensures
            streamer@ == (StreamerView {
                catalog: CatalogView {
                    console: seq![],
                    sessions: seq![],
                    selected_session: None,
                    background_active: false,
                    routes: seq![],
                    preferred: None,
                },
                known: seq![],
                checked_ms: now_ms,
                running: None,
                viewer_name: viewer_name@,
                blackout_message: blackout_message@,
            }),
    {
        let streamer = DesktopCaptureStreamer {
            catalog: Catalog::new(),
            watch: SessionWatch { known: Vec::new(), checked_ms: now_ms },
            running: None,
            viewer_name,
            blackout_message,
        };
        assert(capture::session_names(streamer.watch.known@) =~= seq![]);
        streamer
    }

    /// Begins a start with the sessions as they are now, if they could be
    /// listed.
    pub fn start(
        &mut self,
        config: StreamConfig,
        display: Option<DisplayId>,
        sessions: Option<Vec<ActiveSession>>,
        now_ms: u64,
        protocol: &Protocol,
    ) -> (step: StartStep)
        ensures
            final(self)@ == old(self)@.refreshed(listed_view(sessions), now_ms),
            step@ == final(self)@.begun(config, display, *protocol),
    {
        if let Some(list) = sessions {
            self.catalog.refresh_sessions(&list);
            self.watch = SessionWatch { known: names_of(&list), checked_ms: now_ms };
        }
        match self.catalog.plan_start(config, display, protocol) {
            None => StartStep::Failed(Failure::new("selected RDP display is no longer available")),
            Some(plan) => if plan.shutdown {
                StartStep::Shutdown(plan)
            } else {
                self.prepare(plan)
            },
        }
    }

    /// The helpers have stopped, or one could not be told to.
    pub fn after_shutdown(&mut self, plan: StartPlan, outcome: Result<(), Failure>) -> (step:
        StartStep)
        ensures
            match done_view(outcome) {
                Ok(()) => final(self)@ == old(self)@.cleared(plan) && step@
                    == final(self)@.prepared(plan),
                Err(failure) => final(self)@ == old(self)@.without_capture() && step@
                    == StepView::Failed(failure),
            },
    {
        self.running = None;
        match outcome {
            Err(failure) => StartStep::Failed(failure),
            Ok(()) => {
                self.catalog.begin_start(&plan);
                self.prepare(plan)
            },
        }
    }

    fn prepare(&self, plan: StartPlan) -> (step: StartStep)
        ensures
            step@ == self@.prepared(plan),
    {
        if plan.background {
            StartStep::RequireSessionZero(plan)
        } else {
            self.resume(plan)
        }
    }

    /// Whether the background desktop can be had.
    pub fn after_session_zero(&self, plan: StartPlan, outcome: Result<(), Failure>) -> (step:
        StartStep)
        ensures
            step@ == (match done_view(outcome) {
                Ok(()) => if self@.catalog.console.len() == 0 {
                    StepView::ListConsole(plan)
                } else {
                    self@.resumed(plan)
                },
                Err(failure) => StepView::Failed(failure),
            }),
    {
        match outcome {
            Err(failure) => StartStep::Failed(failure),
            Ok(()) => if self.catalog.console.len() == 0 {
                StartStep::ListConsole(plan)
            } else {
                self.resume(plan)
            },
        }
    }

    /// The console's monitors, if they could be listed; the start goes on in
    /// any case.
    pub fn after_console(&mut self, plan: StartPlan, listed: Option<Vec<Display>>) -> (step:
        StartStep)
        ensures
            final(self)@ == (match listed {
                Some(displays) => StreamerView {
                    catalog: CatalogView {
                        console: model::display_views(displays@),
                        ..old(self)@.catalog
                    },
                    ..old(self)@
                },
                None => old(self)@,
            }),
            step@ == final(self)@.resumed(plan),
    {
        if let Some(displays) = listed {
            self.catalog.console = displays;
        }
        self.resume(plan)
    }

    fn resume(&self, plan: StartPlan) -> (step: StartStep)
        ensures
            step@ == self@.resumed(plan),
    {
        if self.running.is_some() {
            StartStep::Reconfigure(plan)
        } else {
            self.attempt(plan)
        }
    }

    /// Whether the running capture helper started anew; if not, it is replaced.
    pub fn after_reconfigure(&mut self, plan: StartPlan, outcome: Result<Captured, Failure>) -> (
    step: StartStep)
        ensures
            match captured_view(outcome) {
                Ok(captured) => final(self)@ == old(self)@.recorded(captured) && step@ == old(
                    self,
                )@.offered(captured),
                Err(_) => final(self)@ == old(self)@ && step@ == StepView::Stop(plan),
            },
    {
        match outcome {
            Ok(captured) => self.complete(captured),
            Err(_) => StartStep::Stop(plan),
        }
    }

    /// The capture helper has stopped, whether it could be told to or not.
    pub fn after_stop(&mut self, plan: StartPlan) -> (step: StartStep)
        ensures
            final(self)@ == old(self)@.without_capture(),
            step@ == final(self)@.first_attempt(plan),
    {
        self.running = None;
        self.attempt(plan)
    }

    fn attempt(&self, plan: StartPlan) -> (step: StartStep)
        ensures
            step@ == self@.first_attempt(plan),
    {
        if plan.background {
            return self.start_on(plan, DesktopTarget::Background, true);
        }
        match self.catalog.preferred {
            Some(target) => self.start_on(plan, target, false),
            None => match self.catalog.selected_session {
                Some(id) => self.start_on(plan, DesktopTarget::Rdp(id, false), false),
                None => StartStep::AskConsole(plan),
            },
        }
    }

    fn start_on(&self, plan: StartPlan, target: DesktopTarget, last: bool) -> (step: StartStep)
        ensures
            step@ == self@.start_on(plan, target, last),
    {
        StartStep::StartOn {
            plan,
            target,
            last,
            command: start_capture(self.viewer_name.as_str(), &plan),
        }
    }

    /// The desktop that the console shows is tried first.
    pub fn after_console_desktop(&self, plan: StartPlan, target: DesktopTarget) -> (step: StartStep)
        ensures
            step@ == self@.start_on(plan, target, false),
    {
        self.start_on(plan, target, false)
    }

    /// Whether capture runs on a desktop.
    pub fn after_attempt(
        &mut self,
        plan: StartPlan,
        target: DesktopTarget,
        last: bool,
        outcome: Result<Captured, Failure>,
    ) -> (step: StartStep)
        ensures
            match captured_view(outcome) {
                Ok(captured) => final(self)@ == old(self)@.running_on(target).recorded(captured)
                    && step@ == old(self)@.running_on(target).offered(captured),
                Err(failure) => final(self)@ == old(self)@ && step@ == old(self)@.attempt_failed(
                    plan,
                    target,
                    last,
                    failure,
                ),
            },
    {
        match outcome {
            Ok(captured) => {
                self.catalog.prefer(target);
                self.running = Some(target);
                self.complete(captured)
            },
            Err(failure) => {
                if !last {
                    return self.start_on(plan, target.alternate(), true);
                }
                match self.catalog.fallback(&plan) {
                    Some(id) => StartStep::BeginAgain(plan.config, id),
                    None => StartStep::Failed(failure),
                }
            },
        }
    }

    fn complete(&mut self, captured: Captured) -> (step: StartStep)
        ensures
            final(self)@ == old(self)@.recorded(captured@),
            step@ == old(self)@.offered(captured@),
    {
        let Captured { started, background, listed } = captured;
        StartStep::Started(self.catalog.record_started(started, background, listed))
    }

    /// Asks the capture helper for a keyframe.
    pub fn request_keyframe(&self) -> (command: Result<ParentCommand, Failure>)
        ensures
            told_view(command) == told(
                self.running is Some,
                CommandView::RequestKeyframe,
                CaptureRequest::Keyframe.doing(),
            ),
    {
        if self.running.is_none() {
            return Err(not_running(CaptureRequest::Keyframe.context()));
        }
        Ok(ParentCommand::RequestKeyframe)
    }

    /// Changes the capture's bitrate, which is never zero.
    pub fn set_bitrate(&self, bits_per_second: u32) -> (command: Result<ParentCommand, Failure>)
        ensures
            told_view(command) == told(
                self.running is Some,
                CommandView::SetBitrate(
                    if bits_per_second == 0 {
                        1u32
                    } else {
                        bits_per_second
                    },
                ),
                CaptureRequest::Bitrate.doing(),
            ),
    {
        if self.running.is_none() {
            return Err(not_running(CaptureRequest::Bitrate.context()));
        }
        Ok(
            ParentCommand::SetBitrate(
                if bits_per_second == 0 {
                    1
                } else {
                    bits_per_second
                },
            ),
        )
    }

    /// Ends the capture; the command for the capture helper, if it runs.
    pub fn stop(&mut self) -> (command: Option<ParentCommand>)
        ensures
            crate::controller::command_view(command) == crate::controller::sent_if(old(self).running is Some, CommandView::Stop),
            final(self)@ == old(self)@.without_capture(),
    {
        let ran = self.running.is_some();
        self.running = None;
        if ran {
            Some(ParentCommand::Stop)
        } else {
            None
        }
    }

    /// Ends every helper, the capture helper last: the commands for each kind,
    /// and that for the capture helper if it runs. `saved` is whether credentials
    /// are saved.
    pub fn shutdown(&mut self, shared: &mut Shared, saved: bool) -> (stops: (
        Vec<(HelperKind, Vec<ParentCommand>)>,
        Option<ParentCommand>,
    ))
        ensures
            final(shared)@ == helper_set::shut_down(old(shared)@, saved),
            helper_set::ends_all(stops.0@),
            crate::controller::command_view(stops.1) == crate::controller::sent_if(old(self).running is Some, CommandView::Stop),
            final(self)@ == old(self)@.without_capture(),
    {
        let helpers = helper_set::shutdown(shared, saved);
        let capture = self.stop();
        (helpers, capture)
    }

    /// The viewer's side of the helpers: it sends to those that run, and knows
    /// what they were last asked to be.
    pub fn input_controller(&self, routed: Routed, settings: HelperSettings) -> (controller:
        DesktopInputController)
        ensures
            controller.routed == routed,
            controller.settings == settings,
            controller.blackout_message@ == self@.blackout_message,
    {
        DesktopInputController::new(routed, settings, self.blackout_message.clone())
    }

    /// The border is told to a running capture helper only.
    pub fn set_display_border(&self, enabled: bool) -> (command: Option<ParentCommand>)
        ensures
            crate::controller::command_view(command) == crate::controller::sent_if(
                self.running is Some,
                CommandView::SetDisplayBorder(enabled),
            ),
    {
        if self.running.is_some() {
            Some(ParentCommand::SetDisplayBorder(enabled))
        } else {
            None
        }
    }

    /// So is whether the cursor is captured.
    pub fn set_cursor_capture(&self, enabled: bool) -> (command: Option<ParentCommand>)
        ensures
            crate::controller::command_view(command) == crate::controller::sent_if(
                self.running is Some,
                CommandView::SetCursorCapture(enabled),
            ),
    {
        if self.running.is_some() {
            Some(ParentCommand::SetCursorCapture(enabled))
        } else {
            None
        }
    }

    /// Whether the sessions have to be listed before the capture is looked at.
    pub fn poll(&mut self, now_ms: u64) -> (due: bool)
        requires
            old(self)@.checked_ms <= now_ms,
        ensures
            due == (now_ms - old(self)@.checked_ms >= capture::SESSION_CHECK_MS),
            final(self)@ == (StreamerView {
                checked_ms: if due {
                    now_ms
                } else {
                    old(self)@.checked_ms
                },
                ..old(self)@
            }),
    {
        self.watch.due(now_ms)
    }

    /// Whether the sessions have changed; the capture is then stopped to publish
    /// them, with the command for the capture helper if it runs. Sessions that
    /// could not be listed have not changed.
    pub fn sessions_changed(&mut self, sessions: Option<Vec<(u32, String)>>) -> (result: (
        bool,
        Option<ParentCommand>,
    ))
        ensures
            result.0 == (sessions matches Some(list) && capture::session_names(list@) != old(
                self,
            )@.known),
            crate::controller::command_view(result.1) == crate::controller::sent_if(
                result.0 && old(self).running is Some,
                CommandView::Stop,
            ),
            final(self)@ == (if result.0 {
                StreamerView {
                    known: capture::session_names(sessions->Some_0@),
                    ..old(self)@.without_capture()
                }
            } else {
                old(self)@
            }),
    {
        match sessions {
            Some(list) => if self.watch.changed(list) {
                let command = self.stop();
                (true, command)
            } else {
                (false, None)
            },
            None => (false, None),
        }
    }

    /// Looks at the capture helper: whether it has to be terminated, and how it
    /// ended if it did. The same desktop is tried first the next time, since a
    /// failed capture does not mean that the desktop has changed.
    pub fn poll_ended(&mut self, progress: &mut Progress, since_frame_ms: u64) -> (result: (
        bool,
        Option<Result<(), String>>,
    ))
        ensures
            ({
                let (stalled, progress_after, ended, after) = polled(
                    old(self)@,
                    old(progress)@,
                    since_frame_ms,
                );
                &&& result.0 == stalled
                &&& dispatch::optional_outcome(result.1) == ended
                &&& final(self)@ == after
                &&& final(progress)@ == progress_after
            }),
    {
        let target = match self.running {
            Some(target) => target,
            None => {
                return (false, None);
            },
        };
        let stalled = capture_stalled(target, since_frame_ms);
        if stalled {
            progress.set_status(
                Err("Background rendering stalled; capture helper was terminated".to_owned()),
            );
        }
        if progress.status.is_none() {
            return (stalled, None);
        }
        self.running = None;
        self.catalog.prefer(target);
        (stalled, Some(progress.take_status()))
    }
}

/// A command for a capture helper that has to run, or what was to be done when it
/// did not.
pub open spec fn told(running: bool, command: CommandView, doing: Seq<char>) -> Result<
    CommandView,
    Seq<Seq<char>>,
> {
    if running {
        Ok(command)
    } else {
        Err(seq![doing, "desktop helper is not running"@])
    }
}

pub open spec fn told_view(command: Result<ParentCommand, Failure>) -> Result<
    CommandView,
    Seq<Seq<char>>,
> {
    match command {
        Ok(value) => Ok(value@),
        Err(failure) => Err(failure@),
    }
}

fn not_running(doing: &str) -> (failure: Failure)
    ensures
        failure@ == seq![doing@, "desktop helper is not running"@],
{
    let failure = Failure::new("desktop helper is not running").context(doing.to_owned());
    assert(failure@ =~= seq![doing@, "desktop helper is not running"@]);
    failure
}

/// What a running capture helper can be asked for.
#[derive(Debug, Clone, Copy, PartialEq, Eq, Structural)]
pub enum CaptureRequest {
    Keyframe,
    Bitrate,
}

impl CaptureRequest {
    /// What is said when it cannot be asked.
    pub open spec fn doing(self) -> Seq<char> {
        match self {
            CaptureRequest::Keyframe => "failed to request a desktop-helper keyframe"@,
            CaptureRequest::Bitrate => "failed to change the desktop-helper bitrate"@,
        }
    }

    fn context(self) -> (text: &'static str)
        ensures
            text@ == self.doing(),
    {
        match self {
            CaptureRequest::Keyframe => "failed to request a desktop-helper keyframe",
            CaptureRequest::Bitrate => "failed to change the desktop-helper bitrate",
        }
    }
}

/// How a request went, given whether the capture helper could be told.
pub fn request_result(request: CaptureRequest, sent: Result<(), Failure>) -> (result: Result<
    (),
    Failure,
>)
    ensures
        done_view(result) == (match done_view(sent) {
            Ok(()) => Ok(()),
            Err(failure) => Err(seq![request.doing()] + failure),
        }),
{
    match sent {
        Ok(()) => Ok(()),
        Err(failure) => Err(failure.context(request.context().to_owned())),
    }
}

/// How ending the capture went, given whether its helper could be told.
pub fn stop_result(sent: Result<(), Failure>) -> (result: Result<(), Failure>)
    ensures
        done_view(result) == (match done_view(sent) {
            Ok(()) => Ok(()),
            Err(failure) => Err(seq!["failed to stop the desktop helper"@] + failure),
        }),
{
    match sent {
        Ok(()) => Ok(()),
        Err(failure) => Err(failure.context("failed to stop the desktop helper".to_owned())),
    }
}

/// Where starting a capture helper on a desktop failed.
#[derive(Debug)]
pub enum AttemptError {
    /// It could not be launched.
    Launch(Failure),
    /// It could not be told to start.
    Send(Failure),
    /// It did not report that it had.
    Startup(String),
    /// The helpers beside it could not be had.
    Helpers(Failure),
}

pub open spec fn attempt_chain(error: AttemptError) -> Seq<Seq<char>> {
    match error {
        AttemptError::Launch(failure) => failure@,
        AttemptError::Send(failure) => seq!["failed to start the desktop helper"@] + failure@,
        AttemptError::Startup(message) => seq![message@],
        AttemptError::Helpers(failure) => seq![
            "failed to start the independent desktop input helper"@,
        ] + failure@,
    }
}

/// The failure of an attempt, and whether there is a process to terminate.
pub fn attempt_failure(error: AttemptError) -> (result: (Failure, bool))
    ensures
        result.0@ == attempt_chain(error),
        result.1 == !(error is Launch),
{
    match error {
        AttemptError::Launch(failure) => (failure, false),
        AttemptError::Send(failure) => (
            failure.context("failed to start the desktop helper".to_owned()),
            true,
        ),
        AttemptError::Startup(message) => (Failure::new(message.as_str()), true),
        AttemptError::Helpers(failure) => (
            failure.context("failed to start the independent desktop input helper".to_owned()),
            true,
        ),
    }
}

/// What looking at a capture finds and leaves behind.
pub open spec fn polled(streamer: StreamerView, progress: ProgressView, since_frame_ms: u64) -> (
bool, ProgressView, Option<Result<(), Seq<char>>>, StreamerView) {
    match streamer.running {
        None => (false, progress, None, streamer),
        Some(target) => {
            let stalled = target is Background && since_frame_ms > capture::BACKGROUND_STALL_MS;
            let seen = if stalled {
                progress.ended(
                    Err("Background rendering stalled; capture helper was terminated"@),
                )
            } else {
                progress
            };
            match seen.status {
                None => (stalled, seen, None, streamer),
                Some(outcome) => (
                    stalled,
                    ProgressView { status: None, ..seen },
                    Some(outcome),
                    StreamerView {
                        catalog: CatalogView { preferred: Some(target), ..streamer.catalog },
                        running: None,
                        ..streamer
                    },
                ),
            }
        },
    }
}

/// A start that has to try desktops tries at most two, and one in the
/// background; only a viewer who wanted no display in particular is given
/// another session's.
pub proof fn attempts_end(
    streamer: StreamerView,
    plan: StartPlan,
    target: DesktopTarget,
    failure: Seq<Seq<char>>,
)
    ensures
        streamer.attempt_failed(plan, target, false, failure) == streamer.start_on(
            plan,
            target.other(),
            true,
        ),
        plan.display is Some ==> streamer.attempt_failed(plan, target, true, failure)
            == StepView::Failed(failure),
        streamer.attempt_failed(plan, target, true, failure) matches StepView::BeginAgain(_, id)
            ==> !capture::gone(streamer.catalog, Some(id)),
{
    if streamer.attempt_failed(plan, target, true, failure) is BeginAgain {
        lemma_fallback_is_offered(streamer.catalog, plan);
    }
}

proof fn lemma_first_primary(sessions: Seq<catalog::SessionDisplayView>)
    ensures
        capture::first_primary(sessions) matches Some(entry) ==> sessions.contains(entry),
    decreases sessions.len(),
{
    if sessions.len() > 0 {
        lemma_first_primary(sessions.skip(1));
        if let Some(entry) = capture::first_primary(sessions) {
            if sessions[0].display.primary {
                assert(sessions[0] == entry);
            } else {
                let at = choose|i: int|
                    0 <= i < sessions.skip(1).len() && sessions.skip(1)[i] == entry;
                assert(sessions[at + 1] == entry);
            }
        }
    }
}

proof fn lemma_offered(sessions: Seq<catalog::SessionDisplayView>, at: int)
    requires
        0 <= at < sessions.len(),
    ensures
        capture::offered_with_id(sessions, sessions[at].display.id) is Some,
    decreases sessions.len(),
{
    if sessions[0].display.id != sessions[at].display.id {
        lemma_offered(sessions.skip(1), at - 1);
    }
}

proof fn lemma_fallback_is_offered(catalog: CatalogView, plan: StartPlan)
    ensures
        capture::fallback_display(catalog, plan) matches Some(id) ==> capture::offered_with_id(
            catalog.sessions,
            id,
        ) is Some,
{
    if let Some(id) = capture::fallback_display(catalog, plan) {
        lemma_first_primary(catalog.sessions);
        match capture::first_primary(catalog.sessions) {
            Some(entry) => {
                let at = choose|i: int|
                    0 <= i < catalog.sessions.len() && catalog.sessions[i] == entry;
                lemma_offered(catalog.sessions, at);
            },
            None => {
                lemma_offered(catalog.sessions, 0);
            },
        }
    }
}

/// Listing the sessions changes nothing but what is offered of them and when they
/// were last listed; if they could not be listed, nothing at all changes.
pub proof fn listing_touches_only_the_sessions(
    streamer: StreamerView,
    sessions: Seq<ActiveSessionView>,
    now_ms: u64,
)
    ensures
        streamer.refreshed(None, now_ms) == streamer,
        ({
            let after = streamer.refreshed(Some(sessions), now_ms);
            &&& after.known == sessions.map_values(
                |session: ActiveSessionView| (session.id, session.user),
            )
            &&& after.checked_ms == now_ms
            &&& after.running == streamer.running
            &&& after.viewer_name == streamer.viewer_name
            &&& after.blackout_message == streamer.blackout_message
            &&& after.catalog.console == streamer.catalog.console
            &&& after.catalog.selected_session == streamer.catalog.selected_session
            &&& after.catalog.background_active == streamer.catalog.background_active
            &&& after.catalog.routes == streamer.catalog.routes
            &&& after.catalog.preferred == streamer.catalog.preferred
        }),
{
}

/// A start goes the same way whatever led to it. It fails at once only for a
/// display of a session that is gone. Another desktop than the shown one has every
/// helper stopped first. The background needs session zero. A capture that runs is
/// told to start anew. Otherwise the desktop is the one that worked last, else the
/// session's own, else the one that the console shows.
pub proof fn starts_take_the_shortest_way(
    streamer: StreamerView,
    config: StreamConfig,
    display: Option<DisplayId>,
    protocol: Protocol,
)
    ensures
        ({
            let catalog = streamer.catalog;
            let plan = capture::start_plan(catalog, config, display, protocol);
            let step = streamer.begun(config, display, protocol);
            let gone = capture::gone(catalog, display);
            let elsewhere = plan.session != catalog.selected_session || plan.background
                != catalog.background_active;
            let command = CommandView::Start {
                viewer_name: streamer.viewer_name,
                display_id: plan.display,
                config: plan.config,
            };
            &&& step is Failed <==> gone
            &&& step is Shutdown <==> !gone && elsewhere
            &&& step is RequireSessionZero <==> !gone && !elsewhere && plan.background
            &&& step is Reconfigure <==> !gone && !elsewhere && !plan.background && streamer.running
                is Some
            &&& step is AskConsole <==> !gone && !elsewhere && !plan.background && streamer.running
                is None && catalog.preferred is None && catalog.selected_session is None
            &&& step matches StepView::Shutdown(told) ==> told == plan
            &&& step matches StepView::RequireSessionZero(told) ==> told == plan
            &&& step matches StepView::Reconfigure(told) ==> told == plan
            &&& step matches StepView::AskConsole(told) ==> told == plan
            &&& !gone && !elsewhere && !plan.background && streamer.running is None ==> (
            catalog.preferred matches Some(target) ==> step == (StepView::StartOn {
                plan,
                target,
                last: false,
                command,
            }))
            &&& !gone && !elsewhere && !plan.background && streamer.running is None
                && catalog.preferred is None ==> (catalog.selected_session matches Some(id) ==> step
                == (StepView::StartOn {
                plan,
                target: DesktopTarget::Rdp(id, false),
                last: false,
                command,
            }))
        }),
{
}

/// In the background there is one desktop, which is the only one tried; what the
/// viewer sees elsewhere is tried on both desktops of its session, the second only
/// after the first.
pub proof fn backgrounds_have_one_desktop(
    streamer: StreamerView,
    plan: StartPlan,
    target: DesktopTarget,
    failure: Seq<Seq<char>>,
)
    ensures
        plan.background ==> streamer.first_attempt(plan) == (StepView::StartOn {
            plan,
            target: DesktopTarget::Background,
            last: true,
            command: CommandView::Start {
                viewer_name: streamer.viewer_name,
                display_id: plan.display,
                config: plan.config,
            },
        }),
        !plan.background && streamer.first_attempt(plan) is StartOn ==> !streamer.first_attempt(
            plan,
        )->StartOn_last,
        ({
            let next = streamer.attempt_failed(plan, target, false, failure);
            &&& next is StartOn
            &&& next->StartOn_plan == plan
            &&& next->StartOn_last
            &&& next->StartOn_target == target <==> target is Background
            &&& next->StartOn_target.unlocked() == target.unlocked()
            &&& next->StartOn_command == (CommandView::Start {
                viewer_name: streamer.viewer_name,
                display_id: plan.display,
                config: plan.config,
            })
        }),
        ({
            let next = streamer.attempt_failed(plan, target, true, failure);
            &&& next matches StepView::BeginAgain(config, _) ==> config == plan.config
                && plan.display is None && plan.session is None && !plan.background
            &&& next is BeginAgain || next == StepView::Failed(failure)
            &&& next is BeginAgain <==> plan.display is None && plan.session is None
                && !plan.background && streamer.catalog.sessions.len() > 0
        }),
{
    if streamer.catalog.sessions.len() == 0 {
        assert(capture::first_primary(streamer.catalog.sessions) is None);
    }
}

/// Stopping the helpers for a start leaves no capture, shows the desktop that is
/// to be started, and forgets which desktop worked exactly where another one is to
/// be shown; a capture that runs on a desktop has shown that it works.
pub proof fn captures_remember_what_works(
    streamer: StreamerView,
    plan: StartPlan,
    target: DesktopTarget,
)
    ensures
        ({
            let cleared = streamer.cleared(plan);
            &&& cleared.running is None
            &&& cleared.catalog.selected_session == plan.session
            &&& cleared.catalog.background_active == plan.background
            &&& plan.shutdown ==> cleared.catalog.preferred is None
            &&& !plan.shutdown ==> cleared.catalog.preferred == streamer.catalog.preferred
            &&& cleared.catalog.sessions == streamer.catalog.sessions
            &&& cleared.catalog.console == streamer.catalog.console
            &&& cleared.catalog.routes == streamer.catalog.routes
            &&& cleared.viewer_name == streamer.viewer_name
            &&& cleared.blackout_message == streamer.blackout_message
            &&& cleared.known == streamer.known
            &&& cleared.checked_ms == streamer.checked_ms
        }),
        ({
            let running = streamer.running_on(target);
            &&& running.running == Some(target)
            &&& running.catalog.preferred == Some(target)
            &&& running.catalog == (CatalogView {
                preferred: running.catalog.preferred,
                ..streamer.catalog
            })
            &&& running == (StreamerView {
                catalog: running.catalog,
                running: running.running,
                ..streamer
            })
        }),
        streamer.without_capture().running is None,
        streamer.without_capture() == (StreamerView {
            running: streamer.without_capture().running,
            ..streamer
        }),
{
}

/// A capture is taken for ended when its helper has told how it ended, and then
/// that is what is told, once; a background that has shown nothing for more than
/// ten seconds is ended too, and is told to have stalled unless it had already
/// ended otherwise. The desktop is the first that the next start tries.
pub proof fn ended_captures_are_told_once(
    streamer: StreamerView,
    progress: ProgressView,
    since_frame_ms: u64,
)
    ensures
        ({
            let (stalled, seen, ended, after) = polled(streamer, progress, since_frame_ms);
            let again = polled(after, seen, since_frame_ms);
            &&& stalled <==> streamer.running == Some(DesktopTarget::Background) && since_frame_ms
                > 10_000
            &&& seen.startup == progress.startup
            &&& streamer.running is None ==> ended is None && seen == progress && after == streamer
            &&& streamer.running is Some && progress.status is Some ==> ended == progress.status
            &&& streamer.running is Some && progress.status is None && stalled ==> ended == Some(
                Err::<(), Seq<char>>(
                    "Background rendering stalled; capture helper was terminated"@,
                ),
            )
            &&& progress.status is None && !stalled ==> ended is None && seen == progress && after
                == streamer
            &&& ended is Some ==> seen.status is None && after.running is None
                && after.catalog.preferred == streamer.running && again.2 is None
            &&& after.catalog == (CatalogView {
                preferred: after.catalog.preferred,
                ..streamer.catalog
            })
            &&& after == (StreamerView {
                catalog: after.catalog,
                running: after.running,
                ..streamer
            })
        }),
{
}

/// Only a capture helper that runs is given commands, and it is given the command
/// itself; an attempt's failure ends with its cause.
pub proof fn only_running_captures_are_told(
    running: bool,
    command: CommandView,
    doing: Seq<char>,
    error: AttemptError,
)
    ensures
        told(running, command, doing) is Ok <==> running,
        told(running, command, doing) matches Ok(given) ==> given == command,
        told(running, command, doing) matches Err(failure) ==> failure[0] == doing
            && failure.len() == 2,
        error matches AttemptError::Launch(failure) ==> attempt_chain(error) == failure@,
        error matches AttemptError::Send(failure) ==> attempt_chain(error).skip(1) == failure@,
        error matches AttemptError::Helpers(failure) ==> attempt_chain(error).skip(1) == failure@,
        error matches AttemptError::Startup(message) ==> attempt_chain(error) == seq![message@],
{
    match error {
        AttemptError::Send(failure) => {
            assert(attempt_chain(error).skip(1) =~= failure@);
        },
        AttemptError::Helpers(failure) => {
            assert(attempt_chain(error).skip(1) =~= failure@);
        },
        _ => {},
    }
}

/// What could not be asked of the capture is named by what was to be done.
pub proof fn capture_requests_are_named(request: CaptureRequest)
    ensures
        request == CaptureRequest::Keyframe ==> request.doing()
            == "failed to request a desktop-helper keyframe"@,
        request == CaptureRequest::Bitrate ==> request.doing()
            == "failed to change the desktop-helper bitrate"@,
{
}

} // verus!
