//! What the coordinator does with each event that a helper sends.
//!
//! The events of one helper drive one `Progress`; the services of all helpers
//! share one `Shared`.
use crate::event::{AccessUnitView, ChildEvent, EncodedAccessUnit, EventView};
use crate::helper;
use crate::helper::{child_event_name, helper_sends, HelperKind};
use crate::model::{DisplayId, StartedDesktop, StartedView};
use crate::text::{joined, joined3, push_str};
use std::collections::VecDeque;
use vstd::prelude::*;

verus! {

/// How many chat messages wait for the viewer at most.
pub const MAX_QUEUED_CHAT: usize = 32;

/// The pointer as a helper last reported it; the shape is as the viewer
/// protocol encodes it.
#[derive(Debug)]
pub struct Cursor {
    pub shape: Vec<u8>,
    pub viewer_controls_input: bool,
    pub pointer_display: Option<DisplayId>,
}

pub struct CursorView {
    pub shape: Seq<u8>,
    pub viewer_controls_input: bool,
    pub pointer_display: Option<DisplayId>,
}

impl View for Cursor {
    type V = CursorView;

    open spec fn view(&self) -> CursorView {
        CursorView {
            shape: self.shape@,
            viewer_controls_input: self.viewer_controls_input,
            pointer_display: self.pointer_display,
        }
    }
}

impl Cursor {
    /// Whether two reports say the same.
    pub fn same(&self, other: &Cursor) -> (same: bool)
        ensures
            same == (self@ == other@),
    {
        if self.shape.len() != other.shape.len() {
            return false;
        }
        let mut next: usize = 0;
        while next < self.shape.len()
            invariant
                next <= self.shape@.len(),
                self.shape@.len() == other.shape@.len(),
                forall|i: int| 0 <= i < next ==> self.shape@[i] == other.shape@[i],
            decreases self.shape@.len() - next,
        {
            if self.shape[next] != other.shape[next] {
                assert(self@.shape[next as int] != other@.shape[next as int]);
                return false;
            }
            next += 1;
        }
        assert(self.shape@ =~= other.shape@);
        let same_display = match (self.pointer_display, other.pointer_display) {
            (Some(first), Some(second)) => first == second,
            (None, None) => true,
            _ => false,
        };
        self.viewer_controls_input == other.viewer_controls_input && same_display
    }
}

/// The last word on blocked input and blackout.
#[derive(Debug)]
pub enum Maintenance {
    State { agent_input_blocked: bool, blacked_out: bool },
    Error(String),
}

pub enum MaintenanceView {
    State { agent_input_blocked: bool, blacked_out: bool },
    Error(Seq<char>),
}

impl View for Maintenance {
    type V = MaintenanceView;

    open spec fn view(&self) -> MaintenanceView {
        match *self {
            Maintenance::State { agent_input_blocked, blacked_out } => MaintenanceView::State {
                agent_input_blocked,
                blacked_out,
            },
            Maintenance::Error(reason) => MaintenanceView::Error(reason@),
        }
    }
}

/// What is known of credentials on the endpoint.
#[derive(Debug)]
pub struct Credentials {
    pub saved: bool,
    pub prompt_active: bool,
    pub can_autofill: bool,
    pub message: String,
}

pub struct CredentialsView {
    pub saved: bool,
    pub prompt_active: bool,
    pub can_autofill: bool,
    pub message: Seq<char>,
}

impl View for Credentials {
    type V = CredentialsView;

    open spec fn view(&self) -> CredentialsView {
        CredentialsView {
            saved: self.saved,
            prompt_active: self.prompt_active,
            can_autofill: self.can_autofill,
            message: self.message@,
        }
    }
}

/// Where the events of all helpers end up.
#[derive(Debug)]
pub struct Shared {
    pub cursor: Cursor,
    /// Only the newest clipboard content is kept.
    pub clipboard: Option<Vec<u8>>,
    pub files: VecDeque<Vec<u8>>,
    pub chat: VecDeque<String>,
    pub maintenance: Option<Maintenance>,
    pub credentials: Credentials,
}

pub struct SharedView {
    pub cursor: CursorView,
    pub clipboard: Option<Seq<u8>>,
    pub files: Seq<Seq<u8>>,
    pub chat: Seq<Seq<char>>,
    pub maintenance: Option<MaintenanceView>,
    pub credentials: CredentialsView,
}

pub open spec fn bytes_views(items: Seq<Vec<u8>>) -> Seq<Seq<u8>> {
    items.map_values(|item: Vec<u8>| item@)
}

pub open spec fn text_views(items: Seq<String>) -> Seq<Seq<char>> {
    items.map_values(|item: String| item@)
}

pub open spec fn optional_view<T: View>(value: Option<T>) -> Option<T::V> {
    match value {
        Some(inner) => Some(inner@),
        None => None,
    }
}

impl View for Shared {
    type V = SharedView;

    open spec fn view(&self) -> SharedView {
        SharedView {
            cursor: self.cursor@,
            clipboard: optional_view(self.clipboard),
            files: bytes_views(self.files@),
            chat: text_views(self.chat@),
            maintenance: optional_view(self.maintenance),
            credentials: self.credentials@,
        }
    }
}

/// An outcome whose error is text.
pub open spec fn outcome_view(outcome: Result<(), String>) -> Result<(), Seq<char>> {
    match outcome {
        Ok(_) => Ok(()),
        Err(message) => Err(message@),
    }
}

pub open spec fn optional_outcome(outcome: Option<Result<(), String>>) -> Option<
    Result<(), Seq<char>>,
> {
    match outcome {
        Some(inner) => Some(outcome_view(inner)),
        None => None,
    }
}

/// How far one helper has come: what its launcher has been told, and how it
/// ended.
#[derive(Debug)]
pub struct Progress {
    pub startup: Option<Result<(), String>>,
    pub status: Option<Result<(), String>>,
}

pub struct ProgressView {
    pub startup: Option<Result<(), Seq<char>>>,
    pub status: Option<Result<(), Seq<char>>>,
}

impl View for Progress {
    type V = ProgressView;

    open spec fn view(&self) -> ProgressView {
        ProgressView {
            startup: optional_outcome(self.startup),
            status: optional_outcome(self.status),
        }
    }
}

impl ProgressView {
    /// The first final status stands.
    pub open spec fn ended(self, outcome: Result<(), Seq<char>>) -> ProgressView {
        ProgressView {
            status: if self.status is None {
                Some(outcome)
            } else {
                self.status
            },
            ..self
        }
    }

    /// The launcher is told once.
    pub open spec fn reported(self, outcome: Result<(), Seq<char>>) -> ProgressView {
        ProgressView {
            startup: if self.startup is None {
                Some(outcome)
            } else {
                self.startup
            },
            ..self
        }
    }

    pub open spec fn failed(self, message: Seq<char>) -> ProgressView {
        self.reported(Err(message)).ended(Err(message))
    }
}

impl Progress {
    pub fn new() -> (progress: Self)
        ensures
            progress@ == (ProgressView { startup: None, status: None }),
    {
        Progress { startup: None, status: None }
    }

    /// Records how a helper ended, unless that is known already.
    pub fn set_status(&mut self, outcome: Result<(), String>)
        ensures
            final(self)@ == old(self)@.ended(outcome_view(outcome)),
    {
        if self.status.is_none() {
            self.status = Some(outcome);
        }
    }

    fn report(&mut self, outcome: Result<(), String>)
        ensures
            final(self)@ == old(self)@.reported(outcome_view(outcome)),
    {
        if self.startup.is_none() {
            self.startup = Some(outcome);
        }
    }

    fn fail(&mut self, message: String)
        ensures
            final(self)@ == old(self)@.failed(message@),
    {
        self.report(Err(message.clone()));
        self.set_status(Err(message));
    }

    /// Takes the final status of a capture helper.
    pub fn take_status(&mut self) -> (outcome: Result<(), String>)
        ensures
            final(self)@ == (ProgressView { status: None, ..old(self)@ }),
            outcome_view(outcome) == (match old(self)@.status {
                Some(outcome) => outcome,
                None => Err("desktop helper exited without a final status"@),
            }),
    {
        match self.status.take() {
            Some(outcome) => outcome,
            None => Err("desktop helper exited without a final status".to_owned()),
        }
    }
}

/// What follows an event of a service helper.
#[derive(Debug)]
pub enum Step {
    /// Read on; whoever waits for this service is woken.
    Continue(Option<HelperKind>),
    /// Decode a credential result and hand it to `credential_result`.
    Credentials(Vec<u8>),
    /// The helper is done with.
    Stop,
}

pub enum StepView {
    Continue(Option<HelperKind>),
    Credentials(Seq<u8>),
    Stop,
}

impl View for Step {
    type V = StepView;

    open spec fn view(&self) -> StepView {
        match *self {
            Step::Continue(woken) => StepView::Continue(woken),
            Step::Credentials(bytes) => StepView::Credentials(bytes@),
            Step::Stop => StepView::Stop,
        }
    }
}

pub struct Dispatched {
    pub shared: SharedView,
    pub progress: ProgressView,
    pub step: StepView,
}

pub open spec fn unexpected_event(kind: HelperKind, event: EventView) -> Seq<char> {
    "desktop "@ + kind.name_of() + " helper sent an unexpected "@ + helper::event_name(event)
        + " event"@
}

/// The effect of one event of a service helper, or of an error in reading it.
pub open spec fn input_step(
    shared: SharedView,
    progress: ProgressView,
    kind: HelperKind,
    event: Result<EventView, Seq<char>>,
    file_queue: usize,
) -> Dispatched {
    match event {
        Err(error) => Dispatched {
            shared,
            progress: progress.failed("desktop input-helper IPC failed: "@ + error),
            step: StepView::Stop,
        },
        Ok(event) => if !helper::sends(kind, event) {
            Dispatched {
                shared,
                progress: progress.failed(unexpected_event(kind, event)),
                step: StepView::Stop,
            }
        } else {
            trusted_step(shared, progress, event, file_queue)
        },
    }
}

pub open spec fn trusted_step(
    shared: SharedView,
    progress: ProgressView,
    event: EventView,
    file_queue: usize,
) -> Dispatched {
    match event {
        EventView::InputStarted => if progress.startup is None {
            Dispatched {
                shared,
                progress: progress.reported(Ok(())),
                step: StepView::Continue(None),
            }
        } else {
            Dispatched {
                shared,
                progress: progress.ended(Err("desktop input helper sent duplicate start event"@)),
                step: StepView::Stop,
            }
        },
        EventView::Credentials(bytes) => Dispatched {
            shared,
            progress,
            step: StepView::Credentials(bytes),
        },
        EventView::CredentialPrompt(ready) => Dispatched {
            shared: SharedView {
                credentials: CredentialsView { can_autofill: ready, ..shared.credentials },
                ..shared
            },
            progress,
            step: StepView::Continue(None),
        },
        EventView::MaintenanceError(reason) => Dispatched {
            shared: SharedView { maintenance: Some(MaintenanceView::Error(reason)), ..shared },
            progress,
            step: StepView::Continue(None),
        },
        EventView::MaintenanceState { agent_input_blocked, blacked_out } => Dispatched {
            shared: SharedView {
                maintenance: Some(MaintenanceView::State { agent_input_blocked, blacked_out }),
                ..shared
            },
            progress,
            step: StepView::Continue(None),
        },
        EventView::Cursor { shape, viewer_controls_input, pointer_display } => Dispatched {
            shared: SharedView {
                cursor: CursorView { shape, viewer_controls_input, pointer_display },
                ..shared
            },
            progress,
            step: StepView::Continue(None),
        },
        EventView::Files(message) => if shared.files.len() < file_queue {
            Dispatched {
                shared: SharedView { files: shared.files.push(message), ..shared },
                progress,
                step: StepView::Continue(Some(HelperKind::Files)),
            }
        } else {
            Dispatched { shared, progress, step: StepView::Continue(None) }
        },
        EventView::Chat(text) => if shared.chat.len() < MAX_QUEUED_CHAT {
            Dispatched {
                shared: SharedView { chat: shared.chat.push(text), ..shared },
                progress,
                step: StepView::Continue(Some(HelperKind::Chat)),
            }
        } else {
            Dispatched { shared, progress, step: StepView::Continue(None) }
        },
        EventView::Clipboard(content) => Dispatched {
            shared: SharedView { clipboard: Some(content), ..shared },
            progress,
            step: StepView::Continue(Some(HelperKind::Clipboard)),
        },
        EventView::Error(message) => Dispatched {
            shared,
            progress: progress.failed(message),
            step: StepView::Stop,
        },
        EventView::Stopped => Dispatched {
            shared,
            progress: progress.reported(
                Err("desktop input helper stopped before startup"@),
            ).ended(Ok(())),
            step: StepView::Stop,
        },
        EventView::Started(_) => Dispatched {
            shared,
            progress: progress.failed("desktop input helper reported a video event"@),
            step: StepView::Stop,
        },
        EventView::Frame(_) => Dispatched {
            shared,
            progress: progress.failed("desktop input helper reported a video event"@),
            step: StepView::Stop,
        },
    }
}

pub open spec fn event_or_error(event: Result<ChildEvent, String>) -> Result<
    EventView,
    Seq<char>,
> {
    match event {
        Ok(event) => Ok(event@),
        Err(error) => Err(error@),
    }
}

fn unexpected_message(kind: HelperKind, event: &ChildEvent) -> (message: String)
    ensures
        message@ == unexpected_event(kind, event@),
{
    let mut message = joined3("desktop ", kind.name(), " helper sent an unexpected ");
    push_str(&mut message, child_event_name(event));
    push_str(&mut message, " event");
    message
}

/// Handles one event of a service helper, or an error in reading it.
/// `file_queue` is how many file messages may wait for the viewer.
pub fn dispatch_input_event(
    shared: &mut Shared,
    progress: &mut Progress,
    kind: HelperKind,
    event: Result<ChildEvent, String>,
    file_queue: usize,
) -> (step: Step)
    ensures
        ({
            let result = input_step(
                old(shared)@,
                old(progress)@,
                kind,
                event_or_error(event),
                file_queue,
            );
            &&& final(shared)@ == result.shared
            &&& final(progress)@ == result.progress
            &&& step@ == result.step
        }),
{
    let event = match event {
        Ok(event) => event,
        Err(error) => {
            progress.fail(joined("desktop input-helper IPC failed: ", error.as_str()));
            return Step::Stop;
        },
    };
    if !helper_sends(kind, &event) {
        progress.fail(unexpected_message(kind, &event));
        return Step::Stop;
    }
    match event {
        ChildEvent::InputStarted => {
            if progress.startup.is_none() {
                progress.report(Ok(()));
                Step::Continue(None)
            } else {
                progress.set_status(
                    Err("desktop input helper sent duplicate start event".to_owned()),
                );
                Step::Stop
            }
        },
        ChildEvent::Credentials(bytes) => Step::Credentials(bytes),
        ChildEvent::CredentialPrompt(ready) => {
            shared.credentials.can_autofill = ready;
            Step::Continue(None)
        },
        ChildEvent::MaintenanceError(reason) => {
            shared.maintenance = Some(Maintenance::Error(reason));
            Step::Continue(None)
        },
        ChildEvent::MaintenanceState { agent_input_blocked, blacked_out } => {
            shared.maintenance = Some(Maintenance::State { agent_input_blocked, blacked_out });
            Step::Continue(None)
        },
        ChildEvent::Cursor { shape, viewer_controls_input, pointer_display } => {
            shared.cursor = Cursor { shape, viewer_controls_input, pointer_display };
            Step::Continue(None)
        },
        ChildEvent::Files(message) => {
            if shared.files.len() < file_queue {
                shared.files.push_back(message);
                assert(bytes_views(shared.files@) =~= bytes_views(old(shared).files@).push(
                    message@,
                ));
                Step::Continue(Some(HelperKind::Files))
            } else {
                Step::Continue(None)
            }
        },
        ChildEvent::Chat(text) => {
            if shared.chat.len() < MAX_QUEUED_CHAT {
                shared.chat.push_back(text);
                assert(text_views(shared.chat@) =~= text_views(old(shared).chat@).push(text@));
                Step::Continue(Some(HelperKind::Chat))
            } else {
                Step::Continue(None)
            }
        },
        ChildEvent::Clipboard(content) => {
            shared.clipboard = Some(content);
            Step::Continue(Some(HelperKind::Clipboard))
        },
        ChildEvent::Error(message) => {
            progress.fail(message);
            Step::Stop
        },
        ChildEvent::Stopped => {
            progress.report(Err("desktop input helper stopped before startup".to_owned()));
            progress.set_status(Ok(()));
            Step::Stop
        },
        ChildEvent::Started(_) => {
            progress.fail("desktop input helper reported a video event".to_owned());
            Step::Stop
        },
        ChildEvent::Frame(_) => {
            progress.fail("desktop input helper reported a video event".to_owned());
            Step::Stop
        },
    }
}

/// A credential helper's answer, decoded.
#[derive(Debug)]
pub struct CredentialResult {
    /// Protected credentials to keep.
    pub encrypted: Option<Vec<u8>>,
    pub message: String,
}

/// What came of keeping protected credentials.
#[derive(Debug)]
pub enum Keeping {
    /// There was nothing to keep.
    Nothing,
    Kept,
    Failed(String),
}

/// Whether a credential result is one that was asked for: only the chat helper
/// brings credentials, and only while its dialog is open.
pub open spec fn credentials_expected(
    credentials: CredentialsView,
    kind: HelperKind,
    encrypted: bool,
) -> bool {
    encrypted ==> kind == HelperKind::Chat && credentials.prompt_active
}

/// Judges a credential result; one that was not asked for ends the helper.
pub fn check_credential_result(
    shared: &Shared,
    progress: &mut Progress,
    kind: HelperKind,
    encrypted: bool,
) -> (accepted: bool)
    ensures
        accepted == credentials_expected(shared@.credentials, kind, encrypted),
        final(progress)@ == (if accepted {
            old(progress)@
        } else {
            old(progress)@.ended(Err("unexpected credential result"@))
        }),
{
    if encrypted && (kind != HelperKind::Chat || !shared.credentials.prompt_active) {
        progress.set_status(Err("unexpected credential result".to_owned()));
        false
    } else {
        true
    }
}

/// What an accepted credential result leaves behind.
pub open spec fn credentials_after(
    credentials: CredentialsView,
    kind: HelperKind,
    message: Seq<char>,
    keeping: Keeping,
) -> CredentialsView {
    CredentialsView {
        saved: credentials.saved || keeping is Kept,
        prompt_active: credentials.prompt_active && kind != HelperKind::Chat,
        can_autofill: credentials.can_autofill,
        message: match keeping {
            Keeping::Failed(error) => "Validated, but could not save credentials: "@ + error@,
            _ => message,
        },
    }
}

/// Records an accepted credential result, once its credentials have been kept
/// or not.
pub fn credential_result(shared: &mut Shared, kind: HelperKind, message: String, keeping: Keeping)
    ensures
        final(shared)@ == (SharedView {
            credentials: credentials_after(old(shared)@.credentials, kind, message@, keeping),
            ..old(shared)@
        }),
{
    shared.credentials.message = message;
    match keeping {
        Keeping::Nothing => {},
        Keeping::Kept => {
            shared.credentials.saved = true;
        },
        Keeping::Failed(error) => {
            shared.credentials.message = joined(
                "Validated, but could not save credentials: ",
                error.as_str(),
            );
        },
    }
    if kind == HelperKind::Chat {
        shared.credentials.prompt_active = false;
    }
}

/// What follows an event of the capture helper.
#[derive(Debug)]
pub struct CaptureStep {
    /// What the launcher is told.
    pub report: Option<Result<StartedDesktop, String>>,
    /// A frame for the stream.
    pub frame: Option<EncodedAccessUnit>,
    /// The helper has shown that it is alive.
    pub progressed: bool,
    pub stop: bool,
}

pub struct CaptureStepView {
    pub report: Option<Result<StartedView, Seq<char>>>,
    pub frame: Option<AccessUnitView>,
    pub progressed: bool,
    pub stop: bool,
}

impl View for CaptureStep {
    type V = CaptureStepView;

    open spec fn view(&self) -> CaptureStepView {
        CaptureStepView {
            report: match self.report {
                None => None,
                Some(Ok(started)) => Some(Ok(started@)),
                Some(Err(message)) => Some(Err(message@)),
            },
            frame: optional_view(self.frame),
            progressed: self.progressed,
            stop: self.stop,
        }
    }
}

pub struct CaptureDispatched {
    pub shared: SharedView,
    pub progress: ProgressView,
    pub step: CaptureStepView,
}

pub open spec fn quiet() -> CaptureStepView {
    CaptureStepView { report: None, frame: None, progressed: false, stop: false }
}

pub open spec fn capture_failed(shared: SharedView, progress: ProgressView, message: Seq<char>) ->
    CaptureDispatched {
    CaptureDispatched {
        shared,
        progress: progress.ended(Err(message)),
        step: CaptureStepView { report: Some(Err(message)), stop: true, ..quiet() },
    }
}

/// The effect of one event of the capture helper, or of an error in reading it.
/// Frames go to the stream only while it is routed.
pub open spec fn capture_step(
    shared: SharedView,
    progress: ProgressView,
    event: Result<EventView, Seq<char>>,
    routed: bool,
) -> CaptureDispatched {
    match event {
        Err(error) => capture_failed(
            shared,
            progress,
            "desktop-helper IPC failed: "@ + error,
        ),
        Ok(EventView::Started(started)) => CaptureDispatched {
            shared,
            progress,
            step: CaptureStepView { report: Some(Ok(started)), progressed: true, ..quiet() },
        },
        Ok(EventView::InputStarted) => capture_failed(
            shared,
            progress,
            "capture helper reported input-only startup"@,
        ),
        Ok(EventView::Frame(frame)) => CaptureDispatched {
            shared,
            progress,
            step: CaptureStepView {
                frame: if routed {
                    Some(frame)
                } else {
                    None
                },
                progressed: true,
                ..quiet()
            },
        },
        Ok(EventView::Cursor { shape, viewer_controls_input, pointer_display }) =>
            CaptureDispatched {
            shared: SharedView {
                cursor: CursorView { shape, viewer_controls_input, pointer_display },
                ..shared
            },
            progress,
            step: quiet(),
        },
        Ok(EventView::MaintenanceError(reason)) => CaptureDispatched {
            shared: SharedView { maintenance: Some(MaintenanceView::Error(reason)), ..shared },
            progress,
            step: quiet(),
        },
        Ok(EventView::Error(message)) => capture_failed(shared, progress, message),
        Ok(EventView::Stopped) => CaptureDispatched {
            shared,
            progress: progress.ended(Ok(())),
            step: CaptureStepView {
                report: Some(Err("desktop helper stopped"@)),
                stop: true,
                ..quiet()
            },
        },
        _ => CaptureDispatched {
            shared,
            progress: progress.ended(
                Err("capture helper reported an input-only clipboard event"@),
            ),
            step: CaptureStepView { stop: true, ..quiet() },
        },
    }
}

fn fail_capture(progress: &mut Progress, message: String) -> (step: CaptureStep)
    ensures
        final(progress)@ == old(progress)@.ended(Err(message@)),
        step@ == (CaptureStepView { report: Some(Err(message@)), stop: true, ..quiet() }),
{
    progress.set_status(Err(message.clone()));
    CaptureStep { report: Some(Err(message)), frame: None, progressed: false, stop: true }
}

/// Handles one event of the capture helper, or an error in reading it.
pub fn dispatch_child_event(
    shared: &mut Shared,
    progress: &mut Progress,
    event: Result<ChildEvent, String>,
    routed: bool,
) -> (step: CaptureStep)
    ensures
        ({
            let result = capture_step(
                old(shared)@,
                old(progress)@,
                event_or_error(event),
                routed,
            );
            &&& final(shared)@ == result.shared
            &&& final(progress)@ == result.progress
            &&& step@ == result.step
        }),
{
    match event {
        Err(error) => fail_capture(
            progress,
            joined("desktop-helper IPC failed: ", error.as_str()),
        ),
        Ok(ChildEvent::Started(started)) => CaptureStep {
            report: Some(Ok(started)),
            frame: None,
            progressed: true,
            stop: false,
        },
        Ok(ChildEvent::InputStarted) => fail_capture(
            progress,
            "capture helper reported input-only startup".to_owned(),
        ),
        Ok(ChildEvent::Frame(frame)) => CaptureStep {
            report: None,
            frame: if routed {
                Some(frame)
            } else {
                None
            },
            progressed: true,
            stop: false,
        },
        Ok(ChildEvent::Cursor { shape, viewer_controls_input, pointer_display }) => {
            shared.cursor = Cursor { shape, viewer_controls_input, pointer_display };
            CaptureStep { report: None, frame: None, progressed: false, stop: false }
        },
        Ok(ChildEvent::MaintenanceError(reason)) => {
            shared.maintenance = Some(Maintenance::Error(reason));
            CaptureStep { report: None, frame: None, progressed: false, stop: false }
        },
        Ok(ChildEvent::Error(message)) => fail_capture(progress, message),
        Ok(ChildEvent::Stopped) => {
            progress.set_status(Ok(()));
            CaptureStep {
                report: Some(Err("desktop helper stopped".to_owned())),
                frame: None,
                progressed: false,
                stop: true,
            }
        },
        Ok(_) => {
            progress.set_status(
                Err("capture helper reported an input-only clipboard event".to_owned()),
            );
            CaptureStep { report: None, frame: None, progressed: false, stop: true }
        },
    }
}

impl Shared {
    /// Nothing reported yet: until a helper reports a pointer it has the default
    /// shape, which is given as the viewer protocol encodes it.
    pub fn new(saved_credentials: bool, default_shape: Vec<u8>) -> (shared: Self)
        ensures
            shared@ == (SharedView {
                cursor: CursorView {
                    shape: default_shape@,
                    viewer_controls_input: false,
                    pointer_display: None,
                },
                clipboard: None,
                files: seq![],
                chat: seq![],
                maintenance: None,
                credentials: CredentialsView {
                    saved: saved_credentials,
                    prompt_active: false,
                    can_autofill: false,
                    message: seq![],
                },
            }),
    {
        let shared = Shared {
            cursor: Cursor {
                shape: default_shape,
                viewer_controls_input: false,
                pointer_display: None,
            },
            clipboard: None,
            files: VecDeque::new(),
            chat: VecDeque::new(),
            maintenance: None,
            credentials: Credentials {
                saved: saved_credentials,
                prompt_active: false,
                can_autofill: false,
                message: String::new(),
            },
        };
        assert(bytes_views(shared.files@) =~= seq![]);
        assert(text_views(shared.chat@) =~= seq![]);
        shared
    }

    /// The next file message for the viewer, oldest first.
    pub fn poll_files(&mut self) -> (message: Option<Vec<u8>>)
        ensures
            match message {
                Some(bytes) => old(self)@.files.len() > 0 && bytes@ == old(self)@.files[0]
                    && final(self)@ == (SharedView {
                    files: old(self)@.files.skip(1),
                    ..old(self)@
                }),
                None => old(self)@.files.len() == 0 && final(self)@ == old(self)@,
            },
    {
        let message = self.files.pop_front();
        proof {
            if message is Some {
                assert(bytes_views(self.files@) =~= bytes_views(old(self).files@).skip(1));
            } else {
                assert(bytes_views(self.files@) =~= bytes_views(old(self).files@));
            }
        }
        message
    }

    /// The next chat message for the viewer, oldest first.
    pub fn poll_chat(&mut self) -> (text: Option<String>)
        ensures
            match text {
                Some(value) => old(self)@.chat.len() > 0 && value@ == old(self)@.chat[0]
                    && final(self)@ == (SharedView {
                    chat: old(self)@.chat.skip(1),
                    ..old(self)@
                }),
                None => old(self)@.chat.len() == 0 && final(self)@ == old(self)@,
            },
    {
        let text = self.chat.pop_front();
        proof {
            if text is Some {
                assert(text_views(self.chat@) =~= text_views(old(self).chat@).skip(1));
            } else {
                assert(text_views(self.chat@) =~= text_views(old(self).chat@));
            }
        }
        text
    }

    /// The newest clipboard content, once.
    pub fn poll_clipboard(&mut self) -> (content: Option<Vec<u8>>)
        ensures
            optional_view(content) == old(self)@.clipboard,
            final(self)@ == (SharedView { clipboard: None, ..old(self)@ }),
    {
        self.clipboard.take()
    }

    /// The last word on blocked input and blackout; an error is told once.
    pub fn maintenance_state(&mut self) -> (state: Option<Maintenance>)
        ensures
            optional_view(state) == old(self)@.maintenance,
            final(self)@ == (if old(self)@.maintenance matches Some(MaintenanceView::Error(_)) {
                SharedView { maintenance: None, ..old(self)@ }
            } else {
                old(self)@
            }),
    {
        match &self.maintenance {
            None => None,
            Some(Maintenance::State { agent_input_blocked, blacked_out }) => Some(
                Maintenance::State {
                    agent_input_blocked: *agent_input_blocked,
                    blacked_out: *blacked_out,
                },
            ),
            Some(Maintenance::Error(_)) => self.maintenance.take(),
        }
    }
}

/// An event that a helper's run loop never sends changes nothing that is
/// shared: the helper is stopped, and with it whatever it claimed.
pub proof fn forged_event_changes_nothing(
    shared: SharedView,
    progress: ProgressView,
    kind: HelperKind,
    event: EventView,
    file_queue: usize,
)
    requires
        !helper::sends(kind, event),
        progress.status is None,
    ensures
        ({
            let result = input_step(shared, progress, kind, Ok(event), file_queue);
            &&& result.shared == shared
            &&& result.step is Stop
            &&& result.progress.status == Some(
                Err::<(), Seq<char>>(unexpected_event(kind, event)),
            )
            &&& progress.startup is None ==> result.progress.startup == Some(
                Err::<(), Seq<char>>(unexpected_event(kind, event)),
            )
            &&& progress.startup is Some ==> result.progress.startup == progress.startup
        }),
{
}

/// Once a helper's launcher has been told how it started, or its end is known,
/// no later event changes that.
pub proof fn first_report_stands(
    shared: SharedView,
    progress: ProgressView,
    kind: HelperKind,
    event: Result<EventView, Seq<char>>,
    file_queue: usize,
)
    ensures
        ({
            let result = input_step(shared, progress, kind, event, file_queue);
            &&& progress.startup is Some ==> result.progress.startup == progress.startup
            &&& progress.status is Some ==> result.progress.status == progress.status
        }),
{
}

/// A helper that is stopped has a final status and its launcher an answer,
/// except that a second start report leaves the answer as it was.
pub proof fn stopped_helper_has_a_status(
    shared: SharedView,
    progress: ProgressView,
    kind: HelperKind,
    event: Result<EventView, Seq<char>>,
    file_queue: usize,
)
    requires
        input_step(shared, progress, kind, event, file_queue).step is Stop,
    ensures
        input_step(shared, progress, kind, event, file_queue).progress.status is Some,
        input_step(shared, progress, kind, event, file_queue).progress.startup is Some,
{
}

/// The queues for the viewer stay within their limits, whatever helpers send.
pub proof fn queues_stay_bounded(
    shared: SharedView,
    progress: ProgressView,
    kind: HelperKind,
    event: Result<EventView, Seq<char>>,
    file_queue: usize,
)
    requires
        shared.files.len() <= file_queue,
        shared.chat.len() <= MAX_QUEUED_CHAT,
    ensures
        input_step(shared, progress, kind, event, file_queue).shared.files.len() <= file_queue,
        input_step(shared, progress, kind, event, file_queue).shared.chat.len() <= MAX_QUEUED_CHAT,
{
}

/// Each event of a helper ends up where it belongs and changes nothing else: file
/// and chat messages at the end of their queues while there is room, clipboard
/// content in place of what was there, the pointer and the state of the console
/// as the last word on them, and a detected prompt beside what is known of
/// credentials. Whoever waits for files, chat or the clipboard is woken exactly
/// when there is something new.
pub proof fn events_reach_their_place(
    shared: SharedView,
    progress: ProgressView,
    kind: HelperKind,
    event: EventView,
    file_queue: usize,
)
    requires
        helper::sends(kind, event),
    ensures
        ({
            let result = input_step(shared, progress, kind, Ok(event), file_queue);
            let after = result.shared;
            &&& event matches EventView::Files(message) ==> after == (SharedView {
                files: after.files,
                ..shared
            }) && (if shared.files.len() < file_queue {
                after.files == shared.files + seq![message] && result.step == StepView::Continue(
                    Some(HelperKind::Files),
                )
            } else {
                after.files == shared.files && result.step == StepView::Continue(None)
            })
            &&& event matches EventView::Chat(text) ==> after == (SharedView {
                chat: after.chat,
                ..shared
            }) && (if shared.chat.len() < 32 {
                after.chat == shared.chat + seq![text] && result.step == StepView::Continue(
                    Some(HelperKind::Chat),
                )
            } else {
                after.chat == shared.chat && result.step == StepView::Continue(None)
            })
            &&& event matches EventView::Clipboard(content) ==> after == (SharedView {
                clipboard: Some(content),
                ..shared
            }) && result.step == StepView::Continue(Some(HelperKind::Clipboard))
            &&& event matches EventView::Cursor { shape, viewer_controls_input, pointer_display }
                ==> after == (SharedView {
                cursor: CursorView { shape, viewer_controls_input, pointer_display },
                ..shared
            })
            &&& event matches EventView::MaintenanceState { agent_input_blocked, blacked_out }
                ==> after == (SharedView {
                maintenance: Some(MaintenanceView::State { agent_input_blocked, blacked_out }),
                ..shared
            })
            &&& event matches EventView::MaintenanceError(reason) ==> after == (SharedView {
                maintenance: Some(MaintenanceView::Error(reason)),
                ..shared
            })
            &&& event matches EventView::CredentialPrompt(ready) ==> after == (SharedView {
                credentials: CredentialsView { can_autofill: ready, ..shared.credentials },
                ..shared
            })
            &&& event matches EventView::Credentials(bytes) ==> after == shared && result.step
                == StepView::Credentials(bytes)
            &&& result.step is Stop <==> event is Error || event is Stopped || (event
                is InputStarted && progress.startup is Some)
            &&& !(result.step is Stop) && !(event is InputStarted) ==> result.progress == progress
        }),
{
    let result = input_step(shared, progress, kind, Ok(event), file_queue);
    if let EventView::Files(message) = event {
        assert(shared.files.push(message) =~= shared.files + seq![message]);
    }
    if let EventView::Chat(text) = event {
        assert(shared.chat.push(text) =~= shared.chat + seq![text]);
    }
}

/// A helper's launcher hears of a start once, and of a failure with what the
/// helper said; a helper that stops before it started has not started. Its final
/// status is a success exactly when it said that it stopped.
pub proof fn helpers_report_how_they_fare(
    shared: SharedView,
    kind: HelperKind,
    event: Result<EventView, Seq<char>>,
    file_queue: usize,
)
    ensures
        ({
            let fresh = ProgressView { startup: None, status: None };
            let after = input_step(shared, fresh, kind, event, file_queue).progress;
            &&& after.startup == Some(Ok::<(), Seq<char>>(())) <==> event == Ok::<
                EventView,
                Seq<char>,
            >(EventView::InputStarted)
            &&& after.status == Some(Ok::<(), Seq<char>>(())) <==> event == Ok::<
                EventView,
                Seq<char>,
            >(EventView::Stopped)
            &&& event matches Ok(EventView::Error(message)) ==> after.startup == Some(
                Err::<(), Seq<char>>(message),
            ) && after.status == Some(Err::<(), Seq<char>>(message))
            &&& event matches Ok(EventView::Stopped) ==> (after.startup matches Some(Err(_)))
            &&& event is Err ==> (after.startup matches Some(Err(_))) && (after.status
                matches Some(Err(_)))
        }),
{
}

/// Of a capture helper the stream gets each frame, unchanged, while it is routed
/// and none otherwise; the launcher gets each report. A frame or a report shows
/// that it is alive, and it is done with exactly when it fails, stops, or sends
/// what only other helpers do.
pub proof fn captures_report_and_deliver(
    shared: SharedView,
    progress: ProgressView,
    event: EventView,
    routed: bool,
)
    ensures
        ({
            let result = capture_step(shared, progress, Ok(event), routed);
            &&& result.step.frame is Some <==> event is Frame && routed
            &&& event matches EventView::Frame(frame) ==> result.step.progressed
                && !result.step.stop && (routed ==> result.step.frame == Some(frame))
            &&& event matches EventView::Started(started) ==> result.step.report == Some(
                Ok::<StartedView, Seq<char>>(started),
            ) && result.step.progressed && !result.step.stop
            &&& event matches EventView::Error(message) ==> result.step.report == Some(
                Err::<StartedView, Seq<char>>(message),
            ) && (progress.status is None ==> result.progress.status == Some(
                Err::<(), Seq<char>>(message),
            ))
            &&& event is Stopped && progress.status is None ==> result.progress.status == Some(
                Ok::<(), Seq<char>>(()),
            )
            &&& result.step.stop <==> !(event is Frame || event is Started || event is Cursor
                || event is MaintenanceError)
            &&& result.step.stop ==> result.progress.status is Some
            &&& !result.step.stop ==> result.progress == progress
            &&& event matches EventView::Cursor { shape, viewer_controls_input, pointer_display }
                ==> result.shared.cursor == (CursorView {
                shape,
                viewer_controls_input,
                pointer_display,
            })
            &&& !(event is Cursor) && !(event is MaintenanceError) ==> result.shared == shared
        }),
        capture_step(shared, progress, Err(Seq::<char>::empty()), routed).step.stop,
{
}

/// Credentials are only taken from the dialog that asked for them: protected
/// credentials come from the chat helper while its dialog is open. Once they are
/// kept they count as saved, the dialog is closed, and what was saved before
/// stays saved.
pub proof fn credentials_come_from_the_dialog(
    credentials: CredentialsView,
    kind: HelperKind,
    message: Seq<char>,
    keeping: Keeping,
)
    ensures
        credentials_expected(credentials, kind, true) <==> kind == HelperKind::Chat
            && credentials.prompt_active,
        credentials_expected(credentials, kind, false),
        ({
            let after = credentials_after(credentials, kind, message, keeping);
            &&& after.saved <==> credentials.saved || keeping is Kept
            &&& kind == HelperKind::Chat ==> !after.prompt_active
            &&& kind != HelperKind::Chat ==> after.prompt_active == credentials.prompt_active
            &&& after.can_autofill == credentials.can_autofill
            &&& !(keeping is Failed) ==> after.message == message
        }),
{
}

/// Of what a capture helper sends, the pointer and maintenance errors end up where
/// they belong and change nothing else; what it reports when it stops, fails or
/// breaks off is that it did, and the launcher's own word stays as it was.
pub proof fn captures_change_nothing_else(
    shared: SharedView,
    progress: ProgressView,
    event: EventView,
    error: Seq<char>,
    routed: bool,
)
    ensures
        ({
            let result = capture_step(shared, progress, Ok(event), routed);
            let strange = event is Clipboard || event is Chat || event is Files || event
                is Credentials || event is CredentialPrompt || event is MaintenanceState;
            &&& result.progress.startup == progress.startup
            &&& event matches EventView::Cursor { shape, viewer_controls_input, pointer_display }
                ==> result.shared == (SharedView {
                cursor: CursorView { shape, viewer_controls_input, pointer_display },
                ..shared
            })
            &&& event matches EventView::MaintenanceError(reason) ==> result.shared == (SharedView {
                maintenance: Some(MaintenanceView::Error(reason)),
                ..shared
            })
            &&& result.step.progressed <==> event is Frame || event is Started
            &&& result.step.report is Some <==> event is Started || event is InputStarted || event
                is Error || event is Stopped
            &&& event is Stopped ==> result.step.report == Some(
                Err::<StartedView, Seq<char>>("desktop helper stopped"@),
            )
            &&& event is InputStarted ==> result.step.report == Some(
                Err::<StartedView, Seq<char>>("capture helper reported input-only startup"@),
            )
            &&& progress.status is Some ==> result.progress.status == progress.status
            &&& strange && progress.status is None ==> result.progress.status == Some(
                Err::<(), Seq<char>>("capture helper reported an input-only clipboard event"@),
            )
        }),
        ({
            let broken = capture_step(shared, progress, Err(error), routed);
            let said = "desktop-helper IPC failed: "@ + error;
            &&& broken.shared == shared
            &&& broken.step.stop && !broken.step.progressed && broken.step.frame is None
            &&& broken.step.report == Some(Err::<StartedView, Seq<char>>(said))
            &&& progress.status is None ==> broken.progress.status == Some(
                Err::<(), Seq<char>>(said),
            )
            &&& broken.progress.startup == progress.startup
        }),
{
}

/// A helper that sends what it may not, breaks off, starts twice, or stops before it
/// has started, is told for just that; nothing that it sent then counts.
pub proof fn strange_helpers_are_told_for_it(
    shared: SharedView,
    kind: HelperKind,
    event: EventView,
    error: Seq<char>,
    file_queue: usize,
)
    ensures
        ({
            let fresh = ProgressView { startup: None, status: None };
            let running = ProgressView {
                startup: Some(Ok::<(), Seq<char>>(())),
                status: None,
            };
            let foreign = input_step(shared, running, kind, Ok(event), file_queue);
            let broken = input_step(shared, fresh, kind, Err(error), file_queue);
            let twice = input_step(
                shared,
                running,
                kind,
                Ok(EventView::InputStarted),
                file_queue,
            );
            let early = input_step(shared, fresh, kind, Ok(EventView::Stopped), file_queue);
            &&& !helper::sends(kind, event) ==> foreign.shared == shared && foreign.step is Stop
                && foreign.progress.startup == running.startup && foreign.progress.status == Some(
                Err::<(), Seq<char>>(
                    "desktop "@ + kind.name_of() + " helper sent an unexpected "@
                        + helper::event_name(event) + " event"@,
                ),
            )
            &&& broken.shared == shared && broken.step is Stop
            &&& broken.progress.status == Some(
                Err::<(), Seq<char>>("desktop input-helper IPC failed: "@ + error),
            )
            &&& broken.progress.startup == broken.progress.status
            &&& twice.shared == shared && twice.step is Stop
            &&& twice.progress.status == Some(
                Err::<(), Seq<char>>("desktop input helper sent duplicate start event"@),
            )
            &&& early.progress.startup == Some(
                Err::<(), Seq<char>>("desktop input helper stopped before startup"@),
            )
        }),
{
}

/// Credentials that could not be kept are told as validated, with why they were not.
pub proof fn unkept_credentials_are_told(
    credentials: CredentialsView,
    kind: HelperKind,
    message: Seq<char>,
    error: String,
)
    ensures
        credentials_after(credentials, kind, message, Keeping::Failed(error)).message
            == "Validated, but could not save credentials: "@ + error@,
{
}

} // verus!
