//! The helpers' side: what each kind of helper does with the commands it gets.
use crate::command::{CommandView, ParentCommand};
use crate::dispatch::Cursor;
use crate::event::{ChildEvent, EventView};
use crate::helper;
use crate::helper::HelperKind;
use crate::model;
use crate::model::{
    choose_display, find_display, ActiveFormat, Display, DisplayId, DisplayView, StartedDesktop,
    StartedView, StreamConfig,
};
use crate::text::{joined, joined3};
use vstd::prelude::*;

verus! {

/// What a helper's loop gets from its command pipe.
#[derive(Debug)]
pub enum Delivery {
    Command(ParentCommand),
    /// The pipe failed, or held something that is no command.
    Unreadable,
    Closed,
    /// Nothing came in time.
    Idle,
}

pub enum DeliveryView {
    Command(CommandView),
    Unreadable,
    Closed,
    Idle,
}

impl View for Delivery {
    type V = DeliveryView;

    open spec fn view(&self) -> DeliveryView {
        match *self {
            Delivery::Command(command) => DeliveryView::Command(command@),
            Delivery::Unreadable => DeliveryView::Unreadable,
            Delivery::Closed => DeliveryView::Closed,
            Delivery::Idle => DeliveryView::Idle,
        }
    }
}

/// What a helper process becomes by its first command.
#[derive(Debug)]
#[allow(inconsistent_fields)]
pub enum Role {
    Capture { display: Option<DisplayId>, config: StreamConfig },
    ListDisplays,
    Files,
    Clipboard,
    Chat { viewer_name: String },
    Input { display: DisplayId },
}

/// Whether a command can be the first one.
pub open spec fn starts_a_helper(command: CommandView) -> bool {
    command is Start || command is EnumerateDisplays || command is StartFiles
        || command is StartClipboard || command is StartChatHelper || command is StartInput
}

pub open spec fn role_matches(role: Role, command: CommandView) -> bool {
    match command {
        CommandView::Start { viewer_name, display_id, config } => role == (Role::Capture {
            display: display_id,
            config,
        }),
        CommandView::EnumerateDisplays => role is ListDisplays,
        CommandView::StartFiles => role is Files,
        CommandView::StartClipboard => role is Clipboard,
        CommandView::StartChatHelper { viewer_name } => role is Chat && role->viewer_name@
            == viewer_name,
        CommandView::StartInput { viewer_name, display_id } => role == (Role::Input {
            display: display_id,
        }),
        _ => false,
    }
}

/// The role that a first command gives, or why it starts nothing.
pub fn role_of(command: ParentCommand) -> (role: Result<Role, &'static str>)
    ensures
        role is Ok == starts_a_helper(command@),
        match role {
            Ok(value) => role_matches(value, command@),
            Err(reason) => reason@
                == "desktop helper expected a capture or input start command"@,
        },
{
    match command {
        ParentCommand::Start { viewer_name: _, display_id, config } => Ok(
            Role::Capture { display: display_id, config },
        ),
        ParentCommand::EnumerateDisplays => Ok(Role::ListDisplays),
        ParentCommand::StartFiles => Ok(Role::Files),
        ParentCommand::StartClipboard => Ok(Role::Clipboard),
        ParentCommand::StartChatHelper { viewer_name } => Ok(Role::Chat { viewer_name }),
        ParentCommand::StartInput { viewer_name: _, display_id } => Ok(
            Role::Input { display: display_id },
        ),
        _ => Err("desktop helper expected a capture or input start command"),
    }
}

/// A capture helper: what it captures, and how.
#[derive(Debug, Clone, Copy, PartialEq, Eq, Structural)]
pub struct CaptureChild {
    pub background: bool,
    pub border_enabled: bool,
    pub display: Option<DisplayId>,
    pub config: StreamConfig,
}

/// What a capture's loop runs into.
#[derive(Debug)]
pub enum CaptureInput {
    /// Frames can no longer be written.
    PipeBroken,
    /// The capture ended, or could not do what it was asked to; with an error
    /// or without.
    Ended(Option<String>),
    Delivery(Delivery),
}

pub enum CaptureInputView {
    PipeBroken,
    Ended(Option<Seq<char>>),
    Delivery(DeliveryView),
}

impl View for CaptureInput {
    type V = CaptureInputView;

    open spec fn view(&self) -> CaptureInputView {
        match *self {
            CaptureInput::PipeBroken => CaptureInputView::PipeBroken,
            CaptureInput::Ended(None) => CaptureInputView::Ended(None),
            CaptureInput::Ended(Some(error)) => CaptureInputView::Ended(Some(error@)),
            CaptureInput::Delivery(delivery) => CaptureInputView::Delivery(delivery@),
        }
    }
}

/// What a capture's loop does next.
#[derive(Debug)]
pub enum CaptureAction {
    Continue,
    /// Hide the border, and show it again if asked; see `border_reply`.
    Border(bool),
    CursorCapture(bool),
    Keyframe,
    Bitrate(u32),
    /// Stop capturing and begin again.
    Restart,
    /// Stop capturing and send this last event, if any; see `last_event`.
    Finish(Option<ChildEvent>),
}

pub enum CaptureActionView {
    Continue,
    Border(bool),
    CursorCapture(bool),
    Keyframe,
    Bitrate(u32),
    Restart,
    Finish(Option<EventView>),
}

/// The view of an event that may be missing.
pub open spec fn optional_event(event: Option<ChildEvent>) -> Option<EventView> {
    match event {
        Some(value) => Some(value@),
        None => None,
    }
}

impl View for CaptureAction {
    type V = CaptureActionView;

    open spec fn view(&self) -> CaptureActionView {
        match *self {
            CaptureAction::Continue => CaptureActionView::Continue,
            CaptureAction::Border(shown) => CaptureActionView::Border(shown),
            CaptureAction::CursorCapture(enabled) => CaptureActionView::CursorCapture(enabled),
            CaptureAction::Keyframe => CaptureActionView::Keyframe,
            CaptureAction::Bitrate(bits) => CaptureActionView::Bitrate(bits),
            CaptureAction::Restart => CaptureActionView::Restart,
            CaptureAction::Finish(event) => CaptureActionView::Finish(optional_event(event)),
        }
    }
}

/// What a capture does with a command. Commands for other helpers end it.
pub open spec fn capture_command(child: CaptureChild, command: CommandView) -> CaptureActionView {
    match command {
        CommandView::SetDisplayBorder(enabled) => CaptureActionView::Border(
            enabled && !child.background,
        ),
        CommandView::SetCursorCapture(enabled) => CaptureActionView::CursorCapture(enabled),
        CommandView::RequestKeyframe => CaptureActionView::Keyframe,
        CommandView::SetBitrate(bits) => CaptureActionView::Bitrate(
            if bits == 0 {
                1u32
            } else {
                bits
            },
        ),
        CommandView::Stop => CaptureActionView::Finish(Some(EventView::Stopped)),
        CommandView::Start { viewer_name, display_id, config } => CaptureActionView::Restart,
        _ => CaptureActionView::Finish(
            Some(EventView::Error("capture helper received a command reserved for input"@)),
        ),
    }
}

/// What a capture does with what its loop runs into.
pub open spec fn capture_action(child: CaptureChild, input: CaptureInputView) -> CaptureActionView {
    match input {
        CaptureInputView::PipeBroken => CaptureActionView::Finish(None),
        CaptureInputView::Ended(None) => CaptureActionView::Finish(Some(EventView::Stopped)),
        CaptureInputView::Ended(Some(error)) => CaptureActionView::Finish(
            Some(EventView::Error(error)),
        ),
        CaptureInputView::Delivery(DeliveryView::Command(command)) => capture_command(
            child,
            command,
        ),
        CaptureInputView::Delivery(DeliveryView::Idle) => CaptureActionView::Continue,
        CaptureInputView::Delivery(_) => CaptureActionView::Finish(Some(EventView::Stopped)),
    }
}

pub open spec fn capture_after(child: CaptureChild, input: CaptureInputView) -> CaptureChild {
    match input {
        CaptureInputView::Delivery(
            DeliveryView::Command(CommandView::SetDisplayBorder(enabled)),
        ) => CaptureChild { border_enabled: enabled && !child.background, ..child },
        CaptureInputView::Delivery(
            DeliveryView::Command(CommandView::Start { viewer_name, display_id, config }),
        ) => CaptureChild { display: display_id, config, ..child },
        _ => child,
    }
}

impl CaptureChild {
    pub fn new(background: bool, display: Option<DisplayId>, config: StreamConfig) -> (child: Self)
        ensures
            child == (CaptureChild { background, border_enabled: false, display, config }),
    {
        CaptureChild { background, border_enabled: false, display, config }
    }

    /// Whether a capture can begin, before the displays are listed.
    pub fn check(&self) -> (result: Result<(), &'static str>)
        ensures
            result is Ok == (self.config.frames_per_second > 0
                && self.config.bitrate_bits_per_second > 0),
            result matches Err(reason) ==> reason@
                == "desktop-helper frame rate and bitrate must be positive"@,
    {
        if self.config.frames_per_second == 0 || self.config.bitrate_bits_per_second == 0 {
            return Err("desktop-helper frame rate and bitrate must be positive");
        }
        Ok(())
    }

    /// The display to capture: the wanted one, else the primary one, else the
    /// first.
    pub fn captured_display(&self, displays: &Vec<Display>) -> (result: Result<Display, &'static str>)
        ensures
            result is Ok == (displays@.len() > 0),
            match result {
                Ok(display) => model::chosen(model::display_views(displays@), self.display) == Some(
                    display@,
                ),
                Err(reason) => reason@ == "Windows reported no displays on the active desktop"@,
            },
    {
        match choose_display(displays, self.display) {
            Some(display) => Ok(display),
            None => Err("Windows reported no displays on the active desktop"),
        }
    }

    /// Whether a capture that begins shows a border.
    pub fn shows_border(&self) -> (shown: bool)
        ensures
            shown == (self.border_enabled && !self.background),
    {
        self.border_enabled && !self.background
    }

    pub fn step(&mut self, input: CaptureInput) -> (action: CaptureAction)
        ensures
            action@ == capture_action(*old(self), input@),
            *final(self) == capture_after(*old(self), input@),
    {
        match input {
            CaptureInput::PipeBroken => CaptureAction::Finish(None),
            CaptureInput::Ended(None) => CaptureAction::Finish(Some(ChildEvent::Stopped)),
            CaptureInput::Ended(Some(error)) => CaptureAction::Finish(
                Some(ChildEvent::Error(error)),
            ),
            CaptureInput::Delivery(Delivery::Command(command)) => self.obey(command),
            CaptureInput::Delivery(Delivery::Idle) => CaptureAction::Continue,
            CaptureInput::Delivery(Delivery::Unreadable) => CaptureAction::Finish(
                Some(ChildEvent::Stopped),
            ),
            CaptureInput::Delivery(Delivery::Closed) => CaptureAction::Finish(
                Some(ChildEvent::Stopped),
            ),
        }
    }

    fn obey(&mut self, command: ParentCommand) -> (action: CaptureAction)
        ensures
            action@ == capture_command(*old(self), command@),
            *final(self) == capture_after(
                *old(self),
                CaptureInputView::Delivery(DeliveryView::Command(command@)),
            ),
    {
        match command {
            ParentCommand::SetDisplayBorder(enabled) => {
                self.border_enabled = enabled && !self.background;
                CaptureAction::Border(self.border_enabled)
            },
            ParentCommand::SetCursorCapture(enabled) => CaptureAction::CursorCapture(enabled),
            ParentCommand::RequestKeyframe => CaptureAction::Keyframe,
            ParentCommand::SetBitrate(bits) => CaptureAction::Bitrate(
                if bits == 0 {
                    1
                } else {
                    bits
                },
            ),
            ParentCommand::Stop => CaptureAction::Finish(Some(ChildEvent::Stopped)),
            ParentCommand::Start { viewer_name: _, display_id, config } => {
                self.display = display_id;
                self.config = config;
                CaptureAction::Restart
            },
            _ => CaptureAction::Finish(
                Some(
                    ChildEvent::Error(
                        "capture helper received a command reserved for input".to_owned(),
                    ),
                ),
            ),
        }
    }
}

/// What a capture helper reports of starting to capture, and whether it goes on.
pub fn capture_started(
    outcome: Result<ActiveFormat, String>,
    displays: Vec<Display>,
    active_display: Display,
) -> (report: (ChildEvent, bool))
    ensures
        match outcome {
            Ok(format) => report.0@ == EventView::Started(
                StartedView {
                    format,
                    displays: model::display_views(displays@),
                    active_display: active_display@,
                },
            ) && report.1,
            Err(error) => report.0@ == EventView::Error(error@) && !report.1,
        },
{
    match outcome {
        Ok(format) => (
            ChildEvent::Started(StartedDesktop { format, displays, active_display }),
            true,
        ),
        Err(error) => (ChildEvent::Error(error), false),
    }
}

/// What a capture helper reports of showing the border.
pub fn border_reply(failure: Option<String>) -> (event: Option<ChildEvent>)
    ensures
        optional_event(event) == (match failure {
            Some(error) => Some(EventView::MaintenanceError("Display border: "@ + error@)),
            None => None,
        }),
{
    match failure {
        Some(error) => Some(
            ChildEvent::MaintenanceError(joined("Display border: ", error.as_str())),
        ),
        None => None,
    }
}

/// The last event of a capture helper; none can be sent over a broken pipe.
pub fn last_event(event: Option<ChildEvent>, pipe_broken: bool) -> (last: Option<ChildEvent>)
    ensures
        optional_event(last) == (if pipe_broken {
            None
        } else {
            optional_event(event)
        }),
{
    if pipe_broken {
        None
    } else {
        event
    }
}

/// What an input helper does with what its command pipe delivers.
#[derive(Debug)]
pub enum InputAction {
    Continue,
    Autofill(Vec<u8>),
    PreventIdleLock(bool),
    SelectDisplay(DisplayId),
    Apply(Vec<u8>),
    Blackout { enabled: bool, text: String },
    Block(bool),
    Release,
    /// Release what is held and send this last event.
    Finish(ChildEvent),
}

pub enum InputActionView {
    Continue,
    Autofill(Seq<u8>),
    PreventIdleLock(bool),
    SelectDisplay(DisplayId),
    Apply(Seq<u8>),
    Blackout { enabled: bool, text: Seq<char> },
    Block(bool),
    Release,
    Finish(EventView),
}

impl View for InputAction {
    type V = InputActionView;

    open spec fn view(&self) -> InputActionView {
        match *self {
            InputAction::Continue => InputActionView::Continue,
            InputAction::Autofill(bytes) => InputActionView::Autofill(bytes@),
            InputAction::PreventIdleLock(enabled) => InputActionView::PreventIdleLock(enabled),
            InputAction::SelectDisplay(id) => InputActionView::SelectDisplay(id),
            InputAction::Apply(bytes) => InputActionView::Apply(bytes@),
            InputAction::Blackout { enabled, text } => InputActionView::Blackout {
                enabled,
                text: text@,
            },
            InputAction::Block(blocked) => InputActionView::Block(blocked),
            InputAction::Release => InputActionView::Release,
            InputAction::Finish(event) => InputActionView::Finish(event@),
        }
    }
}

/// What an input helper does with a command; a video command ends it.
pub open spec fn input_command(command: CommandView) -> InputActionView {
    match command {
        CommandView::AutofillCredentials(bytes) => InputActionView::Autofill(bytes),
        CommandView::SetPreventIdleLock(enabled) => InputActionView::PreventIdleLock(enabled),
        CommandView::StartInput { viewer_name, display_id } => InputActionView::SelectDisplay(
            display_id,
        ),
        CommandView::Input(bytes) => InputActionView::Apply(bytes),
        CommandView::Blackout { enabled, text } => InputActionView::Blackout { enabled, text },
        CommandView::BlockInput(blocked) => InputActionView::Block(blocked),
        CommandView::ReleaseInput => InputActionView::Release,
        CommandView::Stop => InputActionView::Finish(EventView::Stopped),
        _ => InputActionView::Finish(EventView::Error("input helper received a video command"@)),
    }
}

pub open spec fn input_action(delivery: DeliveryView) -> InputActionView {
    match delivery {
        DeliveryView::Command(command) => input_command(command),
        DeliveryView::Idle => InputActionView::Continue,
        _ => InputActionView::Finish(EventView::Stopped),
    }
}

pub fn input_step(delivery: Delivery) -> (action: InputAction)
    ensures
        action@ == input_action(delivery@),
{
    let command = match delivery {
        Delivery::Command(command) => command,
        Delivery::Idle => {
            return InputAction::Continue;
        },
        Delivery::Unreadable => {
            return InputAction::Finish(ChildEvent::Stopped);
        },
        Delivery::Closed => {
            return InputAction::Finish(ChildEvent::Stopped);
        },
    };
    match command {
        ParentCommand::AutofillCredentials(bytes) => InputAction::Autofill(bytes),
        ParentCommand::SetPreventIdleLock(enabled) => InputAction::PreventIdleLock(enabled),
        ParentCommand::StartInput { viewer_name: _, display_id } => InputAction::SelectDisplay(
            display_id,
        ),
        ParentCommand::Input(bytes) => InputAction::Apply(bytes),
        ParentCommand::Blackout { enabled, text } => InputAction::Blackout { enabled, text },
        ParentCommand::BlockInput(blocked) => InputAction::Block(blocked),
        ParentCommand::ReleaseInput => InputAction::Release,
        ParentCommand::Stop => InputAction::Finish(ChildEvent::Stopped),
        _ => InputAction::Finish(
            ChildEvent::Error("input helper received a video command".to_owned()),
        ),
    }
}

/// The display that an input helper is to serve.
pub fn served_display(displays: &Vec<Display>, id: DisplayId) -> (result: Result<
    Display,
    &'static str,
>)
    ensures
        match result {
            Ok(display) => model::first_where(
                model::display_views(displays@),
                |display: DisplayView| display.id == id,
            ) == Some(display@),
            Err(reason) => model::first_where(
                model::display_views(displays@),
                |display: DisplayView| display.id == id,
            ) is None && reason@ == "input helper could not find the selected display"@,
        },
{
    match find_display(displays, id) {
        Some(display) => Ok(display),
        None => Err("input helper could not find the selected display"),
    }
}

/// What an input helper was asked to do.
#[derive(Debug, Clone, Copy, PartialEq, Eq, Structural)]
pub enum InputTask {
    Autofill,
    PreventIdleLock,
    SelectDisplay,
    Apply,
    Blackout,
    Block,
    Release,
}

/// What an input helper does about how a task went.
#[derive(Debug)]
pub enum InputReply {
    Nothing,
    Send(ChildEvent),
    /// Release what is held and send this last event.
    Finish(ChildEvent),
}

pub enum InputReplyView {
    Nothing,
    Send(EventView),
    Finish(EventView),
}

impl View for InputReply {
    type V = InputReplyView;

    open spec fn view(&self) -> InputReplyView {
        match *self {
            InputReply::Nothing => InputReplyView::Nothing,
            InputReply::Send(event) => InputReplyView::Send(event@),
            InputReply::Finish(event) => InputReplyView::Finish(event@),
        }
    }
}

/// Input that cannot be applied or released is dropped; a display that cannot be
/// served ends the helper; anything else is reported.
pub open spec fn reply_to(
    task: InputTask,
    failure: Option<Seq<char>>,
    blocked: bool,
    blacked_out: bool,
) -> InputReplyView {
    match (task, failure) {
        (InputTask::Blackout, None) => InputReplyView::Send(
            EventView::MaintenanceState { agent_input_blocked: blocked, blacked_out },
        ),
        (InputTask::Block, None) => InputReplyView::Send(
            EventView::MaintenanceState { agent_input_blocked: blocked, blacked_out },
        ),
        (_, None) => InputReplyView::Nothing,
        (InputTask::Apply, Some(_)) => InputReplyView::Nothing,
        (InputTask::Release, Some(_)) => InputReplyView::Nothing,
        (InputTask::Autofill, Some(_)) => InputReplyView::Send(
            EventView::MaintenanceError("Credential autofill is busy; try again"@),
        ),
        (InputTask::PreventIdleLock, Some(error)) => InputReplyView::Send(
            EventView::MaintenanceError("Prevent idle lock: "@ + error),
        ),
        (InputTask::SelectDisplay, Some(error)) => InputReplyView::Finish(
            EventView::Error(error),
        ),
        (InputTask::Blackout, Some(error)) => InputReplyView::Send(
            EventView::MaintenanceError(error),
        ),
        (InputTask::Block, Some(error)) => InputReplyView::Send(EventView::MaintenanceError(error)),
    }
}

/// Follows up a task; `blocked` and `blacked_out` are the state after it.
pub fn input_reply(
    task: InputTask,
    failure: Option<String>,
    blocked: bool,
    blacked_out: bool,
) -> (reply: InputReply)
    ensures
        reply@ == reply_to(
            task,
            crate::dispatch::optional_view(failure),
            blocked,
            blacked_out,
        ),
{
    let error = match failure {
        None => {
            return match task {
                InputTask::Blackout => InputReply::Send(
                    ChildEvent::MaintenanceState { agent_input_blocked: blocked, blacked_out },
                ),
                InputTask::Block => InputReply::Send(
                    ChildEvent::MaintenanceState { agent_input_blocked: blocked, blacked_out },
                ),
                _ => InputReply::Nothing,
            };
        },
        Some(error) => error,
    };
    match task {
        InputTask::Apply => InputReply::Nothing,
        InputTask::Release => InputReply::Nothing,
        InputTask::Autofill => InputReply::Send(
            ChildEvent::MaintenanceError("Credential autofill is busy; try again".to_owned()),
        ),
        InputTask::PreventIdleLock => InputReply::Send(
            ChildEvent::MaintenanceError(joined("Prevent idle lock: ", error.as_str())),
        ),
        InputTask::SelectDisplay => InputReply::Finish(ChildEvent::Error(error)),
        InputTask::Blackout => InputReply::Send(ChildEvent::MaintenanceError(error)),
        InputTask::Block => InputReply::Send(ChildEvent::MaintenanceError(error)),
    }
}

/// What an input helper last reported of the pointer.
#[derive(Debug)]
pub struct InputChild {
    pub sent: Option<Cursor>,
}

impl InputChild {
    pub fn new() -> (child: Self)
        ensures
            child.sent is None,
    {
        InputChild { sent: None }
    }

    /// What there is to report of the pointer; only changes are.
    pub fn pointer(&mut self, cursor: Cursor) -> (event: Option<ChildEvent>)
        ensures
            final(self).sent is Some,
            final(self).sent->Some_0@ == cursor@,
            optional_event(event) == (if old(self).sent is Some && old(self).sent->Some_0@
                == cursor@ {
                None
            } else {
                Some(
                    EventView::Cursor {
                        shape: cursor.shape@,
                        viewer_controls_input: cursor.viewer_controls_input,
                        pointer_display: cursor.pointer_display,
                    },
                )
            }),
    {
        let same = match &self.sent {
            Some(sent) => sent.same(&cursor),
            None => false,
        };
        if same {
            return None;
        }
        let event = ChildEvent::Cursor {
            shape: cursor.shape.clone(),
            viewer_controls_input: cursor.viewer_controls_input,
            pointer_display: cursor.pointer_display,
        };
        self.sent = Some(cursor);
        Some(event)
    }
}

/// The events that a helper opens with: it runs, and, where it has the input,
/// nothing is blocked.
pub open spec fn greeting(kind: HelperKind) -> Seq<EventView> {
    if kind == HelperKind::Input {
        seq![
            EventView::InputStarted,
            EventView::MaintenanceState { agent_input_blocked: false, blacked_out: false },
        ]
    } else {
        seq![EventView::InputStarted]
    }
}

pub fn helper_greeting(kind: HelperKind) -> (events: Vec<ChildEvent>)
    ensures
        events@.map_values(|event: ChildEvent| event@) == greeting(kind),
{
    let mut events: Vec<ChildEvent> = Vec::new();
    events.push(ChildEvent::InputStarted);
    if kind == HelperKind::Input {
        events.push(
            ChildEvent::MaintenanceState { agent_input_blocked: false, blacked_out: false },
        );
    }
    assert(events@.map_values(|event: ChildEvent| event@) =~= greeting(kind));
    events
}

/// Every helper opens with the report that it runs, and with nothing that a
/// helper of its kind may not send.
pub proof fn helpers_greet_as_they_may(kind: HelperKind)
    ensures
        greeting(kind)[0] == EventView::InputStarted,
        forall|i: int| 0 <= i < greeting(kind).len() ==> helper::sends(kind, #[trigger] greeting(
            kind,
        )[i]),
{
}

/// What a background input helper does with what its command pipe delivers.
#[derive(Debug)]
pub enum BackgroundAction {
    Apply(Vec<u8>),
    Release,
    Continue,
    /// Report that the command is not possible here.
    Refuse(&'static str),
    /// Send that the helper has stopped.
    Stop,
}

pub enum BackgroundActionView {
    Apply(Seq<u8>),
    Release,
    Continue,
    Refuse(Seq<char>),
    Stop,
}

impl View for BackgroundAction {
    type V = BackgroundActionView;

    open spec fn view(&self) -> BackgroundActionView {
        match *self {
            BackgroundAction::Apply(bytes) => BackgroundActionView::Apply(bytes@),
            BackgroundAction::Release => BackgroundActionView::Release,
            BackgroundAction::Continue => BackgroundActionView::Continue,
            BackgroundAction::Refuse(reason) => BackgroundActionView::Refuse(reason@),
            BackgroundAction::Stop => BackgroundActionView::Stop,
        }
    }
}

/// The console can neither be blacked out nor blocked from the background;
/// switching either off there is nothing to do.
pub open spec fn background_command(command: CommandView) -> BackgroundActionView {
    match command {
        CommandView::Input(bytes) => BackgroundActionView::Apply(bytes),
        CommandView::ReleaseInput => BackgroundActionView::Release,
        CommandView::Stop => BackgroundActionView::Stop,
        CommandView::Blackout { enabled, text } => if enabled {
            BackgroundActionView::Refuse(
                "Console blackout and input blocking are unavailable in background mode"@,
            )
        } else {
            BackgroundActionView::Continue
        },
        CommandView::BlockInput(blocked) => if blocked {
            BackgroundActionView::Refuse(
                "Console blackout and input blocking are unavailable in background mode"@,
            )
        } else {
            BackgroundActionView::Continue
        },
        CommandView::StartInput { viewer_name, display_id } => BackgroundActionView::Continue,
        CommandView::SetPreventIdleLock(_) => BackgroundActionView::Continue,
        _ => BackgroundActionView::Refuse("Unsupported background input command"@),
    }
}

pub open spec fn background_action(delivery: DeliveryView) -> BackgroundActionView {
    match delivery {
        DeliveryView::Command(command) => background_command(command),
        DeliveryView::Idle => BackgroundActionView::Continue,
        _ => BackgroundActionView::Stop,
    }
}

pub fn background_step(delivery: Delivery) -> (action: BackgroundAction)
    ensures
        action@ == background_action(delivery@),
{
    let command = match delivery {
        Delivery::Command(command) => command,
        Delivery::Idle => {
            return BackgroundAction::Continue;
        },
        Delivery::Unreadable => {
            return BackgroundAction::Stop;
        },
        Delivery::Closed => {
            return BackgroundAction::Stop;
        },
    };
    match command {
        ParentCommand::Input(bytes) => BackgroundAction::Apply(bytes),
        ParentCommand::ReleaseInput => BackgroundAction::Release,
        ParentCommand::Stop => BackgroundAction::Stop,
        ParentCommand::Blackout { enabled, text: _ } => if enabled {
            BackgroundAction::Refuse(
                "Console blackout and input blocking are unavailable in background mode",
            )
        } else {
            BackgroundAction::Continue
        },
        ParentCommand::BlockInput(blocked) => if blocked {
            BackgroundAction::Refuse(
                "Console blackout and input blocking are unavailable in background mode",
            )
        } else {
            BackgroundAction::Continue
        },
        ParentCommand::StartInput { viewer_name: _, display_id: _ } => BackgroundAction::Continue,
        ParentCommand::SetPreventIdleLock(_) => BackgroundAction::Continue,
        _ => BackgroundAction::Refuse("Unsupported background input command"),
    }
}

/// What a background input helper reports of input that failed or was refused.
pub fn background_reply(failure: Option<String>) -> (event: Option<ChildEvent>)
    ensures
        optional_event(event) == (match failure {
            Some(error) => Some(EventView::MaintenanceError(error@)),
            None => None,
        }),
{
    match failure {
        Some(error) => Some(ChildEvent::MaintenanceError(error)),
        None => None,
    }
}

/// What a file helper does with what its command pipe delivers.
#[derive(Debug)]
pub enum FileAction {
    Continue,
    /// Hide the wallpaper or show it again; see `wallpaper_reply`.
    HideWallpaper(bool),
    Receive(Vec<u8>),
    /// Send that the helper has stopped.
    Stop,
    /// End without a word.
    Fail(&'static str),
}

pub enum FileActionView {
    Continue,
    HideWallpaper(bool),
    Receive(Seq<u8>),
    Stop,
    Fail(Seq<char>),
}

impl View for FileAction {
    type V = FileActionView;

    open spec fn view(&self) -> FileActionView {
        match *self {
            FileAction::Continue => FileActionView::Continue,
            FileAction::HideWallpaper(hidden) => FileActionView::HideWallpaper(hidden),
            FileAction::Receive(bytes) => FileActionView::Receive(bytes@),
            FileAction::Stop => FileActionView::Stop,
            FileAction::Fail(reason) => FileActionView::Fail(reason@),
        }
    }
}

pub open spec fn file_action(delivery: DeliveryView) -> FileActionView {
    match delivery {
        DeliveryView::Command(CommandView::SetWallpaperHidden(hidden)) =>
            FileActionView::HideWallpaper(hidden),
        DeliveryView::Command(CommandView::Files(bytes)) => FileActionView::Receive(bytes),
        DeliveryView::Command(CommandView::Stop) => FileActionView::Stop,
        DeliveryView::Closed => FileActionView::Stop,
        DeliveryView::Idle => FileActionView::Continue,
        _ => FileActionView::Fail("file helper received an unexpected command"@),
    }
}

pub fn file_step(delivery: Delivery) -> (action: FileAction)
    ensures
        action@ == file_action(delivery@),
{
    match delivery {
        Delivery::Command(ParentCommand::SetWallpaperHidden(hidden)) => FileAction::HideWallpaper(
            hidden,
        ),
        Delivery::Command(ParentCommand::Files(bytes)) => FileAction::Receive(bytes),
        Delivery::Command(ParentCommand::Stop) => FileAction::Stop,
        Delivery::Closed => FileAction::Stop,
        Delivery::Idle => FileAction::Continue,
        _ => FileAction::Fail("file helper received an unexpected command"),
    }
}

/// What a file helper reports of hiding the wallpaper.
pub fn wallpaper_reply(failure: Option<String>) -> (event: Option<ChildEvent>)
    ensures
        optional_event(event) == (match failure {
            Some(error) => Some(EventView::MaintenanceError("Wallpaper: "@ + error@)),
            None => None,
        }),
{
    match failure {
        Some(error) => Some(ChildEvent::MaintenanceError(joined("Wallpaper: ", error.as_str()))),
        None => None,
    }
}

/// What a clipboard helper does with what its command pipe delivers, before it
/// looks at the clipboard again.
#[derive(Debug)]
pub enum ClipboardAction {
    Continue,
    Apply(Vec<u8>),
    /// Send that the helper has stopped.
    Stop,
    /// End without a word.
    Fail(&'static str),
}

pub enum ClipboardActionView {
    Continue,
    Apply(Seq<u8>),
    Stop,
    Fail(Seq<char>),
}

impl View for ClipboardAction {
    type V = ClipboardActionView;

    open spec fn view(&self) -> ClipboardActionView {
        match *self {
            ClipboardAction::Continue => ClipboardActionView::Continue,
            ClipboardAction::Apply(bytes) => ClipboardActionView::Apply(bytes@),
            ClipboardAction::Stop => ClipboardActionView::Stop,
            ClipboardAction::Fail(reason) => ClipboardActionView::Fail(reason@),
        }
    }
}

pub open spec fn clipboard_action(delivery: DeliveryView) -> ClipboardActionView {
    match delivery {
        DeliveryView::Command(CommandView::Clipboard(bytes)) => ClipboardActionView::Apply(bytes),
        DeliveryView::Command(CommandView::Stop) => ClipboardActionView::Stop,
        DeliveryView::Closed => ClipboardActionView::Stop,
        DeliveryView::Idle => ClipboardActionView::Continue,
        _ => ClipboardActionView::Fail("clipboard helper received an unexpected command"@),
    }
}

pub fn clipboard_step(delivery: Delivery) -> (action: ClipboardAction)
    ensures
        action@ == clipboard_action(delivery@),
{
    match delivery {
        Delivery::Command(ParentCommand::Clipboard(bytes)) => ClipboardAction::Apply(bytes),
        Delivery::Command(ParentCommand::Stop) => ClipboardAction::Stop,
        Delivery::Closed => ClipboardAction::Stop,
        Delivery::Idle => ClipboardAction::Continue,
        _ => ClipboardAction::Fail("clipboard helper received an unexpected command"),
    }
}

/// What a chat helper knows.
#[derive(Debug, Clone, Copy, PartialEq, Eq, Structural)]
pub struct ChatChild {
    pub available: bool,
    /// A credential dialog is open.
    pub prompt_open: bool,
}

/// What a chat helper does with what its command pipe delivers.
#[derive(Debug)]
pub enum ChatAction {
    Continue,
    /// Open the credential dialog.
    Prompt,
    /// Chat has become available, or not.
    Available(bool),
    Receive(String),
    /// Send that the helper has stopped.
    Stop,
    /// End without a word.
    Fail(&'static str),
}

pub enum ChatActionView {
    Continue,
    Prompt,
    Available(bool),
    Receive(Seq<char>),
    Stop,
    Fail(Seq<char>),
}

impl View for ChatAction {
    type V = ChatActionView;

    open spec fn view(&self) -> ChatActionView {
        match *self {
            ChatAction::Continue => ChatActionView::Continue,
            ChatAction::Prompt => ChatActionView::Prompt,
            ChatAction::Available(available) => ChatActionView::Available(available),
            ChatAction::Receive(text) => ChatActionView::Receive(text@),
            ChatAction::Stop => ChatActionView::Stop,
            ChatAction::Fail(reason) => ChatActionView::Fail(reason@),
        }
    }
}

/// One dialog at a time, and no message while chat is unavailable.
pub open spec fn chat_action(child: ChatChild, delivery: DeliveryView) -> (
ChatActionView, ChatChild) {
    match delivery {
        DeliveryView::Command(CommandView::PromptCredentials) => if child.prompt_open {
            (ChatActionView::Continue, child)
        } else {
            (ChatActionView::Prompt, ChatChild { prompt_open: true, ..child })
        },
        DeliveryView::Command(CommandView::StartChat) => (
            ChatActionView::Available(true),
            ChatChild { available: true, ..child },
        ),
        DeliveryView::Command(CommandView::StopChat) => (
            ChatActionView::Available(false),
            ChatChild { available: false, ..child },
        ),
        DeliveryView::Command(CommandView::Chat(text)) => if child.available {
            (ChatActionView::Receive(text), child)
        } else {
            (ChatActionView::Continue, child)
        },
        DeliveryView::Command(CommandView::Stop) => (ChatActionView::Stop, child),
        DeliveryView::Closed => (ChatActionView::Stop, child),
        DeliveryView::Idle => (ChatActionView::Continue, child),
        _ => (ChatActionView::Fail("chat helper received an unexpected command"@), child),
    }
}

impl ChatChild {
    pub fn new() -> (child: Self)
        ensures
            child == (ChatChild { available: false, prompt_open: false }),
    {
        ChatChild { available: false, prompt_open: false }
    }

    pub fn step(&mut self, delivery: Delivery) -> (action: ChatAction)
        ensures
            (action@, *final(self)) == chat_action(*old(self), delivery@),
    {
        match delivery {
            Delivery::Command(ParentCommand::PromptCredentials) => if self.prompt_open {
                ChatAction::Continue
            } else {
                self.prompt_open = true;
                ChatAction::Prompt
            },
            Delivery::Command(ParentCommand::StartChat) => {
                self.available = true;
                ChatAction::Available(true)
            },
            Delivery::Command(ParentCommand::StopChat) => {
                self.available = false;
                ChatAction::Available(false)
            },
            Delivery::Command(ParentCommand::Chat(text)) => if self.available {
                ChatAction::Receive(text)
            } else {
                ChatAction::Continue
            },
            Delivery::Command(ParentCommand::Stop) => ChatAction::Stop,
            Delivery::Closed => ChatAction::Stop,
            Delivery::Idle => ChatAction::Continue,
            _ => ChatAction::Fail("chat helper received an unexpected command"),
        }
    }

    /// The dialog has closed.
    pub fn prompt_closed(&mut self)
        ensures
            *final(self) == (ChatChild { prompt_open: false, ..*old(self) }),
    {
        self.prompt_open = false;
    }
}

/// How the credential dialog ended.
#[derive(Debug)]
pub enum PromptOutcome {
    Validated(String),
    Cancelled,
    Failed(String),
}

/// What the viewer is told about it.
pub open spec fn prompt_text(outcome: PromptOutcome) -> Seq<char> {
    match outcome {
        PromptOutcome::Validated(username) => "Validated "@ + username@
            + "; saved on this computer until forgotten"@,
        PromptOutcome::Cancelled => "Credential request cancelled"@,
        PromptOutcome::Failed(error) => error@,
    }
}

pub fn prompt_message(outcome: PromptOutcome) -> (message: String)
    ensures
        message@ == prompt_text(outcome),
{
    match outcome {
        PromptOutcome::Validated(username) => joined3(
            "Validated ",
            username.as_str(),
            "; saved on this computer until forgotten",
        ),
        PromptOutcome::Cancelled => "Credential request cancelled".to_owned(),
        PromptOutcome::Failed(error) => error,
    }
}

/// What the viewer is told about filling in credentials.
pub fn autofill_message(failure: Option<String>) -> (message: String)
    ensures
        message@ == (match failure {
            Some(error) => "Autofill: "@ + error@,
            None => "Credentials filled. Review the account and submit when ready."@,
        }),
{
    match failure {
        Some(error) => joined("Autofill: ", error.as_str()),
        None => "Credentials filled. Review the account and submit when ready.".to_owned(),
    }
}

/// Whether a detected prompt is news; only changes are reported.
pub fn prompt_changed(last: &mut Option<bool>, ready: bool) -> (changed: bool)
    ensures
        changed == (*old(last) != Some(ready)),
        *final(last) == Some(ready),
{
    let changed = match *last {
        Some(known) => known != ready,
        None => true,
    };
    *last = Some(ready);
    changed
}

/// Each helper takes only its own commands: whatever another helper does its
/// work with ends it.
pub proof fn helpers_refuse_foreign_commands(
    command: CommandView,
    child: CaptureChild,
    chat: ChatChild,
)
    ensures
        command is Input || command is Clipboard || command is Chat || command is Files
            || command is AutofillCredentials || command is PromptCredentials ==> capture_action(
            child,
            CaptureInputView::Delivery(DeliveryView::Command(command)),
        ) matches CaptureActionView::Finish(Some(EventView::Error(_))),
        command is Clipboard || command is Chat || command is Files || command is RequestKeyframe
            || command is SetBitrate || command is Start ==> input_action(
            DeliveryView::Command(command),
        ) matches InputActionView::Finish(EventView::Error(_)),
        command is Input || command is Clipboard || command is Chat ==> file_action(
            DeliveryView::Command(command),
        ) is Fail,
        command is Input || command is Files || command is Chat ==> clipboard_action(
            DeliveryView::Command(command),
        ) is Fail,
        command is Input || command is Files || command is Clipboard ==> chat_action(
            chat,
            DeliveryView::Command(command),
        ).0 is Fail,
{
}

/// No helper outlives its command pipe.
pub proof fn helpers_end_with_their_pipe(child: CaptureChild, chat: ChatChild)
    ensures
        capture_action(child, CaptureInputView::Delivery(DeliveryView::Closed)) is Finish,
        capture_action(child, CaptureInputView::Delivery(DeliveryView::Unreadable)) is Finish,
        input_action(DeliveryView::Closed) is Finish,
        input_action(DeliveryView::Unreadable) is Finish,
        background_action(DeliveryView::Closed) is Stop,
        background_action(DeliveryView::Unreadable) is Stop,
        file_action(DeliveryView::Closed) is Stop,
        file_action(DeliveryView::Unreadable) is Fail,
        clipboard_action(DeliveryView::Closed) is Stop,
        clipboard_action(DeliveryView::Unreadable) is Fail,
        chat_action(chat, DeliveryView::Closed).0 is Stop,
        chat_action(chat, DeliveryView::Unreadable).0 is Fail,
{
}

/// A capture helper does what it is told: it begins again with exactly the
/// display and the configuration of a new start, and keeps everything else; a
/// border is shown where it was asked for, but never in the background; a bitrate
/// is set as it was asked for, but never to zero. It ends when it is stopped, when
/// its capture ends, and without a word when its pipe is broken.
pub proof fn captures_obey(child: CaptureChild, input: CaptureInputView)
    ensures
        ({
            let action = capture_action(child, input);
            let after = capture_after(child, input);
            &&& after.background == child.background
            &&& input matches CaptureInputView::Delivery(DeliveryView::Command(command)) ==> {
                &&& command matches CommandView::Start { display_id, config, .. } ==> action
                    is Restart && after.display == display_id && after.config == config
                    && after.border_enabled == child.border_enabled
                &&& !(command is Start) ==> after.display == child.display && after.config
                    == child.config
                &&& action is Restart <==> command is Start
                &&& command matches CommandView::SetDisplayBorder(enabled) ==> action
                    == CaptureActionView::Border(after.border_enabled) && (after.border_enabled
                    <==> enabled && !child.background)
                &&& command matches CommandView::SetBitrate(bits) ==> (action
                    matches CaptureActionView::Bitrate(set) && set >= 1 && (bits >= 1 ==> set
                    == bits))
                &&& command matches CommandView::SetCursorCapture(enabled) ==> action
                    == CaptureActionView::CursorCapture(enabled)
                &&& action is Keyframe <==> command is RequestKeyframe
                &&& command is Stop ==> action == CaptureActionView::Finish(
                    Some(EventView::Stopped),
                )
                &&& !(action is Continue)
            }
            &&& !(input matches CaptureInputView::Delivery(DeliveryView::Command(_))) ==> after
                == child
            &&& input matches CaptureInputView::Ended(Some(error)) ==> action
                == CaptureActionView::Finish(Some(EventView::Error(error)))
            &&& input == CaptureInputView::Ended(None) ==> action == CaptureActionView::Finish(
                Some(EventView::Stopped),
            )
            &&& action == CaptureActionView::Finish(None) <==> input
                == CaptureInputView::PipeBroken
            &&& action is Continue <==> input == CaptureInputView::Delivery(DeliveryView::Idle)
        }),
{
}

/// An input helper hands on what each command carries, to what the command is
/// for, and nothing else; in the background only input and its release are
/// possible, what would act on the console is refused, and switching that off is
/// nothing to do.
pub proof fn input_helpers_obey(command: CommandView)
    ensures
        ({
            let action = input_action(DeliveryView::Command(command));
            let hidden = background_action(DeliveryView::Command(command));
            &&& command matches CommandView::Input(bytes) ==> action == InputActionView::Apply(bytes)
            &&& action is Apply ==> command is Input
            &&& command matches CommandView::AutofillCredentials(bytes) ==> action
                == InputActionView::Autofill(bytes)
            &&& command matches CommandView::SetPreventIdleLock(enabled) ==> action
                == InputActionView::PreventIdleLock(enabled)
            &&& command matches CommandView::StartInput { display_id, .. } ==> action
                == InputActionView::SelectDisplay(display_id)
            &&& command matches CommandView::BlockInput(blocked) ==> action
                == InputActionView::Block(blocked)
            &&& command matches CommandView::Blackout { enabled, text } ==> action == (
            InputActionView::Blackout { enabled, text })
            &&& action is Release <==> command is ReleaseInput
            &&& action == InputActionView::Finish(EventView::Stopped) <==> command is Stop
            &&& !(action is Continue)
            &&& command matches CommandView::Input(bytes) ==> hidden
                == BackgroundActionView::Apply(bytes)
            &&& hidden is Apply ==> command is Input
            &&& hidden is Release <==> command is ReleaseInput
            &&& hidden is Stop <==> command is Stop
            &&& command matches CommandView::BlockInput(blocked) ==> (hidden is Refuse <==> blocked)
            &&& command matches CommandView::Blackout { enabled, .. } ==> (hidden is Refuse
                <==> enabled)
            &&& command is StartInput || command is SetPreventIdleLock ==> hidden is Continue
            &&& command is AutofillCredentials || command is Clipboard || command is Files
                || command is Chat || command is Start ==> hidden is Refuse
        }),
        input_action(DeliveryView::Idle) is Continue,
        background_action(DeliveryView::Idle) is Continue,
{
}

/// File, clipboard and chat helpers hand on what they are for, unchanged, and end
/// when they are stopped. Chat passes only while it is available, and one
/// credential dialog is open at a time.
pub proof fn service_helpers_obey(command: CommandView, chat: ChatChild)
    ensures
        ({
            let delivery = DeliveryView::Command(command);
            let (talk, after) = chat_action(chat, delivery);
            &&& command matches CommandView::Files(bytes) ==> file_action(delivery)
                == FileActionView::Receive(bytes)
            &&& command matches CommandView::SetWallpaperHidden(hidden) ==> file_action(delivery)
                == FileActionView::HideWallpaper(hidden)
            &&& file_action(delivery) is Stop <==> command is Stop
            &&& command matches CommandView::Clipboard(bytes) ==> clipboard_action(delivery)
                == ClipboardActionView::Apply(bytes)
            &&& clipboard_action(delivery) is Stop <==> command is Stop
            &&& command matches CommandView::Chat(text) ==> after == chat && talk == (
            if chat.available {
                ChatActionView::Receive(text)
            } else {
                ChatActionView::Continue
            })
            &&& command is StartChat ==> talk == ChatActionView::Available(true) && after.available
            &&& command is StopChat ==> talk == ChatActionView::Available(false)
                && !after.available
            &&& !(command is StartChat) && !(command is StopChat) ==> after.available
                == chat.available
            &&& talk is Prompt <==> command is PromptCredentials && !chat.prompt_open
            &&& command is PromptCredentials ==> after.prompt_open
            &&& !(command is PromptCredentials) ==> after.prompt_open == chat.prompt_open
            &&& talk is Stop <==> command is Stop
        }),
        file_action(DeliveryView::Idle) is Continue,
        clipboard_action(DeliveryView::Idle) is Continue,
        chat_action(chat, DeliveryView::Idle) == (ChatActionView::Continue, chat),
{
}

/// Input that Windows does not take never ends a helper and is not reported;
/// only a display that cannot be served ends it. What the viewer switched is
/// reported as it then is, and anything else that failed is reported as a failure.
pub proof fn failed_input_is_dropped(
    task: InputTask,
    failure: Option<Seq<char>>,
    blocked: bool,
    blacked_out: bool,
)
    ensures
        ({
            let reply = reply_to(task, failure, blocked, blacked_out);
            &&& task == InputTask::Apply || task == InputTask::Release ==> reply is Nothing
            &&& reply is Finish <==> task == InputTask::SelectDisplay && failure is Some
            &&& reply matches InputReplyView::Finish(event) ==> event == EventView::Error(
                failure->Some_0,
            )
            &&& failure is None ==> (reply is Send <==> task == InputTask::Blackout || task
                == InputTask::Block)
            &&& failure is None && reply is Send ==> reply == InputReplyView::Send(
                EventView::MaintenanceState { agent_input_blocked: blocked, blacked_out },
            )
            &&& failure is Some && reply is Send ==> reply->Send_0 is MaintenanceError
            &&& failure is Some && task != InputTask::Apply && task != InputTask::Release && task
                != InputTask::SelectDisplay ==> reply is Send
        }),
{
}

/// A helper becomes what its first command says, and serves the display that it
/// names; no other command starts one.
pub proof fn first_commands_decide(role: Role, command: CommandView)
    requires
        role_matches(role, command),
    ensures
        starts_a_helper(command),
        role is Capture <==> command is Start,
        role is Input <==> command is StartInput,
        role is Files <==> command is StartFiles,
        role is Clipboard <==> command is StartClipboard,
        role is Chat <==> command is StartChatHelper,
        role is ListDisplays <==> command is EnumerateDisplays,
        command matches CommandView::Start { display_id, config, .. } ==> role == (Role::Capture {
            display: display_id,
            config,
        }),
        command matches CommandView::StartInput { display_id, .. } ==> role == (Role::Input {
            display: display_id,
        }),
{
}

/// The viewer is told who was validated, that the request was cancelled, or why it
/// failed.
pub proof fn dialogs_say_how_they_ended(outcome: PromptOutcome)
    ensures
        outcome matches PromptOutcome::Validated(username) ==> prompt_text(outcome)
            == "Validated "@ + username@ + "; saved on this computer until forgotten"@,
        outcome == PromptOutcome::Cancelled ==> prompt_text(outcome)
            == "Credential request cancelled"@,
        outcome matches PromptOutcome::Failed(error) ==> prompt_text(outcome) == error@,
{
}

/// A command that is for something else changes nothing of a capture; each of its
/// actions comes from its own command, and what only other helpers take ends it with
/// an error.
pub proof fn captures_keep_to_their_commands(child: CaptureChild, command: CommandView)
    ensures
        ({
            let input = CaptureInputView::Delivery(DeliveryView::Command(command));
            let action = capture_action(child, input);
            let after = capture_after(child, input);
            let own = command is SetDisplayBorder || command is SetCursorCapture || command
                is RequestKeyframe || command is SetBitrate || command is Stop || command is Start;
            &&& !(command is SetDisplayBorder) ==> after.border_enabled == child.border_enabled
            &&& !(command is SetDisplayBorder) && !(command is Start) ==> after == child
            &&& action is Border <==> command is SetDisplayBorder
            &&& action is CursorCapture <==> command is SetCursorCapture
            &&& action is Bitrate <==> command is SetBitrate
            &&& !own ==> action == CaptureActionView::Finish(
                Some(EventView::Error("capture helper received a command reserved for input"@)),
            )
        }),
{
}

/// A helper says that it runs, and one for input that nothing is blocked or dark
/// yet; no other helper says more.
pub proof fn greetings_are_short(kind: HelperKind)
    ensures
        kind == HelperKind::Input ==> greeting(kind) == seq![
            EventView::InputStarted,
            EventView::MaintenanceState { agent_input_blocked: false, blacked_out: false },
        ],
        kind != HelperKind::Input ==> greeting(kind) == seq![EventView::InputStarted],
{
}

/// What failed is told in its own words, with what it was where those do not say it;
/// a helper in the background says what is not possible there.
pub proof fn failures_are_told_in_their_words(
    error: Seq<char>,
    text: Seq<char>,
    blocked: bool,
    blacked_out: bool,
)
    ensures
        reply_to(InputTask::Block, Some(error), blocked, blacked_out) == InputReplyView::Send(
            EventView::MaintenanceError(error),
        ),
        reply_to(InputTask::Blackout, Some(error), blocked, blacked_out) == InputReplyView::Send(
            EventView::MaintenanceError(error),
        ),
        reply_to(InputTask::PreventIdleLock, Some(error), blocked, blacked_out)
            == InputReplyView::Send(EventView::MaintenanceError("Prevent idle lock: "@ + error)),
        reply_to(InputTask::Autofill, Some(error), blocked, blacked_out) == InputReplyView::Send(
            EventView::MaintenanceError("Credential autofill is busy; try again"@),
        ),
        background_command(CommandView::BlockInput(true)) == background_command(
            CommandView::Blackout { enabled: true, text },
        ),
        background_command(CommandView::BlockInput(true)) == BackgroundActionView::Refuse(
            "Console blackout and input blocking are unavailable in background mode"@,
        ),
        background_command(CommandView::StartChat) == BackgroundActionView::Refuse(
            "Unsupported background input command"@,
        ),
{
}

} // verus!
