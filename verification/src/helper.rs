//! Which helper runs on which desktop, as whom, and which events it may send.
use crate::command;
use crate::command::{CommandView, ParentCommand};
use crate::event;
use crate::event::{ChildEvent, EventView};
use crate::failure::Failure;
use crate::model::DisplayId;
use crate::text::{joined, joined3};
use vstd::prelude::*;

verus! {

/// What Windows reports when nobody is at the console.
pub const NO_ACTIVE_SESSION: u32 = 0xffff_ffff;

/// A desktop that a helper can be bound to.
#[derive(Debug, Clone, Copy, PartialEq, Eq, Structural)]
pub enum DesktopTarget {
    Default,
    Winlogon,
    Background,
    /// A Remote Desktop session, and whether its secure desktop is meant.
    Rdp(u32, bool),
}

impl DesktopTarget {
    pub open spec fn name_of(self) -> Seq<char> {
        match self {
            DesktopTarget::Default => "default"@,
            DesktopTarget::Rdp(_, false) => "default"@,
            DesktopTarget::Winlogon => "Winlogon"@,
            DesktopTarget::Rdp(_, true) => "Winlogon"@,
            DesktopTarget::Background => "MeshRMMBackground"@,
        }
    }

    pub fn name(self) -> (name: &'static str)
        ensures
            name@ == self.name_of(),
    {
        match self {
            DesktopTarget::Default => "default",
            DesktopTarget::Rdp(_, false) => "default",
            DesktopTarget::Winlogon => "Winlogon",
            DesktopTarget::Rdp(_, true) => "Winlogon",
            DesktopTarget::Background => "MeshRMMBackground",
        }
    }

    /// The other desktop of the same session; the background has only one.
    pub open spec fn other(self) -> DesktopTarget {
        match self {
            DesktopTarget::Default => DesktopTarget::Winlogon,
            DesktopTarget::Winlogon => DesktopTarget::Default,
            DesktopTarget::Background => DesktopTarget::Background,
            DesktopTarget::Rdp(id, secure) => DesktopTarget::Rdp(id, !secure),
        }
    }

    pub fn alternate(self) -> (other: DesktopTarget)
        ensures
            other == self.other(),
    {
        match self {
            DesktopTarget::Default => DesktopTarget::Winlogon,
            DesktopTarget::Winlogon => DesktopTarget::Default,
            DesktopTarget::Background => DesktopTarget::Background,
            DesktopTarget::Rdp(id, secure) => DesktopTarget::Rdp(id, !secure),
        }
    }

    /// The unlocked desktop of the same session.
    pub open spec fn unlocked(self) -> DesktopTarget {
        match self {
            DesktopTarget::Rdp(id, _) => DesktopTarget::Rdp(id, false),
            _ => DesktopTarget::Default,
        }
    }
}

/// Switching to the alternate desktop twice leads back, and never leaves the
/// session.
pub proof fn alternate_is_an_involution(target: DesktopTarget)
    ensures
        target.other().other() == target,
        target.other().unlocked() == target.unlocked(),
        target is Background <==> target.other() is Background,
{
}

/// The desktop to try first at the console: the user's if somebody is signed in
/// there.
pub fn preferred_desktop(console_session: u32, user_signed_in: bool) -> (target: DesktopTarget)
    ensures
        target == (if console_session != NO_ACTIVE_SESSION && user_signed_in {
            DesktopTarget::Default
        } else {
            DesktopTarget::Winlogon
        }),
{
    if console_session == NO_ACTIVE_SESSION {
        return DesktopTarget::Winlogon;
    }
    if user_signed_in {
        DesktopTarget::Default
    } else {
        DesktopTarget::Winlogon
    }
}

/// The services that a helper process can run.
#[derive(Debug, Clone, Copy, PartialEq, Eq, Structural)]
pub enum HelperKind {
    Input,
    Files,
    Clipboard,
    Chat,
}

impl HelperKind {
    pub open spec fn name_of(self) -> Seq<char> {
        match self {
            HelperKind::Input => "Input"@,
            HelperKind::Files => "Files"@,
            HelperKind::Clipboard => "Clipboard"@,
            HelperKind::Chat => "Chat"@,
        }
    }

    pub fn name(self) -> (name: &'static str)
        ensures
            name@ == self.name_of(),
    {
        match self {
            HelperKind::Input => "Input",
            HelperKind::Files => "Files",
            HelperKind::Clipboard => "Clipboard",
            HelperKind::Chat => "Chat",
        }
    }
}

/// Whether the run loop of a helper sends an event. Helpers that run as the
/// user are not trusted with any other.
pub open spec fn sends(kind: HelperKind, event: EventView) -> bool {
    match event {
        EventView::InputStarted => true,
        EventView::Error(_) => true,
        EventView::Stopped => true,
        EventView::Cursor { .. } => kind == HelperKind::Input,
        EventView::MaintenanceState { .. } => kind == HelperKind::Input,
        EventView::CredentialPrompt(_) => kind == HelperKind::Input,
        EventView::MaintenanceError(_) => kind == HelperKind::Input || kind == HelperKind::Files,
        EventView::Credentials(_) => kind == HelperKind::Input || kind == HelperKind::Chat,
        EventView::Files(_) => kind == HelperKind::Files,
        EventView::Clipboard(_) => kind == HelperKind::Clipboard,
        EventView::Chat(_) => kind == HelperKind::Chat,
        EventView::Started(_) => false,
        EventView::Frame(_) => false,
    }
}

pub fn helper_sends(kind: HelperKind, event: &ChildEvent) -> (result: bool)
    ensures
        result == sends(kind, event@),
{
    match event {
        ChildEvent::InputStarted => true,
        ChildEvent::Error(_) => true,
        ChildEvent::Stopped => true,
        ChildEvent::Cursor { .. } => kind == HelperKind::Input,
        ChildEvent::MaintenanceState { .. } => kind == HelperKind::Input,
        ChildEvent::CredentialPrompt(_) => kind == HelperKind::Input,
        ChildEvent::MaintenanceError(_) => kind == HelperKind::Input || kind == HelperKind::Files,
        ChildEvent::Credentials(_) => kind == HelperKind::Input || kind == HelperKind::Chat,
        ChildEvent::Files(_) => kind == HelperKind::Files,
        ChildEvent::Clipboard(_) => kind == HelperKind::Clipboard,
        ChildEvent::Chat(_) => kind == HelperKind::Chat,
        ChildEvent::Started(_) => false,
        ChildEvent::Frame(_) => false,
    }
}

/// How an event is named in messages.
pub open spec fn event_name(event: EventView) -> Seq<char> {
    match event {
        EventView::Credentials(_) => "credential result"@,
        EventView::CredentialPrompt(_) => "credential detection"@,
        EventView::Files(_) => "file transfer"@,
        EventView::Started(_) => "video start"@,
        EventView::InputStarted => "start"@,
        EventView::MaintenanceState { .. } => "maintenance state"@,
        EventView::MaintenanceError(_) => "maintenance error"@,
        EventView::Frame(_) => "video frame"@,
        EventView::Cursor { .. } => "cursor"@,
        EventView::Clipboard(_) => "clipboard"@,
        EventView::Chat(_) => "chat"@,
        EventView::Error(_) => "error"@,
        EventView::Stopped => "stop"@,
    }
}

pub fn child_event_name(event: &ChildEvent) -> (name: &'static str)
    ensures
        name@ == event_name(event@),
{
    match event {
        ChildEvent::Credentials(_) => "credential result",
        ChildEvent::CredentialPrompt(_) => "credential detection",
        ChildEvent::Files(_) => "file transfer",
        ChildEvent::Started(_) => "video start",
        ChildEvent::InputStarted => "start",
        ChildEvent::MaintenanceState { .. } => "maintenance state",
        ChildEvent::MaintenanceError(_) => "maintenance error",
        ChildEvent::Frame(_) => "video frame",
        ChildEvent::Cursor { .. } => "cursor",
        ChildEvent::Clipboard(_) => "clipboard",
        ChildEvent::Chat(_) => "chat",
        ChildEvent::Error(_) => "error",
        ChildEvent::Stopped => "stop",
    }
}

/// Whether a helper runs with the signed-in user's token rather than the
/// system's.
pub open spec fn as_user(kind: HelperKind, target: DesktopTarget) -> bool {
    match (kind, target) {
        (_, DesktopTarget::Background) => false,
        (HelperKind::Files, _) => true,
        (HelperKind::Clipboard, DesktopTarget::Default) => true,
        (HelperKind::Clipboard, DesktopTarget::Rdp(_, secure)) => !secure,
        _ => false,
    }
}

pub fn helper_uses_user_token(kind: HelperKind, target: DesktopTarget) -> (result: bool)
    ensures
        result == as_user(kind, target),
{
    target != DesktopTarget::Background && (kind == HelperKind::Files || (kind
        == HelperKind::Clipboard && match target {
        DesktopTarget::Default => true,
        DesktopTarget::Rdp(_, secure) => !secure,
        _ => false,
    }))
}

/// A helper with the user's token can send, beside its start, stop and errors,
/// nothing but its own service's data and a file helper's maintenance errors:
/// never input, credentials, chat or video.
pub proof fn user_token_helpers_are_confined(
    kind: HelperKind,
    target: DesktopTarget,
    event: EventView,
)
    requires
        as_user(kind, target),
        sends(kind, event),
    ensures
        event is InputStarted || event is Error || event is Stopped || (kind == HelperKind::Files
            && (event is Files || event is MaintenanceError)) || (kind == HelperKind::Clipboard
            && event is Clipboard),
{
}

/// How a helper process is launched.
#[derive(Debug)]
pub struct Launch {
    pub session: u32,
    pub argument: &'static str,
    pub desktop: String,
    pub command_line: String,
}

/// The session that a helper for a target runs in.
pub open spec fn launch_session(target: DesktopTarget, console_session: u32) -> u32 {
    match target {
        DesktopTarget::Background => 0,
        DesktopTarget::Rdp(id, _) => id,
        _ => console_session,
    }
}

pub open spec fn launch_argument(target: DesktopTarget) -> Seq<char> {
    if target is Background {
        "--background-helper"@
    } else {
        "--capture-helper"@
    }
}

/// The window-station path that a helper starts on; the background helper binds
/// itself to its own desktop afterwards.
pub open spec fn launch_desktop(target: DesktopTarget) -> Seq<char> {
    if target is Background {
        "winsta0\\default"@
    } else {
        "winsta0\\"@ + target.name_of()
    }
}

/// Plans a launch, or finds that there is no session to launch in.
pub fn plan_launch(target: DesktopTarget, console_session: u32, executable: &str) -> (launch: Result<
    Launch,
    &'static str,
>)
    ensures
        match launch {
            Ok(plan) => {
                &&& launch_session(target, console_session) != NO_ACTIVE_SESSION
                &&& plan.session == launch_session(target, console_session)
                &&& plan.argument@ == launch_argument(target)
                &&& plan.desktop@ == launch_desktop(target)
                &&& plan.command_line@ == "\""@ + executable@ + ("\" "@ + launch_argument(target))
            },
            Err(message) => launch_session(target, console_session) == NO_ACTIVE_SESSION
                && message@ == "Windows reported no active console session"@,
        },
{
    let session: u32 = match target {
        DesktopTarget::Background => 0,
        DesktopTarget::Rdp(id, _) => id,
        _ => console_session,
    };
    if session == NO_ACTIVE_SESSION {
        return Err("Windows reported no active console session");
    }
    let background = target == DesktopTarget::Background;
    let argument = if background {
        "--background-helper"
    } else {
        "--capture-helper"
    };
    let desktop = if background {
        "winsta0\\default".to_owned()
    } else {
        joined("winsta0\\", target.name())
    };
    let tail = joined("\" ", argument);
    let command_line = joined3("\"", executable, tail.as_str());
    Ok(Launch { session, argument, desktop, command_line })
}

/// The first command that a helper of a kind is sent.
pub open spec fn start_command(
    kind: HelperKind,
    viewer_name: Seq<char>,
    display_id: DisplayId,
) -> CommandView {
    match kind {
        HelperKind::Files => CommandView::StartFiles,
        HelperKind::Clipboard => CommandView::StartClipboard,
        HelperKind::Chat => CommandView::StartChatHelper { viewer_name },
        HelperKind::Input => CommandView::StartInput { viewer_name, display_id },
    }
}

pub fn helper_start_command(kind: HelperKind, viewer_name: &str, display_id: DisplayId) -> (command:
    ParentCommand)
    ensures
        command@ == start_command(kind, viewer_name@, display_id),
{
    match kind {
        HelperKind::Files => ParentCommand::StartFiles,
        HelperKind::Clipboard => ParentCommand::StartClipboard,
        HelperKind::Chat => ParentCommand::StartChatHelper { viewer_name: viewer_name.to_owned() },
        HelperKind::Input => ParentCommand::StartInput {
            viewer_name: viewer_name.to_owned(),
            display_id,
        },
    }
}

/// What came of waiting for a helper to report that it has started.
#[derive(Debug)]
pub enum Startup {
    Started,
    Failed(String),
    TimedOut,
    Disconnected,
}

/// The error that a helper's startup ends in, if it does; `capture` tells the
/// capture helper from the service helpers.
pub open spec fn startup_error(capture: bool, startup: Startup) -> Option<Seq<char>> {
    match startup {
        Startup::Started => None,
        Startup::Failed(message) => Some(
            if capture {
                "desktop helper failed: "@ + message@
            } else {
                "desktop input helper failed: "@ + message@
            },
        ),
        Startup::TimedOut => Some(
            if capture {
                "desktop helper did not start within 5 seconds"@
            } else {
                "desktop input helper did not start within 5 seconds"@
            },
        ),
        Startup::Disconnected => Some(
            if capture {
                "desktop helper exited before capture started"@
            } else {
                "desktop input helper exited before startup"@
            },
        ),
    }
}

pub fn startup_failure(capture: bool, startup: &Startup) -> (error: Option<String>)
    ensures
        match startup_error(capture, *startup) {
            Some(text) => error is Some && error->Some_0@ == text,
            None => error is None,
        },
{
    match startup {
        Startup::Started => None,
        Startup::Failed(message) => Some(
            if capture {
                joined("desktop helper failed: ", message.as_str())
            } else {
                joined("desktop input helper failed: ", message.as_str())
            },
        ),
        Startup::TimedOut => Some(
            if capture {
                "desktop helper did not start within 5 seconds".to_owned()
            } else {
                "desktop input helper did not start within 5 seconds".to_owned()
            },
        ),
        Startup::Disconnected => Some(
            if capture {
                "desktop helper exited before capture started".to_owned()
            } else {
                "desktop input helper exited before startup".to_owned()
            },
        ),
    }
}

/// Where launching a helper, or giving it its first command, failed.
#[derive(Debug, Clone, Copy, PartialEq, Eq, Structural)]
pub enum LaunchStep {
    /// The program's own file could not be found.
    Locate,
    /// Nobody is signed in whose token a helper could run with.
    UserToken,
    /// The coordinator's token could not be opened, copied, or moved to the
    /// helper's session.
    OpenToken,
    DuplicateToken,
    MoveToken,
    CreatePipe,
    /// What the helper inherits could not be limited to its pipes.
    CreateHandleList,
    LimitHandles,
    PrepareHandles,
    CreateProcess,
    /// Nobody could be made to read the helper's events, or its log.
    EventReader,
    LogReader,
    /// The first command could not be sent.
    FirstCommand,
}

pub open spec fn launch_text(target: DesktopTarget) -> Seq<char> {
    "failed to launch LocalSystem helper on winsta0\\"@ + target.name_of()
}

/// What is said of a failed step; `capture` tells the capture helper from the
/// service helpers.
pub open spec fn launch_chain(step: LaunchStep, capture: bool, target: DesktopTarget) -> Seq<
    Seq<char>,
> {
    match step {
        LaunchStep::Locate => seq!["could not locate the Agent executable"@],
        LaunchStep::UserToken => seq!["no signed-in user for file transfers"@],
        LaunchStep::OpenToken => seq!["failed to open the LocalSystem coordinator token"@],
        LaunchStep::DuplicateToken => seq![
            "failed to duplicate the LocalSystem coordinator token"@,
        ],
        LaunchStep::MoveToken => seq![
            "failed to move the desktop helper token into the console session"@,
        ],
        LaunchStep::CreatePipe => seq!["failed to create desktop-helper IPC pipe"@],
        LaunchStep::CreateHandleList => seq![
            "failed to create the desktop-helper process attribute list"@,
        ],
        LaunchStep::LimitHandles => seq![
            "failed to limit the handles a desktop helper inherits"@,
        ],
        LaunchStep::PrepareHandles => seq![
            launch_text(target),
            "failed to prepare the desktop-helper pipe handles"@,
        ],
        LaunchStep::CreateProcess => seq![launch_text(target)],
        LaunchStep::EventReader => seq![
            if capture {
                "failed to start desktop-helper IPC reader"@
            } else {
                "failed to start desktop input-helper IPC reader"@
            },
        ],
        LaunchStep::LogReader => seq![
            if capture {
                "failed to start desktop-helper error reader"@
            } else {
                "failed to start desktop input-helper error reader"@
            },
        ],
        LaunchStep::FirstCommand => seq![
            if capture {
                "failed to start the desktop helper"@
            } else {
                "failed to initialize the desktop input helper"@
            },
        ],
    }
}

/// The failure of a step, given its cause.
pub fn launch_failure(step: LaunchStep, capture: bool, target: DesktopTarget, cause: Failure) -> (
failure: Failure)
    ensures
        failure@ == launch_chain(step, capture, target) + cause@,
{
    let text = match step {
        LaunchStep::Locate => "could not locate the Agent executable",
        LaunchStep::UserToken => "no signed-in user for file transfers",
        LaunchStep::OpenToken => "failed to open the LocalSystem coordinator token",
        LaunchStep::DuplicateToken => "failed to duplicate the LocalSystem coordinator token",
        LaunchStep::MoveToken =>
            "failed to move the desktop helper token into the console session",
        LaunchStep::CreatePipe => "failed to create desktop-helper IPC pipe",
        LaunchStep::CreateHandleList =>
            "failed to create the desktop-helper process attribute list",
        LaunchStep::LimitHandles => "failed to limit the handles a desktop helper inherits",
        LaunchStep::PrepareHandles => {
            let prepared = cause.context(
                "failed to prepare the desktop-helper pipe handles".to_owned(),
            );
            let failure = prepared.context(
                joined("failed to launch LocalSystem helper on winsta0\\", target.name()),
            );
            assert(failure@ =~= launch_chain(step, capture, target) + cause@);
            return failure;
        },
        LaunchStep::CreateProcess => {
            return cause.context(
                joined("failed to launch LocalSystem helper on winsta0\\", target.name()),
            );
        },
        LaunchStep::EventReader => if capture {
            "failed to start desktop-helper IPC reader"
        } else {
            "failed to start desktop input-helper IPC reader"
        },
        LaunchStep::LogReader => if capture {
            "failed to start desktop-helper error reader"
        } else {
            "failed to start desktop input-helper error reader"
        },
        LaunchStep::FirstCommand => if capture {
            "failed to start the desktop helper"
        } else {
            "failed to initialize the desktop input helper"
        },
    };
    cause.context(text.to_owned())
}

/// Every event but those that all helpers have, a start, a stop and an error,
/// belongs to the helpers whose work it is: input to the cursor, maintenance and
/// prompts, and each of the other services to its own data. No service helper
/// sends video.
pub proof fn events_belong_to_their_service(kind: HelperKind, event: EventView)
    ensures
        event is Started || event is Frame ==> !sends(kind, event),
        event is InputStarted || event is Error || event is Stopped ==> sends(kind, event),
        sends(HelperKind::Input, event) <==> event is InputStarted || event is Error || event
            is Stopped || event is Cursor || event is MaintenanceState || event is MaintenanceError
            || event is CredentialPrompt || event is Credentials,
        sends(HelperKind::Files, event) <==> event is InputStarted || event is Error || event
            is Stopped || event is MaintenanceError || event is Files,
        sends(HelperKind::Clipboard, event) <==> event is InputStarted || event is Error || event
            is Stopped || event is Clipboard,
        sends(HelperKind::Chat, event) <==> event is InputStarted || event is Error || event
            is Stopped || event is Chat || event is Credentials,
{
}

/// What serves the signed-in user runs as that user: files wherever there is one,
/// the clipboard where the user's own desktop is shown. What has to reach secure
/// desktops, and everything in the background, runs as the system.
pub proof fn only_user_services_run_as_the_user(kind: HelperKind, target: DesktopTarget)
    ensures
        as_user(kind, target) ==> kind == HelperKind::Files || kind == HelperKind::Clipboard,
        as_user(kind, target) ==> !(target is Background),
        as_user(HelperKind::Files, target) <==> !(target is Background),
        as_user(HelperKind::Clipboard, target) <==> target == target.unlocked(),
{
}

/// A helper runs in the session that it shows: a Remote Desktop session's own,
/// the console's otherwise, and session zero for the background. It starts on the
/// desktop of its name, but for the background, which starts on the user's and is
/// told apart by its argument.
pub proof fn helpers_run_where_they_show(
    target: DesktopTarget,
    session: u32,
    secure: bool,
    console_session: u32,
)
    ensures
        launch_session(DesktopTarget::Rdp(session, secure), console_session) == session,
        launch_session(DesktopTarget::Default, console_session) == console_session,
        launch_session(DesktopTarget::Winlogon, console_session) == console_session,
        launch_session(DesktopTarget::Background, console_session) == 0,
        launch_session(target.other(), console_session) == launch_session(target, console_session),
        launch_desktop(DesktopTarget::Default) == "winsta0\\default"@,
        launch_desktop(DesktopTarget::Background) == "winsta0\\default"@,
        launch_desktop(DesktopTarget::Winlogon) == "winsta0\\Winlogon"@,
        launch_desktop(DesktopTarget::Rdp(session, secure)) == launch_desktop(
            if secure {
                DesktopTarget::Winlogon
            } else {
                DesktopTarget::Default
            },
        ),
        launch_argument(target) == "--background-helper"@ <==> target is Background,
        launch_argument(target) == "--capture-helper"@ <==> !(target is Background),
        target.other() == target <==> target is Background,
        target.other().unlocked() == target.unlocked(),
        target.unlocked().unlocked() == target.unlocked(),
        target.unlocked() == target || target.unlocked() == target.other() || target is Background,
{
    reveal_strlit("winsta0\\default");
    reveal_strlit("winsta0\\Winlogon");
    reveal_strlit("winsta0\\");
    reveal_strlit("default");
    reveal_strlit("Winlogon");
    reveal_strlit("--background-helper");
    reveal_strlit("--capture-helper");
    assert(launch_desktop(DesktopTarget::Default) =~= "winsta0\\default"@);
    assert(launch_desktop(DesktopTarget::Winlogon) =~= "winsta0\\Winlogon"@);
    assert("--background-helper"@[2] != "--capture-helper"@[2]);
}

/// A helper's first command makes it the helper that is wanted, on the display
/// and for the viewer that it serves.
pub proof fn first_commands_make_the_helper(
    kind: HelperKind,
    viewer_name: Seq<char>,
    display_id: DisplayId,
)
    ensures
        ({
            let command = start_command(kind, viewer_name, display_id);
            &&& command is StartFiles <==> kind == HelperKind::Files
            &&& command is StartClipboard <==> kind == HelperKind::Clipboard
            &&& command is StartChatHelper <==> kind == HelperKind::Chat
            &&& command is StartInput <==> kind == HelperKind::Input
            &&& command matches CommandView::StartChatHelper { viewer_name: told } ==> told
                == viewer_name
            &&& command matches CommandView::StartInput { viewer_name: told, display_id: shown }
                ==> told == viewer_name && shown == display_id
        }),
{
}

/// Only a helper that has started has no startup error, and what a helper says of
/// its failure is passed on.
pub proof fn startup_errors_say_what_went_wrong(capture: bool, startup: Startup)
    ensures
        startup_error(capture, startup) is None <==> startup is Started,
        startup matches Startup::Failed(message) ==> message@.is_suffix_of(
            startup_error(capture, startup)->0,
        ),
        startup is Failed && startup_error(capture, startup) is Some ==> startup_error(
            capture,
            startup,
        )->0 != startup_error(!capture, startup)->0,
{
    reveal_strlit("desktop helper failed: ");
    reveal_strlit("desktop input helper failed: ");
    if let Startup::Failed(message) = startup {
        let own = "desktop helper failed: "@ + message@;
        let input = "desktop input helper failed: "@ + message@;
        assert(own.len() != input.len());
        let said = startup_error(capture, startup)->0;
        assert(said.skip(said.len() - message@.len()) =~= message@);
    }
}

/// A helper is called by what it serves.
pub proof fn helpers_have_their_names(kind: HelperKind)
    ensures
        kind == HelperKind::Input ==> kind.name_of() == "Input"@,
        kind == HelperKind::Files ==> kind.name_of() == "Files"@,
        kind == HelperKind::Clipboard ==> kind.name_of() == "Clipboard"@,
        kind == HelperKind::Chat ==> kind.name_of() == "Chat"@,
{
}

/// An event is called by what it tells.
pub proof fn events_have_their_names(event: EventView)
    ensures
        event matches EventView::Credentials(_) ==> event_name(event) == "credential result"@,
        event matches EventView::CredentialPrompt(_) ==> event_name(event)
            == "credential detection"@,
        event matches EventView::Files(_) ==> event_name(event) == "file transfer"@,
        event matches EventView::Started(_) ==> event_name(event) == "video start"@,
        event == EventView::InputStarted ==> event_name(event) == "start"@,
        event matches EventView::MaintenanceState { .. } ==> event_name(event)
            == "maintenance state"@,
        event matches EventView::MaintenanceError(_) ==> event_name(event) == "maintenance error"@,
        event matches EventView::Frame(_) ==> event_name(event) == "video frame"@,
        event matches EventView::Cursor { .. } ==> event_name(event) == "cursor"@,
        event matches EventView::Clipboard(_) ==> event_name(event) == "clipboard"@,
        event matches EventView::Chat(_) ==> event_name(event) == "chat"@,
        event matches EventView::Error(_) ==> event_name(event) == "error"@,
        event == EventView::Stopped ==> event_name(event) == "stop"@,
{
}

/// What is said of a launch that failed names the step, and tells the capture helper
/// from the others where both can fail at it.
pub proof fn launch_failures_name_the_step(step: LaunchStep, capture: bool, target: DesktopTarget)
    ensures
        step == LaunchStep::Locate ==> launch_chain(step, capture, target)
            == seq!["could not locate the Agent executable"@],
        step == LaunchStep::UserToken ==> launch_chain(step, capture, target)
            == seq!["no signed-in user for file transfers"@],
        step == LaunchStep::OpenToken ==> launch_chain(step, capture, target)
            == seq!["failed to open the LocalSystem coordinator token"@],
        step == LaunchStep::DuplicateToken ==> launch_chain(step, capture, target)
            == seq!["failed to duplicate the LocalSystem coordinator token"@],
        step == LaunchStep::MoveToken ==> launch_chain(step, capture, target)
            == seq!["failed to move the desktop helper token into the console session"@],
        step == LaunchStep::CreatePipe ==> launch_chain(step, capture, target)
            == seq!["failed to create desktop-helper IPC pipe"@],
        step == LaunchStep::CreateHandleList ==> launch_chain(step, capture, target)
            == seq!["failed to create the desktop-helper process attribute list"@],
        step == LaunchStep::LimitHandles ==> launch_chain(step, capture, target)
            == seq!["failed to limit the handles a desktop helper inherits"@],
        step == LaunchStep::PrepareHandles ==> launch_chain(step, capture, target)
            == seq![launch_text(target), "failed to prepare the desktop-helper pipe handles"@],
        step == LaunchStep::CreateProcess ==> launch_chain(step, capture, target)
            == seq![launch_text(target)],
        launch_text(target) == "failed to launch LocalSystem helper on winsta0\\"@
            + target.name_of(),
        DesktopTarget::Background.name_of() == "MeshRMMBackground"@,
        step == LaunchStep::EventReader ==> launch_chain(step, true, target)
            == seq!["failed to start desktop-helper IPC reader"@],
        step == LaunchStep::EventReader ==> launch_chain(step, false, target)
            == seq!["failed to start desktop input-helper IPC reader"@],
        step == LaunchStep::LogReader ==> launch_chain(step, true, target)
            == seq!["failed to start desktop-helper error reader"@],
        step == LaunchStep::LogReader ==> launch_chain(step, false, target)
            == seq!["failed to start desktop input-helper error reader"@],
        step == LaunchStep::FirstCommand ==> launch_chain(step, true, target)
            == seq!["failed to start the desktop helper"@],
        step == LaunchStep::FirstCommand ==> launch_chain(step, false, target)
            == seq!["failed to initialize the desktop input helper"@],
{
}

} // verus!
