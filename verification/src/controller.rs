//! Where the viewer's requests go: which helper is told, and what it is told
//! while there is none.
use crate::capture;
use crate::catalog::Catalog;
use crate::command::{CommandView, ParentCommand};
use crate::dispatch;
use crate::dispatch::{Shared, SharedView};
use crate::failure::Failure;
use crate::helper_set::HelperSettings;
use crate::model::DisplayId;
use crate::streamer;
use vstd::prelude::*;

verus! {

/// Which helpers the coordinator sends to at the moment.
#[derive(Debug, Clone, Copy, PartialEq, Eq, Structural)]
pub struct Routed {
    pub input: bool,
    pub files: bool,
    pub clipboard: bool,
    pub chat: bool,
}

impl Routed {
    /// Before any helper runs.
    pub fn none() -> (routed: Self)
        ensures
            routed == (Routed { input: false, files: false, clipboard: false, chat: false }),
    {
        Routed { input: false, files: false, clipboard: false, chat: false }
    }
}

/// The viewer's side of the helpers: what they were last asked to be, and which
/// of them can be asked.
#[derive(Debug)]
pub struct DesktopInputController {
    pub routed: Routed,
    pub settings: HelperSettings,
    /// What a blackout shows.
    pub blackout_message: String,
}

/// Why a request is refused: the helper that it needs is not there.
#[derive(Debug, Clone, Copy, PartialEq, Eq, Structural)]
pub enum Unavailable {
    Input,
    Files,
    Chat,
}

impl Unavailable {
    pub open spec fn text_of(self) -> Seq<char> {
        match self {
            Unavailable::Input => "desktop input helper is not running"@,
            Unavailable::Files => "interactive file helper unavailable"@,
            Unavailable::Chat => "interactive chat helper is unavailable"@,
        }
    }

    pub fn message(&self) -> (text: &'static str)
        ensures
            text@ == self.text_of(),
    {
        match self {
            Unavailable::Input => "desktop input helper is not running",
            Unavailable::Files => "interactive file helper unavailable",
            Unavailable::Chat => "interactive chat helper is unavailable",
        }
    }
}

/// A command that is sent if there is a helper for it.
pub open spec fn sent_if(there: bool, command: CommandView) -> Option<CommandView> {
    if there {
        Some(command)
    } else {
        None
    }
}

/// A command that needs its helper.
pub open spec fn needs(there: bool, command: CommandView, missing: Unavailable) -> Result<
    CommandView,
    Unavailable,
> {
    if there {
        Ok(command)
    } else {
        Err(missing)
    }
}

pub open spec fn command_view(command: Option<ParentCommand>) -> Option<CommandView> {
    match command {
        Some(value) => Some(value@),
        None => None,
    }
}

pub open spec fn result_view(command: Result<ParentCommand, Unavailable>) -> Result<
    CommandView,
    Unavailable,
> {
    match command {
        Ok(value) => Ok(value@),
        Err(missing) => Err(missing),
    }
}

impl DesktopInputController {
    /// A controller for the helpers as they are: those that can be asked, and
    /// what they were last asked to be.
    pub fn new(routed: Routed, settings: HelperSettings, blackout_message: String) -> (controller:
        Self)
        ensures
            controller == (DesktopInputController { routed, settings, blackout_message }),
    {
        DesktopInputController { routed, settings, blackout_message }
    }

    /// Whether the console is shown.
    pub fn is_console_session(&self, catalog: &Catalog) -> (console: bool)
        ensures
            console == (!catalog@.background_active && catalog@.routes.len() == 0),
    {
        catalog.is_console_session()
    }

    /// The display on the wire that the pointer is on, as a helper last reported
    /// it.
    pub fn agent_pointer_display(&self, catalog: &Catalog, shared: &Shared) -> (wire: Option<
        DisplayId,
    >)
        ensures
            wire == (match shared@.cursor.pointer_display {
                Some(local) => if catalog@.routes.len() == 0 {
                    Some(local)
                } else {
                    capture::wire_for(catalog@.routes, local)
                },
                None => None,
            }),
    {
        catalog.agent_pointer_display(shared.cursor.pointer_display)
    }

    /// The display that input is sent on to, by the id that the helper knows.
    /// Input for a display that is not shown is dropped, and so is input that
    /// comes while one desktop's helper gives way to the next: it is neither an
    /// error nor replayed.
    pub fn apply(&self, catalog: &Catalog, wire: DisplayId) -> (local: Option<DisplayId>)
        ensures
            local == (if self.routed.input {
                capture::routed(catalog@.routes, wire)
            } else {
                None
            }),
    {
        if self.routed.input {
            catalog.route_input(wire)
        } else {
            None
        }
    }

    /// Lets go of everything that is held, if there is who holds it.
    pub fn release_all(&self) -> (command: Option<ParentCommand>)
        ensures
            command_view(command) == sent_if(self.routed.input, CommandView::ReleaseInput),
    {
        if self.routed.input {
            Some(ParentCommand::ReleaseInput)
        } else {
            None
        }
    }

    /// Remembered for the next input helper, and told to a running one.
    pub fn set_prevent_idle_lock(&mut self, enabled: bool) -> (command: Option<ParentCommand>)
        ensures
            command_view(command) == sent_if(
                old(self).routed.input,
                CommandView::SetPreventIdleLock(enabled),
            ),
            *final(self) == (DesktopInputController {
                settings: HelperSettings { prevent_idle_lock: enabled, ..old(self).settings },
                ..*old(self)
            }),
    {
        self.settings.prevent_idle_lock = enabled;
        if self.routed.input {
            Some(ParentCommand::SetPreventIdleLock(enabled))
        } else {
            None
        }
    }

    /// Remembered for the next file helper, and told to a running one.
    pub fn set_wallpaper_hidden(&mut self, hidden: bool) -> (command: Option<ParentCommand>)
        ensures
            command_view(command) == sent_if(
                old(self).routed.files,
                CommandView::SetWallpaperHidden(hidden),
            ),
            *final(self) == (DesktopInputController {
                settings: HelperSettings { wallpaper_hidden: hidden, ..old(self).settings },
                ..*old(self)
            }),
    {
        self.settings.wallpaper_hidden = hidden;
        if self.routed.files {
            Some(ParentCommand::SetWallpaperHidden(hidden))
        } else {
            None
        }
    }

    pub fn set_blackout(&self, enabled: bool) -> (command: Result<ParentCommand, Unavailable>)
        ensures
            result_view(command) == needs(
                self.routed.input,
                CommandView::Blackout { enabled, text: self.blackout_message@ },
                Unavailable::Input,
            ),
    {
        if !self.routed.input {
            return Err(Unavailable::Input);
        }
        Ok(ParentCommand::Blackout { enabled, text: self.blackout_message.clone() })
    }

    pub fn set_agent_input_blocked(&self, blocked: bool) -> (command: Result<
        ParentCommand,
        Unavailable,
    >)
        ensures
            result_view(command) == needs(
                self.routed.input,
                CommandView::BlockInput(blocked),
                Unavailable::Input,
            ),
    {
        if !self.routed.input {
            return Err(Unavailable::Input);
        }
        Ok(ParentCommand::BlockInput(blocked))
    }

    /// The display that files are for, by the id that the helper knows, where
    /// they are for one.
    pub fn apply_files(&self, catalog: &Catalog, dropped_on: Option<DisplayId>) -> (result: Result<
        Option<DisplayId>,
        Unavailable,
    >)
        ensures
            result == (if !self.routed.files {
                Err::<Option<DisplayId>, Unavailable>(Unavailable::Files)
            } else {
                Ok(
                    match dropped_on {
                        Some(wire) => match capture::local_for(catalog@.routes, wire) {
                            Some(local) => Some(local),
                            None => Some(wire),
                        },
                        None => None,
                    },
                )
            }),
    {
        if !self.routed.files {
            return Err(Unavailable::Files);
        }
        match dropped_on {
            Some(wire) => Ok(Some(catalog.route_files(wire))),
            None => Ok(None),
        }
    }

    /// Chat is over: what waits is dropped, and the helper is told if there is
    /// one.
    pub fn stop_chat(&mut self, shared: &mut Shared) -> (command: Option<ParentCommand>)
        ensures
            command_view(command) == sent_if(old(self).routed.chat, CommandView::StopChat),
            *final(self) == (DesktopInputController {
                settings: HelperSettings { chat_enabled: false, ..old(self).settings },
                ..*old(self)
            }),
            final(shared)@ == (SharedView { chat: seq![], ..old(shared)@ }),
    {
        self.settings.chat_enabled = false;
        shared.chat.clear();
        assert(dispatch::text_views(shared.chat@) =~= seq![]);
        if self.routed.chat {
            Some(ParentCommand::StopChat)
        } else {
            None
        }
    }

    /// Chat begins once the helper has been told; see `chat_started`.
    pub fn start_chat(&self) -> (command: Result<ParentCommand, Unavailable>)
        ensures
            result_view(command) == needs(
                self.routed.chat,
                CommandView::StartChat,
                Unavailable::Chat,
            ),
    {
        if !self.routed.chat {
            return Err(Unavailable::Chat);
        }
        Ok(ParentCommand::StartChat)
    }

    /// The helper has been told that chat begins; the next one will be too.
    pub fn chat_started(&mut self)
        ensures
            *final(self) == (DesktopInputController {
                settings: HelperSettings { chat_enabled: true, ..old(self).settings },
                ..*old(self)
            }),
    {
        self.settings.chat_enabled = true;
    }

    pub fn apply_chat(&self, text: String) -> (command: Result<ParentCommand, Unavailable>)
        ensures
            result_view(command) == needs(
                self.routed.chat,
                CommandView::Chat(text@),
                Unavailable::Chat,
            ),
    {
        if !self.routed.chat {
            return Err(Unavailable::Chat);
        }
        Ok(ParentCommand::Chat(text))
    }

    pub fn apply_clipboard(&self, content: Vec<u8>) -> (command: Result<
        ParentCommand,
        Unavailable,
    >)
        ensures
            result_view(command) == needs(
                self.routed.clipboard,
                CommandView::Clipboard(content@),
                Unavailable::Input,
            ),
    {
        if !self.routed.clipboard {
            return Err(Unavailable::Input);
        }
        Ok(ParentCommand::Clipboard(content))
    }
}

/// A request whose failure is said to be one of the desktop that is shown.
#[derive(Debug, Clone, Copy, PartialEq, Eq, Structural)]
pub enum DesktopRequest {
    Input,
    Release,
    Clipboard,
}

impl DesktopRequest {
    /// What is said when the helper could not be told.
    pub open spec fn doing(self) -> Seq<char> {
        match self {
            DesktopRequest::Input => "failed to send input to the active desktop"@,
            DesktopRequest::Release => "failed to release input on the active desktop"@,
            DesktopRequest::Clipboard => "failed to send clipboard content to the active desktop"@,
        }
    }
}

/// How a request went, given whether its helper could be told.
pub fn desktop_result(request: DesktopRequest, sent: Result<(), Failure>) -> (result: Result<
    (),
    Failure,
>)
    ensures
        streamer::done_view(result) == (match streamer::done_view(sent) {
            Ok(()) => Ok(()),
            Err(failure) => Err(seq![request.doing()] + failure),
        }),
{
    match sent {
        Ok(()) => Ok(()),
        Err(failure) => {
            let doing = match request {
                DesktopRequest::Input => "failed to send input to the active desktop",
                DesktopRequest::Release => "failed to release input on the active desktop",
                DesktopRequest::Clipboard =>
                    "failed to send clipboard content to the active desktop",
            };
            Err(failure.context(doing.to_owned()))
        },
    }
}

/// What the viewer sets while a helper is away is what the next helper is told.
pub proof fn settings_reach_the_next_helper(
    controller: DesktopInputController,
    enabled: bool,
    hidden: bool,
)
    ensures
        crate::helper_set::plan_command(
            crate::helper::HelperKind::Input,
            HelperSettings { prevent_idle_lock: enabled, ..controller.settings },
        ) == Some(CommandView::SetPreventIdleLock(enabled)),
        crate::helper_set::plan_command(
            crate::helper::HelperKind::Files,
            HelperSettings { wallpaper_hidden: hidden, ..controller.settings },
        ) == Some(CommandView::SetWallpaperHidden(hidden)),
        crate::helper_set::plan_command(
            crate::helper::HelperKind::Chat,
            HelperSettings { chat_enabled: enabled, ..controller.settings },
        ) == sent_if(enabled, CommandView::StartChat),
{
}

/// A command goes to its helper as it is, or nowhere if there is no helper; what
/// needs its helper says which one is missing.
pub proof fn commands_go_to_helpers_that_are_there(
    there: bool,
    command: CommandView,
    missing: Unavailable,
)
    ensures
        sent_if(true, command) == Some(command),
        sent_if(false, command) is None,
        needs(true, command, missing) == Ok::<CommandView, Unavailable>(command),
        needs(false, command, missing) == Err::<CommandView, Unavailable>(missing),
        sent_if(there, command) is Some <==> needs(there, command, missing) is Ok,
{
}

/// A request that is refused is told which helper is missing.
pub proof fn missing_helpers_are_named(missing: Unavailable)
    ensures
        missing == Unavailable::Input ==> missing.text_of()
            == "desktop input helper is not running"@,
        missing == Unavailable::Files ==> missing.text_of()
            == "interactive file helper unavailable"@,
        missing == Unavailable::Chat ==> missing.text_of()
            == "interactive chat helper is unavailable"@,
{
}

/// What could not be asked of the desktop is named by what was to be done.
pub proof fn requests_are_named(request: DesktopRequest)
    ensures
        request == DesktopRequest::Input ==> request.doing()
            == "failed to send input to the active desktop"@,
        request == DesktopRequest::Release ==> request.doing()
            == "failed to release input on the active desktop"@,
        request == DesktopRequest::Clipboard ==> request.doing()
            == "failed to send clipboard content to the active desktop"@,
{
}

} // verus!
