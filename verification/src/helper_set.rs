//! Keeping the service helpers in step with the desktop that is shown.
use crate::command::{CommandView, ParentCommand};
use crate::dispatch::{Credentials, CredentialsView, Shared, SharedView};
use crate::helper;
use crate::helper::{DesktopTarget, HelperKind};
use crate::model::DisplayId;
use vstd::prelude::*;

verus! {

/// A service helper that has been started.
#[derive(Debug, Clone, Copy, PartialEq, Eq, Structural)]
pub struct HelperSlot {
    pub target: DesktopTarget,
    pub display_id: DisplayId,
    /// Whether its final status is known.
    pub ended: bool,
}

/// What a newly started helper has to be told.
#[derive(Debug, Clone, Copy, PartialEq, Eq, Structural)]
pub struct HelperSettings {
    pub wallpaper_hidden: bool,
    pub prevent_idle_lock: bool,
    pub chat_enabled: bool,
}

impl HelperSettings {
    /// Before the viewer has asked for anything.
    pub fn unset() -> (settings: Self)
        ensures
            settings == (HelperSettings {
                wallpaper_hidden: false,
                prevent_idle_lock: false,
                chat_enabled: false,
            }),
    {
        HelperSettings { wallpaper_hidden: false, prevent_idle_lock: false, chat_enabled: false }
    }
}

/// What a helper needs before capture on a desktop can go on.
#[derive(Debug)]
pub enum HelperPlan {
    /// The desktop has no such helper.
    Skip,
    /// It runs and needs nothing.
    Keep,
    /// It runs and is told about another display.
    Redirect(ParentCommand),
    /// Whatever runs is stopped, a helper is started for the target, and then
    /// sent the command, if there is one.
    Replace { target: DesktopTarget, command: Option<ParentCommand> },
}

pub enum PlanView {
    Skip,
    Keep,
    Redirect(CommandView),
    Replace { target: DesktopTarget, command: Option<CommandView> },
}

impl View for HelperPlan {
    type V = PlanView;

    open spec fn view(&self) -> PlanView {
        match *self {
            HelperPlan::Skip => PlanView::Skip,
            HelperPlan::Keep => PlanView::Keep,
            HelperPlan::Redirect(command) => PlanView::Redirect(command@),
            HelperPlan::Replace { target, command: None } => PlanView::Replace {
                target,
                command: None,
            },
            HelperPlan::Replace { target, command: Some(command) } => PlanView::Replace {
                target,
                command: Some(command@),
            },
        }
    }
}

/// A helper that still runs on this desktop.
pub open spec fn serves(slot: Option<HelperSlot>, target: DesktopTarget) -> bool {
    slot matches Some(helper) && helper.target == target && !helper.ended
}

/// The desktop a helper is started on; files belong to the user's desktop even
/// while the secure one is shown.
pub open spec fn plan_target(kind: HelperKind, target: DesktopTarget) -> DesktopTarget {
    if kind == HelperKind::Files {
        target.unlocked()
    } else {
        target
    }
}

/// What a helper is told right after it has started.
pub open spec fn plan_command(kind: HelperKind, settings: HelperSettings) -> Option<CommandView> {
    match kind {
        HelperKind::Files => Some(CommandView::SetWallpaperHidden(settings.wallpaper_hidden)),
        HelperKind::Chat => if settings.chat_enabled {
            Some(CommandView::StartChat)
        } else {
            None
        },
        HelperKind::Clipboard => None,
        HelperKind::Input => Some(CommandView::SetPreventIdleLock(settings.prevent_idle_lock)),
    }
}

/// What a helper needs. The file helper outlives desktop switches; the others
/// are bound to the desktop they were started on; in the background there is
/// only input.
pub open spec fn plan_of(
    kind: HelperKind,
    target: DesktopTarget,
    display_id: DisplayId,
    slot: Option<HelperSlot>,
    routed: bool,
    settings: HelperSettings,
    viewer_name: Seq<char>,
) -> PlanView {
    let replace = PlanView::Replace {
        target: plan_target(kind, target),
        command: plan_command(kind, settings),
    };
    match kind {
        HelperKind::Input => if !serves(slot, target) {
            replace
        } else if slot->Some_0.display_id != display_id {
            PlanView::Redirect(CommandView::StartInput { viewer_name, display_id })
        } else {
            PlanView::Keep
        },
        HelperKind::Files => if target is Background {
            PlanView::Skip
        } else if slot is Some && !slot->Some_0.ended && routed {
            PlanView::Keep
        } else {
            replace
        },
        _ => if target is Background {
            PlanView::Skip
        } else if serves(slot, target) {
            PlanView::Keep
        } else {
            replace
        },
    }
}

fn first_command(kind: HelperKind, settings: &HelperSettings) -> (command: Option<ParentCommand>)
    ensures
        match plan_command(kind, *settings) {
            Some(view) => command is Some && command->Some_0@ == view,
            None => command is None,
        },
{
    match kind {
        HelperKind::Files => Some(ParentCommand::SetWallpaperHidden(settings.wallpaper_hidden)),
        HelperKind::Chat => if settings.chat_enabled {
            Some(ParentCommand::StartChat)
        } else {
            None
        },
        HelperKind::Clipboard => None,
        HelperKind::Input => Some(ParentCommand::SetPreventIdleLock(settings.prevent_idle_lock)),
    }
}

fn replacement(kind: HelperKind, target: DesktopTarget, settings: &HelperSettings) -> (plan:
    HelperPlan)
    ensures
        plan@ == (PlanView::Replace {
            target: plan_target(kind, target),
            command: plan_command(kind, *settings),
        }),
{
    let start = if kind == HelperKind::Files {
        match target {
            DesktopTarget::Rdp(id, _) => DesktopTarget::Rdp(id, false),
            _ => DesktopTarget::Default,
        }
    } else {
        target
    };
    HelperPlan::Replace { target: start, command: first_command(kind, settings) }
}

/// Decides what a helper needs for capture on `target` and `display_id`.
/// `routed` is whether the coordinator sends to the running helper.
pub fn ensure_helper(
    kind: HelperKind,
    target: DesktopTarget,
    display_id: DisplayId,
    slot: Option<HelperSlot>,
    routed: bool,
    settings: &HelperSettings,
    viewer_name: &str,
) -> (plan: HelperPlan)
    ensures
        plan@ == plan_of(kind, target, display_id, slot, routed, *settings, viewer_name@),
{
    let same_desktop = match slot {
        Some(helper) => helper.target == target && !helper.ended,
        None => false,
    };
    let alive = match slot {
        Some(helper) => !helper.ended,
        None => false,
    };
    match kind {
        HelperKind::Input => {
            if !same_desktop {
                return replacement(kind, target, settings);
            }
            match slot {
                Some(helper) => if helper.display_id != display_id {
                    HelperPlan::Redirect(
                        ParentCommand::StartInput {
                            viewer_name: viewer_name.to_owned(),
                            display_id,
                        },
                    )
                } else {
                    HelperPlan::Keep
                },
                None => HelperPlan::Keep,
            }
        },
        HelperKind::Files => if target == DesktopTarget::Background {
            HelperPlan::Skip
        } else if alive && routed {
            HelperPlan::Keep
        } else {
            replacement(kind, target, settings)
        },
        _ => if target == DesktopTarget::Background {
            HelperPlan::Skip
        } else if same_desktop {
            HelperPlan::Keep
        } else {
            replacement(kind, target, settings)
        },
    }
}

/// How carrying out a plan went.
#[derive(Debug, Clone, Copy, PartialEq, Eq, Structural)]
pub struct PlanOutcome {
    /// A replacement was started.
    pub started: bool,
    /// Its command was sent.
    pub sent: bool,
}

/// The helper that runs once a plan has been carried out, and whether capture
/// may go on: only the input helper has to be there, but a command that cannot
/// be sent stops every start.
pub open spec fn settled(
    kind: HelperKind,
    plan: PlanView,
    slot: Option<HelperSlot>,
    display_id: DisplayId,
    outcome: PlanOutcome,
) -> (Option<HelperSlot>, bool) {
    match plan {
        PlanView::Skip => (slot, true),
        PlanView::Keep => (slot, true),
        PlanView::Redirect(_) => if outcome.sent && slot is Some {
            (Some(HelperSlot { display_id, ..slot->Some_0 }), true)
        } else {
            (slot, outcome.sent)
        },
        PlanView::Replace { target, command } => if !outcome.started {
            (None, kind != HelperKind::Input)
        } else if command is Some && !outcome.sent {
            (None, false)
        } else {
            (Some(HelperSlot { target, display_id, ended: false }), true)
        },
    }
}

/// Records how carrying out a plan went; `false` stops the start of capture.
pub fn settle_helper(
    kind: HelperKind,
    plan: &HelperPlan,
    slot: &mut Option<HelperSlot>,
    display_id: DisplayId,
    outcome: PlanOutcome,
) -> (go_on: bool)
    ensures
        (*final(slot), go_on) == settled(kind, plan@, *old(slot), display_id, outcome),
{
    match plan {
        HelperPlan::Skip => true,
        HelperPlan::Keep => true,
        HelperPlan::Redirect(_) => {
            if outcome.sent {
                *slot = match *slot {
                    Some(helper) => Some(
                        HelperSlot { target: helper.target, display_id, ended: helper.ended },
                    ),
                    None => None,
                };
            }
            outcome.sent
        },
        HelperPlan::Replace { target, command } => {
            if !outcome.started {
                *slot = None;
                return kind != HelperKind::Input;
            }
            if command.is_some() && !outcome.sent {
                *slot = None;
                return false;
            }
            *slot = Some(HelperSlot { target: *target, display_id, ended: false });
            true
        },
    }
}

/// Once a plan has been carried out and capture goes on, the plan for the same
/// desktop and display is to leave the helper alone, except where a helper that
/// is not needed for capture could not be started.
pub proof fn settled_helpers_are_kept(
    kind: HelperKind,
    target: DesktopTarget,
    display_id: DisplayId,
    slot: Option<HelperSlot>,
    routed: bool,
    settings: HelperSettings,
    viewer_name: Seq<char>,
    outcome: PlanOutcome,
)
    requires
        outcome.started && outcome.sent,
    ensures
        ({
            let plan = plan_of(kind, target, display_id, slot, routed, settings, viewer_name);
            let after = settled(kind, plan, slot, display_id, outcome);
            let next = plan_of(kind, target, display_id, after.0, true, settings, viewer_name);
            after.1 && (next is Keep || next is Skip)
        }),
{
}

/// The order in which the helpers of a desktop are seen to: input comes last,
/// since only it decides whether capture goes on.
pub fn next_helper(after: Option<HelperKind>) -> (kind: Option<HelperKind>)
    ensures
        kind == (match after {
            None => Some(HelperKind::Files),
            Some(HelperKind::Files) => Some(HelperKind::Chat),
            Some(HelperKind::Chat) => Some(HelperKind::Clipboard),
            Some(HelperKind::Clipboard) => Some(HelperKind::Input),
            Some(HelperKind::Input) => None,
        }),
{
    match after {
        None => Some(HelperKind::Files),
        Some(HelperKind::Files) => Some(HelperKind::Chat),
        Some(HelperKind::Chat) => Some(HelperKind::Clipboard),
        Some(HelperKind::Clipboard) => Some(HelperKind::Input),
        Some(HelperKind::Input) => None,
    }
}

/// The commands that end a helper of a kind, in order.
pub open spec fn stop_commands(kind: HelperKind) -> Seq<CommandView> {
    if kind == HelperKind::Input {
        seq![CommandView::ReleaseInput, CommandView::Stop]
    } else {
        seq![CommandView::Stop]
    }
}

/// What is forgotten when a helper of a kind ends: what it reported is not the
/// next helper's, and with the input helper goes any clipboard content of the old
/// desktop. The last cursor stays.
pub open spec fn stopped(shared: SharedView, kind: HelperKind) -> SharedView {
    match kind {
        HelperKind::Chat => SharedView {
            chat: seq![],
            credentials: CredentialsView { prompt_active: false, ..shared.credentials },
            ..shared
        },
        HelperKind::Clipboard => SharedView { clipboard: None, ..shared },
        HelperKind::Files => SharedView { files: seq![], ..shared },
        HelperKind::Input => SharedView {
            clipboard: None,
            credentials: CredentialsView { can_autofill: false, ..shared.credentials },
            ..shared
        },
    }
}

/// Forgets what a helper reported and gives the commands that end it.
pub fn stop_helper(shared: &mut Shared, kind: HelperKind) -> (commands: Vec<ParentCommand>)
    ensures
        final(shared)@ == stopped(old(shared)@, kind),
        commands@.map_values(|command: ParentCommand| command@) == stop_commands(kind),
{
    let mut commands: Vec<ParentCommand> = Vec::new();
    match kind {
        HelperKind::Chat => {
            shared.credentials.prompt_active = false;
            shared.chat.clear();
            assert(crate::dispatch::text_views(shared.chat@) =~= seq![]);
        },
        HelperKind::Clipboard => {
            shared.clipboard = None;
        },
        HelperKind::Files => {
            shared.files.clear();
            assert(crate::dispatch::bytes_views(shared.files@) =~= seq![]);
        },
        HelperKind::Input => {
            shared.credentials.can_autofill = false;
            shared.clipboard = None;
            commands.push(ParentCommand::ReleaseInput);
        },
    }
    commands.push(ParentCommand::Stop);
    assert(commands@.map_values(|command: ParentCommand| command@) =~= stop_commands(kind));
    commands
}

/// What is left once every helper has ended: nothing of what they reported, and
/// of the credentials only whether some are saved.
pub open spec fn shut_down(shared: SharedView, saved: bool) -> SharedView {
    SharedView {
        clipboard: None,
        files: seq![],
        chat: seq![],
        credentials: CredentialsView {
            saved,
            prompt_active: false,
            can_autofill: false,
            message: seq![],
        },
        ..shared
    }
}

/// The order in which the helpers end.
pub open spec fn shutdown_order() -> Seq<HelperKind> {
    seq![HelperKind::Chat, HelperKind::Clipboard, HelperKind::Files, HelperKind::Input]
}

/// Whether these are, in order, the commands that end the helpers.
pub open spec fn ends_all(stops: Seq<(HelperKind, Vec<ParentCommand>)>) -> bool {
    &&& stops.len() == shutdown_order().len()
    &&& forall|i: int|
        0 <= i < stops.len() ==> (#[trigger] stops[i]).0 == shutdown_order()[i]
            && stops[i].1@.map_values(|command: ParentCommand| command@) == stop_commands(
            shutdown_order()[i],
        )
}

/// Forgets what the helpers reported and gives, in order, the commands that end
/// those that run. `saved` is whether credentials are saved.
pub fn shutdown(shared: &mut Shared, saved: bool) -> (stops: Vec<(HelperKind, Vec<ParentCommand>)>)
    ensures
        final(shared)@ == shut_down(old(shared)@, saved),
        ends_all(stops@),
{
    let mut stops: Vec<(HelperKind, Vec<ParentCommand>)> = Vec::new();
    let chat = stop_helper(shared, HelperKind::Chat);
    stops.push((HelperKind::Chat, chat));
    let clipboard = stop_helper(shared, HelperKind::Clipboard);
    stops.push((HelperKind::Clipboard, clipboard));
    let files = stop_helper(shared, HelperKind::Files);
    stops.push((HelperKind::Files, files));
    let input = stop_helper(shared, HelperKind::Input);
    stops.push((HelperKind::Input, input));
    shared.credentials = Credentials {
        saved,
        prompt_active: false,
        can_autofill: false,
        message: String::new(),
    };
    assert(shared@.credentials.message =~= seq![]);
    stops
}

/// After a shutdown there is nothing to poll, and no credentials can be filled
/// in until a helper reports a prompt again.
pub proof fn shutdown_leaves_nothing_behind(shared: SharedView, saved: bool)
    ensures
        shut_down(shared, saved).files.len() == 0,
        shut_down(shared, saved).chat.len() == 0,
        shut_down(shared, saved).clipboard is None,
        crate::credentials::command_outcome(
            shut_down(shared, saved).credentials,
            crate::credentials::CredentialCommand::Autofill,
            false,
            true,
            true,
        ) is Err,
        shut_down(shut_down(shared, saved), saved) == shut_down(shared, saved),
{
}

/// A helper that runs where it is needed is left alone: one for files wherever it
/// runs and is heard, any other on the desktop that is shown. The background has
/// none but for input.
pub proof fn helpers_are_replaced_only_where_needed(
    kind: HelperKind,
    target: DesktopTarget,
    display_id: DisplayId,
    slot: Option<HelperSlot>,
    routed: bool,
    settings: HelperSettings,
    viewer_name: Seq<char>,
)
    ensures
        ({
            let plan = plan_of(kind, target, display_id, slot, routed, settings, viewer_name);
            let runs = slot is Some && !slot->0.ended;
            let here = runs && slot->0.target == target;
            &&& plan is Skip <==> target is Background && kind != HelperKind::Input
            &&& kind == HelperKind::Files && !(target is Background) ==> (plan is Replace <==> !(runs
                && routed))
            &&& kind != HelperKind::Files && !(plan is Skip) ==> (plan is Replace <==> !here)
            &&& plan is Redirect <==> kind == HelperKind::Input && here && slot->0.display_id
                != display_id
            &&& plan matches PlanView::Redirect(command) ==> command == (CommandView::StartInput {
                viewer_name,
                display_id,
            })
            &&& plan matches PlanView::Replace { target: on, .. } ==> on == (if kind
                == HelperKind::Files {
                target.unlocked()
            } else {
                target
            })
        }),
{
}

/// A helper that is started anew is told what the viewer has asked for so far.
pub proof fn new_helpers_learn_the_settings(kind: HelperKind, settings: HelperSettings)
    ensures
        plan_command(HelperKind::Files, settings) == Some(
            CommandView::SetWallpaperHidden(settings.wallpaper_hidden),
        ),
        plan_command(HelperKind::Input, settings) == Some(
            CommandView::SetPreventIdleLock(settings.prevent_idle_lock),
        ),
        plan_command(HelperKind::Chat, settings) is Some <==> settings.chat_enabled,
        plan_command(HelperKind::Chat, settings) matches Some(command) ==> command is StartChat,
        plan_command(HelperKind::Clipboard, settings) is None,
{
}

/// A capture goes on without any helper but the one for input; it does not go on
/// where a helper that runs cannot be told what it has to know. A helper that could
/// not be started, or told, is not taken to run, and one that was runs on the
/// desktop and display that it was started for.
pub proof fn captures_need_their_input(
    kind: HelperKind,
    plan: PlanView,
    slot: Option<HelperSlot>,
    display_id: DisplayId,
    outcome: PlanOutcome,
)
    ensures
        ({
            let (after, go_on) = settled(kind, plan, slot, display_id, outcome);
            &&& plan is Skip || plan is Keep ==> go_on && after == slot
            &&& plan is Redirect ==> go_on == outcome.sent
            &&& plan is Redirect && !outcome.sent ==> after == slot
            &&& plan is Redirect && slot is Some && outcome.sent ==> after is Some
                && after->0.display_id == display_id && after->0.target == slot->0.target
                && after->0.ended == slot->0.ended
            &&& plan is Redirect && slot is None ==> after is None
            &&& plan is Replace && !outcome.started ==> after is None && (go_on <==> kind
                != HelperKind::Input)
            &&& plan is Replace && outcome.started ==> (go_on <==> plan->command is None
                || outcome.sent)
            &&& plan is Replace && outcome.started ==> (go_on <==> after is Some)
            &&& plan is Replace && after is Some ==> outcome.started && after->0.target
                == plan->target && after->0.display_id == display_id && !after->0.ended
        }),
{
}

/// Ending a helper forgets what that helper reported and nothing else; what is
/// held down is released before the helper for input is told to stop, which every
/// helper is told last.
pub proof fn ended_helpers_take_their_reports_along(shared: SharedView, kind: HelperKind)
    ensures
        ({
            let after = stopped(shared, kind);
            let commands = stop_commands(kind);
            &&& after.chat == (if kind == HelperKind::Chat {
                seq![]
            } else {
                shared.chat
            })
            &&& after.files == (if kind == HelperKind::Files {
                seq![]
            } else {
                shared.files
            })
            &&& after.clipboard is Some <==> shared.clipboard is Some && kind
                != HelperKind::Clipboard && kind != HelperKind::Input
            &&& after.clipboard is Some ==> after.clipboard == shared.clipboard
            &&& after.credentials.prompt_active <==> shared.credentials.prompt_active && kind
                != HelperKind::Chat
            &&& after.credentials.can_autofill <==> shared.credentials.can_autofill && kind
                != HelperKind::Input
            &&& after.credentials.saved == shared.credentials.saved
            &&& after.credentials.message == shared.credentials.message
            &&& after == (SharedView {
                chat: after.chat,
                files: after.files,
                clipboard: after.clipboard,
                credentials: after.credentials,
                ..shared
            })
            &&& commands.last() == CommandView::Stop
            &&& commands.contains(CommandView::ReleaseInput) <==> kind == HelperKind::Input
            &&& commands.len() == (if kind == HelperKind::Input {
                2nat
            } else {
                1nat
            })
        }),
{
    let commands = stop_commands(kind);
    if kind == HelperKind::Input {
        assert(commands[0] == CommandView::ReleaseInput);
    }
}

/// Shutting down ends every kind of helper once, input last, and leaves of the
/// credentials only whether some are saved; the last cursor and what else no
/// helper reports stays.
pub proof fn shutdown_ends_every_helper(shared: SharedView, saved: bool, kind: HelperKind)
    ensures
        shutdown_order().contains(kind),
        shutdown_order().len() == 4,
        shutdown_order().last() == HelperKind::Input,
        ({
            let after = shut_down(shared, saved);
            &&& after.credentials.saved == saved
            &&& !after.credentials.prompt_active
            &&& !after.credentials.can_autofill
            &&& after.credentials.message.len() == 0
            &&& after == (SharedView {
                chat: seq![],
                files: seq![],
                clipboard: None,
                credentials: after.credentials,
                ..shared
            })
        }),
{
    let order = shutdown_order();
    assert(order[0] == HelperKind::Chat);
    assert(order[1] == HelperKind::Clipboard);
    assert(order[2] == HelperKind::Files);
    assert(order[3] == HelperKind::Input);
}

/// What ends all helpers ends chat, clipboard, files and input, in this order, each
/// with a stop, and input after what it holds is released.
pub proof fn every_helper_is_told_to_stop(stops: Seq<(HelperKind, Vec<ParentCommand>)>)
    requires
        ends_all(stops),
    ensures
        ({
            let told = |at: int| stops[at].1@.map_values(|command: ParentCommand| command@);
            &&& stops.len() == 4
            &&& stops[0].0 == HelperKind::Chat && told(0) == seq![CommandView::Stop]
            &&& stops[1].0 == HelperKind::Clipboard && told(1) == seq![CommandView::Stop]
            &&& stops[2].0 == HelperKind::Files && told(2) == seq![CommandView::Stop]
            &&& stops[3].0 == HelperKind::Input && told(3) == seq![
                CommandView::ReleaseInput,
                CommandView::Stop,
            ]
        }),
{
    assert(stops[0].0 == shutdown_order()[0]);
    assert(stops[1].0 == shutdown_order()[1]);
    assert(stops[2].0 == shutdown_order()[2]);
    assert(stops[3].0 == shutdown_order()[3]);
}

} // verus!
