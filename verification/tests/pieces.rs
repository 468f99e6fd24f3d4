use meshrmm_agent::capture::{
    active_rdp_sessions, list_console, listed_displays, ConsoleListing, ListedSession, ListingError,
};
use meshrmm_agent::catalog::Catalog;
use meshrmm_agent::command::{accept_command, ParentCommand, PayloadVerdict};
use meshrmm_agent::controller::{DesktopInputController, Routed, Unavailable};
use meshrmm_agent::dispatch::{
    check_credential_result, credential_result, dispatch_input_event, Keeping, Maintenance,
    Progress, Shared,
};
use meshrmm_agent::display_frame::{read_catalog, write_catalog};
use meshrmm_agent::event::{accept_event, ChildEvent};
use meshrmm_agent::failure::Failure;
use meshrmm_agent::helper::{
    helper_start_command, launch_failure, plan_launch, preferred_desktop, startup_failure,
    DesktopTarget, HelperKind, LaunchStep, Startup,
};
use meshrmm_agent::helper_set::HelperSettings;
use meshrmm_agent::indicator::{State, WorkArea};
use meshrmm_agent::model::{
    background_display, choose_display, console_display, ActiveFormat, DesktopSession, Display,
    DisplayId, Monitor, Protocol, StartedDesktop, VideoCodec, VideoPixelFormat,
};
use meshrmm_agent::text::{
    after_prefix, ends_ignoring_case, find_char, joined3, parse_u32, same_ignoring_case, same_text,
    starts_ignoring_case, trim,
};
use meshrmm_agent::pipe::{PipeBudget, PipeRefusal};
use meshrmm_agent::sender::CursorReport;
use meshrmm_agent::video::VideoPacer;
use meshrmm_agent::wire::{Label, PipeReader, WireError};

const BACKGROUND: DisplayId = DisplayId(u32::MAX - 2);

fn protocol() -> Protocol {
    Protocol {
        clipboard_wire_bytes: 4 * 1024 * 1024,
        clipboard_text_bytes: 1024 * 1024,
        chat_text_bytes: 16 * 1024,
        background_display: BACKGROUND,
        all_monitors: DisplayId(u32::MAX - 1),
    }
}

fn monitor(id: u32, primary: bool) -> Monitor {
    Monitor {
        id,
        name: "Dell Zoë".to_string(),
        x: -1920,
        y: 7,
        width: 1920,
        height: 1080,
        primary,
    }
}

#[test]
fn texts_are_taken_apart() {
    assert_eq!(joined3("a", "é", "b"), "aéb");
    assert!(same_text("é", "é") && !same_text("é", "e"));
    assert_eq!(after_prefix("updating 1", "updating "), Some("1"));
    assert_eq!(after_prefix("update", "updating "), None);
    assert_eq!(find_char(r"é\b", '\\'), Some(1));
    assert_eq!(find_char("", 'x'), None);
    assert!(same_ignoring_case("ÄbC", "ÄBc"));
    assert!(!same_ignoring_case("ä", "Ä"));
    assert!(starts_ignoring_case("Agent-1", "agent-"));
    assert!(ends_ignoring_case("a.EXE", ".exe"));
    assert_eq!(trim("\u{3000} a b\u{85}\n"), "a b");
    for text in ["0", "+0", "007", "4294967295", "4294967296", "", "+", "-0", "1 ", "９"] {
        assert_eq!(parse_u32(text), text.parse::<u32>().ok(), "{text:?}");
    }
}

#[test]
fn monitors_become_displays() {
    let display = console_display(monitor(3, true));
    assert_eq!(display.id, DisplayId(3));
    assert_eq!(display.x, -1920);
    assert!(display.primary);
    let background = background_display(monitor(BACKGROUND.0, true));
    assert!(!background.primary);
    assert!(background.session.same(&DesktopSession::Background));
    let displays = vec![console_display(monitor(1, false)), display];
    assert_eq!(
        choose_display(&displays, Some(DisplayId(1))).unwrap().id,
        DisplayId(1)
    );
    assert_eq!(choose_display(&displays, None).unwrap().id, DisplayId(3));
    assert!(choose_display(&Vec::new(), None).is_none());
}

#[test]
fn listed_monitors_are_read_back() {
    let displays = vec![
        console_display(monitor(1, false)),
        background_display(monitor(BACKGROUND.0, false)),
    ];
    let mut bytes = Vec::new();
    write_catalog(&mut bytes, &displays).unwrap();
    let mut reader = PipeReader::new(&bytes);
    let found = read_catalog(&mut reader, Label::DisplayCount, &protocol()).unwrap();
    assert_eq!(found.len(), 2);
    assert_eq!(found[0].name, "Dell Zoë");
    assert_eq!(found[0].x, -1920);
    assert!(found[1].session.same(&DesktopSession::Background));
    assert!(reader.is_empty());
    let many: Vec<Display> = (0..65).map(|id| console_display(monitor(id, false))).collect();
    assert_eq!(
        write_catalog(&mut bytes, &many),
        Err(WireError::TooLong(Label::DisplayCount))
    );
}

#[test]
fn payloads_are_judged_by_their_decoder() {
    assert!(accept_command(ParentCommand::Input(vec![1]), PayloadVerdict::Expected).is_ok());
    assert_eq!(
        accept_command(ParentCommand::Input(vec![1]), PayloadVerdict::Unexpected).unwrap_err(),
        WireError::NotInput
    );
    assert_eq!(
        accept_command(ParentCommand::Files(vec![1]), PayloadVerdict::Undecodable).unwrap_err(),
        WireError::Undecodable(Label::FileTransfer)
    );
    assert!(accept_command(ParentCommand::Stop, PayloadVerdict::Unexpected).is_ok());
    assert_eq!(
        accept_event(ChildEvent::Clipboard(vec![1]), PayloadVerdict::Undecodable).unwrap_err(),
        WireError::Undecodable(Label::ClipboardContent)
    );
    assert!(accept_event(ChildEvent::Stopped, PayloadVerdict::Undecodable).is_ok());
}

#[test]
fn helpers_are_launched_where_they_belong() {
    assert_eq!(preferred_desktop(u32::MAX, true), DesktopTarget::Winlogon);
    assert_eq!(preferred_desktop(1, true), DesktopTarget::Default);
    assert_eq!(preferred_desktop(1, false), DesktopTarget::Winlogon);
    let launch = plan_launch(DesktopTarget::Rdp(3, true), 1, r"C:\a b.exe").unwrap();
    assert_eq!(launch.session, 3);
    assert_eq!(launch.desktop, r"winsta0\Winlogon");
    assert_eq!(launch.command_line, r#""C:\a b.exe" --capture-helper"#);
    let launch = plan_launch(DesktopTarget::Background, u32::MAX, "a.exe").unwrap();
    assert_eq!(launch.session, 0);
    assert_eq!(launch.desktop, r"winsta0\default");
    assert_eq!(launch.argument, "--background-helper");
    assert_eq!(
        plan_launch(DesktopTarget::Default, u32::MAX, "a.exe").unwrap_err(),
        "Windows reported no active console session"
    );
    assert!(matches!(
        helper_start_command(HelperKind::Chat, "Zoë", DisplayId(1)),
        ParentCommand::StartChatHelper { viewer_name } if viewer_name == "Zoë"
    ));
    assert!(startup_failure(true, &Startup::Started).is_none());
    assert_eq!(
        startup_failure(false, &Startup::Failed("why".to_string())).unwrap(),
        "desktop input helper failed: why"
    );
    assert_eq!(
        startup_failure(true, &Startup::TimedOut).unwrap(),
        "desktop helper did not start within 5 seconds"
    );
    assert_eq!(
        startup_failure(true, &Startup::Disconnected).unwrap(),
        "desktop helper exited before capture started"
    );
}

#[test]
fn signed_in_remote_sessions_are_listed() {
    let session = |id, active, user: Option<&str>| ListedSession {
        id,
        active,
        user: user.map(str::to_string),
    };
    let found = active_rdp_sessions(
        &vec![
            session(1, true, Some("console")),
            session(2, true, Some("Alice")),
            session(3, false, Some("Bob")),
            session(4, true, Some("")),
            session(5, true, None),
            session(6, true, Some("Eve")),
        ],
        1,
    );
    assert_eq!(
        found,
        vec![(2, "Alice".to_string()), (6, "Eve".to_string())]
    );
}

#[test]
fn credential_results_are_expected_of_the_open_dialog_only() {
    let mut shared = Shared::new(false, vec![0]);
    let mut progress = Progress::new();
    assert!(check_credential_result(
        &shared,
        &mut progress,
        HelperKind::Input,
        false
    ));
    assert!(!check_credential_result(
        &shared,
        &mut progress,
        HelperKind::Chat,
        true
    ));
    assert_eq!(
        progress.take_status(),
        Err("unexpected credential result".to_string())
    );
    shared.credentials.prompt_active = true;
    assert!(check_credential_result(
        &shared,
        &mut progress,
        HelperKind::Chat,
        true
    ));
    assert_eq!(
        progress.take_status(),
        Err("desktop helper exited without a final status".to_string())
    );
    credential_result(
        &mut shared,
        HelperKind::Chat,
        "Validated".to_string(),
        Keeping::Failed("full".to_string()),
    );
    assert_eq!(
        shared.credentials.message,
        "Validated, but could not save credentials: full"
    );
    assert!(!shared.credentials.saved && !shared.credentials.prompt_active);
    credential_result(
        &mut shared,
        HelperKind::Input,
        "Kept".to_string(),
        Keeping::Kept,
    );
    assert!(shared.credentials.saved);
    assert_eq!(shared.credentials.message, "Kept");
}

#[test]
fn maintenance_errors_are_told_once() {
    let mut shared = Shared::new(false, vec![0]);
    shared.maintenance = Some(Maintenance::Error("why".to_string()));
    assert!(matches!(
        shared.maintenance_state(),
        Some(Maintenance::Error(reason)) if reason == "why"
    ));
    assert!(shared.maintenance_state().is_none());
    shared.maintenance = Some(Maintenance::State {
        agent_input_blocked: true,
        blacked_out: false,
    });
    for _ in 0..2 {
        assert!(matches!(
            shared.maintenance_state(),
            Some(Maintenance::State {
                agent_input_blocked: true,
                blacked_out: false
            })
        ));
    }
}

#[test]
fn new_streams_give_way_to_congestion() {
    let mut pacer = VideoPacer::new(12_000_000, 30);
    assert_eq!(pacer.bitrate.minimum, 1_500_000);
    let arrival = pacer.frame_due(1, 1, 1, true, 12_000_000, 0, 24);
    assert_eq!(arrival.adapted_bitrate, Some(9_000_000));
    assert_eq!(pacer.bitrate.current, 9_000_000);
    let none = VideoPacer::new(0, 30);
    assert_eq!((none.bitrate.minimum, none.bitrate.maximum), (1, 1));
}

#[test]
fn frames_that_cannot_be_sent_are_given_up() {
    let mut pacer = VideoPacer::new(12_000_000, 30);
    assert_eq!(pacer.give_up(1, 1_000_000, 3), (Some(9_000_000), true));
    assert!(pacer.recovering);
    assert_eq!(pacer.give_up(2, 1_000_000, 0), (None, false));
}

#[test]
fn files_and_chat_go_to_their_helpers() {
    let mut catalog = Catalog::new();
    catalog.routes.push((DisplayId(0x8000_0301), DisplayId(1)));
    let mut controller = DesktopInputController::new(Routed::none(), HelperSettings::unset(), String::new());
    assert_eq!(
        controller.apply_files(&catalog, None),
        Err(Unavailable::Files)
    );
    assert_eq!(
        controller
            .apply_chat("hello".to_string())
            .unwrap_err(),
        Unavailable::Chat
    );
    assert_eq!(
        controller.set_agent_input_blocked(true).unwrap_err(),
        Unavailable::Input
    );
    controller.routed.files = true;
    controller.routed.input = true;
    assert_eq!(controller.apply_files(&catalog, None), Ok(None));
    assert_eq!(
        controller.apply_files(&catalog, Some(DisplayId(0x8000_0301))),
        Ok(Some(DisplayId(1)))
    );
    assert_eq!(
        controller.apply_files(&catalog, Some(DisplayId(9))),
        Ok(Some(DisplayId(9)))
    );
    assert_eq!(
        controller.apply(&catalog, DisplayId(0x8000_0301)),
        Some(DisplayId(1))
    );
    assert_eq!(controller.apply(&catalog, DisplayId(9)), None);
    assert_eq!(
        catalog.agent_pointer_display(Some(DisplayId(1))),
        Some(DisplayId(0x8000_0301))
    );
    let started = StartedDesktop {
        format: ActiveFormat {
            width: 1,
            height: 1,
            frames_per_second: 1,
            bitrate_bits_per_second: 1,
            codec: VideoCodec::H264,
            pixel_format: VideoPixelFormat::Yuv420,
        },
        displays: vec![console_display(monitor(1, true))],
        active_display: console_display(monitor(1, true)),
    };
    assert!(!catalog.lacks_console(&started));
    catalog.selected_session = Some(3);
    assert!(catalog.lacks_console(&started));
}

#[test]
fn notice_text_leaves_room_for_the_chat() {
    let mut state = State::new(
        "Zoë".to_string(),
        WorkArea {
            left: 0,
            top: 0,
            right: 1920,
            bottom: 1080,
        },
    );
    assert_eq!(state.text_columns(320, false), (8, 312));
    assert_eq!(state.text_columns(352, true), (8, 312));
    state.collapsed = true;
    assert_eq!(state.text_columns(64, true), (0, 32));
}

#[test]
fn console_monitors_are_looked_for_on_two_desktops() {
    assert_eq!(
        listed_displays(Some(Ok(vec![console_display(monitor(1, true))])))
            .unwrap()
            .len(),
        1
    );
    let empty = listed_displays(Some(Ok(Vec::new()))).unwrap_err();
    assert_eq!(
        empty.message(),
        Some("console desktop reported no displays")
    );
    assert_eq!(
        listed_displays(None).unwrap_err().message(),
        Some("console display enumeration timed out")
    );
    let unreadable = listed_displays(Some(Err(WireError::UnexpectedEnd))).unwrap_err();
    assert_eq!(
        unreadable,
        ListingError::Unreadable(WireError::UnexpectedEnd)
    );
    assert!(matches!(
        list_console(
            DesktopTarget::Winlogon,
            false,
            Err(Failure::new("locked"))
        ),
        ConsoleListing::Try(DesktopTarget::Default)
    ));
    assert!(matches!(
        list_console(DesktopTarget::Default, true, Err(Failure::new("gone"))),
        ConsoleListing::Failed(error) if error.describe() == "gone"
    ));
    assert!(matches!(
        list_console(DesktopTarget::Default, true, Ok(Vec::new())),
        ConsoleListing::Listed(displays) if displays.is_empty()
    ));
}

#[test]
fn launches_that_fail_say_where() {
    let text = |step, capture, target| {
        launch_failure(step, capture, target, Failure::new("denied")).describe()
    };
    assert_eq!(
        text(LaunchStep::UserToken, false, DesktopTarget::Default),
        "no signed-in user for file transfers: denied"
    );
    assert_eq!(
        text(LaunchStep::CreateProcess, true, DesktopTarget::Rdp(3, true)),
        "failed to launch LocalSystem helper on winsta0\\Winlogon: denied"
    );
    assert_eq!(
        text(LaunchStep::PrepareHandles, true, DesktopTarget::Default),
        "failed to launch LocalSystem helper on winsta0\\default: \
         failed to prepare the desktop-helper pipe handles: denied"
    );
    for (capture, reader, first) in [
        (
            true,
            "failed to start desktop-helper IPC reader: denied",
            "failed to start the desktop helper: denied",
        ),
        (
            false,
            "failed to start desktop input-helper IPC reader: denied",
            "failed to initialize the desktop input helper: denied",
        ),
    ] {
        assert_eq!(text(LaunchStep::EventReader, capture, DesktopTarget::Default), reader);
        assert_eq!(text(LaunchStep::FirstCommand, capture, DesktopTarget::Default), first);
    }
    assert_eq!(
        text(LaunchStep::LogReader, false, DesktopTarget::Default),
        "failed to start desktop input-helper error reader: denied"
    );
    for (step, message) in [
        (LaunchStep::Locate, "could not locate the Agent executable: denied"),
        (
            LaunchStep::OpenToken,
            "failed to open the LocalSystem coordinator token: denied",
        ),
        (
            LaunchStep::DuplicateToken,
            "failed to duplicate the LocalSystem coordinator token: denied",
        ),
        (
            LaunchStep::MoveToken,
            "failed to move the desktop helper token into the console session: denied",
        ),
        (
            LaunchStep::CreatePipe,
            "failed to create desktop-helper IPC pipe: denied",
        ),
        (
            LaunchStep::CreateHandleList,
            "failed to create the desktop-helper process attribute list: denied",
        ),
        (
            LaunchStep::LimitHandles,
            "failed to limit the handles a desktop helper inherits: denied",
        ),
    ] {
        assert_eq!(text(step, true, DesktopTarget::Default), message);
    }
}

#[test]
fn refused_bytes_give_their_room_back() {
    let mut budget = PipeBudget::new(&protocol());
    assert_eq!(budget.reserve(10), Ok(()));
    assert_eq!(budget.queue(10, true), Ok(()));
    assert_eq!(budget.queued, 10);
    assert_eq!(budget.reserve(5), Ok(()));
    assert_eq!(budget.queue(5, false), Err(PipeRefusal::Queue));
    assert_eq!(budget.queued, 10);
    assert_eq!(budget.reserve(budget.limit), Err(PipeRefusal::Budget));
    assert_eq!(
        PipeRefusal::Budget.message(),
        "helper pipe byte budget exhausted"
    );
    assert_eq!(
        PipeRefusal::Queue.message(),
        "helper command queue full or closed"
    );
}

#[test]
fn default_pointer_is_told_once() {
    let mut shared = Shared::new(false, vec![3, 0]);
    let mut report = CursorReport { sent: None };
    assert!(report.is_due(&shared.cursor.shape, true, true));
    report.record(shared.cursor.shape.clone());
    let mut progress = Progress::new();
    dispatch_input_event(
        &mut shared,
        &mut progress,
        HelperKind::Input,
        Ok(ChildEvent::Cursor {
            shape: vec![3, 0],
            viewer_controls_input: true,
            pointer_display: None,
        }),
        8,
    );
    assert!(shared.cursor.viewer_controls_input);
    assert!(!report.is_due(&shared.cursor.shape, true, true));
}
