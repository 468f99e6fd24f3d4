use meshrmm_agent::catalog::ActiveSession;
use meshrmm_agent::child::{
    autofill_message, background_reply, background_step, border_reply, capture_started,
    clipboard_step, file_step, helper_greeting, input_reply, input_step, last_event, prompt_changed,
    prompt_message, role_of, served_display, wallpaper_reply, BackgroundAction, CaptureAction,
    CaptureChild, CaptureInput, ChatAction, ChatChild, ClipboardAction, Delivery, FileAction,
    InputAction, InputChild, InputReply, InputTask, PromptOutcome, Role,
};
use meshrmm_agent::command::{read_command, ParentCommand};
use meshrmm_agent::controller::{
    desktop_result, DesktopInputController, DesktopRequest, Routed, Unavailable,
};
use meshrmm_agent::dispatch::{dispatch_child_event, Cursor, Progress, Shared};
use meshrmm_agent::event::{ChildEvent, EncodedAccessUnit};
use meshrmm_agent::failure::Failure;
use meshrmm_agent::helper::{DesktopTarget, HelperKind};
use meshrmm_agent::helper_set::{
    ensure_helper, next_helper, settle_helper, shutdown, HelperPlan, HelperSettings, HelperSlot,
    PlanOutcome,
};
use meshrmm_agent::model::{
    ActiveFormat, DesktopSession, Display, DisplayId, Protocol, StartedDesktop, StreamConfig,
    VideoCodec, VideoPixelFormat,
};
use meshrmm_agent::pipe::command_frame;
use meshrmm_agent::reuse::{ReconfigureStage, ReconfigureStep, ReportError};
use meshrmm_agent::streamer::{
    attempt_failure, request_result, stop_result, AttemptError, CaptureRequest, Captured,
    DesktopCaptureStreamer, StartStep,
};
use meshrmm_agent::wire::PipeReader;

const BACKGROUND: DisplayId = DisplayId(u32::MAX - 2);

fn protocol() -> Protocol {
    Protocol {
        clipboard_wire_bytes: 4 * 1024 * 1024,
        clipboard_text_bytes: 1024 * 1024,
        chat_text_bytes: 16 * 1024,
        background_display: BACKGROUND,
        all_monitors: DisplayId(u32::MAX - 1),
    }
}

fn config() -> StreamConfig {
    StreamConfig {
        frames_per_second: 60,
        bitrate_bits_per_second: 12_000_000,
        codec: VideoCodec::H264,
        pixel_format: VideoPixelFormat::Yuv420,
        capture_cursor: true,
        grayscale: false,
    }
}

fn format() -> ActiveFormat {
    ActiveFormat {
        width: 1920,
        height: 1080,
        frames_per_second: 60,
        bitrate_bits_per_second: 12_000_000,
        codec: VideoCodec::H264,
        pixel_format: VideoPixelFormat::Yuv420,
    }
}

fn display(id: u32, primary: bool) -> Display {
    Display {
        session: DesktopSession::Console,
        id: DisplayId(id),
        name: format!("Display {id}"),
        x: 0,
        y: 0,
        width: 1920,
        height: 1080,
        primary,
    }
}

fn command(command: ParentCommand) -> Delivery {
    Delivery::Command(command)
}

/// A release arriving between helpers must not disconnect the viewer.
fn desktop_switch_discards_unrouted_input_and_resumes_without_replay() {
    let streamer = DesktopCaptureStreamer::new(String::new(), String::new(), 0);
    let mut controller = streamer.input_controller(Routed::none(), HelperSettings::unset());
    assert_eq!(controller.apply(&streamer.catalog, DisplayId(1)), None);
    assert!(controller.release_all().is_none());

    controller.routed.input = true;
    let mut bytes = Vec::new();
    assert_eq!(
        controller.apply(&streamer.catalog, DisplayId(1)),
        Some(DisplayId(1))
    );
    for command in [
        ParentCommand::Input(vec![1, 2, 3]),
        controller.release_all().unwrap(),
    ] {
        bytes.extend(command_frame(&command, &protocol(), true).unwrap());
    }
    let mut reader = PipeReader::new(&bytes);
    assert!(matches!(
        read_command(&mut reader, &protocol()).unwrap(),
        ParentCommand::Input(input) if input == [1, 2, 3]
    ));
    assert!(matches!(
        read_command(&mut reader, &protocol()).unwrap(),
        ParentCommand::ReleaseInput
    ));
}

#[test]
fn controller_taken_while_helpers_run_sends_at_once() {
    let streamer = DesktopCaptureStreamer::new(String::new(), "Maintenance".to_string(), 0);
    let controller = streamer.input_controller(
        Routed { input: true, files: false, clipboard: true, chat: false },
        HelperSettings { wallpaper_hidden: true, prevent_idle_lock: false, chat_enabled: true },
    );
    assert!(matches!(
        controller.release_all(),
        Some(ParentCommand::ReleaseInput)
    ));
    assert!(matches!(
        controller.set_blackout(true),
        Ok(ParentCommand::Blackout { enabled: true, text }) if text == "Maintenance"
    ));
    assert!(controller.apply_clipboard(vec![1]).is_ok());
    assert_eq!(controller.start_chat().unwrap_err(), Unavailable::Chat);
    assert!(controller.settings.wallpaper_hidden && controller.settings.chat_enabled);
}

#[test]
fn capture_helper_desktop_switch_discards_unrouted_input_and_resumes_without_replay() {
    desktop_switch_discards_unrouted_input_and_resumes_without_replay();
}

#[test]
fn tests_desktop_switch_discards_unrouted_input_and_resumes_without_replay() {
    desktop_switch_discards_unrouted_input_and_resumes_without_replay();
}

#[test]
fn first_command_decides_what_a_helper_is() {
    assert!(matches!(
        role_of(ParentCommand::StartChatHelper { viewer_name: "Zoë".to_string() }),
        Ok(Role::Chat { viewer_name }) if viewer_name == "Zoë"
    ));
    assert!(matches!(
        role_of(ParentCommand::StartInput { viewer_name: String::new(), display_id: DisplayId(2) }),
        Ok(Role::Input { display }) if display == DisplayId(2)
    ));
    assert!(matches!(
        role_of(ParentCommand::EnumerateDisplays),
        Ok(Role::ListDisplays)
    ));
    assert_eq!(
        role_of(ParentCommand::Stop).unwrap_err(),
        "desktop helper expected a capture or input start command"
    );
}

#[test]
fn captures_are_steered_and_restarted() {
    let mut child = CaptureChild::new(false, Some(DisplayId(9)), config());
    assert_eq!(child.check(), Ok(()));
    assert_eq!(
        child.captured_display(&Vec::new()).unwrap_err(),
        "Windows reported no displays on the active desktop"
    );
    let displays = vec![display(1, false), display(2, true)];
    assert_eq!(
        child.captured_display(&displays).unwrap().id,
        DisplayId(2)
    );
    let (event, runs) = capture_started(Ok(format()), displays, display(2, true));
    assert!(runs);
    assert!(matches!(event, ChildEvent::Started(started) if started.displays.len() == 2));
    let (event, runs) = capture_started(Err("no encoder".to_string()), Vec::new(), display(2, true));
    assert!(!runs);
    assert!(matches!(event, ChildEvent::Error(error) if error == "no encoder"));

    let mut step = |input| child.step(CaptureInput::Delivery(input));
    assert!(matches!(step(Delivery::Idle), CaptureAction::Continue));
    assert!(matches!(
        step(command(ParentCommand::SetDisplayBorder(true))),
        CaptureAction::Border(true)
    ));
    assert!(matches!(
        step(command(ParentCommand::SetBitrate(0))),
        CaptureAction::Bitrate(1)
    ));
    let mut next = config();
    next.frames_per_second = 0;
    assert!(matches!(
        step(command(ParentCommand::Start {
            viewer_name: String::new(),
            display_id: Some(DisplayId(1)),
            config: next,
        })),
        CaptureAction::Restart
    ));
    assert!(matches!(
        step(Delivery::Closed),
        CaptureAction::Finish(Some(ChildEvent::Stopped))
    ));
    assert!(matches!(
        step(command(ParentCommand::ReleaseInput)),
        CaptureAction::Finish(Some(ChildEvent::Error(_)))
    ));
    assert!(child.shows_border());
    assert_eq!(child.display, Some(DisplayId(1)));
    assert_eq!(
        child.check(),
        Err("desktop-helper frame rate and bitrate must be positive")
    );
    assert!(matches!(
        child.step(CaptureInput::PipeBroken),
        CaptureAction::Finish(None)
    ));
    assert!(matches!(
        child.step(CaptureInput::Ended(Some("lost".to_string()))),
        CaptureAction::Finish(Some(ChildEvent::Error(error))) if error == "lost"
    ));
    assert!(last_event(Some(ChildEvent::Stopped), true).is_none());
    assert!(matches!(
        last_event(Some(ChildEvent::Stopped), false),
        Some(ChildEvent::Stopped)
    ));
    assert!(border_reply(None).is_none());
    assert!(matches!(
        border_reply(Some("denied".to_string())),
        Some(ChildEvent::MaintenanceError(error)) if error == "Display border: denied"
    ));
    let mut background = CaptureChild::new(true, None, config());
    assert!(matches!(
        background.step(CaptureInput::Delivery(command(
            ParentCommand::SetDisplayBorder(true)
        ))),
        CaptureAction::Border(false)
    ));
}

fn cursor(shape: u8) -> Cursor {
    Cursor {
        shape: vec![shape],
        viewer_controls_input: true,
        pointer_display: Some(DisplayId(1)),
    }
}

#[test]
fn input_helpers_report_changes_and_failures() {
    assert!(matches!(
        helper_greeting(HelperKind::Input).as_slice(),
        [
            ChildEvent::InputStarted,
            ChildEvent::MaintenanceState {
                agent_input_blocked: false,
                blacked_out: false
            }
        ]
    ));
    for kind in [HelperKind::Files, HelperKind::Clipboard, HelperKind::Chat] {
        assert!(matches!(
            helper_greeting(kind).as_slice(),
            [ChildEvent::InputStarted]
        ));
    }
    let mut child = InputChild::new();
    assert!(matches!(
        child.pointer(cursor(1)),
        Some(ChildEvent::Cursor { shape, .. }) if shape == [1]
    ));
    assert!(child.pointer(cursor(1)).is_none());
    assert!(child.pointer(cursor(2)).is_some());
    let mut elsewhere = cursor(2);
    elsewhere.pointer_display = None;
    assert!(child.pointer(elsewhere).is_some());

    assert!(matches!(
        input_step(command(ParentCommand::Input(vec![7]))),
        InputAction::Apply(bytes) if bytes == [7]
    ));
    assert!(matches!(input_step(Delivery::Idle), InputAction::Continue));
    assert!(matches!(
        input_step(Delivery::Unreadable),
        InputAction::Finish(ChildEvent::Stopped)
    ));
    assert!(matches!(
        input_step(command(ParentCommand::RequestKeyframe)),
        InputAction::Finish(ChildEvent::Error(error)) if error == "input helper received a video command"
    ));
    let displays = vec![display(1, false), display(2, true)];
    assert_eq!(
        served_display(&displays, DisplayId(1)).unwrap().id,
        DisplayId(1)
    );
    assert_eq!(
        served_display(&displays, DisplayId(3)).unwrap_err(),
        "input helper could not find the selected display"
    );

    let failed = |task| input_reply(task, Some("why".to_string()), false, false);
    assert!(matches!(failed(InputTask::Apply), InputReply::Nothing));
    assert!(matches!(failed(InputTask::Release), InputReply::Nothing));
    for (task, message) in [
        (InputTask::Autofill, "Credential autofill is busy; try again"),
        (InputTask::PreventIdleLock, "Prevent idle lock: why"),
        (InputTask::Blackout, "why"),
        (InputTask::Block, "why"),
    ] {
        assert!(matches!(
            failed(task),
            InputReply::Send(ChildEvent::MaintenanceError(error)) if error == message
        ));
    }
    assert!(matches!(
        failed(InputTask::SelectDisplay),
        InputReply::Finish(ChildEvent::Error(error)) if error == "why"
    ));
    assert!(matches!(
        input_reply(InputTask::Blackout, None, true, true),
        InputReply::Send(ChildEvent::MaintenanceState {
            agent_input_blocked: true,
            blacked_out: true
        })
    ));
    assert!(matches!(
        input_reply(InputTask::SelectDisplay, None, true, true),
        InputReply::Nothing
    ));
}

#[test]
fn other_helpers_do_their_own_work_only() {
    assert!(matches!(
        background_step(command(ParentCommand::BlockInput(true))),
        BackgroundAction::Refuse(_)
    ));
    assert!(matches!(
        background_step(command(ParentCommand::BlockInput(false))),
        BackgroundAction::Continue
    ));
    assert!(matches!(
        background_step(Delivery::Closed),
        BackgroundAction::Stop
    ));
    assert!(background_reply(None).is_none());
    assert!(matches!(
        file_step(command(ParentCommand::SetWallpaperHidden(true))),
        FileAction::HideWallpaper(true)
    ));
    assert!(matches!(
        file_step(Delivery::Unreadable),
        FileAction::Fail("file helper received an unexpected command")
    ));
    assert!(matches!(
        wallpaper_reply(Some("why".to_string())),
        Some(ChildEvent::MaintenanceError(error)) if error == "Wallpaper: why"
    ));
    assert!(matches!(
        clipboard_step(command(ParentCommand::Clipboard(vec![1]))),
        ClipboardAction::Apply(bytes) if bytes == [1]
    ));
    assert!(matches!(
        clipboard_step(command(ParentCommand::StartChat)),
        ClipboardAction::Fail(_)
    ));
    let mut chat = ChatChild::new();
    let hello = || command(ParentCommand::Chat("hello".to_string()));
    assert!(matches!(chat.step(hello()), ChatAction::Continue));
    assert!(matches!(
        chat.step(command(ParentCommand::StartChat)),
        ChatAction::Available(true)
    ));
    assert!(matches!(
        chat.step(hello()),
        ChatAction::Receive(text) if text == "hello"
    ));
    assert!(matches!(
        chat.step(command(ParentCommand::PromptCredentials)),
        ChatAction::Prompt
    ));
    assert!(matches!(
        chat.step(command(ParentCommand::PromptCredentials)),
        ChatAction::Continue
    ));
    chat.prompt_closed();
    assert!(matches!(
        chat.step(command(ParentCommand::PromptCredentials)),
        ChatAction::Prompt
    ));
    assert_eq!(
        prompt_message(PromptOutcome::Validated("zoë".to_string())),
        "Validated zoë; saved on this computer until forgotten"
    );
    assert_eq!(
        prompt_message(PromptOutcome::Cancelled),
        "Credential request cancelled"
    );
    assert_eq!(autofill_message(Some("why".to_string())), "Autofill: why");
    let mut last = None;
    assert!(prompt_changed(&mut last, false));
    assert!(!prompt_changed(&mut last, false));
    assert!(prompt_changed(&mut last, true));
}

#[test]
fn requests_need_the_helper_they_are_for() {
    let mut controller = DesktopInputController::new(Routed::none(), HelperSettings::unset(), "Maintenance".to_string());
    let mut shared = Shared::new(false, vec![0]);
    assert_eq!(
        controller.set_blackout(true).unwrap_err(),
        Unavailable::Input
    );
    assert_eq!(
        controller.start_chat().unwrap_err().message(),
        "interactive chat helper is unavailable"
    );
    assert!(controller.set_prevent_idle_lock(true).is_none());
    assert!(controller.set_wallpaper_hidden(true).is_none());
    assert!(controller.settings.prevent_idle_lock && controller.settings.wallpaper_hidden);
    controller.routed.input = true;
    controller.routed.chat = true;
    assert!(matches!(
        controller.set_blackout(true),
        Ok(ParentCommand::Blackout { enabled: true, text }) if text == "Maintenance"
    ));
    assert!(matches!(
        controller.set_prevent_idle_lock(false),
        Some(ParentCommand::SetPreventIdleLock(false))
    ));
    assert!(matches!(
        controller.start_chat(),
        Ok(ParentCommand::StartChat)
    ));
    assert!(!controller.settings.chat_enabled);
    controller.chat_started();
    assert!(controller.settings.chat_enabled);
    shared.chat.push_back("late".to_string());
    assert!(matches!(
        controller.stop_chat(&mut shared),
        Some(ParentCommand::StopChat)
    ));
    assert!(!controller.settings.chat_enabled);
    assert!(shared.poll_chat().is_none());
    assert_eq!(
        controller.apply_clipboard(vec![1]).unwrap_err(),
        Unavailable::Input
    );
}

#[test]
fn helpers_follow_the_desktop() {
    let settings = HelperSettings {
        wallpaper_hidden: true,
        prevent_idle_lock: false,
        chat_enabled: true,
    };
    let mut order = Vec::new();
    let mut kind = next_helper(None);
    while let Some(found) = kind {
        order.push(found);
        kind = next_helper(Some(found));
    }
    assert_eq!(
        order,
        vec![
            HelperKind::Files,
            HelperKind::Chat,
            HelperKind::Clipboard,
            HelperKind::Input
        ]
    );
    let plan = ensure_helper(
        HelperKind::Files,
        DesktopTarget::Winlogon,
        DisplayId(1),
        None,
        false,
        &settings,
        "Zoë",
    );
    assert!(matches!(
        &plan,
        HelperPlan::Replace {
            target: DesktopTarget::Default,
            command: Some(ParentCommand::SetWallpaperHidden(true))
        }
    ));
    let mut slot = None;
    let outcome = PlanOutcome {
        started: true,
        sent: true,
    };
    assert!(settle_helper(
        HelperKind::Files,
        &plan,
        &mut slot,
        DisplayId(1),
        outcome
    ));
    assert!(slot.is_some());
    let failed = PlanOutcome {
        started: false,
        sent: false,
    };
    assert!(!settle_helper(
        HelperKind::Input,
        &plan,
        &mut slot,
        DisplayId(1),
        failed
    ));
    assert!(slot.is_none());
    let running = Some(HelperSlot {
        target: DesktopTarget::Default,
        display_id: DisplayId(1),
        ended: false,
    });
    assert!(matches!(
        ensure_helper(
            HelperKind::Input,
            DesktopTarget::Default,
            DisplayId(2),
            running,
            true,
            &settings,
            "Zoë"
        ),
        HelperPlan::Redirect(ParentCommand::StartInput { viewer_name, display_id })
            if viewer_name == "Zoë" && display_id == DisplayId(2)
    ));
    assert!(matches!(
        ensure_helper(
            HelperKind::Chat,
            DesktopTarget::Background,
            BACKGROUND,
            running,
            true,
            &settings,
            "Zoë"
        ),
        HelperPlan::Skip
    ));
}

#[test]
fn shutdown_forgets_what_helpers_reported() {
    let mut shared = Shared::new(true, vec![0]);
    shared.chat.push_back("hello".to_string());
    shared.files.push_back(vec![1]);
    shared.clipboard = Some(vec![2]);
    shared.credentials.prompt_active = true;
    shared.credentials.can_autofill = true;
    shared.credentials.message = "busy".to_string();
    let stops = shutdown(&mut shared, false);
    let kinds: Vec<HelperKind> = stops.iter().map(|stop| stop.0).collect();
    assert_eq!(
        kinds,
        vec![
            HelperKind::Chat,
            HelperKind::Clipboard,
            HelperKind::Files,
            HelperKind::Input
        ]
    );
    assert!(matches!(
        stops[3].1.as_slice(),
        [ParentCommand::ReleaseInput, ParentCommand::Stop]
    ));
    assert!(shared.poll_chat().is_none());
    assert!(shared.poll_files().is_none());
    assert!(shared.poll_clipboard().is_none());
    assert!(!shared.credentials.saved && !shared.credentials.can_autofill);
    assert!(!shared.credentials.prompt_active);
    assert_eq!(shared.credentials.message, "");
}

fn captured(id: u32) -> Captured {
    Captured {
        started: StartedDesktop {
            format: format(),
            displays: vec![display(id, true)],
            active_display: display(id, true),
        },
        background: Display {
            session: DesktopSession::Background,
            ..display(BACKGROUND.0, false)
        },
        listed: Vec::new(),
    }
}

fn failure(message: &str) -> Failure {
    Failure::new(message)
}

#[test]
fn starts_try_both_desktops_and_then_another_session() {
    let mut streamer = DesktopCaptureStreamer::new("Zoë".to_string(), String::new(), 0);
    let sessions = vec![ActiveSession {
        id: 3,
        user: "Alice".to_string(),
        displays: Some(vec![display(1, true)]),
    }];
    let plan = match streamer.start(config(), None, Some(sessions), 5, &protocol()) {
        StartStep::AskConsole(plan) => plan,
        other => panic!("unexpected {other:?}"),
    };
    let step = streamer.after_console_desktop(plan, DesktopTarget::Default);
    assert!(matches!(
        step,
        StartStep::StartOn { target: DesktopTarget::Default, last: false, .. }
    ));
    let step = streamer.after_attempt(plan, DesktopTarget::Default, false, Err(failure("first")));
    assert!(matches!(
        step,
        StartStep::StartOn { target: DesktopTarget::Winlogon, last: true, .. }
    ));
    let (again, id) =
        match streamer.after_attempt(plan, DesktopTarget::Winlogon, true, Err(failure("second"))) {
            StartStep::BeginAgain(again, id) => (again, id),
            other => panic!("unexpected {other:?}"),
        };
    let plan = match streamer.start(again, Some(id), None, 6, &protocol()) {
        StartStep::Shutdown(plan) => plan,
        other => panic!("unexpected {other:?}"),
    };
    assert_eq!(plan.session, Some(3));
    assert_eq!(plan.display, Some(DisplayId(1)));
    assert!(matches!(
        streamer.after_shutdown(plan, Ok(())),
        StartStep::StartOn { target: DesktopTarget::Rdp(3, false), last: false, .. }
    ));
    match streamer.after_attempt(plan, DesktopTarget::Rdp(3, true), true, Err(failure("gone"))) {
        StartStep::Failed(error) => assert_eq!(error.describe(), "gone"),
        other => panic!("unexpected {other:?}"),
    }
    match streamer.after_attempt(plan, DesktopTarget::Rdp(3, false), false, Ok(captured(1))) {
        StartStep::Started(started) => {
            assert_eq!(started.active_display.id, id);
            assert_eq!(started.displays.len(), 2);
        }
        other => panic!("unexpected {other:?}"),
    }
    assert_eq!(streamer.running, Some(DesktopTarget::Rdp(3, false)));
    assert!(matches!(
        streamer.start(config(), Some(DisplayId(0x8000_0900)), None, 7, &protocol()),
        StartStep::Failed(error)
            if error.describe() == "selected RDP display is no longer available"
    ));
}

#[test]
fn running_helpers_are_used_again_and_the_background_is_prepared() {
    let mut streamer = DesktopCaptureStreamer::new(String::new(), String::new(), 0);
    let start = |streamer: &mut DesktopCaptureStreamer, id| {
        streamer.start(config(), id, Some(Vec::new()), 1, &protocol())
    };
    let plan = match start(&mut streamer, Some(DisplayId(1))) {
        StartStep::AskConsole(plan) => plan,
        other => panic!("unexpected {other:?}"),
    };
    streamer.after_attempt(plan, DesktopTarget::Default, false, Ok(captured(1)));
    let plan = match start(&mut streamer, Some(DisplayId(1))) {
        StartStep::Reconfigure(plan) => plan,
        other => panic!("unexpected {other:?}"),
    };
    assert!(matches!(
        streamer.after_reconfigure(plan, Err(failure("busy"))),
        StartStep::Stop(_)
    ));
    assert!(matches!(
        streamer.after_stop(plan),
        StartStep::StartOn { target: DesktopTarget::Default, last: false, .. }
    ));
    let plan = match start(&mut streamer, Some(BACKGROUND)) {
        StartStep::Shutdown(plan) => plan,
        other => panic!("unexpected {other:?}"),
    };
    assert_eq!(plan.config.frames_per_second, 20);
    assert!(matches!(
        streamer.after_shutdown(plan, Err(failure("stuck"))),
        StartStep::Failed(_)
    ));
    assert!(matches!(
        streamer.after_shutdown(plan, Ok(())),
        StartStep::RequireSessionZero(_)
    ));
    assert!(matches!(
        streamer.after_session_zero(plan, Err(failure("no service"))),
        StartStep::Failed(_)
    ));
    assert!(matches!(
        streamer.after_session_zero(plan, Ok(())),
        StartStep::StartOn { target: DesktopTarget::Background, last: true, .. }
    ));
    streamer.catalog.console.clear();
    assert!(matches!(
        streamer.after_session_zero(plan, Ok(())),
        StartStep::ListConsole(_)
    ));
    assert!(matches!(
        streamer.after_console(plan, Some(vec![display(4, true)])),
        StartStep::StartOn { .. }
    ));
    assert_eq!(streamer.catalog.console[0].id, DisplayId(4));

    let (error, terminates) = attempt_failure(AttemptError::Send(failure("closed")));
    assert_eq!(
        error.describe(),
        "failed to start the desktop helper: closed"
    );
    assert!(terminates);
    assert!(!attempt_failure(AttemptError::Launch(failure("denied"))).1);
    assert_eq!(
        attempt_failure(AttemptError::Helpers(failure("x"))).0.describe(),
        "failed to start the independent desktop input helper: x"
    );
}

#[test]
fn ended_and_stalled_captures_are_noticed() {
    let mut streamer = DesktopCaptureStreamer::new(String::new(), String::new(), 0);
    let mut progress = Progress::new();
    assert_eq!(streamer.poll_ended(&mut progress, 99_999), (false, None));
    streamer.running = Some(DesktopTarget::Winlogon);
    assert_eq!(streamer.poll_ended(&mut progress, 99_999), (false, None));
    assert!(streamer.set_display_border(true).is_some());
    progress.set_status(Err("lost".to_string()));
    assert_eq!(
        streamer.poll_ended(&mut progress, 0),
        (false, Some(Err("lost".to_string())))
    );
    assert_eq!(streamer.running, None);
    assert_eq!(streamer.catalog.preferred, Some(DesktopTarget::Winlogon));
    assert!(streamer.set_cursor_capture(true).is_none());
    assert_eq!(
        streamer.request_keyframe().unwrap_err().describe(),
        "failed to request a desktop-helper keyframe: desktop helper is not running"
    );
    assert_eq!(
        streamer.set_bitrate(0).unwrap_err().describe(),
        "failed to change the desktop-helper bitrate: desktop helper is not running"
    );
    assert!(streamer.stop().is_none());
    streamer.running = Some(DesktopTarget::Background);
    assert_eq!(streamer.poll_ended(&mut progress, 10_000), (false, None));
    assert_eq!(
        streamer.poll_ended(&mut progress, 10_001),
        (
            true,
            Some(Err(
                "Background rendering stalled; capture helper was terminated".to_string()
            ))
        )
    );
    streamer.running = Some(DesktopTarget::Default);
    assert!(matches!(
        streamer.request_keyframe(),
        Ok(ParentCommand::RequestKeyframe)
    ));
    assert!(matches!(
        streamer.set_bitrate(0),
        Ok(ParentCommand::SetBitrate(1))
    ));
    assert!(matches!(
        streamer.set_bitrate(7),
        Ok(ParentCommand::SetBitrate(7))
    ));
    assert!(!streamer.poll(4_999));
    assert!(streamer.poll(5_000));
    assert!(matches!(streamer.sessions_changed(None), (false, None)));
    assert!(matches!(
        streamer.sessions_changed(Some(Vec::new())),
        (false, None)
    ));
    assert!(matches!(
        streamer.sessions_changed(Some(vec![(3, "Alice".to_string())])),
        (true, Some(ParentCommand::Stop))
    ));
    assert_eq!(streamer.running, None);
    assert!(matches!(
        streamer.sessions_changed(Some(vec![(3, "Alice".to_string())])),
        (false, None)
    ));
    assert!(matches!(
        streamer.sessions_changed(Some(Vec::new())),
        (true, None)
    ));
}

#[test]
fn everything_stops_with_the_session() {
    let mut streamer =
        DesktopCaptureStreamer::new(String::new(), "Maintenance".to_string(), 0);
    assert_eq!(
        streamer
            .input_controller(Routed::none(), HelperSettings::unset())
            .blackout_message,
        "Maintenance"
    );
    streamer.running = Some(DesktopTarget::Default);
    let mut shared = Shared::new(false, vec![0]);
    shared.credentials.prompt_active = true;
    let (helpers, capture) = streamer.shutdown(&mut shared, true);
    assert_eq!(
        helpers.iter().map(|(kind, _)| *kind).collect::<Vec<_>>(),
        vec![
            HelperKind::Chat,
            HelperKind::Clipboard,
            HelperKind::Files,
            HelperKind::Input
        ]
    );
    assert!(matches!(
        helpers[3].1.as_slice(),
        [ParentCommand::ReleaseInput, ParentCommand::Stop]
    ));
    assert!(matches!(capture, Some(ParentCommand::Stop)));
    assert_eq!(streamer.running, None);
    assert!(shared.credentials.saved && !shared.credentials.prompt_active);
    assert!(stop_result(Ok(())).is_ok());
    assert_eq!(
        stop_result(Err(failure("closed"))).unwrap_err().describe(),
        "failed to stop the desktop helper: closed"
    );
}

fn reused() -> (DesktopCaptureStreamer, meshrmm_agent::capture::StartPlan) {
    let mut streamer = DesktopCaptureStreamer::new("Zo\u{eb}".to_string(), String::new(), 0);
    streamer.running = Some(DesktopTarget::Default);
    match streamer.start(config(), Some(DisplayId(1)), Some(Vec::new()), 1, &protocol()) {
        StartStep::Reconfigure(plan) => (streamer, plan),
        other => panic!("unexpected {other:?}"),
    }
}

#[test]
fn reused_helpers_deliver_nothing_of_the_old_stream() {
    let (streamer, plan) = reused();
    let mut shared = Shared::new(false, vec![0]);
    let mut progress = Progress::new();
    let mut frame = |routed| {
        let unit = EncodedAccessUnit {
            capture_timestamp_us: 1,
            encode_complete_timestamp_us: 2,
            keyframe: false,
            codec_config: None,
            data: vec![1],
        };
        dispatch_child_event(&mut shared, &mut progress, Ok(ChildEvent::Frame(unit)), routed)
            .frame
            .is_some()
    };
    assert!(matches!(streamer.reconfigure(), ReconfigureStep::DropOutput));
    let mut routed = false;
    assert!(matches!(
        streamer.reconfigure_step(&plan, ReconfigureStage::DropOutput, Ok(())),
        ReconfigureStep::Send(ParentCommand::Start { viewer_name, display_id, .. })
            if viewer_name == "Zo\u{eb}" && display_id == Some(DisplayId(1))
    ));
    assert!(!frame(routed));
    assert!(matches!(
        streamer.reconfigure_step(&plan, ReconfigureStage::Send, Ok(())),
        ReconfigureStep::AwaitReport
    ));
    assert!(!frame(routed));
    assert!(matches!(
        streamer.after_report(Ok(DisplayId(1))),
        ReconfigureStep::SeeToHelpers(DesktopTarget::Default, DisplayId(1))
    ));
    assert!(matches!(
        streamer.reconfigure_step(&plan, ReconfigureStage::SeeToHelpers, Ok(())),
        ReconfigureStep::RestoreOutput
    ));
    routed = true;
    assert!(matches!(
        streamer.reconfigure_step(&plan, ReconfigureStage::RestoreOutput, Ok(())),
        ReconfigureStep::RequestKeyframe(ParentCommand::RequestKeyframe)
    ));
    assert!(matches!(
        streamer.reconfigure_step(&plan, ReconfigureStage::RequestKeyframe, Ok(())),
        ReconfigureStep::Reconfigured
    ));
    assert!(frame(routed));
}

#[test]
fn reuse_fails_with_what_stopped_it() {
    let (mut streamer, plan) = reused();
    let text = |step| match step {
        ReconfigureStep::Failed(failure) => failure.describe(),
        other => panic!("unexpected {other:?}"),
    };
    assert_eq!(
        text(streamer.reconfigure_step(&plan, ReconfigureStage::Send, Err(failure("full")))),
        "full"
    );
    assert_eq!(
        text(streamer.after_report(Err(ReportError::Failed("no encoder".to_string())))),
        "no encoder"
    );
    assert_eq!(
        text(streamer.after_report(Err(ReportError::Silent(failure("timed out"))))),
        "capture helper did not reconfigure promptly: timed out"
    );
    assert_eq!(
        text(streamer.reconfigure_step(&plan, ReconfigureStage::SeeToHelpers, Err(failure("no user")))),
        "no user"
    );
    assert_eq!(
        text(streamer.reconfigure_step(
            &plan,
            ReconfigureStage::RequestKeyframe,
            Err(failure("full"))
        )),
        "failed to request a desktop-helper keyframe: full"
    );
    streamer.running = None;
    assert_eq!(text(streamer.reconfigure()), "capture helper is not running");
    assert_eq!(
        text(streamer.after_report(Ok(DisplayId(1)))),
        "capture helper is not running"
    );
    assert_eq!(
        text(streamer.reconfigure_step(&plan, ReconfigureStage::SeeToHelpers, Ok(()))),
        "capture helper disappeared"
    );
    assert_eq!(
        text(streamer.reconfigure_step(&plan, ReconfigureStage::RestoreOutput, Ok(()))),
        "failed to request a desktop-helper keyframe: desktop helper is not running"
    );
}

#[test]
fn requests_that_cannot_be_sent_say_what_was_asked() {
    assert!(request_result(CaptureRequest::Bitrate, Ok(())).is_ok());
    assert_eq!(
        request_result(CaptureRequest::Bitrate, Err(failure("full")))
            .unwrap_err()
            .describe(),
        "failed to change the desktop-helper bitrate: full"
    );
    assert!(desktop_result(DesktopRequest::Input, Ok(())).is_ok());
    for (request, text) in [
        (
            DesktopRequest::Input,
            "failed to send input to the active desktop: full",
        ),
        (
            DesktopRequest::Release,
            "failed to release input on the active desktop: full",
        ),
        (
            DesktopRequest::Clipboard,
            "failed to send clipboard content to the active desktop: full",
        ),
    ] {
        assert_eq!(
            desktop_result(request, Err(failure("full")))
                .unwrap_err()
                .describe(),
            text
        );
    }
}
