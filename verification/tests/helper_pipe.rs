use meshrmm_agent::catalog::{rdp_display_id, Catalog, SessionDisplay, FIRST_RESERVED_DISPLAY};
use meshrmm_agent::command::{command_name, read_command, write_command, ParentCommand};
use meshrmm_agent::controller::Routed;
use meshrmm_agent::dispatch::{
    dispatch_child_event, dispatch_input_event, Progress, Shared, Step,
};
use meshrmm_agent::event::{read_event, write_event, ChildEvent, EncodedAccessUnit};
use meshrmm_agent::helper::{
    child_event_name, helper_sends, helper_uses_user_token, DesktopTarget, HelperKind,
};
use meshrmm_agent::helper_set::HelperSettings;
use meshrmm_agent::model::{
    ActiveFormat, DesktopSession, Display, DisplayId, Protocol, StartedDesktop, StreamConfig,
    VideoCodec, VideoPixelFormat,
};
use meshrmm_agent::pipe::{bridge_closes, PipeBudget, PipeRefusal};
use meshrmm_agent::stderr::{BoundedLine, LineBudget};
use meshrmm_agent::streamer::DesktopCaptureStreamer;
use meshrmm_agent::wire::{ErrorKind, PipeReader, WireError, MAX_CONTROL_BYTES};

const COMMAND_CHAT: u8 = 9;
const COMMAND_BLOCK_INPUT: u8 = 14;
const COMMAND_BLACKOUT: u8 = 15;
const EVENT_CURSOR: u8 = 5;
const EVENT_CHAT: u8 = 8;

fn protocol() -> Protocol {
    Protocol {
        clipboard_wire_bytes: 4 * 1024 * 1024,
        clipboard_text_bytes: 1024 * 1024,
        chat_text_bytes: 16 * 1024,
        background_display: DisplayId(FIRST_RESERVED_DISPLAY),
        all_monitors: DisplayId(u32::MAX - 1),
    }
}

fn display(id: u32, name: &str, x: i32, primary: bool) -> Display {
    Display {
        session: DesktopSession::Console,
        id: DisplayId(id),
        name: name.to_string(),
        x,
        y: 0,
        width: 1920,
        height: 1080,
        primary,
    }
}

fn background() -> Display {
    Display {
        session: DesktopSession::Background,
        ..display(FIRST_RESERVED_DISPLAY, "Background", 0, false)
    }
}

fn format_of(
    frames_per_second: u32,
    bitrate_bits_per_second: u32,
    codec: VideoCodec,
    pixel_format: VideoPixelFormat,
) -> ActiveFormat {
    ActiveFormat {
        width: 1920,
        height: 1080,
        frames_per_second,
        bitrate_bits_per_second,
        codec,
        pixel_format,
    }
}

fn command_bytes(commands: &[ParentCommand]) -> Vec<u8> {
    let mut bytes = Vec::new();
    for command in commands {
        write_command(&mut bytes, command, &protocol(), true).unwrap();
    }
    bytes
}

fn only_command(bytes: &[u8]) -> Result<ParentCommand, WireError> {
    read_command(&mut PipeReader::new(bytes), &protocol())
}

fn event_bytes(events: &[ChildEvent]) -> Vec<u8> {
    let mut bytes = Vec::new();
    for event in events {
        write_event(&mut bytes, event, &protocol(), true).unwrap();
    }
    bytes
}

fn only_event(bytes: &[u8]) -> Result<ChildEvent, WireError> {
    read_event(&mut PipeReader::new(bytes), &protocol())
}

fn cursor(viewer_controls_input: bool) -> ChildEvent {
    ChildEvent::Cursor {
        shape: vec![1],
        viewer_controls_input,
        pointer_display: None,
    }
}

struct Dispatched {
    shared: Shared,
    progress: Progress,
    woken: Vec<HelperKind>,
}

/// What a helper's events come to, read from its pipe until it stops.
fn dispatch(kind: HelperKind, events: Vec<ChildEvent>) -> Dispatched {
    let bytes = event_bytes(&events);
    let mut reader = PipeReader::new(&bytes);
    let mut dispatched = Dispatched {
        shared: Shared::new(false, vec![0]),
        progress: Progress::new(),
        woken: Vec::new(),
    };
    loop {
        let event = read_event(&mut reader, &protocol()).map_err(|error| format!("{error:?}"));
        let step = dispatch_input_event(
            &mut dispatched.shared,
            &mut dispatched.progress,
            kind,
            event,
            8,
        );
        match step {
            Step::Continue(Some(service)) => dispatched.woken.push(service),
            Step::Continue(None) => {}
            Step::Credentials(_) => {}
            Step::Stop => return dispatched,
        }
    }
}

fn rdp_monitor_ids_are_stable_and_do_not_alias_console_or_other_users() {
    assert_ne!(rdp_display_id(3, DisplayId(1)), DisplayId(1));
    assert_ne!(
        rdp_display_id(3, DisplayId(1)),
        rdp_display_id(4, DisplayId(1))
    );
    assert_ne!(
        rdp_display_id(3, DisplayId(1)),
        rdp_display_id(3, DisplayId(2))
    );
    assert_ne!(
        rdp_display_id(3, DisplayId(u32::MAX - 1)),
        protocol().background_display
    );
    assert_eq!(
        DesktopTarget::Rdp(3, false).alternate(),
        DesktopTarget::Rdp(3, true)
    );
    assert!(helper_uses_user_token(
        HelperKind::Files,
        DesktopTarget::Rdp(3, true)
    ));
    assert!(helper_uses_user_token(
        HelperKind::Clipboard,
        DesktopTarget::Rdp(3, false)
    ));
    assert!(!helper_uses_user_token(
        HelperKind::Clipboard,
        DesktopTarget::Rdp(3, true)
    ));
}

fn rdp_catalog_preserves_all_monitors_and_maps_the_active_monitor() {
    let session = DesktopSession::Rdp {
        id: 3,
        user: "Alice".to_string(),
    };
    let console = display(1, "Console", 0, true);
    let mut streamer = DesktopCaptureStreamer::new(String::new(), String::new(), 0);
    streamer.catalog.console = vec![console.clone()];
    streamer.catalog.selected_session = Some(3);
    streamer.catalog.sessions = vec![SessionDisplay {
        display: Display {
            session: session.clone(),
            id: rdp_display_id(3, console.id),
            ..console.clone()
        },
        local: console.id,
    }];
    let monitors: Vec<Display> = (1..=3)
        .map(|id| Display {
            id: DisplayId(id),
            x: (id as i32 - 1) * 1920,
            ..console.clone()
        })
        .collect();
    let started = streamer.catalog.record_started(
        StartedDesktop {
            active_display: monitors[1].clone(),
            displays: monitors,
            format: format_of(30, 8_000_000, VideoCodec::H264, VideoPixelFormat::Yuv420),
        },
        background(),
        Vec::new(),
    );
    assert_eq!(started.active_display.id, rdp_display_id(3, DisplayId(2)));
    assert!(started.active_display.session.same(&session));
    assert_eq!(
        started
            .displays
            .iter()
            .filter(|display| display.session.same(&session))
            .count(),
        3
    );
    assert_eq!(started.displays.len(), 5);
    let input = streamer.input_controller(Routed::none(), HelperSettings::unset());
    assert!(!input.is_console_session(&streamer.catalog));
    let mut shared = Shared::new(false, vec![0]);
    shared.cursor.pointer_display = Some(DisplayId(3));
    assert_eq!(
        input.agent_pointer_display(&streamer.catalog, &shared),
        Some(rdp_display_id(3, DisplayId(3)))
    );
    streamer.catalog.selected_session = None;
    let console_started = streamer.catalog.record_started(
        StartedDesktop {
            active_display: console.clone(),
            displays: vec![console],
            format: started.format,
        },
        background(),
        Vec::new(),
    );
    assert!(console_started
        .active_display
        .session
        .same(&DesktopSession::Console));
    assert!(streamer.catalog.routes.is_empty());
    assert!(input.is_console_session(&streamer.catalog));
}

fn background_start_preserves_all_console_displays_when_switching() {
    let console: Vec<Display> = (1..=3)
        .map(|id| display(id, &format!("Display {id}"), (id as i32 - 1) * 1920, id == 1))
        .collect();
    let mut catalog = Catalog::new();
    catalog.console = console.clone();
    for background_active in [true, false, true] {
        catalog.background_active = background_active;
        let active = if background_active {
            background()
        } else {
            console[2].clone()
        };
        let started = catalog.record_started(
            StartedDesktop {
                format: format_of(20, 12_000_000, VideoCodec::H264, VideoPixelFormat::Yuv420),
                displays: if background_active {
                    vec![active.clone()]
                } else {
                    console.clone()
                },
                active_display: active.clone(),
            },
            background(),
            Vec::new(),
        );
        assert_eq!(started.displays.len(), 4);
        assert_eq!(started.active_display.id, active.id);
        for (actual, expected) in started.displays.iter().zip(&console) {
            assert_eq!(actual.id, expected.id);
            assert_eq!(actual.x, expected.x);
        }
        assert_eq!(started.displays[3].id, background().id);
    }
    let bytes = command_bytes(&[ParentCommand::EnumerateDisplays]);
    assert!(matches!(
        only_command(&bytes),
        Ok(ParentCommand::EnumerateDisplays)
    ));
}

fn capture_reader_accepts_reconfiguration_and_discards_frames_while_unrouted() {
    let mut bytes = Vec::new();
    for id in [1u32, 2] {
        let selected = display(id, "Display", 0, true);
        write_event(
            &mut bytes,
            &ChildEvent::Started(StartedDesktop {
                format: format_of(60, 12_000_000, VideoCodec::H264, VideoPixelFormat::Yuv420),
                displays: vec![selected.clone()],
                active_display: selected,
            }),
            &protocol(),
            true,
        )
        .unwrap();
        write_event(
            &mut bytes,
            &ChildEvent::Frame(EncodedAccessUnit {
                capture_timestamp_us: id as u64,
                encode_complete_timestamp_us: id as u64,
                keyframe: true,
                codec_config: None,
                data: vec![id as u8],
            }),
            &protocol(),
            true,
        )
        .unwrap();
    }
    write_event(&mut bytes, &ChildEvent::Stopped, &protocol(), true).unwrap();
    for enabled in [false, true] {
        let mut reader = PipeReader::new(&bytes);
        let mut shared = Shared::new(false, vec![0]);
        let mut progress = Progress::new();
        let mut started = Vec::new();
        let mut frames = Vec::new();
        loop {
            let event = read_event(&mut reader, &protocol()).map_err(|error| format!("{error:?}"));
            let step = dispatch_child_event(&mut shared, &mut progress, event, enabled);
            if let Some(report) = step.report {
                started.push(report.map(|started| started.active_display.id));
            }
            if let Some(frame) = step.frame {
                frames.push(frame.data);
            }
            if step.stop {
                break;
            }
        }
        assert_eq!(started[0], Ok(DisplayId(1)));
        assert_eq!(started[1], Ok(DisplayId(2)));
        assert_eq!(progress.status, Some(Ok(())));
        assert_eq!(
            frames,
            if enabled {
                vec![vec![1], vec![2]]
            } else {
                vec![]
            }
        );
    }
}

fn maintenance_ipc_preserves_flags_and_unicode_and_rejects_bad_flags() {
    for blocked in [false, true] {
        let bytes = command_bytes(&[ParentCommand::BlockInput(blocked)]);
        assert!(
            matches!(only_command(&bytes).unwrap(), ParentCommand::BlockInput(value) if value == blocked)
        );
    }
    assert!(only_command(&[COMMAND_BLOCK_INPUT, 2]).is_err());
    assert!(only_command(&[COMMAND_BLACKOUT, 2]).is_err());
    let text = "Maintenance by Zoë 王\nPlease wait";
    let bytes = command_bytes(&[ParentCommand::Blackout {
        enabled: true,
        text: text.to_string(),
    }]);
    assert!(
        matches!(only_command(&bytes).unwrap(), ParentCommand::Blackout { enabled: true, text: value } if value == text)
    );
    let bytes = event_bytes(&[ChildEvent::MaintenanceState {
        agent_input_blocked: true,
        blacked_out: false,
    }]);
    assert!(matches!(
        only_event(&bytes).unwrap(),
        ChildEvent::MaintenanceState {
            agent_input_blocked: true,
            blacked_out: false
        }
    ));
    let bytes = event_bytes(&[ChildEvent::MaintenanceError("access denied".to_string())]);
    assert!(
        matches!(only_event(&bytes).unwrap(), ChildEvent::MaintenanceError(reason) if reason == "access denied")
    );
}

fn wallpaper_commands_preserve_pipe_alignment_and_reject_invalid_flags() {
    for hidden in [false, true] {
        let bytes = command_bytes(&[
            ParentCommand::SetWallpaperHidden(hidden),
            ParentCommand::Stop,
        ]);
        let mut reader = PipeReader::new(&bytes);
        assert!(
            matches!(read_command(&mut reader, &protocol()).unwrap(), ParentCommand::SetWallpaperHidden(value) if value == hidden)
        );
        assert!(matches!(
            read_command(&mut reader, &protocol()).unwrap(),
            ParentCommand::Stop
        ));
        assert!(reader.is_empty());
    }
    assert!(only_command(&[19, 2]).is_err());
}

fn cursor_ownership_and_visibility_round_trip_without_desynchronizing_ipc() {
    for viewer in [false, true] {
        let bytes = event_bytes(&[
            ChildEvent::Cursor {
                shape: vec![1],
                viewer_controls_input: viewer,
                pointer_display: Some(DisplayId(2)),
            },
            ChildEvent::Stopped,
        ]);
        let mut reader = PipeReader::new(&bytes);
        assert!(
            matches!(read_event(&mut reader, &protocol()).unwrap(), ChildEvent::Cursor { shape, viewer_controls_input, pointer_display: Some(DisplayId(2)) } if shape == vec![1] && viewer_controls_input == viewer)
        );
        assert!(matches!(
            read_event(&mut reader, &protocol()).unwrap(),
            ChildEvent::Stopped
        ));
        assert!(reader.is_empty());

        let bytes = command_bytes(&[
            ParentCommand::SetCursorCapture(viewer),
            ParentCommand::RequestKeyframe,
        ]);
        let mut reader = PipeReader::new(&bytes);
        assert!(
            matches!(read_command(&mut reader, &protocol()).unwrap(), ParentCommand::SetCursorCapture(enabled) if enabled == viewer)
        );
        assert!(matches!(
            read_command(&mut reader, &protocol()).unwrap(),
            ParentCommand::RequestKeyframe
        ));
        assert!(reader.is_empty());
    }
    assert!(only_command(&[18, 2]).is_err());
    assert!(only_event(&[EVENT_CURSOR, 2]).is_err());
}

fn capture_flags_survive_helper_start_and_leave_next_command_aligned() {
    for (cursor, monochrome) in [(false, false), (false, true), (true, false), (true, true)] {
        let bytes = command_bytes(&[
            ParentCommand::Start {
                viewer_name: "Viewer".to_string(),
                display_id: Some(DisplayId(1)),
                config: StreamConfig {
                    frames_per_second: 24,
                    bitrate_bits_per_second: 1_000_000,
                    codec: VideoCodec::H264,
                    pixel_format: VideoPixelFormat::Yuv420,
                    capture_cursor: cursor,
                    grayscale: monochrome,
                },
            },
            ParentCommand::RequestKeyframe,
        ]);
        let mut reader = PipeReader::new(&bytes);
        assert!(
            matches!(read_command(&mut reader, &protocol()).unwrap(), ParentCommand::Start { config, .. }
                if config.capture_cursor == cursor && config.grayscale == monochrome && config.frames_per_second == 24 && config.bitrate_bits_per_second == 1_000_000)
        );
        assert!(matches!(
            read_command(&mut reader, &protocol()).unwrap(),
            ParentCommand::RequestKeyframe
        ));
        assert!(reader.is_empty());
    }
}

fn command_protocol_round_trips_desktop_input() {
    let commands = [
        ParentCommand::Start {
            viewer_name: "Zoë 王".to_string(),
            display_id: Some(DisplayId(3)),
            config: StreamConfig {
                frames_per_second: 60,
                bitrate_bits_per_second: 12_000_000,
                codec: VideoCodec::H265,
                pixel_format: VideoPixelFormat::Yuv444,
                capture_cursor: true,
                grayscale: false,
            },
        },
        ParentCommand::StartClipboard,
        ParentCommand::StartChatHelper {
            viewer_name: "Zoë 王".to_string(),
        },
        ParentCommand::RequestKeyframe,
        ParentCommand::SetBitrate(4_000_000),
        ParentCommand::StartInput {
            viewer_name: "Zoë 王".to_string(),
            display_id: DisplayId(3),
        },
        ParentCommand::Input(vec![1, 3, 0, 1]),
        ParentCommand::ReleaseInput,
        ParentCommand::BlockInput(true),
        ParentCommand::BlockInput(false),
        ParentCommand::Clipboard(b"winget install Example.Package\n".to_vec()),
        ParentCommand::Stop,
    ];
    for command in commands {
        let mut bytes = Vec::new();
        write_command(&mut bytes, &command, &protocol(), true).unwrap();
        let decoded = only_command(&bytes).unwrap();
        assert_eq!(command_name(&decoded), command_name(&command));
        if let ParentCommand::Start { viewer_name, .. }
        | ParentCommand::StartInput { viewer_name, .. } = decoded
        {
            assert_eq!(viewer_name, "Zoë 王");
        }
    }
}

fn started_event_round_trips_display_metadata() {
    let shown = display(2, "Secure display", -1920, true);
    let bytes = event_bytes(&[ChildEvent::Started(StartedDesktop {
        format: format_of(60, 12_000_000, VideoCodec::H265, VideoPixelFormat::Yuv444),
        displays: vec![shown.clone()],
        active_display: shown,
    })]);
    let ChildEvent::Started(decoded) = only_event(&bytes).unwrap() else {
        panic!("expected started event");
    };
    assert_eq!(decoded.active_display.id, DisplayId(2));
    assert_eq!(decoded.displays[0].x, -1920);
    assert_eq!(decoded.format.codec, VideoCodec::H265);
    assert_eq!(decoded.format.pixel_format, VideoPixelFormat::Yuv444);
}

fn frame_event_round_trips() {
    let bytes = event_bytes(&[ChildEvent::Frame(EncodedAccessUnit {
        capture_timestamp_us: 11,
        encode_complete_timestamp_us: 22,
        keyframe: true,
        codec_config: Some(vec![1, 2, 3]),
        data: vec![4, 5, 6, 7],
    })]);
    let ChildEvent::Frame(decoded) = only_event(&bytes).unwrap() else {
        panic!("expected frame event");
    };
    assert_eq!(decoded.capture_timestamp_us, 11);
    assert_eq!(decoded.codec_config, Some(vec![1, 2, 3]));
    assert_eq!(decoded.data, vec![4, 5, 6, 7]);
}

fn input_started_event_round_trips() {
    let bytes = event_bytes(&[ChildEvent::InputStarted]);
    assert!(matches!(
        only_event(&bytes).unwrap(),
        ChildEvent::InputStarted
    ));
}

fn clipboard_commands_and_events_round_trip_all_formats() {
    for content in [
        b"winget install Example.Package\n".to_vec(),
        "<b>Zoë 王</b>".repeat(10000).into_bytes(),
        vec![255; 512 * 512 * 4],
    ] {
        let bytes = event_bytes(&[ChildEvent::Clipboard(content.clone())]);
        let ChildEvent::Clipboard(decoded) = only_event(&bytes).unwrap() else {
            panic!("expected clipboard event");
        };
        assert_eq!(decoded, content);
        let bytes = command_bytes(&[ParentCommand::Clipboard(content.clone())]);
        let ParentCommand::Clipboard(decoded) = only_command(&bytes).unwrap() else {
            panic!("expected clipboard command");
        };
        assert_eq!(decoded, content);
    }
}

fn desktop_targets_alternate() {
    assert_eq!(DesktopTarget::Default.alternate(), DesktopTarget::Winlogon);
    assert_eq!(DesktopTarget::Winlogon.alternate(), DesktopTarget::Default);
}

fn chat_commands_and_events_round_trip() {
    let text = "Hello 👋\nReply from the other computer";
    let bytes = command_bytes(&[ParentCommand::StartChat]);
    assert!(matches!(
        only_command(&bytes).unwrap(),
        ParentCommand::StartChat
    ));
    let bytes = command_bytes(&[ParentCommand::Chat(text.to_string())]);
    assert!(
        matches!(only_command(&bytes).unwrap(), ParentCommand::Chat(value) if value == text)
    );
    let bytes = event_bytes(&[ChildEvent::Chat(text.to_string())]);
    assert!(matches!(only_event(&bytes).unwrap(), ChildEvent::Chat(value) if value == text));
}

fn oversized_chat_is_rejected_before_reading_payload() {
    let mut command = vec![COMMAND_CHAT];
    command.extend_from_slice(&(protocol().chat_text_bytes as u32 + 1).to_le_bytes());
    assert!(
        matches!(only_command(&command), Err(error) if error.kind() == ErrorKind::InvalidData)
    );
    command[0] = EVENT_CHAT;
    assert!(
        matches!(only_event(&command), Err(error) if error.kind() == ErrorKind::InvalidData)
    );
}

fn interactive_clipboard_uses_user_token_but_secure_input_does_not() {
    assert!(helper_uses_user_token(
        HelperKind::Clipboard,
        DesktopTarget::Default
    ));
    assert!(!helper_uses_user_token(
        HelperKind::Clipboard,
        DesktopTarget::Winlogon
    ));
    assert!(!helper_uses_user_token(
        HelperKind::Input,
        DesktopTarget::Default
    ));
    assert!(!helper_uses_user_token(
        HelperKind::Chat,
        DesktopTarget::Default
    ));
    assert!(helper_uses_user_token(
        HelperKind::Files,
        DesktopTarget::Default
    ));
}

fn pipe_byte_budget_rejects_oversized_work_without_waiting() {
    let mut budget = PipeBudget::new(&protocol());
    assert_eq!(
        budget.reserve(2 * protocol().clipboard_wire_bytes + MAX_CONTROL_BYTES + 1),
        Err(PipeRefusal::Budget)
    );
    assert_eq!(budget.reserve(1), Ok(()));
}

fn command_bridge_preserves_order_and_closes_after_stop() {
    let bytes = command_bytes(&[
        ParentCommand::StartChat,
        ParentCommand::Chat("hello".to_string()),
        ParentCommand::Stop,
    ]);
    let mut reader = PipeReader::new(&bytes);
    let mut received = Vec::new();
    loop {
        let command = read_command(&mut reader, &protocol());
        let closes = bridge_closes(&command);
        received.push(command);
        if closes {
            break;
        }
    }
    assert_eq!(received.len(), 3);
    assert!(matches!(received[0], Ok(ParentCommand::StartChat)));
    assert!(matches!(&received[1], Ok(ParentCommand::Chat(text)) if text == "hello"));
    assert!(matches!(received[2], Ok(ParentCommand::Stop)));
}

fn helper_pipe_notifies_services_and_coalesces_clipboard_changes() {
    let mut clipboard = dispatch(
        HelperKind::Clipboard,
        vec![
            ChildEvent::InputStarted,
            ChildEvent::Clipboard(b"first".to_vec()),
            ChildEvent::Clipboard(b"latest".to_vec()),
            ChildEvent::Stopped,
        ],
    );
    let mut chat = dispatch(
        HelperKind::Chat,
        vec![
            ChildEvent::InputStarted,
            ChildEvent::Chat("hello".to_string()),
            ChildEvent::Stopped,
        ],
    );
    let mut files = dispatch(
        HelperKind::Files,
        vec![
            ChildEvent::InputStarted,
            ChildEvent::Files(vec![7]),
            ChildEvent::Stopped,
        ],
    );
    for helper in [&clipboard, &chat, &files] {
        assert_eq!(helper.progress.startup, Some(Ok(())));
        assert_eq!(helper.progress.status, Some(Ok(())));
    }
    assert!(clipboard.woken.contains(&HelperKind::Clipboard));
    assert!(chat.woken.contains(&HelperKind::Chat));
    assert!(files.woken.contains(&HelperKind::Files));
    assert_eq!(clipboard.shared.poll_clipboard(), Some(b"latest".to_vec()));
    assert_eq!(chat.shared.poll_chat().as_deref(), Some("hello"));
    assert_eq!(files.shared.poll_files(), Some(vec![7]));
    assert!(clipboard.shared.poll_clipboard().is_none());
}

fn helpers_are_trusted_only_for_events_their_run_loops_send() {
    let events = [
        ChildEvent::InputStarted,
        ChildEvent::Error("failed".to_string()),
        ChildEvent::Stopped,
        cursor(true),
        ChildEvent::MaintenanceState {
            agent_input_blocked: false,
            blacked_out: false,
        },
        ChildEvent::CredentialPrompt(true),
        ChildEvent::MaintenanceError("wallpaper".to_string()),
        ChildEvent::Credentials(b"done".to_vec()),
        ChildEvent::Files(vec![7]),
        ChildEvent::Clipboard(b"copied".to_vec()),
        ChildEvent::Chat("hello".to_string()),
    ];
    let all = [
        HelperKind::Input,
        HelperKind::Files,
        HelperKind::Clipboard,
        HelperKind::Chat,
    ];
    let expected: [&[HelperKind]; 11] = [
        &all,
        &all,
        &all,
        &[HelperKind::Input],
        &[HelperKind::Input],
        &[HelperKind::Input],
        &[HelperKind::Input, HelperKind::Files],
        &[HelperKind::Input, HelperKind::Chat],
        &[HelperKind::Files],
        &[HelperKind::Clipboard],
        &[HelperKind::Chat],
    ];
    for (event, senders) in events.iter().zip(expected) {
        for kind in all {
            assert_eq!(
                helper_sends(kind, event),
                senders.contains(&kind),
                "{kind:?} helper, {} event",
                child_event_name(event)
            );
        }
    }
}

fn user_token_helpers_cannot_forge_other_helpers_events() {
    let forged = [
        (HelperKind::Clipboard, ChildEvent::Chat("forged chat".to_string())),
        (HelperKind::Clipboard, ChildEvent::MaintenanceError("forged".to_string())),
        (HelperKind::Files, cursor(true)),
        (
            HelperKind::Files,
            ChildEvent::MaintenanceState {
                agent_input_blocked: true,
                blacked_out: true,
            },
        ),
        (HelperKind::Files, ChildEvent::Clipboard(b"forged".to_vec())),
        (HelperKind::Files, ChildEvent::CredentialPrompt(true)),
        (HelperKind::Clipboard, ChildEvent::Files(vec![7])),
        (HelperKind::Chat, ChildEvent::Clipboard(b"forged".to_vec())),
        (HelperKind::Input, ChildEvent::Chat("forged chat".to_string())),
    ];
    for (kind, event) in forged {
        let name = child_event_name(&event);
        let result = dispatch(
            kind,
            vec![
                ChildEvent::InputStarted,
                event,
                ChildEvent::Chat("after".to_string()),
                ChildEvent::Stopped,
            ],
        );
        assert_eq!(result.progress.startup, Some(Ok(())));
        let Some(Err(message)) = result.progress.status else {
            panic!("{kind:?} helper's {name} event was accepted");
        };
        assert!(message.contains("unexpected"), "{message}");
        assert_eq!(result.shared.cursor.shape, [0]);
        assert!(!result.shared.cursor.viewer_controls_input);
        assert_eq!(result.shared.cursor.pointer_display, None);
        assert!(result.shared.clipboard.is_none());
        assert!(result.shared.files.is_empty());
        assert!(result.shared.chat.is_empty());
        assert!(result.shared.maintenance.is_none());
        assert!(!result.shared.credentials.can_autofill);
    }
}

fn stderr_lines_are_bounded_without_losing_the_next_line() {
    let mut input = vec![b'x'; 10_000];
    input.extend_from_slice(b"\r\nnext\npartial");
    let mut at = 0;
    // Small pieces exercise lines that span several reads.
    let mut read_line = || {
        let mut line = BoundedLine::new(16);
        while at < input.len() {
            let end = input.len().min(at / 7 * 7 + 7);
            let fed = line.feed(&input[at..end]);
            at += fed.consumed;
            if fed.complete {
                break;
            }
        }
        (line.finish(), line.line)
    };
    assert_eq!(read_line(), (Some(true), vec![b'x'; 16]));
    assert_eq!(read_line(), (Some(false), b"next".to_vec()));
    assert_eq!(read_line(), (Some(false), b"partial".to_vec()));
    assert_eq!(read_line().0, None);
}

fn stderr_budget_suppresses_floods_and_reports_them_per_window() {
    let start = 5_000;
    let window = 60_000;
    let mut budget = LineBudget::new(2, window, start);
    assert_eq!(budget.allow_line(start), (true, 0));
    assert_eq!(budget.allow_line(start), (true, 0));
    assert_eq!(budget.allow_line(start), (false, 0));
    assert_eq!(budget.allow_line(start + 59_000), (false, 0));
    assert_eq!(budget.allow_line(start + window), (true, 2));
    assert_eq!(budget.allow_line(start + window), (true, 0));
    assert_eq!(budget.allow_line(start + window), (false, 0));
    assert_eq!(budget.take_suppressed(), 1);
    assert_eq!(budget.take_suppressed(), 0);
}

fn forged_event_before_start_fails_startup() {
    let result = dispatch(HelperKind::Clipboard, vec![ChildEvent::Files(vec![7])]);
    assert!(matches!(result.progress.startup, Some(Err(_))));
    assert!(matches!(result.progress.status, Some(Err(_))));
}

fn credential_ipc_round_trips_and_bounds_payloads() {
    let encrypted = vec![17, 42, 0, 255];
    let bytes = command_bytes(&[ParentCommand::AutofillCredentials(encrypted.clone())]);
    assert!(
        matches!(only_command(&bytes).unwrap(), ParentCommand::AutofillCredentials(value) if value == encrypted)
    );
    let bytes = event_bytes(&[ChildEvent::Credentials(encrypted.clone())]);
    assert!(
        matches!(only_event(&bytes).unwrap(), ChildEvent::Credentials(value) if value == encrypted)
    );
    assert!(only_command(&[24, 1, 32, 0, 0]).is_err());
    assert!(only_event(&[12, 1, 128, 0, 0]).is_err());
    assert!(only_event(&[13, 2]).is_err());
}

#[test]
fn capture_helper_rdp_monitor_ids_are_stable_and_do_not_alias_console_or_other_users() {
    rdp_monitor_ids_are_stable_and_do_not_alias_console_or_other_users();
}

#[test]
fn tests_rdp_monitor_ids_are_stable_and_do_not_alias_console_or_other_users() {
    rdp_monitor_ids_are_stable_and_do_not_alias_console_or_other_users();
}

#[test]
fn capture_helper_rdp_catalog_preserves_all_monitors_and_maps_the_active_monitor() {
    rdp_catalog_preserves_all_monitors_and_maps_the_active_monitor();
}

#[test]
fn tests_rdp_catalog_preserves_all_monitors_and_maps_the_active_monitor() {
    rdp_catalog_preserves_all_monitors_and_maps_the_active_monitor();
}

#[test]
fn capture_helper_background_start_preserves_all_console_displays_when_switching() {
    background_start_preserves_all_console_displays_when_switching();
}

#[test]
fn tests_background_start_preserves_all_console_displays_when_switching() {
    background_start_preserves_all_console_displays_when_switching();
}

#[test]
fn capture_helper_capture_reader_accepts_reconfiguration_and_discards_frames_while_unrouted() {
    capture_reader_accepts_reconfiguration_and_discards_frames_while_unrouted();
}

#[test]
fn tests_capture_reader_accepts_reconfiguration_and_discards_frames_while_unrouted() {
    capture_reader_accepts_reconfiguration_and_discards_frames_while_unrouted();
}

#[test]
fn capture_helper_maintenance_ipc_preserves_flags_and_unicode_and_rejects_bad_flags() {
    maintenance_ipc_preserves_flags_and_unicode_and_rejects_bad_flags();
}

#[test]
fn tests_maintenance_ipc_preserves_flags_and_unicode_and_rejects_bad_flags() {
    maintenance_ipc_preserves_flags_and_unicode_and_rejects_bad_flags();
}

#[test]
fn capture_helper_wallpaper_commands_preserve_pipe_alignment_and_reject_invalid_flags() {
    wallpaper_commands_preserve_pipe_alignment_and_reject_invalid_flags();
}

#[test]
fn tests_wallpaper_commands_preserve_pipe_alignment_and_reject_invalid_flags() {
    wallpaper_commands_preserve_pipe_alignment_and_reject_invalid_flags();
}

#[test]
fn capture_helper_cursor_ownership_and_visibility_round_trip_without_desynchronizing_ipc() {
    cursor_ownership_and_visibility_round_trip_without_desynchronizing_ipc();
}

#[test]
fn tests_cursor_ownership_and_visibility_round_trip_without_desynchronizing_ipc() {
    cursor_ownership_and_visibility_round_trip_without_desynchronizing_ipc();
}

#[test]
fn capture_helper_capture_flags_survive_helper_start_and_leave_next_command_aligned() {
    capture_flags_survive_helper_start_and_leave_next_command_aligned();
}

#[test]
fn tests_capture_flags_survive_helper_start_and_leave_next_command_aligned() {
    capture_flags_survive_helper_start_and_leave_next_command_aligned();
}

#[test]
fn capture_helper_command_protocol_round_trips_desktop_input() {
    command_protocol_round_trips_desktop_input();
}

#[test]
fn tests_command_protocol_round_trips_desktop_input() {
    command_protocol_round_trips_desktop_input();
}

#[test]
fn capture_helper_started_event_round_trips_display_metadata() {
    started_event_round_trips_display_metadata();
}

#[test]
fn tests_started_event_round_trips_display_metadata() {
    started_event_round_trips_display_metadata();
}

#[test]
fn capture_helper_frame_event_round_trips() {
    frame_event_round_trips();
}

#[test]
fn tests_frame_event_round_trips() {
    frame_event_round_trips();
}

#[test]
fn capture_helper_input_started_event_round_trips() {
    input_started_event_round_trips();
}

#[test]
fn tests_input_started_event_round_trips() {
    input_started_event_round_trips();
}

#[test]
fn capture_helper_clipboard_commands_and_events_round_trip_all_formats() {
    clipboard_commands_and_events_round_trip_all_formats();
}

#[test]
fn tests_clipboard_commands_and_events_round_trip_all_formats() {
    clipboard_commands_and_events_round_trip_all_formats();
}

#[test]
fn capture_helper_desktop_targets_alternate() {
    desktop_targets_alternate();
}

#[test]
fn tests_desktop_targets_alternate() {
    desktop_targets_alternate();
}

#[test]
fn capture_helper_chat_commands_and_events_round_trip() {
    chat_commands_and_events_round_trip();
}

#[test]
fn tests_chat_commands_and_events_round_trip() {
    chat_commands_and_events_round_trip();
}

#[test]
fn capture_helper_oversized_chat_is_rejected_before_reading_payload() {
    oversized_chat_is_rejected_before_reading_payload();
}

#[test]
fn tests_oversized_chat_is_rejected_before_reading_payload() {
    oversized_chat_is_rejected_before_reading_payload();
}

#[test]
fn capture_helper_interactive_clipboard_uses_user_token_but_secure_input_does_not() {
    interactive_clipboard_uses_user_token_but_secure_input_does_not();
}

#[test]
fn tests_interactive_clipboard_uses_user_token_but_secure_input_does_not() {
    interactive_clipboard_uses_user_token_but_secure_input_does_not();
}

#[test]
fn capture_helper_pipe_byte_budget_rejects_oversized_work_without_waiting() {
    pipe_byte_budget_rejects_oversized_work_without_waiting();
}

#[test]
fn tests_pipe_byte_budget_rejects_oversized_work_without_waiting() {
    pipe_byte_budget_rejects_oversized_work_without_waiting();
}

#[test]
fn capture_helper_command_bridge_preserves_order_and_closes_after_stop() {
    command_bridge_preserves_order_and_closes_after_stop();
}

#[test]
fn tests_command_bridge_preserves_order_and_closes_after_stop() {
    command_bridge_preserves_order_and_closes_after_stop();
}

#[test]
fn capture_helper_helper_pipe_notifies_services_and_coalesces_clipboard_changes() {
    helper_pipe_notifies_services_and_coalesces_clipboard_changes();
}

#[test]
fn tests_helper_pipe_notifies_services_and_coalesces_clipboard_changes() {
    helper_pipe_notifies_services_and_coalesces_clipboard_changes();
}

#[test]
fn capture_helper_helpers_are_trusted_only_for_events_their_run_loops_send() {
    helpers_are_trusted_only_for_events_their_run_loops_send();
}

#[test]
fn tests_helpers_are_trusted_only_for_events_their_run_loops_send() {
    helpers_are_trusted_only_for_events_their_run_loops_send();
}

#[test]
fn capture_helper_user_token_helpers_cannot_forge_other_helpers_events() {
    user_token_helpers_cannot_forge_other_helpers_events();
}

#[test]
fn tests_user_token_helpers_cannot_forge_other_helpers_events() {
    user_token_helpers_cannot_forge_other_helpers_events();
}

#[test]
fn capture_helper_stderr_lines_are_bounded_without_losing_the_next_line() {
    stderr_lines_are_bounded_without_losing_the_next_line();
}

#[test]
fn tests_stderr_lines_are_bounded_without_losing_the_next_line() {
    stderr_lines_are_bounded_without_losing_the_next_line();
}

#[test]
fn capture_helper_stderr_budget_suppresses_floods_and_reports_them_per_window() {
    stderr_budget_suppresses_floods_and_reports_them_per_window();
}

#[test]
fn tests_stderr_budget_suppresses_floods_and_reports_them_per_window() {
    stderr_budget_suppresses_floods_and_reports_them_per_window();
}

#[test]
fn capture_helper_forged_event_before_start_fails_startup() {
    forged_event_before_start_fails_startup();
}

#[test]
fn tests_forged_event_before_start_fails_startup() {
    forged_event_before_start_fails_startup();
}

#[test]
fn capture_helper_credential_ipc_round_trips_and_bounds_payloads() {
    credential_ipc_round_trips_and_bounds_payloads();
}

#[test]
fn tests_credential_ipc_round_trips_and_bounds_payloads() {
    credential_ipc_round_trips_and_bounds_payloads();
}

#[test]
fn chat_text_over_the_limit_is_not_written() {
    let limit = protocol().chat_text_bytes;
    for (length, accepted) in [(limit, true), (limit + 1, false)] {
        let text = "x".repeat(length);
        let mut bytes = Vec::new();
        let command = ParentCommand::Chat(text.clone());
        let written = write_command(&mut bytes, &command, &protocol(), true);
        if accepted {
            written.unwrap();
            let mut reader = PipeReader::new(&bytes);
            assert!(matches!(
                read_command(&mut reader, &protocol()).unwrap(),
                ParentCommand::Chat(read) if read == text
            ));
            assert!(reader.is_empty());
        } else {
            assert_eq!(written, Err(WireError::InvalidChatText));
            assert!(bytes.is_empty());
        }
        let event = ChildEvent::Chat(text);
        let mut bytes = Vec::new();
        assert_eq!(
            write_event(&mut bytes, &event, &protocol(), true).is_ok(),
            accepted
        );
        assert_eq!(bytes.is_empty(), !accepted);
        assert_eq!(
            write_event(&mut bytes, &event, &protocol(), false),
            Err(WireError::InvalidChatText)
        );
    }
}

#[test]
fn displays_are_read_back_in_the_sessions_that_their_ids_imply() {
    let foreign = Display {
        session: DesktopSession::Rdp {
            id: 3,
            user: "Alice".to_string(),
        },
        ..display(1, "Remote", 0, true)
    };
    let event = ChildEvent::Started(StartedDesktop {
        format: format_of(60, 1, VideoCodec::H264, VideoPixelFormat::Yuv420),
        displays: vec![foreign.clone(), background()],
        active_display: foreign,
    });
    let mut bytes = Vec::new();
    write_event(&mut bytes, &event, &protocol(), true).unwrap();
    bytes.push(7);
    let mut reader = PipeReader::new(&bytes);
    match read_event(&mut reader, &protocol()).unwrap() {
        ChildEvent::Started(read) => {
            assert!(read.displays[0].session.same(&DesktopSession::Console));
            assert!(read.active_display.session.same(&DesktopSession::Console));
            assert!(read.displays[1].session.same(&DesktopSession::Background));
            assert_eq!(read.displays[0].name, "Remote");
        }
        other => panic!("unexpected {other:?}"),
    }
    assert!(!reader.is_empty());
}
