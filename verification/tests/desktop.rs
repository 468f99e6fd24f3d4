use meshrmm_agent::clipboard::{validate_text, ClipboardFingerprint, ClipboardSync};
use meshrmm_agent::display_border::{edges, outlined_displays, Edge};
use meshrmm_agent::drag_windows::{owns_desktop, OutlineDragging, WaitResult};
use meshrmm_agent::indicator::{display_name, Press, State, WorkArea};
use meshrmm_agent::input::{
    pointer_display_at, system_cursor, text_inputs, CursorShape, HeldKey, InputError,
    PointerButton, PointerInfo, RemoteInput, SystemCursor, VirtualScreen, WindowsInputController,
    EXTENDED_KEY, HORIZONTAL_WHEEL, KEY_RETURN, KEY_TAB, MOVE_TO, SCAN_CODE, UNICODE_KEY, WHEEL,
};
use meshrmm_agent::input_block::{
    handle_input, key_takes_control, mouse_takes_control, release_pressed_input, release_result,
    HookMode, Injection, INPUT_TAG, KEEP_AWAKE_TAG, KEY_UP, LEFT_DOWN, LEFT_UP, MOUSE_MOVE, X_UP,
};
use meshrmm_agent::keep_awake::{pulse, set_enabled, KeepAwakeAction};
use meshrmm_agent::model::{DesktopSession, Display, DisplayId, Protocol};
use meshrmm_agent::secure_attention::{
    runs_as_service, SasEvent, SasResult, SasStep, SecureAttention,
};
use meshrmm_agent::text::wide;
use meshrmm_agent::wallpaper::{
    decode, encode, original, restores_interrupted, set_hidden, Wallpaper, WallpaperAction,
};

const ALL_MONITORS: DisplayId = DisplayId(u32::MAX - 1);

fn protocol() -> Protocol {
    Protocol {
        clipboard_wire_bytes: 4 * 1024 * 1024,
        clipboard_text_bytes: 64,
        chat_text_bytes: 16 * 1024,
        background_display: DisplayId(u32::MAX - 2),
        all_monitors: ALL_MONITORS,
    }
}

fn display(id: u32, name: &str, x: i32, y: i32, width: u32, height: u32, primary: bool) -> Display {
    Display {
        session: DesktopSession::Console,
        id: DisplayId(id),
        name: name.to_string(),
        x,
        y,
        width,
        height,
        primary,
    }
}

struct Key {
    virtual_key: u16,
    scan_code: u16,
    flags: u32,
    tag: usize,
}

fn keys(text: &str) -> Vec<Key> {
    text_inputs(text)
        .into_iter()
        .map(|input| match input {
            Injection::Key {
                virtual_key,
                scan_code,
                flags,
                tag,
            } => Key {
                virtual_key,
                scan_code,
                flags,
                tag,
            },
            Injection::Mouse { .. } => panic!("typing does not move the mouse"),
        })
        .collect()
}

#[test]
fn typed_text_emits_unicode_pairs_and_normalizes_line_endings() {
    let keys_of_text = keys("Aé🔑\r\n\t");
    assert_eq!(keys_of_text.len(), 12);
    assert_eq!(
        keys_of_text
            .iter()
            .step_by(2)
            .map(|k| k.scan_code)
            .collect::<Vec<_>>(),
        vec![65, 233, 0xd83d, 0xdd11, 0, 0]
    );
    for pair in keys_of_text.chunks_exact(2) {
        assert_eq!(pair[0].scan_code, pair[1].scan_code);
        assert_eq!(pair[0].virtual_key, pair[1].virtual_key);
        assert_eq!(pair[0].flags & KEY_UP, 0);
        assert_eq!(pair[1].flags & KEY_UP, KEY_UP);
        assert_eq!(pair[0].tag, INPUT_TAG);
    }
    assert_eq!(keys_of_text[0].flags & UNICODE_KEY, UNICODE_KEY);
    assert_eq!(keys_of_text[8].virtual_key, KEY_RETURN);
    assert_eq!(keys_of_text[10].virtual_key, KEY_TAB);
    assert!(text_inputs("").is_empty());
    assert_eq!(text_inputs("\r\n\n\r").len(), 6);
}

#[test]
fn pointer_monitor_excludes_virtual_display_and_handles_edges_and_gaps() {
    let displays = vec![
        display(ALL_MONITORS.0, "All", -100, -20, 200, 120, false),
        display(1, "Left", -100, -20, 100, 100, false),
        display(2, "Right", 0, 0, 100, 100, true),
    ];
    assert_eq!(
        pointer_display_at(&displays, -1, 0, ALL_MONITORS),
        Some(DisplayId(1))
    );
    assert_eq!(
        pointer_display_at(&displays, 0, 0, ALL_MONITORS),
        Some(DisplayId(2))
    );
    assert_eq!(pointer_display_at(&displays, 0, -1, ALL_MONITORS), None);
    assert_eq!(pointer_display_at(&displays, 100, 0, ALL_MONITORS), None);
}

#[test]
fn blackout_enforces_input_block_and_restores_manual_setting() {
    let mut input = WindowsInputController::new(Vec::new());
    for manually_blocked in [false, true] {
        assert!(input.set_blocked(manually_blocked, true));
        assert!(input.set_blackout(true, true, true));
        assert!(input.blacked_out);
        assert!(input.blocked);
        assert!(input.set_blackout(true, true, true));
        assert!(input.set_blackout(false, true, true));
        assert!(!input.blacked_out);
        assert_eq!(input.blocked, manually_blocked);
    }

    assert!(input.set_blackout(true, true, true));
    assert!(input.set_blocked(false, true));
    assert!(
        input.blocked,
        "blackout must prevent unblocking local input"
    );
    assert!(input.set_blackout(false, true, true));
    assert!(!input.blocked);
}

#[test]
fn failed_blackouts_leave_the_input_as_it_was() {
    let mut input = WindowsInputController::new(Vec::new());
    assert!(!input.set_blackout(true, false, true));
    assert!(!input.blocked && !input.blacked_out);
    assert!(!input.set_blackout(true, true, false));
    assert!(!input.blocked && !input.blacked_out);
    assert!(!input.set_blocked(true, false));
    assert!(!input.manually_blocked);
    assert!(input.starts_block(true));
    assert!(input.set_blocked(true, true));
    assert!(!input.starts_block(true));
    assert!(!input.set_blackout(true, true, false));
    assert!(input.blocked);
}

fn controller() -> WindowsInputController {
    let mut input = WindowsInputController::new(vec![
        SystemCursor {
            handle: 5,
            shape: CursorShape::Text,
        },
        SystemCursor {
            handle: 6,
            shape: CursorShape::Pointer,
        },
    ]);
    let shown = display(1, "Left", -100, -20, 101, 101, true);
    input.set_active_display(shown.clone(), vec![shown]);
    input
}

const SCREEN: VirtualScreen = VirtualScreen {
    x: -100,
    y: -20,
    width: 201,
    height: 121,
};

fn mouse(flags: u32, dx: i32, dy: i32, data: u32) -> Injection {
    Injection::Mouse {
        flags,
        dx,
        dy,
        data,
        tag: INPUT_TAG,
    }
}

#[test]
fn input_is_placed_on_the_whole_desktop() {
    let input = controller();
    let id = DisplayId(1);
    let batches = |remote: RemoteInput| input.apply(&remote, &SCREEN, &protocol()).unwrap().batches;
    assert_eq!(
        batches(RemoteInput::PointerMove {
            display_id: id,
            x: 65535,
            y: 0
        }),
        vec![vec![mouse(MOVE_TO, 32767, 0, 0)]]
    );
    assert_eq!(
        batches(RemoteInput::PointerButtonAt {
            display_id: id,
            x: 0,
            y: 65535,
            button: PointerButton::Left,
            pressed: true
        }),
        vec![vec![
            mouse(MOVE_TO, 0, 54612, 0),
            mouse(LEFT_DOWN, 0, 0, 0)
        ]]
    );
    assert_eq!(
        batches(RemoteInput::PointerButton {
            display_id: id,
            button: PointerButton::Forward,
            pressed: false
        }),
        vec![vec![mouse(X_UP, 0, 0, 2)]]
    );
    assert_eq!(
        batches(RemoteInput::Wheel {
            display_id: id,
            horizontal: 120,
            vertical: -120
        }),
        vec![
            vec![mouse(WHEEL, 0, 0, 0xffff_ff88)],
            vec![mouse(HORIZONTAL_WHEEL, 0, 0, 120)]
        ]
    );
    assert_eq!(
        batches(RemoteInput::WheelAt {
            display_id: id,
            x: 0,
            y: 0,
            horizontal: 0,
            vertical: 1
        }),
        vec![vec![mouse(MOVE_TO, 0, 0, 0), mouse(WHEEL, 0, 0, 1)]]
    );
    assert_eq!(
        batches(RemoteInput::Key {
            display_id: id,
            scan_code: 0x1d,
            extended: true,
            pressed: false
        }),
        vec![vec![Injection::Key {
            virtual_key: 0,
            scan_code: 0x1d,
            flags: SCAN_CODE | EXTENDED_KEY | KEY_UP,
            tag: INPUT_TAG
        }]]
    );
    let typed = input
        .apply(
            &RemoteInput::TypeText {
                display_id: id,
                text: "x".repeat(64),
            },
            &SCREEN,
            &protocol(),
        )
        .unwrap();
    assert!(typed.release_first);
    assert_eq!(typed.batches.len(), 1);
    assert_eq!(typed.batches[0].len(), 128);
    // A pointer off the desktop stays at its edge.
    let narrow = VirtualScreen {
        x: 0,
        y: 0,
        width: 2,
        height: 2,
    };
    assert_eq!(
        input
            .apply(
                &RemoteInput::PointerMove {
                    display_id: id,
                    x: 0,
                    y: 65535
                },
                &narrow,
                &protocol()
            )
            .unwrap()
            .batches,
        vec![vec![mouse(MOVE_TO, 0, 65535, 0)]]
    );
}

#[test]
fn long_texts_are_typed_in_batches() {
    let input = controller();
    let wide = Protocol {
        clipboard_text_bytes: 4096,
        ..protocol()
    };
    let plan = input
        .apply(
            &RemoteInput::TypeText {
                display_id: DisplayId(1),
                text: "x".repeat(130),
            },
            &SCREEN,
            &wide,
        )
        .unwrap();
    let sizes: Vec<usize> = plan.batches.iter().map(Vec::len).collect();
    assert_eq!(sizes, vec![128, 128, 4]);
}

#[test]
fn invalid_input_is_refused() {
    let empty = WindowsInputController::new(Vec::new());
    let input = controller();
    let moved = |id| RemoteInput::PointerMove {
        display_id: DisplayId(id),
        x: 0,
        y: 0,
    };
    let error = empty.apply(&moved(1), &SCREEN, &protocol()).unwrap_err();
    assert_eq!(error, InputError::NoDisplay);
    let error = input.apply(&moved(7), &SCREEN, &protocol()).unwrap_err();
    assert_eq!(
        error,
        InputError::StaleDisplay {
            wanted: 7,
            active: 1
        }
    );
    assert_eq!(
        error.message(),
        "input targeted stale display 7 while display 1 is active"
    );
    let flat = VirtualScreen { width: 1, ..SCREEN };
    assert_eq!(
        input.apply(&moved(1), &flat, &protocol()).unwrap_err(),
        InputError::InvalidDesktop
    );
    let typed = |text: String| RemoteInput::TypeText {
        display_id: DisplayId(1),
        text,
    };
    for text in ["x".repeat(65), "a\0b".to_string()] {
        assert_eq!(
            input.apply(&typed(text), &SCREEN, &protocol()).unwrap_err(),
            InputError::InvalidText
        );
    }
    let key = RemoteInput::Key {
        display_id: DisplayId(1),
        scan_code: 0,
        extended: false,
        pressed: true,
    };
    assert_eq!(
        input.apply(&key, &SCREEN, &protocol()).unwrap_err(),
        InputError::EmptyScanCode
    );
}

#[test]
fn held_input_is_released_once_it_gets_through() {
    let mut input = controller();
    let key = |pressed| RemoteInput::Key {
        display_id: DisplayId(1),
        scan_code: 30,
        extended: false,
        pressed,
    };
    input.applied(&key(true));
    input.applied(&key(true));
    input.applied(&RemoteInput::PointerButton {
        display_id: DisplayId(1),
        button: PointerButton::Left,
        pressed: true,
    });
    assert_eq!(
        input.pressed_keys,
        vec![HeldKey {
            scan_code: 30,
            extended: false
        }]
    );
    assert_eq!(input.releases().len(), 2);
    assert_eq!(input.releases()[1], mouse(LEFT_UP, 0, 0, 0));
    assert!(!input.release_all(&vec![false, true]));
    assert_eq!(input.pressed_keys.len(), 1);
    assert!(input.pressed_buttons.is_empty());
    assert!(input.release_all(&vec![true]));
    assert!(input.releases().is_empty());
    input.applied(&key(true));
    input.applied(&key(false));
    assert!(input.pressed_keys.is_empty());
    assert!(!input.releases_for(DisplayId(1)));
    assert!(input.releases_for(DisplayId(2)));
}

#[test]
fn cursor_shape_freezes_until_the_viewer_reclaims_input() {
    let mut input = controller();
    let text = Some(PointerInfo {
        showing: true,
        handle: 5,
    });
    let pointer = Some(PointerInfo {
        showing: true,
        handle: 6,
    });
    assert_eq!(input.cursor_shape(true, text), CursorShape::Text);
    assert_eq!(input.cursor_shape(false, pointer), CursorShape::Text);
    assert_eq!(input.cursor_shape(true, pointer), CursorShape::Pointer);
    assert_eq!(input.cursor_shape(true, None), CursorShape::Default);
    let hidden = Some(PointerInfo {
        showing: false,
        handle: 5,
    });
    assert_eq!(input.current_cursor_shape(hidden), CursorShape::Default);
    assert!(input.set_blackout(true, true, true));
    assert_eq!(input.current_cursor_shape(hidden), CursorShape::Text);
    assert_eq!(
        input.current_cursor_shape(Some(PointerInfo {
            showing: true,
            handle: 9
        })),
        CursorShape::Default
    );
    assert_eq!(system_cursor(32649), Some(CursorShape::Pointer));
    assert_eq!(system_cursor(1), None);
    assert_eq!(
        input.agent_pointer_display(false, Some((0, 0)), ALL_MONITORS),
        Some(DisplayId(1))
    );
    assert_eq!(
        input.agent_pointer_display(true, Some((0, 0)), ALL_MONITORS),
        None
    );
    assert_eq!(input.agent_pointer_display(false, None, ALL_MONITORS), None);
}

#[test]
fn keep_awake_does_not_claim_or_release_input_ownership() {
    for initial in [false, true] {
        let mut owner = initial;
        assert!(!handle_input(
            HookMode::Track,
            &mut owner,
            KEEP_AWAKE_TAG,
            true
        ));
        assert_eq!(owner, initial);
    }
    assert!(!handle_input(
        HookMode::Block,
        &mut false,
        KEEP_AWAKE_TAG,
        true
    ));
}

#[test]
fn ownership_follows_input_without_blocking_or_resuming_on_cleanup() {
    let mut viewer = false;
    assert!(!handle_input(HookMode::Track, &mut viewer, INPUT_TAG, true));
    assert!(viewer);
    assert!(!handle_input(HookMode::Track, &mut viewer, 0, true));
    assert!(!viewer);
    assert!(!handle_input(HookMode::Track, &mut viewer, INPUT_TAG, false));
    assert!(!viewer);
    assert!(!handle_input(HookMode::Track, &mut viewer, INPUT_TAG, true));
    assert!(viewer);
    assert!(!handle_input(HookMode::Block, &mut viewer, INPUT_TAG, true));
    assert!(handle_input(HookMode::Block, &mut viewer, 0, true));
}

#[test]
fn untagged_keyboard_and_mouse_are_suppressed() {
    assert!(handle_input(
        HookMode::Block,
        &mut false,
        0,
        key_takes_control(0)
    ));
    assert!(handle_input(
        HookMode::Block,
        &mut false,
        0,
        mouse_takes_control(0)
    ));
}

#[test]
fn presses_movements_and_wheels_take_control() {
    for message in [0x0100, 0x0104] {
        assert!(key_takes_control(message));
    }
    assert!(!key_takes_control(0x0101));
    for message in [0x0200, 0x0201, 0x0204, 0x0207, 0x020a, 0x020b, 0x020e] {
        assert!(mouse_takes_control(message));
    }
    assert!(!mouse_takes_control(0x0202));
}

#[test]
fn held_endpoint_keys_are_released_before_blocking() {
    assert_eq!(release_result(4, 4), Ok(()));
    assert_eq!(
        release_result(3, 4),
        Err("could not release held endpoint input")
    );
    let mut states = vec![0_i16; 254];
    for key in [1, 5, 6, 0x41] {
        states[key - 1] = i16::MIN;
    }
    states[1] = 1;
    assert_eq!(
        release_pressed_input(&states),
        vec![
            mouse(LEFT_UP, 0, 0, 0),
            mouse(X_UP, 0, 0, 1),
            mouse(X_UP, 0, 0, 2),
            Injection::Key {
                virtual_key: 0x41,
                scan_code: 0,
                flags: KEY_UP,
                tag: INPUT_TAG
            },
        ]
    );
}

#[test]
fn idle_sessions_are_kept_awake_without_moving() {
    assert_eq!(pulse(5_999, 5_000), None);
    let expected = Some(Injection::Mouse {
        flags: MOUSE_MOVE,
        dx: 0,
        dy: 0,
        data: 0,
        tag: KEEP_AWAKE_TAG,
    });
    assert_eq!(pulse(6_000, 5_000), expected);
    assert_eq!(pulse(999, u32::MAX), expected);
    assert_eq!(pulse(998, u32::MAX), None);
    assert_eq!(set_enabled(false, true), KeepAwakeAction::Start);
    assert_eq!(set_enabled(true, true), KeepAwakeAction::Nothing);
    assert_eq!(set_enabled(true, false), KeepAwakeAction::Stop);
}

#[test]
fn border_follows_negative_monitor_coordinates() {
    let edge = |x, y, width, height| Edge {
        x,
        y,
        width,
        height,
    };
    assert_eq!(
        edges(&display(2, "Left", -1920, -200, 1920, 1080, false)),
        vec![
            edge(-1920, -200, 1920, 3),
            edge(-1920, 877, 1920, 3),
            edge(-1920, -200, 3, 1080),
            edge(-3, -200, 3, 1080)
        ]
    );
}

#[test]
fn all_monitors_are_outlined_one_by_one() {
    let all = display(ALL_MONITORS.0, "All", 0, 0, 20, 10, false);
    let listed = vec![
        all.clone(),
        display(1, "One", 0, 0, 10, 2, true),
        display(2, "Two", 10, 0, 10, 10, false),
    ];
    let ids = |viewed: &Display| -> Vec<u32> {
        outlined_displays(viewed, &listed, ALL_MONITORS)
            .iter()
            .map(|display| display.id.0)
            .collect()
    };
    assert_eq!(ids(&all), vec![1, 2]);
    assert_eq!(ids(&listed[2]), vec![2]);
    assert_eq!(edges(&listed[1])[0].height, 2);
}

fn notice() -> State {
    State::new(
        String::new(),
        WorkArea {
            left: -1920,
            top: 0,
            right: 0,
            bottom: 1080,
        },
    )
}

#[test]
fn horizontal_position_stays_on_screen_in_both_states() {
    let mut state = notice();
    for width in [32, 320] {
        state.center_x = Some(-3000);
        assert_eq!(state.left(width), -1920);
        state.center_x = Some(200);
        assert_eq!(state.left(width), -width);
        state.center_x = Some(-1000);
        assert_eq!(state.left(width), -1000 - width / 2);
    }
}

#[test]
fn incoming_messages_open_the_chat_once() {
    let mut state = notice();
    assert!(!state.tick(true, false, 0, 0).open_chat);
    let tick = state.tick(true, false, 1, 0);
    assert!(tick.open_chat);
    assert!(!tick.redraw);
    assert!(!state.tick(true, true, 1, 0).open_chat);
    assert!(!state.tick(false, false, 1, 1).open_chat);
    assert!(state.tick(true, false, 0, 1).redraw);
}

#[test]
fn clicks_collapse_and_drags_move() {
    let mut state = notice();
    let layout = state.layout(false);
    assert_eq!((layout.width, layout.height), (320, 24));
    assert_eq!(layout.left, -1120);
    assert_eq!(state.press(8, 320, false, 100, Some((-1120, -800))), Press::Grab);
    assert!(!state.drag_to(103, 2));
    assert!(state.release());
    assert!(state.collapsed);
    let layout = state.layout(false);
    assert_eq!((layout.width, layout.height), (32, 16));
    assert_eq!(layout.left, -976);
    assert_eq!(state.layout(true).width, 64);
    assert_eq!(state.layout(true).height, 24);

    assert_eq!(state.press(8, 32, false, 100, Some((-976, -944))), Press::Grab);
    assert!(state.drag_to(150, 4));
    assert!(state.drag_to(151, 4));
    assert!(!state.release());
    assert!(state.collapsed);
    assert_eq!(state.layout(false).left, -925);

    assert_eq!(state.press(40, 64, true, 100, None), Press::ToggleChat);
    assert_eq!(state.press(31, 64, true, 100, Some((0, 64))), Press::Grab);
    state.cancel();
    assert!(!state.release());
    assert_eq!(state.label(), "▾");
    state.measured(1_000);
    assert_eq!(state.expanded_width, 480);
    state.measured(100);
    assert_eq!(state.expanded_width, 116);
}

#[test]
fn names_are_shown_on_one_line() {
    assert_eq!(display_name("Zoë\r\n王\u{85}"), "Zoë王");
    assert_eq!(display_name(" \u{3000}\n"), "Remote user");
    assert_eq!(display_name(&"x".repeat(300)), "x".repeat(256));
    let mut state = notice();
    state.name = "Zoë".to_string();
    assert_eq!(state.label(), "● Zoë is connected remotely  ▴");
}

#[test]
fn journal_round_trips_color_and_enabled_state() {
    for (color, enabled) in [(0, false), (0x00ff_8040, true), (u32::MAX, true)] {
        let wallpaper = Wallpaper { color, enabled };
        assert_eq!(decode(encode(&wallpaper)), wallpaper);
    }
}

#[test]
fn wallpaper_left_hidden_is_restored_from_the_journal() {
    let visible = Wallpaper {
        color: 0x102030,
        enabled: true,
    };
    let black = Wallpaper {
        color: 0,
        enabled: false,
    };
    assert_eq!(original(None, visible), (visible, true));
    let journal = Some(encode(&visible));
    assert_eq!(journal, Some(0x1_0010_2030));
    assert_eq!(original(journal, black), (visible, false));
    assert_eq!(restores_interrupted(journal, false, journal), Some(visible));
    assert_eq!(restores_interrupted(journal, true, journal), None);
    assert_eq!(restores_interrupted(journal, false, None), None);
    assert_eq!(restores_interrupted(None, false, journal), None);
    assert_eq!(set_hidden(false, true), WallpaperAction::Hide);
    assert_eq!(set_hidden(true, true), WallpaperAction::Nothing);
    assert_eq!(set_hidden(true, false), WallpaperAction::Restore);
    assert_eq!(set_hidden(false, false), WallpaperAction::RestoreInterrupted);
}

#[test]
fn dragging_setting_is_restored() {
    for setting in [true, false] {
        let mut live = setting;
        let session = OutlineDragging::new(&mut live);
        assert!(!live);
        session.restore(&mut live);
        assert_eq!(live, setting);
    }
    assert!(owns_desktop(WaitResult::Abandoned));
    assert!(!owns_desktop(WaitResult::TimedOut));
}

#[derive(Default)]
struct FakePolicy {
    value: Option<u32>,
    writes: Vec<Option<u32>>,
    fail_write: bool,
    fail_read: bool,
}

impl FakePolicy {
    fn read(&mut self) -> SasEvent {
        if self.fail_read {
            SasEvent::ReadFailed
        } else {
            SasEvent::ReadValue(self.value)
        }
    }

    fn write(&mut self, value: Option<u32>) -> SasEvent {
        if self.fail_write {
            self.fail_write = false;
            return SasEvent::WriteFailed;
        }
        self.writes.push(value);
        self.value = value;
        SasEvent::Written
    }
}

fn with_service_policy(
    policy: &mut FakePolicy,
    mut send: impl FnMut(&mut FakePolicy) -> SasEvent,
) -> SasResult {
    let mut request = SecureAttention::new();
    let mut event = policy.read();
    loop {
        event = match request.step(event) {
            SasStep::Read => policy.read(),
            SasStep::Write(value) => policy.write(value),
            SasStep::Send => send(policy),
            SasStep::Finish(result) => return result,
        };
    }
}

#[test]
fn restores_missing_and_existing_policy_after_sas() {
    for original in [None, Some(0), Some(2), Some(42)] {
        let mut policy = FakePolicy {
            value: original,
            ..FakePolicy::default()
        };
        let temporary = if original == Some(2) { 3 } else { 1 };
        let result = with_service_policy(&mut policy, |policy| {
            assert_eq!(policy.value, Some(temporary));
            SasEvent::Sent
        });
        assert_eq!(result, SasResult::Done);
        assert_eq!(policy.value, original);
        assert_eq!(policy.writes, vec![Some(temporary), original]);
    }
}

#[test]
fn permitted_policy_is_never_written() {
    for value in [1, 3] {
        let mut policy = FakePolicy {
            value: Some(value),
            ..FakePolicy::default()
        };
        let mut sent = false;
        let result = with_service_policy(&mut policy, |_| {
            sent = true;
            SasEvent::Sent
        });
        assert_eq!(result, SasResult::Done);
        assert!(sent);
        assert!(policy.writes.is_empty());
    }
}

#[test]
fn read_or_override_failure_does_not_send() {
    for read_failure in [false, true] {
        let mut policy = FakePolicy {
            fail_read: read_failure,
            fail_write: !read_failure,
            ..FakePolicy::default()
        };
        let result = with_service_policy(&mut policy, |_| panic!("must not send"));
        assert_ne!(result, SasResult::Done);
        assert!(policy.writes.is_empty());
    }
}

#[test]
fn cleanup_failure_is_reported_and_retried() {
    let mut policy = FakePolicy::default();
    let result = with_service_policy(&mut policy, |policy| {
        policy.fail_write = true;
        SasEvent::Sent
    });
    assert!(result.message().contains("restoring"));
    assert_eq!(policy.value, None);
}

#[test]
fn restores_on_unwind() {
    let mut policy = FakePolicy::default();
    let result = with_service_policy(&mut policy, |_| SasEvent::Interrupted);
    assert_eq!(result, SasResult::Interrupted);
    assert_eq!(policy.value, None);
}

#[test]
fn preserves_a_concurrent_policy_change() {
    let mut policy = FakePolicy::default();
    let result = with_service_policy(&mut policy, |policy| {
        policy.value = Some(2);
        SasEvent::Sent
    });
    assert_eq!(result, SasResult::Done);
    assert_eq!(policy.value, Some(2));
    assert_eq!(policy.writes, vec![Some(1)]);
}

#[test]
fn only_the_service_sends_secure_attention() {
    assert!(runs_as_service(0));
    assert!(!runs_as_service(1));
    assert_eq!(
        SasResult::ReadFailed.message(),
        "could not read Windows secure attention policy"
    );
    assert_eq!(
        SasResult::OverrideFailed.message(),
        "could not temporarily allow Ctrl+Alt+Del in Windows policy"
    );
}

#[test]
fn clipboard_text_is_not_sent_back() {
    let mut sync = ClipboardSync::new();
    let poll = |sync: &mut ClipboardSync, text: &str| {
        sync.poll(Some(text.to_string()), &protocol()).unwrap()
    };
    // What is there at first is not sent.
    assert_eq!(poll(&mut sync, "first"), None);
    assert_eq!(poll(&mut sync, "second").as_deref(), Some("second"));
    assert_eq!(poll(&mut sync, "second"), None);
    assert_eq!(sync.plan_apply("received", &protocol()), Ok(true));
    sync.apply("received");
    assert_eq!(sync.plan_apply("received", &protocol()), Ok(false));
    assert_eq!(poll(&mut sync, "received"), None);
    assert_eq!(sync.poll(None, &protocol()), Ok(None));
    assert_eq!(poll(&mut sync, "received").as_deref(), Some("received"));
}

#[test]
fn long_clipboard_text_is_refused() {
    let long = "é".repeat(33);
    let message = "clipboard text is 66 bytes; the session limit is 64 bytes".to_string();
    assert_eq!(validate_text(&long, &protocol()), Err(message.clone()));
    assert_eq!(validate_text(&"é".repeat(32), &protocol()), Ok(()));
    let mut sync = ClipboardSync::new();
    assert_eq!(sync.plan_apply(&long, &protocol()), Err(message.clone()));
    assert_eq!(sync.poll(Some("x".to_string()), &protocol()), Ok(None));
    assert_eq!(sync.poll(Some(long.clone()), &protocol()), Err(message));
    // It is known from then on.
    assert_eq!(sync.poll(Some(long), &protocol()), Ok(None));
}

#[test]
fn fingerprints_tell_texts_apart() {
    let first = ClipboardFingerprint::of("first");
    assert_eq!(first, ClipboardFingerprint::of("first"));
    assert_ne!(first, ClipboardFingerprint::of("fjrst"));
    assert_eq!(first.bytes, 5);
}

#[test]
fn wide_strings_end_with_nul() {
    assert_eq!(wide("ab"), vec![97, 98, 0]);
    assert_eq!(wide("é"), vec![0xe9, 0]);
    assert_eq!(wide("🔑"), vec![0xd83d, 0xdd11, 0]);
}
