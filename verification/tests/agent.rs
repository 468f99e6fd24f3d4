use std::path::PathBuf;

use meshrmm_agent::config::{
    execution_mode, file_json, manifest_url, reads_file, Arguments, Config, ConfigError,
    ExecutionMode, FileConfig,
};
use meshrmm_agent::failure::Failure;
use meshrmm_agent::installation::{
    has_to_be_stopped, instance_process, settle, start_accepted, terminated, terminates,
    wait_for_exit, wait_for_start, InstallStep, Installation, Installing, ReplaceStep, Replacement, Replacing,
    ServiceState, Settling, StartRequest, Starting, Waiting,
};
use meshrmm_agent::model::DesktopSession;
use meshrmm_agent::native_task::{worker_step, WorkerAction, WorkerEvent};
use meshrmm_agent::service::{
    active_service_name, continuation, handle_control, needs_worker, service_name_for_path,
    session_activity, stop_steps, Continuation, Control, Coordinator, CoordinatorWait, Received,
    ServiceControl, StopStep, UpdateSchedule, DEFERRED_UPDATE_RETRY, LEGACY_SERVICE_NAME,
    MAX_UPDATE_DEFERRAL, SERVICE_NAME, UPDATE_CHECK_INTERVAL,
};
use meshrmm_agent::service_link::{
    announced_version, announcement, update_announcement, LinkEvent, ServiceLink, SESSION_ACTIVE, SESSION_IDLE,
};
use meshrmm_agent::session_close::{
    account_name, clipboard_attempt, close_steps, has_user, helper_argument, helper_command,
    helper_result, logon_id, resolve, same_logon, windows_session, ClipboardAttempt, CloseStep,
    Logon, Pending, Refresh, SessionClose, SessionCloseAction, LOGON_REFRESH_MS,
};
use meshrmm_agent::signaling::{
    after_sender, agent_connection_url, heartbeat, session_signal_url, AgentAction, AgentEvent,
    AgentSessions, Heartbeat, IceServer, Reconnect, SessionRequest, SessionRetry,
};
use meshrmm_agent::tray::{
    active_sessions, icon_image, owner_runs, tray_arguments, tray_command, window_action, IconError,
    ListedSession, TrayAction, TrayError, Trays, WM_CLOSE, WM_DESTROY, WM_TIMER,
};
use meshrmm_agent::updater::{
    check_and_schedule, check_release, helper_name, helper_options, is_executable, is_stale, is_update_file,
    runs_image, secured_directories, staged_name, unique_suffix, update_arguments, ArgumentError,
    CheckResult, CheckStep, Checking, SecuredDirectory, StepOutcome, UpdateAttempts, ATTEMPTS_FILE, MAX_ATTEMPTS_PER_VERSION,
};

const DAY: u64 = 24 * 60 * 60;

#[test]
fn recognizes_only_session_activity_reports() {
    assert_eq!(session_activity(b"session-active"), Some(true));
    assert_eq!(session_activity(b"session-idle\r"), Some(false));
    assert_eq!(session_activity(b""), None);
    assert_eq!(session_activity(b"session-active-ish"), None);
}

#[test]
fn checks_for_updates_on_schedule_without_a_session() {
    let start = 1_000;
    let mut updates = UpdateSchedule::new(start);
    assert!(updates.due(start, false));
    assert!(!updates.due(start + UPDATE_CHECK_INTERVAL / 2, false));
    assert!(updates.due(start + UPDATE_CHECK_INTERVAL, false));
}

#[test]
fn postpones_update_checks_during_a_session_up_to_the_limit() {
    let start = 1_000;
    let mut updates = UpdateSchedule::new(start);
    assert!(!updates.due(start, true));
    assert!(!updates.due(start + DEFERRED_UPDATE_RETRY / 2, false));
    assert!(!updates.due(start + DEFERRED_UPDATE_RETRY, true));
    // The check runs soon after the session ends, not a full interval later.
    assert!(updates.due(start + DEFERRED_UPDATE_RETRY * 2, false));

    let mut updates = UpdateSchedule::new(start);
    let mut now = start;
    while !updates.due(now, true) {
        now += DEFERRED_UPDATE_RETRY;
        assert!(now <= start + MAX_UPDATE_DEFERRAL);
    }
    assert_eq!(now, start + MAX_UPDATE_DEFERRAL);
    // A later session gets the full deferral again.
    assert!(!updates.due(now + UPDATE_CHECK_INTERVAL, true));
}

#[test]
fn preserves_the_legacy_service_for_in_place_updates() {
    assert_eq!(
        service_name_for_path(r"C:\Program Files\PulseRMM\Agent\pulsermm-agent.exe"),
        LEGACY_SERVICE_NAME
    );
    assert_eq!(
        service_name_for_path(r"C:\Program Files\MeshRMM\Agent\meshrmm-agent.exe"),
        SERVICE_NAME
    );
}

#[test]
fn service_is_named_by_components_not_by_prefixes() {
    assert_eq!(service_name_for_path(r"c:/apps/pulsermm/agent.exe"), LEGACY_SERVICE_NAME);
    assert_eq!(service_name_for_path(r"C:PulseRMM\agent.exe"), LEGACY_SERVICE_NAME);
    assert_eq!(service_name_for_path(r"\\?\C:\PULSERMM\agent.exe"), LEGACY_SERVICE_NAME);
    assert_eq!(service_name_for_path(r"\\?\UNC\server\share\PulseRMM\a.exe"), LEGACY_SERVICE_NAME);
    assert_eq!(service_name_for_path(r"\\?\UNC\PulseRMM\PulseRMM\a.exe"), SERVICE_NAME);
    assert_eq!(service_name_for_path(r"\\server\share\PulseRMM\a.exe"), LEGACY_SERVICE_NAME);
    assert_eq!(service_name_for_path(r"\\PulseRMM\PulseRMM\a.exe"), SERVICE_NAME);
    assert_eq!(service_name_for_path(r"\\.\PulseRMM\a.exe"), SERVICE_NAME);
    assert_eq!(service_name_for_path(r"\\?\C:\x/PulseRMM\a.exe"), SERVICE_NAME);
    assert_eq!(service_name_for_path(r"\\?\C:/PulseRMM"), LEGACY_SERVICE_NAME);
    assert_eq!(service_name_for_path(r"\\?\c:/pulsermm\agent.exe"), LEGACY_SERVICE_NAME);
    assert_eq!(service_name_for_path(r"\\?\C:/x/PulseRMM\a.exe"), SERVICE_NAME);
    assert_eq!(service_name_for_path(r"\\?\C:/x\PulseRMM\a.exe"), LEGACY_SERVICE_NAME);
    assert_eq!(service_name_for_path(r"\\?\C:"), SERVICE_NAME);
    assert_eq!(service_name_for_path(r"\\?\C:x/PulseRMM"), SERVICE_NAME);
    assert_eq!(service_name_for_path(r"\\?\C:x\PulseRMM"), LEGACY_SERVICE_NAME);
    assert_eq!(service_name_for_path(r"\\?\1:/PulseRMM"), SERVICE_NAME);
    assert_eq!(service_name_for_path(r"\\?\PulseRMM"), SERVICE_NAME);
    assert_eq!(service_name_for_path("PulseRMM"), LEGACY_SERVICE_NAME);
    assert_eq!(service_name_for_path("PulseRMM2"), SERVICE_NAME);
    assert_eq!(service_name_for_path(""), SERVICE_NAME);
    assert_eq!(active_service_name(None), SERVICE_NAME);
    assert_eq!(active_service_name(Some("PulseRMM")), LEGACY_SERVICE_NAME);
}

#[test]
fn service_follows_controls_and_its_coordinator() {
    assert_eq!(handle_control(ServiceControl::Stop), (Some(Control::Stop), true));
    assert_eq!(handle_control(ServiceControl::Shutdown), (Some(Control::Shutdown), true));
    assert_eq!(
        handle_control(ServiceControl::SessionChange),
        (Some(Control::DesktopChanged), true)
    );
    assert_eq!(handle_control(ServiceControl::Interrogate), (None, true));
    assert_eq!(handle_control(ServiceControl::Other), (None, false));
    assert_eq!(
        continuation(true, Received::Timeout),
        Continuation::StopGracefully
    );
    assert_eq!(continuation(false, Received::Timeout), Continuation::Continue);
    assert_eq!(
        continuation(false, Received::Control(Control::Shutdown)),
        Continuation::StopAtOnce
    );
    assert_eq!(
        continuation(false, Received::Disconnected),
        Continuation::StopGracefully
    );
    assert!(needs_worker(None));
    assert!(needs_worker(Some(false)));
    assert!(!needs_worker(Some(true)));

    let mut coordinator = Coordinator {
        reported_active: false,
    };
    coordinator.follow(Some(b"session-active\r\n"));
    coordinator.follow(Some(b"anything else"));
    assert!(coordinator.session_active(true));
    assert!(!coordinator.session_active(false));
    coordinator.follow(None);
    assert!(!coordinator.session_active(true));

    assert_eq!(
        meshrmm_agent::service::wait_for_exit(true, 1, 2),
        CoordinatorWait::Wait
    );
    assert_eq!(
        meshrmm_agent::service::wait_for_exit(true, 2, 2),
        CoordinatorWait::Terminate
    );
    assert_eq!(
        meshrmm_agent::service::wait_for_exit(false, 2, 2),
        CoordinatorWait::Exited
    );
}

#[test]
fn limits_attempts_for_the_same_release() {
    let first = UpdateAttempts::next(None, "1.2.0", 1_000).unwrap();
    assert_eq!(first.attempts, 1);
    let second = UpdateAttempts::next(Some(&first), "1.2.0", 1_060).unwrap();
    let third = UpdateAttempts::next(Some(&second), "1.2.0", 1_120).unwrap();
    assert_eq!((third.attempts, third.first_attempt_unix), (3, 1_000));
    assert!(UpdateAttempts::next(Some(&third), "1.2.0", 1_180).is_none());
    assert!(UpdateAttempts::next(Some(&third), "1.2.0", 1_000 + DAY - 1).is_none());
}

#[test]
fn retries_after_the_window_or_for_another_release() {
    let exhausted = UpdateAttempts {
        version: "1.2.0".to_owned(),
        attempts: MAX_ATTEMPTS_PER_VERSION,
        first_attempt_unix: 1_000,
    };
    let later = UpdateAttempts::next(Some(&exhausted), "1.2.0", 1_000 + DAY).unwrap();
    assert_eq!((later.attempts, later.first_attempt_unix), (1, 1_000 + DAY));
    let newer = UpdateAttempts::next(Some(&exhausted), "1.2.1", 1_100).unwrap();
    assert_eq!((newer.attempts, newer.version.as_str()), (1, "1.2.1"));
    // A clock set back before the recorded attempt must not block updates until it catches up.
    let rewound = UpdateAttempts::next(Some(&exhausted), "1.2.0", 10).unwrap();
    assert_eq!(rewound.attempts, 1);
}

#[test]
fn recognizes_only_files_the_updater_stages() {
    assert!(is_update_file("update-helper-10188-1787741428068.exe"));
    assert!(is_update_file("agent-0.2.8-10188-1787741428068.exe"));
    assert!(is_update_file("Update-Helper-1.EXE"));
    assert!(!is_update_file(ATTEMPTS_FILE));
    assert!(!is_update_file("agent.json"));
    assert!(!is_update_file("meshrmm-agent.exe"));
}

#[test]
fn removes_leftover_update_files_only() {
    let entries = [
        ("update-helper-1-2.exe", true),
        ("agent-0.2.8-1-2.exe", true),
        (ATTEMPTS_FILE, true),
        ("agent-directory.exe", false),
    ];
    let mut remaining: Vec<&str> = entries
        .iter()
        .filter(|(name, plain_file)| !is_stale(*plain_file, name))
        .map(|(name, _)| *name)
        .collect();
    remaining.sort();
    assert_eq!(remaining, ["agent-directory.exe", ATTEMPTS_FILE]);
}

#[test]
fn update_files_and_options_are_read_back() {
    let suffix = unique_suffix(10188, 1787741428068);
    assert_eq!(suffix, "10188-1787741428068");
    assert_eq!(
        staged_name("0.2.8", &suffix),
        "agent-0.2.8-10188-1787741428068.exe"
    );
    assert_eq!(helper_name(&suffix), "update-helper-10188-1787741428068.exe");
    for json in [false, true] {
        let mut arguments = vec![Some("a".to_string()), Some("b".to_string())];
        arguments.extend(helper_options(4_294_967_295, json).into_iter().map(Some));
        assert_eq!(update_arguments(&arguments), Ok((4_294_967_295, json)));
    }
    assert_eq!(update_arguments(&vec![None, None]), Err(ArgumentError::Missing));
    for process in [None, Some("x"), Some("4294967296"), Some(""), Some("-1"), Some("+")] {
        assert_eq!(
            update_arguments(&vec![None, None, process.map(str::to_string)]),
            Err(ArgumentError::InvalidProcess)
        );
    }
    assert_eq!(
        update_arguments(&vec![None, None, Some("+7".to_string()), None]),
        Ok((7, false))
    );
    assert!(ArgumentError::Missing.message().contains("target and staged"));
    assert!(ArgumentError::InvalidProcess.message().contains("invalid service process ID"));
}

#[test]
fn updates_are_checked_before_they_are_tried() {
    assert!(is_executable(b"MZ\x90"));
    assert!(!is_executable(b"M"));
    assert!(!is_executable(b"ZM"));
    assert!(runs_image(r"c:\AGENT.exe", r"C:\agent.EXE"));
    assert!(!runs_image(r"c:\agent.exe", r"c:\agent2.exe"));
    assert_eq!(check_release(None, None, 5).0, CheckResult::Nothing);
    let (result, attempt) = check_release(Some("2.0.0"), None, 5);
    assert_eq!(result, CheckResult::Download);
    let mut attempt = attempt.unwrap();
    attempt.attempts = MAX_ATTEMPTS_PER_VERSION;
    assert_eq!(
        check_release(Some("2.0.0"), Some(&attempt), 6).0,
        CheckResult::GivenUp
    );
    assert_eq!(secured_directories(false), vec![SecuredDirectory::Updates]);
    assert_eq!(
        secured_directories(true),
        vec![
            SecuredDirectory::DataRoot,
            SecuredDirectory::Configuration,
            SecuredDirectory::ConfigurationContents,
            SecuredDirectory::Updates,
        ]
    );
}

const AGENT: &str = r"C:\agent.exe";

fn failed(message: &str) -> Result<(), Failure> {
    Err(Failure::new(message))
}

fn step_of(installing: Installing) -> InstallStep {
    match installing {
        Installing::Step(step) => step,
        other => panic!("expected a step, got {other:?}"),
    }
}

#[test]
fn failed_updates_are_rolled_back_and_the_service_is_restarted() {
    let mut update = Installation::new(AGENT.to_string());
    assert_eq!(step_of(update.next(Ok(()))), InstallStep::Replace);
    assert_eq!(step_of(update.next(Ok(()))), InstallStep::StartUpdate);
    assert!(matches!(update.next(Ok(())), Installing::Installed));

    let mut update = Installation::new(AGENT.to_string());
    assert_eq!(step_of(update.next(failed("busy"))), InstallStep::Restart);
    match update.next(Ok(())) {
        Installing::Failed(error) => assert_eq!(
            error.describe(),
            "the Agent update failed; the previously installed Agent is running: \
             the previous Agent service instance did not exit: busy"
        ),
        other => panic!("unexpected {other:?}"),
    }

    let mut update = Installation::new(AGENT.to_string());
    step_of(update.next(Ok(())));
    step_of(update.next(Ok(())));
    assert_eq!(step_of(update.next(failed("crashed"))), InstallStep::StopUpdate);
    assert_eq!(step_of(update.next(Ok(()))), InstallStep::Restore);
    assert_eq!(step_of(update.next(failed("denied"))), InstallStep::Restart);
    match update.next(failed("disabled")) {
        Installing::Failed(error) => assert_eq!(
            error.describe(),
            "the Agent update failed and the service could not be restarted: disabled: \
             the previous executable could not be restored: \
             failed to restore the previous Agent executable C:\\agent.exe: denied: \
             the updated Agent service did not stay running: crashed"
        ),
        other => panic!("unexpected {other:?}"),
    }
}

#[test]
fn replacements_put_the_previous_executable_back() {
    let mut replacement = Replacement::new(AGENT.to_string());
    for expected in [ReplaceStep::Install, ReplaceStep::Inherit] {
        assert!(matches!(replacement.next(Ok(())), Replacing::Step(step) if step == expected));
    }
    assert!(matches!(replacement.next(Ok(())), Replacing::Replaced));

    let mut replacement = Replacement::new(AGENT.to_string());
    assert!(
        matches!(replacement.next(failed("locked")), Replacing::Failed(error) if error.describe() == r"failed to back up installed Agent C:\agent.exe: locked")
    );

    let mut replacement = Replacement::new(AGENT.to_string());
    replacement.next(Ok(()));
    assert!(
        matches!(replacement.next(failed("full")), Replacing::Step(step) if step == ReplaceStep::Restore)
    );
    assert!(
        matches!(replacement.next(failed("gone")), Replacing::Failed(error) if error.describe() == r"the previous executable could not be restored: failed to restore the previous Agent executable C:\agent.exe: gone: failed to install Agent update C:\agent.exe: full")
    );

    let mut replacement = Replacement::new(AGENT.to_string());
    replacement.next(Ok(()));
    replacement.next(Ok(()));
    replacement.next(failed("denied"));
    assert!(
        matches!(replacement.next(Ok(())), Replacing::Failed(error) if error.describe() == "failed to let signed-in users run the updated Agent: denied")
    );
}

#[test]
fn instances_are_waited_for_and_then_terminated() {
    assert_eq!(instance_process(Some(7), Some(8)), Some(7));
    assert_eq!(instance_process(Some(0), Some(8)), None);
    assert_eq!(instance_process(None, Some(8)), Some(8));
    assert_eq!(instance_process(None, Some(0)), None);
    assert!(has_to_be_stopped(ServiceState::Running));
    assert!(!has_to_be_stopped(ServiceState::StopPending));
    assert!(matches!(
        wait_for_exit(ServiceState::Stopped, true, 9, 5, 60),
        Waiting::Exited
    ));
    assert!(matches!(
        wait_for_exit(ServiceState::Stopped, false, 4, 5, 60),
        Waiting::Poll
    ));
    match wait_for_exit(ServiceState::StopPending, false, 5, 5, 60) {
        Waiting::TimedOut(error) => assert_eq!(
            error.describe(),
            "after 60 seconds the Agent service is StopPending and its process is still running"
        ),
        other => panic!("unexpected {other:?}"),
    }
    assert!(terminates(true, false));
    assert!(!terminates(true, true));
    assert!(!terminates(false, false));
    assert!(terminated(Ok(())).is_ok());
    assert_eq!(
        terminated(failed("denied")).unwrap_err().describe(),
        "failed to terminate the Agent service instance: denied"
    );
    assert!(start_accepted(StartRequest::Accepted).is_ok());
    assert!(start_accepted(StartRequest::AlreadyRunning).is_ok());
    assert_eq!(
        start_accepted(StartRequest::Refused(Failure::new("disabled")))
            .unwrap_err()
            .describe(),
        "failed to start the Agent service: disabled"
    );
    assert!(matches!(
        wait_for_start(ServiceState::Running, 9, 5),
        Starting::Running
    ));
    assert!(matches!(
        wait_for_start(ServiceState::StartPending, 4, 5),
        Starting::Poll
    ));
    assert!(
        matches!(wait_for_start(ServiceState::StartPending, 5, 5), Starting::Failed(error) if error.describe() == "the Agent service did not start within 30 seconds")
    );
    assert!(
        matches!(wait_for_start(ServiceState::Stopped, 1, 5), Starting::Failed(error) if error.describe() == "the Agent service stopped while starting")
    );
    assert!(matches!(settle(None, Some(3), 1, 5), Settling::Poll));
    assert!(matches!(
        settle(Some((ServiceState::Running, Some(3))), Some(3), 5, 5),
        Settling::Settled
    ));
    assert!(matches!(
        settle(Some((ServiceState::Running, Some(4))), Some(3), 5, 5),
        Settling::Failed(_)
    ));
    assert!(matches!(
        settle(Some((ServiceState::Stopped, Some(3))), Some(3), 1, 5),
        Settling::Failed(_)
    ));
}

#[test]
fn reports_only_the_first_start_and_the_last_end() {
    let mut link = ServiceLink::new(true);
    let first = link.session_started().unwrap();
    let replacement = link.session_started().unwrap();
    first.end(&mut link);
    replacement.end(&mut link);
    link.session_started().unwrap().end(&mut link);
    assert_eq!(
        link.activity.unwrap().output,
        format!("{SESSION_ACTIVE}\n{SESSION_IDLE}\n{SESSION_ACTIVE}\n{SESSION_IDLE}\n")
    );
}

#[test]
fn reads_only_plausible_update_announcements() {
    // A version is digits, letters, dots, dashes and plus signs, and not empty.
    let announcement = |line: &[u8]| {
        let version = announced_version(line.to_vec());
        let plausible = version.as_ref().is_some_and(|version| {
            !version.is_empty()
                && version
                    .chars()
                    .all(|c| c.is_ascii_alphanumeric() || ".-+".contains(c))
        });
        update_announcement(line.to_vec(), plausible)
    };
    assert_eq!(
        announcement(b"updating 0.3.1-rc.1+build.5\r\n").as_deref(),
        Some("0.3.1-rc.1+build.5")
    );
    assert_eq!(announcement(b"updating \n"), None);
    assert_eq!(announcement(b"updating 1.0 <script>\n"), None);
    assert_eq!(announcement(b"session-active\n"), None);
    assert_eq!(announcement(&[0xff, 0xfe]), None);
}

#[test]
fn an_unattached_coordinator_reports_nothing() {
    assert!(ServiceLink::new(false).session_started().is_none());
}

#[test]
fn announced_versions_are_what_follows_the_prefix() {
    assert_eq!(
        announced_version("\u{3000}updating  1.0 <script>\u{85}".as_bytes().to_vec()).as_deref(),
        Some(" 1.0 <script>")
    );
    assert_eq!(announced_version(b"updating".to_vec()), None);
    let mut link = ServiceLink::new(true);
    link.read(LinkEvent::Interrupted, true);
    link.read(LinkEvent::Line(b"updating 1\n".to_vec()), true);
    assert_eq!(link.update_version().as_deref(), Some("1"));
    link.read(LinkEvent::Line(b"updating 2\n".to_vec()), true);
    link.read(LinkEvent::Line(b"updating 3\n".to_vec()), false);
    link.read(LinkEvent::Line(b"other\n".to_vec()), true);
    assert!(!link.stopped());
    assert_eq!(link.update_version().as_deref(), Some("2"));
    link.read(LinkEvent::Closed, false);
    assert!(link.stopped());
    let mut broken = ServiceLink::new(true);
    broken.read(LinkEvent::Failed, false);
    assert!(broken.stopped());
}

fn logon(session: u32, logon_id: u64) -> Logon {
    Logon {
        session,
        logon_id,
        user: format!("user{logon_id}"),
    }
}

/// Views a session; whether its sign-in was asked for.
fn view(close: &mut SessionClose, session: &DesktopSession, now: u64, found: Option<Logon>) -> bool {
    match close.refresh(session, now) {
        Some(refresh) => {
            let asked = has_user(session);
            let logon = resolve(session, found);
            close.record(session, logon, now, refresh == Refresh::Background);
            asked
        }
        None => false,
    }
}

fn assert_pending(
    found: Option<Pending>,
    action: SessionCloseAction,
    clear_clipboard: bool,
    target: DesktopSession,
    logon: Option<Logon>,
) {
    let found = found.expect("work is pending");
    assert_eq!(found.action, action);
    assert_eq!(found.clear_clipboard, clear_clipboard);
    assert!(found.target.same(&target));
    assert_eq!(found.logon, logon);
}

#[test]
fn action_runs_once_for_the_last_viewed_session() {
    let now = 10_000;
    let mut close = SessionClose::new();
    assert!(close.take().is_none());
    close.set_action(SessionCloseAction::Lock);
    // No action is possible before a desktop was ever shown.
    assert!(close.take().is_none());
    close.set_action(SessionCloseAction::Logout);
    view(&mut close, &DesktopSession::Console, now, Some(logon(1, 10)));
    let rdp = DesktopSession::Rdp {
        id: 3,
        user: "user".to_string(),
    };
    view(&mut close, &rdp, now, Some(logon(3, 30)));
    assert_pending(
        close.take(),
        SessionCloseAction::Logout,
        false,
        rdp,
        Some(logon(3, 30)),
    );
    assert!(close.take().is_none());
    close.set_action(SessionCloseAction::Lock);
    close.set_action(SessionCloseAction::NoAction);
    assert!(close.take().is_none());
    close.set_action(SessionCloseAction::Lock);
    view(&mut close, &DesktopSession::Background, now, Some(logon(0, 1)));
    assert!(close.take().is_none());
}

#[test]
fn clipboard_clear_runs_once_and_is_skipped_by_logout() {
    let now = 10_000;
    let console = Some(logon(1, 10));
    let mut close = SessionClose::new();
    close.set_clear_clipboard(true);
    // Nothing to clear before a desktop was ever shown.
    assert!(close.take().is_none());
    close.set_clear_clipboard(true);
    view(&mut close, &DesktopSession::Console, now, console.clone());
    assert_pending(
        close.take(),
        SessionCloseAction::NoAction,
        true,
        DesktopSession::Console,
        console.clone(),
    );
    assert!(close.take().is_none());
    close.set_clear_clipboard(true);
    close.set_action(SessionCloseAction::Lock);
    assert_pending(
        close.take(),
        SessionCloseAction::Lock,
        true,
        DesktopSession::Console,
        console.clone(),
    );
    close.set_clear_clipboard(true);
    close.set_action(SessionCloseAction::Logout);
    assert_pending(
        close.take(),
        SessionCloseAction::Logout,
        false,
        DesktopSession::Console,
        console,
    );
    close.set_clear_clipboard(true);
    close.set_clear_clipboard(false);
    assert!(close.take().is_none());
    close.set_clear_clipboard(true);
    view(&mut close, &DesktopSession::Background, now, None);
    assert!(close.take().is_none());
}

#[test]
fn viewed_logon_follows_the_session_while_it_is_shown() {
    let now = 10_000;
    let mut close = SessionClose::new();
    close.set_action(SessionCloseAction::Lock);
    assert!(view(&mut close, &DesktopSession::Console, now, Some(logon(1, 10))));
    // The same session is not queried again within the refresh interval.
    assert!(!view(
        &mut close,
        &DesktopSession::Console,
        now + LOGON_REFRESH_MS / 2,
        Some(logon(9, 90))
    ));
    // A console user switch while the viewer watches retargets the close action.
    view(
        &mut close,
        &DesktopSession::Console,
        now + LOGON_REFRESH_MS,
        Some(logon(2, 20)),
    );
    assert_pending(
        close.take(),
        SessionCloseAction::Lock,
        false,
        DesktopSession::Console,
        Some(logon(2, 20)),
    );
    // A sign-in screen leaves no user to act on.
    close.set_action(SessionCloseAction::Lock);
    view(
        &mut close,
        &DesktopSession::Console,
        now + LOGON_REFRESH_MS * 2,
        None,
    );
    assert_pending(
        close.take(),
        SessionCloseAction::Lock,
        false,
        DesktopSession::Console,
        None,
    );
    // The background desktop never has a user to resolve.
    view(&mut close, &DesktopSession::Console, now, Some(logon(1, 10)));
    assert!(!view(
        &mut close,
        &DesktopSession::Background,
        now,
        Some(logon(1, 10))
    ));
}

#[test]
fn close_actions_only_reach_the_viewed_sign_in() {
    let viewed = logon(1, 10);
    assert!(same_logon(Some(&viewed), &logon(1, 10)).is_ok());
    // Another user signed in at the console after the viewer left.
    let error = same_logon(Some(&viewed), &logon(2, 20)).unwrap_err();
    assert!(error.contains("user20 is now signed in"));
    // The viewed user signed out and someone signed in to the reused session.
    assert!(same_logon(Some(&viewed), &logon(1, 11)).is_err());
    // The same logon ID in another session is a different sign-in.
    assert!(same_logon(Some(&viewed), &logon(2, 10)).is_err());
    // Nobody was signed in while the viewer watched.
    assert!(same_logon(None, &logon(1, 10)).is_err());
}

#[test]
fn late_refreshes_do_not_retarget_a_session_that_is_left() {
    let mut close = SessionClose::new();
    close.set_action(SessionCloseAction::Lock);
    view(&mut close, &DesktopSession::Console, 10_000, Some(logon(1, 10)));
    assert_eq!(
        close.refresh(&DesktopSession::Console, 10_000 + LOGON_REFRESH_MS),
        Some(Refresh::Background)
    );
    assert_eq!(close.refresh(&DesktopSession::Console, 99_999), None);
    let rdp = DesktopSession::Rdp {
        id: 3,
        user: "user".to_string(),
    };
    view(&mut close, &rdp, 12_000, Some(logon(3, 30)));
    close.record(&DesktopSession::Console, Some(logon(2, 20)), 12_500, true);
    assert!(!close.refreshing);
    assert_pending(
        close.take(),
        SessionCloseAction::Lock,
        false,
        rdp,
        Some(logon(3, 30)),
    );
}

#[test]
fn close_work_is_done_in_order_as_the_user() {
    let pending = |action, clear_clipboard| Pending {
        action,
        clear_clipboard,
        target: DesktopSession::Console,
        logon: None,
    };
    assert_eq!(
        close_steps(&pending(SessionCloseAction::Lock, true)),
        vec![CloseStep::ClearClipboard, CloseStep::Lock]
    );
    assert_eq!(
        close_steps(&pending(SessionCloseAction::Logout, false)),
        vec![CloseStep::LogOff]
    );
    assert_eq!(close_steps(&pending(SessionCloseAction::NoAction, false)), vec![]);
    assert_eq!(helper_argument(CloseStep::Lock), Some("--lock-session"));
    assert_eq!(
        helper_argument(CloseStep::ClearClipboard),
        Some("--clear-clipboard")
    );
    assert_eq!(helper_argument(CloseStep::LogOff), None);
    assert_eq!(
        helper_command(r"C:\a b.exe", "--lock-session"),
        "\"C:\\a b.exe\" --lock-session"
    );
    assert_eq!(helper_result("--lock-session", Some(0)), Ok(()));
    assert_eq!(
        helper_result("--lock-session", Some(5)),
        Err("--lock-session helper exited with code 5".to_string())
    );
    assert_eq!(
        helper_result("--lock-session", None),
        Err("--lock-session helper did not finish".to_string())
    );
    assert_eq!(clipboard_attempt(18, false), ClipboardAttempt::Retry);
    assert_eq!(clipboard_attempt(19, false), ClipboardAttempt::GiveUp);
    assert_eq!(clipboard_attempt(19, true), ClipboardAttempt::Empty);
}

#[test]
fn sign_ins_are_named_and_numbered() {
    assert_eq!(windows_session(&DesktopSession::Console, 2), Ok(2));
    assert_eq!(
        windows_session(&DesktopSession::Console, u32::MAX),
        Err("Windows reported no active console session")
    );
    assert_eq!(
        windows_session(&DesktopSession::Background, 2),
        Err("the background desktop has no user")
    );
    assert_eq!(logon_id(1, 2), 0x1_0000_0002);
    assert_eq!(account_name(Some("ACME"), Some("zoe")), r"ACME\zoe");
    assert_eq!(account_name(Some(""), Some("zoe")), "zoe");
    assert_eq!(account_name(None, Some("zoe")), "zoe");
    assert_eq!(account_name(Some("ACME"), None), "unknown user");
}

fn arguments() -> Arguments {
    Arguments {
        service: false,
        worker: true,
        console: false,
        server: None,
        device_id: None,
        agent_token: Some("argument".to_string()),
        update_manifest_url: None,
        frames_per_second: None,
        bitrate_bits_per_second: Some(5),
        json_logs: false,
    }
}

fn file() -> FileConfig {
    FileConfig {
        server: Some("https://example.com".to_string()),
        device_id: Some("device".to_string()),
        agent_token: Some("file".to_string()),
        update_manifest_url: None,
        frames_per_second: None,
        bitrate_bits_per_second: Some(9),
        json_logs: Some(true),
    }
}

fn load(arguments: Arguments, file: FileConfig, accepted: bool) -> Result<(ExecutionMode, Config), ConfigError> {
    Config::load(
        arguments,
        file,
        PathBuf::from("agent.json"),
        "https://updates.example.com",
        accepted,
    )
}

#[test]
fn arguments_go_before_the_file_and_defaults_come_last() {
    let (mode, config) = load(arguments(), file(), true).unwrap();
    assert_eq!(mode, ExecutionMode::Worker);
    assert_eq!(config.agent_token, "argument");
    assert_eq!(config.server, "https://example.com");
    assert_eq!(config.update_manifest_url, "https://updates.example.com");
    assert_eq!(config.frames_per_second, 60);
    assert_eq!(config.bitrate_bits_per_second, 5);
    assert!(config.json_logs);
    assert_eq!(config.config_path, PathBuf::from("agent.json"));
    let copy = config.clone();
    assert_eq!(copy.config_path, config.config_path);
    assert_eq!(copy.device_id, "device");
    assert_eq!(
        manifest_url(&arguments(), &file(), "default"),
        "default"
    );
    assert!(reads_file(true, false));
    assert!(!reads_file(false, false));
    assert_eq!(file_json("\u{feff}\u{feff}{}"), "{}");
    assert_eq!(file_json("{}\u{feff}"), "{}\u{feff}");
}

#[test]
fn incomplete_configurations_are_refused() {
    let mut none = arguments();
    none.worker = false;
    assert_eq!(execution_mode(&none), Err(ConfigError::NoMode));
    assert_eq!(load(none, file(), true).unwrap_err(), ConfigError::NoMode);
    let mut missing = file();
    missing.server = None;
    assert_eq!(load(arguments(), missing, true).unwrap_err(), ConfigError::MissingServer);
    let mut missing = file();
    missing.device_id = None;
    assert_eq!(load(arguments(), missing, true).unwrap_err(), ConfigError::MissingDevice);
    let mut missing = file();
    missing.agent_token = None;
    let mut without = arguments();
    without.agent_token = None;
    assert_eq!(load(without, missing, true).unwrap_err(), ConfigError::MissingToken);
    assert_eq!(load(arguments(), file(), false).unwrap_err(), ConfigError::ManifestUrl);
    let mut zero = arguments();
    zero.bitrate_bits_per_second = Some(0);
    let error = load(zero, file(), true).unwrap_err();
    assert_eq!(error, ConfigError::ZeroRate);
    assert_eq!(error.message(), "frame rate and bitrate must be greater than zero");
}

#[test]
fn endpoints_name_devices_and_sessions() {
    assert_eq!(
        agent_connection_url("https://server", "device").segments,
        ["v1", "agents", "device", "connect"]
    );
    let endpoint = session_signal_url("https://server", "session", "agent");
    assert_eq!(
        endpoint.segments,
        ["v1", "remote", "sessions", "session", "signal"]
    );
    assert_eq!(endpoint.server, "https://server");
    assert!(endpoint.websocket);
    assert_eq!(
        endpoint.query,
        vec![("role".to_string(), "agent".to_string())]
    );
}

#[test]
fn reconnects_wait_longer_up_to_a_limit() {
    let mut reconnect = Reconnect::new();
    let waits: Vec<u64> = (0..7).map(|_| reconnect.wait()).collect();
    assert_eq!(waits, vec![1_000, 2_000, 4_000, 8_000, 16_000, 30_000, 30_000]);
    reconnect.connected();
    assert_eq!(reconnect.wait(), 1_000);
    assert!(matches!(heartbeat(1_000, 60_999), Heartbeat::Ping));
    assert!(
        matches!(heartbeat(1_000, 61_000), Heartbeat::Lost(message) if message == "Agent signaling did not respond for 60 seconds")
    );
}

fn request(session_id: &str, signaling_token: &str) -> SessionRequest {
    SessionRequest {
        session_id: session_id.to_string(),
        signaling_token: signaling_token.to_string(),
        ice_servers: vec![IceServer {
            urls: vec!["turn:one".to_string(), "turn:two".to_string()],
            username: None,
            credential: Some("secret".to_string()),
        }],
    }
}

#[test]
fn missing_logins_of_servers_are_empty() {
    let server = request("a", "token").ice_servers.remove(0);
    assert_eq!(server.login(), (String::new(), "secret".to_string()));
}

#[test]
fn a_request_replaces_the_session_unless_it_is_repeated() {
    let mut sessions = AgentSessions::new();
    assert_eq!(
        sessions.handle(AgentEvent::Request(request("a", "token")), false),
        AgentAction::StartSession { replaces: false }
    );
    assert_eq!(
        sessions.handle(AgentEvent::Request(request("a", "token")), false),
        AgentAction::Nothing
    );
    assert_eq!(
        sessions.handle(AgentEvent::Request(request("a", "token")), true),
        AgentAction::StartSession { replaces: true }
    );
    assert_eq!(
        sessions.handle(AgentEvent::Request(request("a", "other")), false),
        AgentAction::StartSession { replaces: true }
    );
    let mut relayed = request("a", "other");
    relayed.ice_servers[0].credential = None;
    assert_eq!(
        sessions.handle(AgentEvent::Request(relayed), false),
        AgentAction::StartSession { replaces: true }
    );
    assert_eq!(
        sessions.handle(AgentEvent::Request(request("b", "token")), false),
        AgentAction::StartSession { replaces: true }
    );
    let end = |id: &str| AgentEvent::EndSession {
        session_id: id.to_string(),
    };
    assert_eq!(sessions.handle(end("a"), false), AgentAction::Nothing);
    assert_eq!(sessions.handle(AgentEvent::Closed, false), AgentAction::Reconnect);
    assert_eq!(
        sessions.handle(AgentEvent::Ping(vec![1, 2]), false),
        AgentAction::Pong(vec![1, 2])
    );
    assert_eq!(sessions.handle(AgentEvent::Invalid, false), AgentAction::Nothing);
    assert_eq!(sessions.active.as_ref().unwrap().session_id, "b");
    assert_eq!(sessions.handle(end("b"), false), AgentAction::StopSession);
    assert!(sessions.active.is_none());
    assert_eq!(sessions.handle(AgentEvent::Uninstall, false), AgentAction::Uninstall);
    sessions.active = Some(request("c", "token"));
    assert!(!sessions.reap(false));
    assert!(sessions.reap(true));
    assert!(!sessions.reap(true));
    assert_eq!(after_sender(true, false), SessionRetry::Done);
    assert_eq!(after_sender(false, true), SessionRetry::Fail);
    assert_eq!(after_sender(false, false), SessionRetry::Retry);
}

#[test]
fn trays_follow_signed_in_sessions() {
    let listed = vec![
        ListedSession { id: 0, active: true },
        ListedSession { id: 1, active: true },
        ListedSession { id: 2, active: false },
        ListedSession { id: 3, active: true },
    ];
    let sessions = active_sessions(&listed);
    assert_eq!(sessions, vec![1, 3]);
    let mut trays = Trays::new();
    for session in &sessions {
        assert!(trays.lacks(*session));
        trays.started(*session);
    }
    trays.running[1].running = false;
    trays.retain(&sessions);
    assert!(!trays.lacks(1));
    assert!(trays.lacks(3));
    trays.retain(&vec![3]);
    assert!(trays.lacks(1));
    assert_eq!(
        tray_command(r"C:\agent.exe", SERVICE_NAME, 42),
        "\"C:\\agent.exe\" --tray MeshRMMAgent 42"
    );
    assert_eq!(tray_arguments(Some(LEGACY_SERVICE_NAME), Some("42")), Ok(42));
    assert_eq!(tray_arguments(None, None), Err(TrayError::MissingService));
    assert_eq!(TrayError::MissingService.message(), Some("missing service name"));
    assert_eq!(TrayError::InvalidService.message(), Some("invalid service name"));
    assert_eq!(TrayError::MissingProcess.message(), Some("missing service PID"));
    assert_eq!(TrayError::InvalidProcess.message(), None);
    assert_eq!(tray_arguments(Some("x"), None), Err(TrayError::InvalidService));
    assert_eq!(tray_arguments(Some(SERVICE_NAME), None), Err(TrayError::MissingProcess));
    assert_eq!(
        tray_arguments(Some(SERVICE_NAME), Some("4 2")),
        Err(TrayError::InvalidProcess)
    );
    assert!(owner_runs(true, Some(7), 7));
    assert!(!owner_runs(true, Some(8), 7));
    assert!(!owner_runs(false, Some(7), 7));
    assert_eq!(window_action(WM_TIMER, 0, true), TrayAction::AddIcon);
    assert_eq!(window_action(WM_TIMER, 0, false), TrayAction::Nothing);
    assert_eq!(window_action(0xc123, 0xc123, true), TrayAction::AddIcon);
    assert_eq!(window_action(0, 0, true), TrayAction::Default);
    assert_eq!(window_action(WM_CLOSE, 0, true), TrayAction::Close);
    assert_eq!(window_action(WM_DESTROY, 0, true), TrayAction::RemoveIcon);
}

#[test]
fn icons_hold_one_image() {
    let mut icon = vec![0u8; 30];
    icon[2] = 1;
    icon[4] = 1;
    icon[14] = 8;
    icon[18] = 22;
    assert_eq!(icon_image(&icon), Ok((22, 8)));
    icon[14] = 9;
    assert_eq!(icon_image(&icon), Err(IconError::Range));
    assert_eq!(IconError::Range.message(), "invalid tray.ico image range");
    assert_eq!(IconError::Header.message(), "tray.ico must contain one image");
    icon[4] = 2;
    assert_eq!(icon_image(&icon), Err(IconError::Header));
    assert_eq!(icon_image(&[0; 21]), Err(IconError::Header));
}

#[test]
fn workers_stop_before_anything_else() {
    assert_eq!(worker_step(false, WorkerEvent::Command), WorkerAction::HandleCommand);
    assert_eq!(worker_step(false, WorkerEvent::Tick), WorkerAction::HandleTick);
    assert_eq!(worker_step(true, WorkerEvent::Command), WorkerAction::CleanUp);
    assert_eq!(worker_step(false, WorkerEvent::Stop), WorkerAction::CleanUp);
    assert_eq!(worker_step(false, WorkerEvent::Closed), WorkerAction::CleanUp);
}

#[test]
fn services_stop_in_order() {
    assert!(matches!(
        stop_steps(true, true, Some("1.2.3")).as_slice(),
        [
            StopStep::ReportPending,
            StopStep::Announce(line),
            StopStep::CloseControl,
            StopStep::StopTrays,
            StopStep::AwaitExit,
            StopStep::ReportStopped
        ] if line == "updating 1.2.3\n"
    ));
    assert!(matches!(
        stop_steps(false, true, None).as_slice(),
        [
            StopStep::ReportPending,
            StopStep::StopTrays,
            StopStep::Terminate,
            StopStep::ReportStopped
        ]
    ));
    assert!(matches!(
        stop_steps(true, false, None).as_slice(),
        [
            StopStep::ReportPending,
            StopStep::StopTrays,
            StopStep::ReportStopped
        ]
    ));
    assert_eq!(
        announced_version(announcement("1.2.3").into_bytes()).as_deref(),
        Some("1.2.3")
    );
}

#[test]
fn update_checks_record_the_attempt_before_the_helper_starts() {
    let check_and_schedule =
        |step, outcome| check_and_schedule(step, outcome, r"C:\staged.exe", r"C:\helper.exe");
    let mut steps = vec![CheckStep::DownloadManifest];
    loop {
        match check_and_schedule(*steps.last().unwrap(), StepOutcome::Done) {
            Checking::Step(step) => steps.push(step),
            Checking::Scheduled => break,
            other => panic!("unexpected {other:?}"),
        }
    }
    assert_eq!(steps.len(), 14);
    assert_eq!(
        &steps[12..],
        &[CheckStep::RecordAttempt, CheckStep::StartHelper]
    );
    assert!(matches!(
        check_and_schedule(CheckStep::ReadManifest, StepOutcome::NothingToDo),
        Checking::Nothing
    ));
    assert!(matches!(
        check_and_schedule(CheckStep::Inspect, StepOutcome::NotExecutable),
        Checking::Failed { failure, remove: false }
            if failure.describe() == "downloaded Agent update is not a Windows executable"
    ));
    assert!(matches!(
        check_and_schedule(
            CheckStep::RecordAttempt,
            StepOutcome::Failed(Failure::new("full"))
        ),
        Checking::Failed { failure, remove: true }
            if failure.describe() == "failed to record the Agent update attempt: full"
    ));
    assert!(matches!(
        check_and_schedule(
            CheckStep::DownloadManifest,
            StepOutcome::Failed(Failure::new("offline"))
        ),
        Checking::Failed { failure, remove: false }
            if failure.describe() == "failed to download the Agent update manifest: offline"
    ));
    assert!(matches!(
        check_and_schedule(CheckStep::PrepareDirectory, StepOutcome::NoDirectory),
        Checking::Failed { failure, remove: false }
            if failure.describe() == "Agent configuration has no parent directory"
    ));
    for (step, context) in [
        (CheckStep::CreateStaged, r"failed to create staged update C:\staged.exe"),
        (CheckStep::WriteStaged, r"failed to write staged update C:\staged.exe"),
        (CheckStep::FlushStaged, r"failed to flush staged update C:\staged.exe"),
        (CheckStep::CopyHelper, r"failed to create Agent update helper C:\helper.exe"),
        (CheckStep::StartHelper, r"failed to start Agent update helper C:\helper.exe"),
    ] {
        match check_and_schedule(step, StepOutcome::Failed(Failure::new("full"))) {
            Checking::Failed { failure, remove: true } => {
                assert_eq!(failure.describe(), format!("{context}: full"))
            }
            other => panic!("unexpected {other:?}"),
        }
    }
}
