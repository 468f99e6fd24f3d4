//! What the viewer wants done to the viewed Windows session once a remote
//! session ends.
use crate::model::{DesktopSession, SessionView};
use crate::text;
use crate::text::{joined, joined3, push_decimal, push_str};
use vstd::prelude::*;

verus! {

/// How long a sign-in is taken for current while the same session is viewed.
pub const LOGON_REFRESH_MS: u64 = 1_000;

/// How often clearing the clipboard is tried while something else holds it.
pub const CLIPBOARD_ATTEMPTS: u32 = 20;

#[derive(Debug, Clone, Copy, PartialEq, Eq, Structural)]
pub enum SessionCloseAction {
    NoAction,
    Lock,
    Logout,
}

/// The Windows sign-in that the viewer was shown. Close actions may run long
/// after, so they reach this sign-in and none that came later.
#[derive(Debug, PartialEq, Eq)]
pub struct Logon {
    pub session: u32,
    /// Differs for each sign-in until Windows restarts.
    pub logon_id: u64,
    pub user: String,
}

pub struct LogonView {
    pub session: u32,
    pub logon_id: u64,
    pub user: Seq<char>,
}

impl View for Logon {
    type V = LogonView;

    open spec fn view(&self) -> LogonView {
        LogonView { session: self.session, logon_id: self.logon_id, user: self.user@ }
    }
}

pub open spec fn viewed(logon: Option<Logon>) -> Option<LogonView> {
    match logon {
        Some(found) => Some(found@),
        None => None,
    }
}

impl Clone for Logon {
    fn clone(&self) -> (copy: Self)
        ensures
            copy@ == self@,
    {
        Logon { session: self.session, logon_id: self.logon_id, user: self.user.clone() }
    }
}

/// The viewed session, and who was signed in to it.
#[derive(Debug)]
pub struct Target {
    pub session: DesktopSession,
    pub logon: Option<Logon>,
    pub resolved_at_ms: u64,
}

pub struct TargetView {
    pub session: SessionView,
    pub logon: Option<LogonView>,
    pub resolved_at_ms: u64,
}

impl View for Target {
    type V = TargetView;

    open spec fn view(&self) -> TargetView {
        TargetView {
            session: self.session@,
            logon: viewed(self.logon),
            resolved_at_ms: self.resolved_at_ms,
        }
    }
}

/// How the recorded target is brought up to date.
#[derive(Debug, Clone, Copy, PartialEq, Eq, Structural)]
pub enum Refresh {
    /// The viewer switched sessions: resolve before a close could use the old
    /// one.
    Now,
    /// Look for another user in the same session without holding up the caller.
    Background,
}

/// Work to do when a session ends.
#[derive(Debug)]
pub struct Pending {
    pub action: SessionCloseAction,
    pub clear_clipboard: bool,
    pub target: DesktopSession,
    pub logon: Option<Logon>,
}

pub struct PendingView {
    pub action: SessionCloseAction,
    pub clear_clipboard: bool,
    pub target: SessionView,
    pub logon: Option<LogonView>,
}

impl View for Pending {
    type V = PendingView;

    open spec fn view(&self) -> PendingView {
        PendingView {
            action: self.action,
            clear_clipboard: self.clear_clipboard,
            target: self.target@,
            logon: viewed(self.logon),
        }
    }
}

/// What is to be done when a remote session ends. The choices survive viewers
/// that come back, and run once.
#[derive(Debug)]
pub struct SessionClose {
    pub action: SessionCloseAction,
    pub clear_clipboard: bool,
    pub target: Option<Target>,
    /// The sign-in of the recorded session is being resolved again.
    pub refreshing: bool,
}

pub struct CloseView {
    pub action: SessionCloseAction,
    pub clear_clipboard: bool,
    pub target: Option<TargetView>,
    pub refreshing: bool,
}

impl View for SessionClose {
    type V = CloseView;

    open spec fn view(&self) -> CloseView {
        CloseView {
            action: self.action,
            clear_clipboard: self.clear_clipboard,
            target: match self.target {
                Some(target) => Some(target@),
                None => None,
            },
            refreshing: self.refreshing,
        }
    }
}

impl CloseView {
    /// How the target is brought up to date when `session` is viewed.
    pub open spec fn refresh(self, session: SessionView, now_ms: u64) -> Option<Refresh> {
        match self.target {
            Some(target) => if target.session != session {
                Some(Refresh::Now)
            } else if self.refreshing || session is Background || now_ms - target.resolved_at_ms
                < LOGON_REFRESH_MS {
                None
            } else {
                Some(Refresh::Background)
            },
            None => Some(Refresh::Now),
        }
    }

    /// The state once a sign-in was resolved; `refreshed` marks the result of a
    /// refresh in the background, which is out of date after a switch.
    pub open spec fn recorded(
        self,
        session: SessionView,
        logon: Option<LogonView>,
        now_ms: u64,
        refreshed: bool,
    ) -> CloseView {
        let stale = refreshed && !(self.target matches Some(target) && target.session == session);
        CloseView {
            refreshing: self.refreshing && !refreshed,
            target: if stale {
                self.target
            } else {
                Some(TargetView { session, logon, resolved_at_ms: now_ms })
            },
            ..self
        }
    }

    /// The work to do, if the session ends now. Logging off discards the
    /// clipboard with everything else, and the background desktop has neither a
    /// user nor a clipboard.
    pub open spec fn pending(self) -> Option<PendingView> {
        let clear = self.clear_clipboard && self.action != SessionCloseAction::Logout;
        match self.target {
            Some(target) => if (self.action != SessionCloseAction::NoAction || clear)
                && !(target.session is Background) {
                Some(
                    PendingView {
                        action: self.action,
                        clear_clipboard: clear,
                        target: target.session,
                        logon: target.logon,
                    },
                )
            } else {
                None
            },
            None => None,
        }
    }

    pub open spec fn taken(self) -> CloseView {
        CloseView { action: SessionCloseAction::NoAction, clear_clipboard: false, ..self }
    }
}

impl SessionClose {
    pub fn new() -> (close: Self)
        ensures
            close@ == (CloseView {
                action: SessionCloseAction::NoAction,
                clear_clipboard: false,
                target: None,
                refreshing: false,
            }),
    {
        SessionClose {
            action: SessionCloseAction::NoAction,
            clear_clipboard: false,
            target: None,
            refreshing: false,
        }
    }

    pub fn set_action(&mut self, action: SessionCloseAction)
        ensures
            final(self)@ == (CloseView { action, ..old(self)@ }),
    {
        self.action = action;
    }

    pub fn set_clear_clipboard(&mut self, enabled: bool)
        ensures
            final(self)@ == (CloseView { clear_clipboard: enabled, ..old(self)@ }),
    {
        self.clear_clipboard = enabled;
    }

    /// Notes that a session is viewed, and tells how its sign-in is resolved.
    pub fn refresh(&mut self, session: &DesktopSession, now_ms: u64) -> (refresh: Option<Refresh>)
        ensures
            refresh == old(self)@.refresh(session@, now_ms),
            final(self)@ == (CloseView {
                refreshing: old(self)@.refreshing || refresh == Some(Refresh::Background),
                ..old(self)@
            }),
    {
        let (same, resolved_at_ms): (bool, u64) = match &self.target {
            Some(target) => (target.session.same(session), target.resolved_at_ms),
            None => (false, 0),
        };
        if !same {
            return Some(Refresh::Now);
        }
        let background = match session {
            DesktopSession::Background => true,
            _ => false,
        };
        if self.refreshing || background || now_ms < resolved_at_ms || now_ms - resolved_at_ms
            < LOGON_REFRESH_MS {
            return None;
        }
        self.refreshing = true;
        Some(Refresh::Background)
    }

    /// Records the sign-in of a viewed session.
    pub fn record(
        &mut self,
        session: &DesktopSession,
        logon: Option<Logon>,
        now_ms: u64,
        refreshed: bool,
    )
        ensures
            final(self)@ == old(self)@.recorded(session@, viewed(logon), now_ms, refreshed),
    {
        if refreshed {
            self.refreshing = false;
            let same = match &self.target {
                Some(target) => target.session.same(session),
                None => false,
            };
            if !same {
                return;
            }
        }
        self.target = Some(
            Target { session: session.clone(), logon, resolved_at_ms: now_ms },
        );
    }

    /// The work to do, at most once.
    pub fn take(&mut self) -> (pending: Option<Pending>)
        ensures
            match pending {
                Some(work) => old(self)@.pending() == Some(work@),
                None => old(self)@.pending() is None,
            },
            final(self)@ == old(self)@.taken(),
    {
        let action = self.action;
        let clear_clipboard = self.clear_clipboard && action != SessionCloseAction::Logout;
        self.action = SessionCloseAction::NoAction;
        self.clear_clipboard = false;
        match &self.target {
            Some(target) => {
                let background = match &target.session {
                    DesktopSession::Background => true,
                    _ => false,
                };
                if (action == SessionCloseAction::NoAction && !clear_clipboard) || background {
                    return None;
                }
                Some(
                    Pending {
                        action,
                        clear_clipboard,
                        target: target.session.clone(),
                        logon: match &target.logon {
                            Some(logon) => Some(logon.clone()),
                            None => None,
                        },
                    },
                )
            },
            None => None,
        }
    }
}

/// Work is done once: nothing is left until the viewer chooses again, whichever
/// session is viewed meanwhile.
pub proof fn close_work_runs_once(
    close: CloseView,
    session: SessionView,
    logon: Option<LogonView>,
    now_ms: u64,
    refreshed: bool,
)
    ensures
        close.taken().pending() is None,
        close.taken().recorded(session, logon, now_ms, refreshed).pending() is None,
{
}

/// Whatever was viewed before and however slow a refresh was, work reaches the
/// session that is viewed last, and never the background desktop.
pub proof fn close_work_follows_the_view(
    close: CloseView,
    session: SessionView,
    logon: Option<LogonView>,
    late: SessionView,
    late_logon: Option<LogonView>,
    now_ms: u64,
    late_ms: u64,
)
    requires
        late != session,
    ensures
        ({
            let after = close.recorded(session, logon, now_ms, false).recorded(
                late,
                late_logon,
                late_ms,
                true,
            );
            after.pending() matches Some(work) ==> work.target == session && work.logon == logon
                && !(work.target is Background)
        }),
{
}

/// Whether a session can have a user at all.
pub fn has_user(session: &DesktopSession) -> (has: bool)
    ensures
        has == !(session@ is Background),
{
    match session {
        DesktopSession::Background => false,
        _ => true,
    }
}

/// The user signed in to a session, where one was found.
pub fn resolve(session: &DesktopSession, found: Option<Logon>) -> (logon: Option<Logon>)
    ensures
        logon == (if session@ is Background {
            None
        } else {
            found
        }),
{
    if has_user(session) {
        found
    } else {
        None
    }
}

pub open spec fn mismatch(recorded: LogonView, current: LogonView) -> Seq<char> {
    "the viewed sign-in of "@ + recorded.user + " (Windows session "@ + text::decimal(
        recorded.session as nat,
    ) + ") is no longer current; "@ + current.user + " is now signed in to Windows session "@
        + text::decimal(current.session as nat)
}

pub open spec fn is_current(recorded: LogonView, current: LogonView) -> bool {
    recorded.session == current.session && recorded.logon_id == current.logon_id
}

/// Whether a sign-in is the one that the viewer was shown.
pub fn same_logon(recorded: Option<&Logon>, current: &Logon) -> (result: Result<(), String>)
    ensures
        match recorded {
            None => result matches Err(message) && message@
                == "no signed-in user was seen in the viewed session"@,
            Some(logon) => if is_current(logon@, current@) {
                result is Ok
            } else {
                result matches Err(message) && message@ == mismatch(logon@, current@)
            },
        },
{
    match recorded {
        None => Err("no signed-in user was seen in the viewed session".to_owned()),
        Some(logon) => {
            if logon.session == current.session && logon.logon_id == current.logon_id {
                return Ok(());
            }
            let mut message = "the viewed sign-in of ".to_owned();
            push_str(&mut message, logon.user.as_str());
            push_str(&mut message, " (Windows session ");
            push_decimal(&mut message, logon.session as u64);
            push_str(&mut message, ") is no longer current; ");
            push_str(&mut message, current.user.as_str());
            push_str(&mut message, " is now signed in to Windows session ");
            push_decimal(&mut message, current.session as u64);
            Err(message)
        },
    }
}

/// The number of a session that is not there.
pub const NO_CONSOLE_SESSION: u32 = 0xffff_ffff;

/// The Windows session of a viewed one; `console` is the one at the console.
pub fn windows_session(target: &DesktopSession, console: u32) -> (session: Result<
    u32,
    &'static str,
>)
    ensures
        match target@ {
            SessionView::Background => session matches Err(message) && message@
                == "the background desktop has no user"@,
            SessionView::Console => if console == NO_CONSOLE_SESSION {
                session matches Err(message) && message@
                    == "Windows reported no active console session"@
            } else {
                session == Ok::<u32, &'static str>(console)
            },
            SessionView::Rdp { id, user: _ } => if id == NO_CONSOLE_SESSION {
                session matches Err(message) && message@
                    == "Windows reported no active console session"@
            } else {
                session == Ok::<u32, &'static str>(id)
            },
        },
{
    let session: u32 = match target {
        DesktopSession::Console => console,
        DesktopSession::Rdp { id, .. } => *id,
        DesktopSession::Background => {
            return Err("the background desktop has no user");
        },
    };
    if session == NO_CONSOLE_SESSION {
        Err("Windows reported no active console session")
    } else {
        Ok(session)
    }
}

/// A sign-in's number, from its two halves.
pub fn logon_id(high: u32, low: u32) -> (id: u64)
    ensures
        id == high * 0x1_0000_0000 + low,
{
    high as u64 * 0x1_0000_0000 + low as u64
}

/// Two sign-ins have one number only if both halves agree.
pub proof fn logon_ids_do_not_alias(high: u32, low: u32, other_high: u32, other_low: u32)
    requires
        high * 0x1_0000_0000 + low == other_high * 0x1_0000_0000 + other_low,
    ensures
        high == other_high,
        low == other_low,
{
}

pub open spec fn account(domain: Option<Seq<char>>, name: Option<Seq<char>>) -> Seq<char> {
    match name {
        Some(user) => match domain {
            Some(prefix) => if prefix.len() > 0 {
                prefix + "\\"@ + user
            } else {
                user
            },
            None => user,
        },
        None => "unknown user"@,
    }
}

pub open spec fn text_of(text: Option<&str>) -> Option<Seq<char>> {
    match text {
        Some(found) => Some(found@),
        None => None,
    }
}

/// What a user is called, where Windows tells.
pub fn account_name(domain: Option<&str>, name: Option<&str>) -> (account_name: String)
    ensures
        account_name@ == account(text_of(domain), text_of(name)),
{
    match name {
        Some(user) => {
            if let Some(prefix) = domain {
                if prefix.is_empty() {
                    return user.to_owned();
                }
                return joined3(prefix, "\\", user);
            }
            user.to_owned()
        },
        None => "unknown user".to_owned(),
    }
}

/// A step of the work at the end of a session.
#[derive(Debug, Clone, Copy, PartialEq, Eq, Structural)]
pub enum CloseStep {
    /// Run the helper that clears the clipboard.
    ClearClipboard,
    /// Run the helper that locks the session.
    Lock,
    LogOff,
}

pub open spec fn steps(pending: PendingView) -> Seq<CloseStep> {
    let clearing = if pending.clear_clipboard {
        seq![CloseStep::ClearClipboard]
    } else {
        seq![]
    };
    match pending.action {
        SessionCloseAction::NoAction => clearing,
        SessionCloseAction::Lock => clearing.push(CloseStep::Lock),
        SessionCloseAction::Logout => clearing.push(CloseStep::LogOff),
    }
}

/// The work at the end of a session, in order: the clipboard first, so that a
/// locked session does not keep what was copied. A step that fails does not
/// stop the next.
pub fn close_steps(pending: &Pending) -> (list: Vec<CloseStep>)
    ensures
        list@ == steps(pending@),
{
    let mut list: Vec<CloseStep> = Vec::new();
    if pending.clear_clipboard {
        list.push(CloseStep::ClearClipboard);
    }
    assert(list@ =~= (if pending.clear_clipboard {
        seq![CloseStep::ClearClipboard]
    } else {
        seq![]
    }));
    match pending.action {
        SessionCloseAction::NoAction => {},
        SessionCloseAction::Lock => {
            list.push(CloseStep::Lock);
        },
        SessionCloseAction::Logout => {
            list.push(CloseStep::LogOff);
        },
    }
    list
}

/// What the agent is started with as the helper of a step.
pub fn helper_argument(step: CloseStep) -> (argument: Option<&'static str>)
    ensures
        match step {
            CloseStep::ClearClipboard => argument matches Some(text) && text@
                == "--clear-clipboard"@,
            CloseStep::Lock => argument matches Some(text) && text@ == "--lock-session"@,
            CloseStep::LogOff => argument is None,
        },
{
    match step {
        CloseStep::ClearClipboard => Some("--clear-clipboard"),
        CloseStep::Lock => Some("--lock-session"),
        CloseStep::LogOff => None,
    }
}

/// The command line of a helper.
pub fn helper_command(executable: &str, argument: &str) -> (command: String)
    ensures
        command@ == "\""@ + executable@ + "\" "@ + argument@,
{
    let mut command = joined3("\"", executable, "\" ");
    push_str(&mut command, argument);
    command
}

/// How a helper ended; `code` is what it exited with, if it did in time.
pub fn helper_result(argument: &str, code: Option<u32>) -> (result: Result<(), String>)
    ensures
        match code {
            None => result matches Err(message) && message@ == argument@
                + " helper did not finish"@,
            Some(0) => result is Ok,
            Some(failed) => result matches Err(message) && message@ == argument@
                + " helper exited with code "@ + text::decimal(failed as nat),
        },
{
    match code {
        None => Err(joined(argument, " helper did not finish")),
        Some(failed) => {
            if failed == 0 {
                return Ok(());
            }
            let mut message = joined(argument, " helper exited with code ");
            push_decimal(&mut message, failed as u64);
            Err(message)
        },
    }
}

/// How clearing the clipboard goes on.
#[derive(Debug, Clone, Copy, PartialEq, Eq, Structural)]
pub enum ClipboardAttempt {
    Empty,
    /// Wait and try again.
    Retry,
    GiveUp,
}

/// How clearing the clipboard goes on after an attempt to open it, of which
/// `earlier` came before.
pub fn clipboard_attempt(earlier: u32, opened: bool) -> (attempt: ClipboardAttempt)
    ensures
        attempt == (if opened {
            ClipboardAttempt::Empty
        } else if earlier + 1 < CLIPBOARD_ATTEMPTS {
            ClipboardAttempt::Retry
        } else {
            ClipboardAttempt::GiveUp
        }),
{
    if opened {
        ClipboardAttempt::Empty
    } else if earlier < CLIPBOARD_ATTEMPTS - 1 {
        ClipboardAttempt::Retry
    } else {
        ClipboardAttempt::GiveUp
    }
}

/// A session that comes into view is resolved at once. One that stays in view is
/// looked at again a second after the last time, in the background, one look at a
/// time; the background desktop has nobody to look for.
pub proof fn sign_ins_are_looked_up_in_time(
    close: CloseView,
    session: SessionView,
    now_ms: u64,
)
    ensures
        ({
            let refresh = close.refresh(session, now_ms);
            let viewed = close.target is Some && close.target->0.session == session;
            &&& refresh == Some(Refresh::Now) <==> !viewed
            &&& refresh == Some(Refresh::Background) <==> viewed && !close.refreshing && !(session
                is Background) && now_ms >= close.target->0.resolved_at_ms + 1_000
        }),
{
}

/// A look that was asked for when the session came into view is taken whatever
/// else was viewed; one in the background is taken only for the session still in
/// view, and is over either way. What the viewer chose for the end stays chosen.
pub proof fn lookups_are_taken_for_what_is_viewed(
    close: CloseView,
    session: SessionView,
    logon: Option<LogonView>,
    now_ms: u64,
)
    ensures
        ({
            let after = close.recorded(session, logon, now_ms, false);
            &&& after.target == Some(TargetView { session, logon, resolved_at_ms: now_ms })
            &&& after.refreshing == close.refreshing
            &&& after.action == close.action
            &&& after.clear_clipboard == close.clear_clipboard
        }),
        ({
            let after = close.recorded(session, logon, now_ms, true);
            let viewed = close.target is Some && close.target->0.session == session;
            &&& viewed ==> after.target == Some(
                TargetView { session, logon, resolved_at_ms: now_ms },
            )
            &&& !viewed ==> after.target == close.target
            &&& !after.refreshing
            &&& after.action == close.action
            &&& after.clear_clipboard == close.clear_clipboard
        }),
{
}

/// There is work at the end of a session exactly when something was viewed that
/// is not the background, and the viewer chose to lock it, to log off, or to clear
/// the clipboard. Logging off clears the clipboard by itself. The work is what was
/// chosen, for what was viewed.
pub proof fn close_work_is_what_was_chosen(close: CloseView)
    ensures
        ({
            let work = close.pending();
            let chosen = close.action == SessionCloseAction::Lock || close.action
                == SessionCloseAction::Logout || close.clear_clipboard;
            &&& work is Some <==> close.target is Some && !(close.target->0.session is Background)
                && chosen
            &&& work matches Some(pending) ==> {
                &&& pending.action == close.action
                &&& pending.clear_clipboard <==> close.clear_clipboard && close.action
                    != SessionCloseAction::Logout
                &&& pending.target == close.target->0.session
                &&& pending.logon == close.target->0.logon
                &&& steps(pending).len() > 0
            }
            &&& close.taken().target == close.target
            &&& close.taken().refreshing == close.refreshing
            &&& close.taken().action == SessionCloseAction::NoAction
            &&& !close.taken().clear_clipboard
        }),
{
}

/// The clipboard is cleared where that is asked for, and first; the session is
/// locked or logged off where that is, and last; nothing else is done.
pub proof fn close_work_is_done_in_order(pending: PendingView)
    ensures
        ({
            let list = steps(pending);
            &&& list.contains(CloseStep::ClearClipboard) <==> pending.clear_clipboard
            &&& list.contains(CloseStep::Lock) <==> pending.action == SessionCloseAction::Lock
            &&& list.contains(CloseStep::LogOff) <==> pending.action == SessionCloseAction::Logout
            &&& pending.clear_clipboard ==> list[0] == CloseStep::ClearClipboard
            &&& list.no_duplicates()
        }),
{
    let list = steps(pending);
    if pending.clear_clipboard {
        assert(list[0] == CloseStep::ClearClipboard);
    }
    if pending.action == SessionCloseAction::Lock {
        assert(list[list.len() - 1] == CloseStep::Lock);
    }
    if pending.action == SessionCloseAction::Logout {
        assert(list[list.len() - 1] == CloseStep::LogOff);
    }
}

/// A sign-in is the one that was seen only by its session and its number: the same
/// user who signed in anew is somebody else, and a user renamed is not. Both
/// sign-ins are named where they differ.
pub proof fn sign_ins_are_told_apart_by_number(recorded: LogonView, current: LogonView)
    ensures
        is_current(recorded, current) <==> recorded.session == current.session
            && recorded.logon_id == current.logon_id,
        is_current(recorded, current) == is_current(current, recorded),
        is_current(recorded, recorded),
        ("the viewed sign-in of "@ + recorded.user).is_prefix_of(mismatch(recorded, current)),
        (current.user + " is now signed in to Windows session "@ + text::decimal(
            current.session as nat,
        )).is_suffix_of(mismatch(recorded, current)),
{
    let said = mismatch(recorded, current);
    let head = "the viewed sign-in of "@ + recorded.user;
    let tail = current.user + " is now signed in to Windows session "@ + text::decimal(
        current.session as nat,
    );
    assert(said.take(head.len() as int) =~= head);
    assert(said.skip(said.len() - tail.len()) =~= tail);
}

/// A user with a domain is called by both, one without by the name alone, and one
/// without a name is unknown, whatever the domain.
pub proof fn accounts_are_called_by_their_names(domain: Seq<char>, name: Seq<char>)
    requires
        domain.len() > 0,
    ensures
        account(Some(domain), Some(name)) == domain + seq!['\\'] + name,
        account(Some(seq![]), Some(name)) == name,
        account(None, Some(name)) == name,
        account(Some(domain), None) == "unknown user"@,
        account(None, None) == "unknown user"@,
{
    reveal_strlit("\\");
    assert("\\"@ =~= seq!['\\']);
}

} // verus!
