//! The Windows service that keeps the agent's coordinator running and updated.
use crate::service_link;
use crate::service_link::{announcement, SESSION_ACTIVE, SESSION_IDLE};
use crate::text;
use crate::text::same_ignoring_case;
use vstd::prelude::*;
use vstd::string::StrSliceExecFns;
use vstd::utf8;

verus! {

pub const SERVICE_NAME: &'static str = "MeshRMMAgent";

pub const LEGACY_SERVICE_NAME: &'static str = "PulseRMMAgent";

/// How long after a check the next one is due, in milliseconds.
pub const UPDATE_CHECK_INTERVAL: u64 = 21_600_000;

/// How often a check that falls due during a remote session is retried, in
/// milliseconds.
pub const DEFERRED_UPDATE_RETRY: u64 = 300_000;

/// How long a session may keep a check from running, in milliseconds.
pub const MAX_UPDATE_DEFERRAL: u64 = 86_400_000;

/// How long the coordinator has to end its sessions, in milliseconds.
pub const COORDINATOR_STOP_TIMEOUT: u64 = 25_000;

/// Whether a character separates the components of a Windows path. In a verbatim
/// path only the backslash does.
pub open spec fn is_separator(character: char, verbatim: bool) -> bool {
    character == '\\' || (character == '/' && !verbatim)
}

fn separates(character: char, verbatim: bool) -> (separates: bool)
    ensures
        separates == is_separator(character, verbatim),
{
    character == '\\' || (character == '/' && !verbatim)
}

/// The length of what stands before the first separator.
pub open spec fn piece_length(path: Seq<char>, verbatim: bool) -> nat
    decreases path.len(),
{
    if path.len() == 0 || is_separator(path[0], verbatim) {
        0
    } else {
        1 + piece_length(path.skip(1), verbatim)
    }
}

proof fn lemma_piece(path: Seq<char>, verbatim: bool, at: int)
    requires
        0 <= at <= path.len(),
        forall|i: int| 0 <= i < at ==> !is_separator(path[i], verbatim),
        at < path.len() ==> is_separator(path[at], verbatim),
    ensures
        piece_length(path, verbatim) == at,
    decreases at,
{
    if at > 0 {
        lemma_piece(path.skip(1), verbatim, at - 1);
    }
}

proof fn lemma_piece_fits(path: Seq<char>, verbatim: bool)
    ensures
        piece_length(path, verbatim) <= path.len(),
    decreases path.len(),
{
    if path.len() > 0 && !is_separator(path[0], verbatim) {
        lemma_piece_fits(path.skip(1), verbatim);
    }
}

fn length_of_piece(path: &str, start: usize, verbatim: bool) -> (length: usize)
    requires
        start <= path@.len(),
    ensures
        length == piece_length(path@.skip(start as int), verbatim),
        start + length <= path@.len(),
{
    let total: usize = path.unicode_len();
    let mut at: usize = start;
    while at < total && !separates(path.get_char(at), verbatim)
        invariant
            start <= at <= total,
            total == path@.len(),
            forall|i: int| start <= i < at ==> !is_separator(path@[i], verbatim),
        decreases total - at,
    {
        at += 1;
    }
    proof {
        lemma_piece(path@.skip(start as int), verbatim, at - start);
    }
    at - start
}

pub open spec fn is_letter(character: char) -> bool {
    65 <= character as u32 <= 90 || 97 <= character as u32 <= 122
}

/// The length of a server and a share.
pub open spec fn share_length(path: Seq<char>, verbatim: bool) -> nat {
    let server = piece_length(path, verbatim);
    let share = piece_length(path.skip(server as int + 1), verbatim);
    if server == path.len() || share == 0 {
        server
    } else {
        server + 1 + share
    }
}

/// Whether a path is verbatim: it begins with `\\?\`.
pub open spec fn is_verbatim(path: Seq<char>) -> bool {
    path.len() >= 4 && path[0] == '\\' && path[1] == '\\' && path[2] == '?' && path[3] == '\\'
}

/// Whether a path begins with a drive: a letter and a colon.
pub open spec fn has_drive(path: Seq<char>) -> bool {
    path.len() >= 2 && is_letter(path[0]) && path[1] == ':'
}

/// Whether a drive is all that comes before the first separator, of either kind,
/// or the end.
pub open spec fn is_exact_drive(path: Seq<char>) -> bool {
    has_drive(path) && (path.len() == 2 || is_separator(path[2], false))
}

/// The length of a path's prefix: its drive, its server and share, or its
/// device. A verbatim path has a drive only where a separator or nothing follows
/// it.
pub open spec fn prefix_length(path: Seq<char>) -> nat {
    if path.len() >= 2 && is_separator(path[0], false) && is_separator(path[1], false) {
        if is_verbatim(path) {
            if path.len() >= 8 && path[4] == 'U' && path[5] == 'N' && path[6] == 'C'
                && is_separator(path[7], false) {
                8 + share_length(path.skip(8), true)
            } else if is_exact_drive(path.skip(4)) {
                6
            } else {
                4 + piece_length(path.skip(4), true)
            }
        } else if path.len() >= 4 && path[2] == '.' && is_separator(path[3], false) {
            4 + piece_length(path.skip(4), false)
        } else {
            let server = piece_length(path.skip(2), false);
            if server > 0 && share_length(path.skip(2), false) > server {
                2 + share_length(path.skip(2), false)
            } else {
                0
            }
        }
    } else if has_drive(path) {
        2
    } else {
        0
    }
}

/// The length of the root after a path's prefix: a separator of either kind, even
/// in a verbatim path.
pub open spec fn root_length(path: Seq<char>) -> nat {
    if path.len() > 0 && is_separator(path[0], false) {
        1
    } else {
        0
    }
}

fn length_of_share(path: &str, start: usize, verbatim: bool) -> (length: usize)
    requires
        start <= path@.len(),
    ensures
        length == share_length(path@.skip(start as int), verbatim),
        start + length <= path@.len(),
{
    let total: usize = path.unicode_len();
    let server: usize = length_of_piece(path, start, verbatim);
    if start + server == total {
        return server;
    }
    let share: usize = length_of_piece(path, start + server + 1, verbatim);
    assert(path@.skip(start as int).skip(server + 1) =~= path@.skip(start + server + 1));
    if share == 0 {
        server
    } else {
        server + 1 + share
    }
}

fn drive_at(path: &str, start: usize) -> (drive: bool)
    requires
        start <= path@.len(),
    ensures
        drive == has_drive(path@.skip(start as int)),
{
    if path.unicode_len() - start < 2 {
        return false;
    }
    let code: u32 = path.get_char(start) as u32;
    ((65 <= code && code <= 90) || (97 <= code && code <= 122)) && path.get_char(start + 1) == ':'
}

fn length_of_prefix(path: &str) -> (length: usize)
    ensures
        length == prefix_length(path@),
        length <= path@.len(),
{
    let total: usize = path.unicode_len();
    if total < 2 {
        return 0;
    }
    let first = path.get_char(0);
    let second = path.get_char(1);
    if separates(first, false) && separates(second, false) {
        if total >= 4 && first == '\\' && second == '\\' && path.get_char(2) == '?'
            && path.get_char(3) == '\\' {
            if total >= 8 && path.get_char(4) == 'U' && path.get_char(5) == 'N'
                && path.get_char(6) == 'C' && separates(path.get_char(7), false) {
                return 8 + length_of_share(path, 8, true);
            }
            if drive_at(path, 4) && (total == 6 || separates(path.get_char(6), false)) {
                return 6;
            }
            return 4 + length_of_piece(path, 4, true);
        }
        if total >= 4 && path.get_char(2) == '.' && separates(path.get_char(3), false) {
            return 4 + length_of_piece(path, 4, false);
        }
        let server: usize = length_of_piece(path, 2, false);
        let share: usize = length_of_share(path, 2, false);
        if server > 0 && share > server {
            return 2 + share;
        }
        return 0;
    }
    assert(path@.skip(0) =~= path@);
    if drive_at(path, 0) {
        2
    } else {
        0
    }
}

/// Whether a path, without its prefix and its root, has a component of some name.
pub open spec fn has_component(path: Seq<char>, verbatim: bool, name: Seq<char>) -> bool
    decreases path.len(),
{
    let length = piece_length(path, verbatim);
    text::folded(path.take(length as int)) == text::folded(name) || (length < path.len()
        && has_component(path.skip(length as int + 1), verbatim, name))
}

fn contains_component(path: &str, start: usize, verbatim: bool, name: &str) -> (found: bool)
    requires
        start <= path@.len(),
    ensures
        found == has_component(path@.skip(start as int), verbatim, name@),
    decreases path@.len() - start,
{
    let total: usize = path.unicode_len();
    let length: usize = length_of_piece(path, start, verbatim);
    let piece = path.substring_char(start, start + length);
    assert(piece@ =~= path@.skip(start as int).take(length as int));
    if same_ignoring_case(piece, name) {
        return true;
    }
    if start + length == total {
        return false;
    }
    assert(path@.skip(start as int).skip(length + 1) =~= path@.skip(start + length + 1));
    contains_component(path, start + length + 1, verbatim, name)
}

/// Whether an executable belongs to an installation under the former name.
pub open spec fn is_legacy(path: Seq<char>) -> bool {
    let rest = path.skip(prefix_length(path) as int);
    has_component(rest.skip(root_length(rest) as int), is_verbatim(path), "PulseRMM"@)
}

/// The name of the service that an executable is installed as. Updates in place
/// keep the service that is there.
pub fn service_name_for_path(path: &str) -> (name: &'static str)
    ensures
        name@ == (if is_legacy(path@) {
            LEGACY_SERVICE_NAME@
        } else {
            SERVICE_NAME@
        }),
{
    let total: usize = path.unicode_len();
    let start: usize = length_of_prefix(path);
    let verbatim = total >= 4 && path.get_char(0) == '\\' && path.get_char(1) == '\\'
        && path.get_char(2) == '?' && path.get_char(3) == '\\';
    let root: usize = if start < total && separates(path.get_char(start), false) {
        1
    } else {
        0
    };
    assert(path@.skip(start as int).skip(root as int) =~= path@.skip(start + root));
    if contains_component(path, start + root, verbatim, "PulseRMM") {
        LEGACY_SERVICE_NAME
    } else {
        SERVICE_NAME
    }
}

/// The service's name, given where the executable is, if that is known.
pub fn active_service_name(executable: Option<&str>) -> (name: &'static str)
    ensures
        name@ == (match executable {
            Some(path) => if is_legacy(path@) {
                LEGACY_SERVICE_NAME@
            } else {
                SERVICE_NAME@
            },
            None => SERVICE_NAME@,
        }),
{
    match executable {
        Some(path) => service_name_for_path(path),
        None => SERVICE_NAME,
    }
}

/// When the agent checks for updates; a check waits for a remote session, but
/// not for ever. Times are in milliseconds.
#[derive(Debug, Clone, Copy, PartialEq, Eq, Structural)]
pub struct UpdateSchedule {
    pub next_check: u64,
    pub deferred_since: Option<u64>,
}

impl UpdateSchedule {
    pub fn new(now: u64) -> (schedule: Self)
        ensures
            schedule == (UpdateSchedule { next_check: now, deferred_since: None }),
    {
        UpdateSchedule { next_check: now, deferred_since: None }
    }

    /// Since when a check that is due at `now` waits.
    pub open spec fn waits_since(self, now: u64) -> u64 {
        match self.deferred_since {
            Some(since) => since,
            None => now,
        }
    }

    /// Whether a check runs at a time.
    pub open spec fn runs(self, now: u64, session_active: bool) -> bool {
        now >= self.next_check && (!session_active || now - self.waits_since(now)
            >= MAX_UPDATE_DEFERRAL)
    }

    pub open spec fn after(self, now: u64, session_active: bool) -> UpdateSchedule {
        if now < self.next_check {
            self
        } else if self.runs(now, session_active) {
            UpdateSchedule {
                next_check: (now + UPDATE_CHECK_INTERVAL) as u64,
                deferred_since: None,
            }
        } else {
            UpdateSchedule {
                next_check: (now + DEFERRED_UPDATE_RETRY) as u64,
                deferred_since: Some(self.waits_since(now)),
            }
        }
    }

    /// Whether to check for an update now.
    pub fn due(&mut self, now: u64, session_active: bool) -> (due: bool)
        requires
            now + UPDATE_CHECK_INTERVAL <= u64::MAX,
        ensures
            due == old(self).runs(now, session_active),
            *final(self) == old(self).after(now, session_active),
    {
        if now < self.next_check {
            return false;
        }
        if session_active {
            let since: u64 = match self.deferred_since {
                Some(since) => since,
                None => now,
            };
            if now < since || now - since < MAX_UPDATE_DEFERRAL {
                self.deferred_since = Some(since);
                self.next_check = now + DEFERRED_UPDATE_RETRY;
                return false;
            }
        }
        self.deferred_since = None;
        self.next_check = now + UPDATE_CHECK_INTERVAL;
        true
    }

    /// A check that waits is retried before the limit is over by more than one
    /// interval.
    pub open spec fn bounded(self) -> bool {
        self.deferred_since matches Some(since) ==> self.next_check < since + MAX_UPDATE_DEFERRAL
            + DEFERRED_UPDATE_RETRY
    }
}

/// A session that never ends does not keep updates away: a check that waits is
/// retried soon after the limit at the latest, and runs then. Without a session
/// it runs at the first retry.
pub proof fn checks_wait_no_longer_than_the_limit(
    schedule: UpdateSchedule,
    now: u64,
    session_active: bool,
)
    requires
        schedule.bounded(),
        now + UPDATE_CHECK_INTERVAL <= u64::MAX,
    ensures
        schedule.after(now, session_active).bounded(),
        !session_active && now >= schedule.next_check ==> schedule.runs(now, session_active),
        schedule.deferred_since matches Some(since) && now >= since + MAX_UPDATE_DEFERRAL
            + DEFERRED_UPDATE_RETRY ==> schedule.runs(now, session_active),
{
}

/// Whether a byte is ASCII white space.
pub open spec fn is_blank(byte: u8) -> bool {
    byte == 9 || byte == 10 || byte == 12 || byte == 13 || byte == 32
}

fn blank(byte: u8) -> (blank: bool)
    ensures
        blank == is_blank(byte),
{
    byte == 9 || byte == 10 || byte == 12 || byte == 13 || byte == 32
}

/// A line without the ASCII white space around it.
pub open spec fn stripped(line: Seq<u8>) -> Seq<u8>
    decreases line.len(),
{
    if line.len() == 0 {
        line
    } else if is_blank(line[0]) {
        stripped(line.skip(1))
    } else if is_blank(line.last()) {
        stripped(line.drop_last())
    } else {
        line
    }
}

proof fn lemma_stripped(line: Seq<u8>, start: int, end: int)
    requires
        0 <= start <= end <= line.len(),
        forall|i: int| 0 <= i < start ==> is_blank(line[i]),
        forall|i: int| end <= i < line.len() ==> is_blank(line[i]),
        start < end ==> !is_blank(line[start]) && !is_blank(line[end - 1]),
        start == end ==> start == line.len(),
    ensures
        stripped(line) == line.subrange(start, end),
    decreases line.len(),
{
    if start > 0 {
        lemma_stripped(line.skip(1), start - 1, end - 1);
        assert(line.skip(1).subrange(start - 1, end - 1) =~= line.subrange(start, end));
    } else if end < line.len() {
        lemma_stripped(line.drop_last(), start, end);
        assert(line.drop_last().subrange(start, end) =~= line.subrange(start, end));
    } else {
        assert(line.subrange(start, end) =~= line);
    }
}

/// Whether the bytes of a line, from `start` to `end`, are a word.
fn is_word(line: &[u8], start: usize, end: usize, word: &str) -> (same: bool)
    requires
        start <= end <= line@.len(),
    ensures
        same == (line@.subrange(start as int, end as int) == utf8::encode_utf8(word@)),
{
    let bytes = word.as_bytes();
    if bytes.len() != end - start {
        return false;
    }
    let mut at: usize = 0;
    while at < bytes.len()
        invariant
            start <= end <= line@.len(),
            at <= bytes@.len(),
            bytes@.len() == end - start,
            bytes@ == utf8::encode_utf8(word@),
            forall|i: int| 0 <= i < at ==> line@[start + i] == bytes@[i],
        decreases bytes@.len() - at,
    {
        if line[start + at] != bytes[at] {
            assert(line@.subrange(start as int, end as int)[at as int] != bytes@[at as int]);
            return false;
        }
        at += 1;
    }
    assert(line@.subrange(start as int, end as int) =~= bytes@);
    true
}

/// What a line of the coordinator says of its sessions.
pub fn session_activity(line: &[u8]) -> (active: Option<bool>)
    ensures
        active == (if stripped(line@) == utf8::encode_utf8(SESSION_ACTIVE@) {
            Some(true)
        } else if stripped(line@) == utf8::encode_utf8(SESSION_IDLE@) {
            Some(false)
        } else {
            None
        }),
{
    let total: usize = line.len();
    let mut start: usize = 0;
    while start < total && blank(line[start])
        invariant
            start <= total,
            total == line@.len(),
            forall|i: int| 0 <= i < start ==> is_blank(line@[i]),
        decreases total - start,
    {
        start += 1;
    }
    let mut end: usize = total;
    while end > start && blank(line[end - 1])
        invariant
            start <= end <= total,
            total == line@.len(),
            forall|i: int| end <= i < total ==> is_blank(line@[i]),
            start < total ==> !is_blank(line@[start as int]),
            start < end || start == total,
        decreases end,
    {
        end -= 1;
    }
    proof {
        lemma_stripped(line@, start as int, end as int);
    }
    if is_word(line, start, end, SESSION_ACTIVE) {
        Some(true)
    } else if is_word(line, start, end, SESSION_IDLE) {
        Some(false)
    } else {
        None
    }
}

/// What Windows tells the service.
#[derive(Debug, Clone, Copy, PartialEq, Eq, Structural)]
pub enum ServiceControl {
    Stop,
    Shutdown,
    SessionChange,
    Interrogate,
    Other,
}

/// What the service's loop waits for.
#[derive(Debug, Clone, Copy, PartialEq, Eq, Structural)]
pub enum Control {
    Stop,
    Shutdown,
    DesktopChanged,
}

/// What is passed on to the service's loop, and whether the control is one that
/// the service has.
pub fn handle_control(control: ServiceControl) -> (handled: (Option<Control>, bool))
    ensures
        handled == (match control {
            ServiceControl::Stop => (Some(Control::Stop), true),
            ServiceControl::Shutdown => (Some(Control::Shutdown), true),
            ServiceControl::SessionChange => (Some(Control::DesktopChanged), true),
            ServiceControl::Interrogate => (None, true),
            ServiceControl::Other => (None, false),
        }),
{
    match control {
        ServiceControl::Stop => (Some(Control::Stop), true),
        ServiceControl::Shutdown => (Some(Control::Shutdown), true),
        ServiceControl::SessionChange => (Some(Control::DesktopChanged), true),
        ServiceControl::Interrogate => (None, true),
        ServiceControl::Other => (None, false),
    }
}

/// What the service's loop received.
#[derive(Debug, Clone, Copy, PartialEq, Eq, Structural)]
pub enum Received {
    Control(Control),
    Timeout,
    Disconnected,
}

/// How the service's loop goes on.
#[derive(Debug, Clone, Copy, PartialEq, Eq, Structural)]
pub enum Continuation {
    Continue,
    /// The coordinator gets to end its sessions and to run their close actions.
    StopGracefully,
    /// Sessions end with Windows, and there is little time.
    StopAtOnce,
}

/// How the service's loop goes on after waiting. An update that was staged stops
/// the service before anything is waited for.
pub fn continuation(update_staged: bool, received: Received) -> (next: Continuation)
    ensures
        next == (if update_staged {
            Continuation::StopGracefully
        } else {
            match received {
                Received::Control(Control::Stop) => Continuation::StopGracefully,
                Received::Disconnected => Continuation::StopGracefully,
                Received::Control(Control::Shutdown) => Continuation::StopAtOnce,
                Received::Control(Control::DesktopChanged) => Continuation::Continue,
                Received::Timeout => Continuation::Continue,
            }
        }),
{
    if update_staged {
        return Continuation::StopGracefully;
    }
    match received {
        Received::Control(Control::Stop) => Continuation::StopGracefully,
        Received::Disconnected => Continuation::StopGracefully,
        Received::Control(Control::Shutdown) => Continuation::StopAtOnce,
        Received::Control(Control::DesktopChanged) => Continuation::Continue,
        Received::Timeout => Continuation::Continue,
    }
}

/// Whether a coordinator has to be started: there is none, or it does not run.
pub fn needs_worker(running: Option<bool>) -> (needed: bool)
    ensures
        needed == (running != Some(true)),
{
    match running {
        Some(true) => false,
        _ => true,
    }
}

/// The coordinator as the service sees it.
#[derive(Debug, Clone, Copy, PartialEq, Eq, Structural)]
pub struct Coordinator {
    /// What it last reported.
    pub reported_active: bool,
}

impl Coordinator {
    /// Takes a line that it wrote, or the end of its output.
    pub fn follow(&mut self, line: Option<&[u8]>)
        ensures
            final(self).reported_active == (match line {
                Some(bytes) => if stripped(bytes@) == utf8::encode_utf8(SESSION_ACTIVE@) {
                    true
                } else if stripped(bytes@) == utf8::encode_utf8(SESSION_IDLE@) {
                    false
                } else {
                    old(self).reported_active
                },
                None => false,
            }),
    {
        match line {
            Some(bytes) => {
                if let Some(active) = session_activity(bytes) {
                    self.reported_active = active;
                }
            },
            None => {
                self.reported_active = false;
            },
        }
    }

    pub fn session_active(&self, running: bool) -> (active: bool)
        ensures
            active == (running && self.reported_active),
    {
        running && self.reported_active
    }
}

/// A step of stopping the service.
#[derive(Debug)]
pub enum StopStep {
    /// Tell Windows that the service is stopping.
    ReportPending,
    /// Write this to the coordinator.
    Announce(String),
    /// Close the coordinator's control pipe, which asks it to stop.
    CloseControl,
    /// Stop the tray icons.
    StopTrays,
    /// Wait for the coordinator; see `wait_for_exit`.
    AwaitExit,
    /// End the coordinator at once.
    Terminate,
    /// Tell Windows that the service has stopped.
    ReportStopped,
}

pub enum StopView {
    ReportPending,
    Announce(Seq<char>),
    CloseControl,
    StopTrays,
    AwaitExit,
    Terminate,
    ReportStopped,
}

impl View for StopStep {
    type V = StopView;

    open spec fn view(&self) -> StopView {
        match *self {
            StopStep::ReportPending => StopView::ReportPending,
            StopStep::Announce(line) => StopView::Announce(line@),
            StopStep::CloseControl => StopView::CloseControl,
            StopStep::StopTrays => StopView::StopTrays,
            StopStep::AwaitExit => StopView::AwaitExit,
            StopStep::Terminate => StopView::Terminate,
            StopStep::ReportStopped => StopView::ReportStopped,
        }
    }
}

/// The line that announces an update, if that is what the service stops for.
pub open spec fn announcing(update: Option<&str>) -> Seq<StopView> {
    match update {
        Some(version) => seq![
            StopView::Announce(service_link::UPDATING_PREFIX@ + version@ + "\n"@),
        ],
        None => seq![],
    }
}

/// How the service stops. The trays stop while a coordinator that was asked to
/// does what it still has to do.
pub open spec fn stop_views(graceful: bool, coordinator: bool, update: Option<&str>) -> Seq<
    StopView,
> {
    if graceful && coordinator {
        seq![StopView::ReportPending] + announcing(update) + seq![
            StopView::CloseControl,
            StopView::StopTrays,
            StopView::AwaitExit,
            StopView::ReportStopped,
        ]
    } else if coordinator {
        seq![
            StopView::ReportPending,
            StopView::StopTrays,
            StopView::Terminate,
            StopView::ReportStopped,
        ]
    } else {
        seq![StopView::ReportPending, StopView::StopTrays, StopView::ReportStopped]
    }
}

/// The steps that stop the service: `coordinator` is whether one was started,
/// `update` the release that it stops for.
pub fn stop_steps(graceful: bool, coordinator: bool, update: Option<&str>) -> (steps: Vec<StopStep>)
    ensures
        steps@.map_values(|step: StopStep| step@) == stop_views(graceful, coordinator, update),
{
    let mut steps: Vec<StopStep> = Vec::new();
    steps.push(StopStep::ReportPending);
    if graceful && coordinator {
        if let Some(version) = update {
            steps.push(StopStep::Announce(announcement(version)));
        }
        steps.push(StopStep::CloseControl);
    }
    steps.push(StopStep::StopTrays);
    if coordinator {
        if graceful {
            steps.push(StopStep::AwaitExit);
        } else {
            steps.push(StopStep::Terminate);
        }
    }
    steps.push(StopStep::ReportStopped);
    assert(steps@.map_values(|step: StopStep| step@) =~= stop_views(graceful, coordinator, update));
    steps
}

/// A coordinator is waited for only once it was asked to stop, and it is told of
/// an update before that.
pub proof fn coordinator_is_asked_before_it_is_awaited(
    graceful: bool,
    coordinator: bool,
    update: Option<&str>,
    at: int,
)
    requires
        0 <= at < stop_views(graceful, coordinator, update).len(),
    ensures
        ({
            let steps = stop_views(graceful, coordinator, update);
            &&& steps[at] is AwaitExit ==> at >= 2 && steps[at - 2] is CloseControl
            &&& steps[at] is Announce ==> steps[at + 1] is CloseControl
            &&& steps[at] is ReportStopped <==> at == steps.len() - 1
        }),
{
}

/// How waiting for a coordinator that was asked to stop goes on.
#[derive(Debug, Clone, Copy, PartialEq, Eq, Structural)]
pub enum CoordinatorWait {
    Exited,
    /// Wait another second, and tell Windows so.
    Wait,
    Terminate,
}

pub fn wait_for_exit(running: bool, now_ms: u64, deadline_ms: u64) -> (wait: CoordinatorWait)
    ensures
        wait == (if !running {
            CoordinatorWait::Exited
        } else if now_ms >= deadline_ms {
            CoordinatorWait::Terminate
        } else {
            CoordinatorWait::Wait
        }),
{
    if !running {
        CoordinatorWait::Exited
    } else if now_ms >= deadline_ms {
        CoordinatorWait::Terminate
    } else {
        CoordinatorWait::Wait
    }
}

/// A check that runs is the last one for six hours, whatever happens then. One
/// that a session keeps from running comes up again after five minutes, and is
/// remembered to wait since it first came up; before it is due, time changes
/// nothing.
pub proof fn checks_are_six_hours_apart(
    schedule: UpdateSchedule,
    now: u64,
    session_active: bool,
    later: u64,
    active_later: bool,
)
    requires
        now + UPDATE_CHECK_INTERVAL <= u64::MAX,
    ensures
        ({
            let next = schedule.after(now, session_active);
            &&& schedule.runs(now, session_active) ==> next.deferred_since is None && (next.runs(
                later,
                active_later,
            ) ==> later >= now + 21_600_000) && (later >= now + 21_600_000 ==> next.runs(
                later,
                false,
            ))
            &&& now < schedule.next_check ==> next == schedule && !schedule.runs(
                now,
                session_active,
            )
            &&& now >= schedule.next_check && !schedule.runs(now, session_active) ==> session_active
                && (later >= now + 300_000 <==> next.runs(later, false))
                && next.deferred_since == Some(
                match schedule.deferred_since {
                    Some(since) => since,
                    None => now,
                },
            )
        }),
{
}

/// While a session goes on, a check that waits since some time runs a day after
/// that and not before, and one that does not wait yet does not run.
pub proof fn sessions_keep_checks_waiting_for_a_day(schedule: UpdateSchedule, now: u64)
    requires
        now >= schedule.next_check,
    ensures
        schedule.deferred_since is None ==> !schedule.runs(now, true),
        schedule.deferred_since matches Some(since) ==> (schedule.runs(now, true) <==> now >= since
            + 24 * 60 * 60 * 1000),
{
}

/// An executable in a directory of the former name on a drive belongs to the
/// former service however the name is written, and however deep the directory
/// is; one whose directories all have other names does not.
pub proof fn former_directories_are_recognised(
    letter: char,
    before: Seq<char>,
    name: Seq<char>,
    file: Seq<char>,
)
    requires
        65 <= letter as u32 <= 90 || 97 <= letter as u32 <= 122,
        forall|i: int| 0 <= i < before.len() ==> before[i] != '\\' && before[i] != '/',
        forall|i: int| 0 <= i < name.len() ==> name[i] != '\\' && name[i] != '/',
        forall|i: int| 0 <= i < file.len() ==> file[i] != '\\' && file[i] != '/',
    ensures
        is_legacy(
            seq![letter, ':', '\\'] + (before + seq!['\\'] + (name + seq!['\\'] + file)),
        ) <==> text::folded(before) == text::folded("PulseRMM"@) || text::folded(name)
            == text::folded("PulseRMM"@) || text::folded(file) == text::folded("PulseRMM"@),
{
    let inner = name + seq!['\\'] + file;
    let tail = before + seq!['\\'] + inner;
    let path = seq![letter, ':', '\\'] + tail;
    assert(has_drive(path));
    assert(letter != '\\' && letter != '/');
    assert(path[0] == letter && path[1] == ':' && path[2] == '\\');
    assert(prefix_length(path) == 2);
    assert(!is_verbatim(path));
    let rest = path.skip(2);
    assert(rest[0] == '\\');
    assert(rest.skip(1) =~= tail);
    lemma_component(before, inner);
    lemma_component(name, file);
    lemma_last_component(file);
}

proof fn lemma_component(piece: Seq<char>, after: Seq<char>)
    requires
        forall|i: int| 0 <= i < piece.len() ==> piece[i] != '\\' && piece[i] != '/',
    ensures
        has_component(piece + seq!['\\'] + after, false, "PulseRMM"@) <==> text::folded(piece)
            == text::folded("PulseRMM"@) || has_component(after, false, "PulseRMM"@),
{
    lemma_first_piece(piece, after);
    assert((piece + seq!['\\'] + after).take(piece.len() as int) =~= piece);
}

proof fn lemma_last_component(piece: Seq<char>)
    requires
        forall|i: int| 0 <= i < piece.len() ==> piece[i] != '\\' && piece[i] != '/',
    ensures
        has_component(piece, false, "PulseRMM"@) <==> text::folded(piece) == text::folded(
            "PulseRMM"@,
        ),
{
    lemma_piece(piece, false, piece.len() as int);
    assert(piece.take(piece.len() as int) =~= piece);
}

/// A path on another computer belongs to no former installation for the names of
/// its server and its share, whatever they are: those are no directories.
pub proof fn shares_are_no_directories(server: Seq<char>, share: Seq<char>, file: Seq<char>)
    requires
        server.len() > 0,
        share.len() > 0,
        server[0] != '?',
        server[0] != '.',
        forall|i: int| 0 <= i < server.len() ==> server[i] != '\\' && server[i] != '/',
        forall|i: int| 0 <= i < share.len() ==> share[i] != '\\' && share[i] != '/',
        forall|i: int| 0 <= i < file.len() ==> file[i] != '\\' && file[i] != '/',
    ensures
        is_legacy(
            seq!['\\', '\\'] + (server + seq!['\\'] + (share + seq!['\\'] + file)),
        ) <==> text::folded(file) == text::folded("PulseRMM"@),
{
    let inner = share + seq!['\\'] + file;
    let tail = server + seq!['\\'] + inner;
    let path = seq!['\\', '\\'] + tail;
    lemma_share(server, share, file);
    assert(path.skip(2) =~= tail);
    assert(path[0] == '\\' && path[1] == '\\' && path[2] == server[0]);
    assert(!is_verbatim(path));
    let length = server.len() as int + 1 + share.len() as int;
    assert(prefix_length(path) == 2 + length);
    let rest = path.skip(2 + length);
    assert(rest =~= seq!['\\'] + file) by {
        assert(path.skip(2 + length) =~= tail.skip(length));
        assert(tail.skip(length) =~= seq!['\\'] + file);
    }
    assert(rest.skip(1) =~= file);
    lemma_last_component(file);
}

proof fn lemma_first_piece(piece: Seq<char>, after: Seq<char>)
    requires
        forall|i: int| 0 <= i < piece.len() ==> piece[i] != '\\' && piece[i] != '/',
    ensures
        piece_length(piece + seq!['\\'] + after, false) == piece.len(),
        (piece + seq!['\\'] + after).skip(piece.len() as int + 1) == after,
{
    let path = piece + seq!['\\'] + after;
    assert forall|i: int| 0 <= i < piece.len() implies !is_separator(path[i], false) by {
        assert(path[i] == piece[i]);
    }
    assert(path[piece.len() as int] == '\\');
    lemma_piece(path, false, piece.len() as int);
    assert(path.skip(piece.len() as int + 1) =~= after);
}

proof fn lemma_share(server: Seq<char>, share: Seq<char>, file: Seq<char>)
    requires
        share.len() > 0,
        forall|i: int| 0 <= i < server.len() ==> server[i] != '\\' && server[i] != '/',
        forall|i: int| 0 <= i < share.len() ==> share[i] != '\\' && share[i] != '/',
    ensures
        ({
            let tail = server + seq!['\\'] + (share + seq!['\\'] + file);
            &&& piece_length(tail, false) == server.len()
            &&& share_length(tail, false) == server.len() + 1 + share.len()
        }),
{
    lemma_first_piece(server, share + seq!['\\'] + file);
    lemma_first_piece(share, file);
}

/// What a line says does not depend on the spaces, tabs and line ends around it.
pub proof fn blanks_around_a_line_say_nothing(before: Seq<u8>, word: Seq<u8>, after: Seq<u8>)
    requires
        word.len() > 0,
        forall|i: int|
            0 <= i < before.len() ==> before[i] == 9 || before[i] == 10 || before[i] == 12
                || before[i] == 13 || before[i] == 32,
        forall|i: int|
            0 <= i < after.len() ==> after[i] == 9 || after[i] == 10 || after[i] == 12 || after[i]
                == 13 || after[i] == 32,
        33 <= word[0],
        33 <= word.last(),
    ensures
        stripped(before + word + after) == word,
{
    let line = before + word + after;
    let start = before.len() as int;
    let end = start + word.len() as int;
    assert forall|i: int| 0 <= i < start implies is_blank(line[i]) by {
        assert(line[i] == before[i]);
    }
    assert forall|i: int| end <= i < line.len() implies is_blank(line[i]) by {
        assert(line[i] == after[i - end]);
    }
    assert(line[start] == word[0]);
    assert(line[end - 1] == word[word.len() - 1]);
    lemma_stripped(line, start, end);
    assert(line.subrange(start, end) =~= word);
}

/// The coordinator is ended at once only where it cannot be asked to stop, and a
/// service without one waits for nothing. Windows is told first that the service
/// is stopping, the trays always stop, and an update is announced only to a
/// coordinator that can still hear of it, once, by its version.
pub proof fn stopping_leaves_nothing_running(
    graceful: bool,
    coordinator: bool,
    update: Option<&str>,
)
    ensures
        ({
            let steps = stop_views(graceful, coordinator, update);
            &&& steps[0] == StopView::ReportPending
            &&& steps.last() == StopView::ReportStopped
            &&& steps.contains(StopView::StopTrays)
            &&& steps.contains(StopView::Terminate) <==> coordinator && !graceful
            &&& steps.contains(StopView::CloseControl) <==> coordinator && graceful
            &&& steps.contains(StopView::AwaitExit) <==> coordinator && graceful
            &&& forall|line: Seq<char>| #[trigger]
                steps.contains(StopView::Announce(line)) ==> coordinator && graceful && update
                    is Some && line == "updating "@ + update->0@ + "\n"@
            &&& coordinator && graceful && update is Some ==> steps.contains(
                StopView::Announce("updating "@ + update->0@ + "\n"@),
            )
        }),
{
    let steps = stop_views(graceful, coordinator, update);
    if graceful && coordinator {
        if update is Some {
            assert(steps[1] is Announce);
            assert(steps[2] is CloseControl);
            assert(steps[3] is StopTrays);
            assert(steps[4] is AwaitExit);
        } else {
            assert(steps[1] is CloseControl);
            assert(steps[2] is StopTrays);
            assert(steps[3] is AwaitExit);
        }
    } else if coordinator {
        assert(steps[1] is StopTrays);
        assert(steps[2] is Terminate);
    } else {
        assert(steps[1] is StopTrays);
    }
}

proof fn lemma_head(piece: Seq<char>, separator: char, after: Seq<char>, verbatim: bool)
    requires
        forall|i: int| 0 <= i < piece.len() ==> !is_separator(#[trigger] piece[i], verbatim),
        is_separator(separator, verbatim),
    ensures
        ({
            let path = piece + seq![separator] + after;
            &&& piece_length(path, verbatim) == piece.len()
            &&& path.skip(piece.len() as int + 1) == after
            &&& has_component(path, verbatim, "PulseRMM"@) <==> text::folded(piece)
                == text::folded("PulseRMM"@) || has_component(after, verbatim, "PulseRMM"@)
        }),
{
    let path = piece + seq![separator] + after;
    assert forall|i: int| 0 <= i < piece.len() implies !is_separator(path[i], verbatim) by {
        assert(path[i] == piece[i]);
    }
    assert(path[piece.len() as int] == separator);
    lemma_piece(path, verbatim, piece.len() as int);
    assert(path.take(piece.len() as int) =~= piece);
    assert(path.skip(piece.len() as int + 1) =~= after);
}

proof fn lemma_last(piece: Seq<char>, verbatim: bool)
    requires
        forall|i: int| 0 <= i < piece.len() ==> !is_separator(#[trigger] piece[i], verbatim),
    ensures
        has_component(piece, verbatim, "PulseRMM"@) <==> text::folded(piece) == text::folded(
            "PulseRMM"@,
        ),
{
    lemma_piece(piece, verbatim, piece.len() as int);
    assert(piece.take(piece.len() as int) =~= piece);
}

/// Slashes separate directories as backslashes do.
pub proof fn slashes_separate_directories(letter: char, directory: Seq<char>, file: Seq<char>)
    requires
        65 <= letter as u32 <= 90 || 97 <= letter as u32 <= 122,
        forall|i: int|
            0 <= i < directory.len() ==> #[trigger] directory[i] != '\\' && directory[i] != '/',
        forall|i: int| 0 <= i < file.len() ==> #[trigger] file[i] != '\\' && file[i] != '/',
    ensures
        is_legacy(seq![letter, ':', '/'] + (directory + seq!['/'] + file)) <==> text::folded(
            directory,
        ) == text::folded("PulseRMM"@) || text::folded(file) == text::folded("PulseRMM"@),
{
    let tail = directory + seq!['/'] + file;
    let path = seq![letter, ':', '/'] + tail;
    assert(letter != '\\' && letter != '/');
    assert(path[0] == letter && path[1] == ':' && path[2] == '/');
    assert(prefix_length(path) == 2);
    assert(path.skip(2)[0] == '/');
    assert(path.skip(2).skip(1) =~= tail);
    lemma_head(directory, '/', file, false);
    lemma_last(file, false);
}

/// In a verbatim path only backslashes do; what they separate are directories once
/// the drive is past.
pub proof fn verbatim_paths_are_split_at_backslashes(
    letter: char,
    directory: Seq<char>,
    file: Seq<char>,
)
    requires
        65 <= letter as u32 <= 90 || 97 <= letter as u32 <= 122,
        forall|i: int| 0 <= i < directory.len() ==> #[trigger] directory[i] != '\\',
        forall|i: int| 0 <= i < file.len() ==> #[trigger] file[i] != '\\',
    ensures
        is_legacy(
            seq!['\\', '\\', '?', '\\', letter, ':', '\\'] + (directory + seq!['\\'] + file),
        ) <==> text::folded(directory) == text::folded("PulseRMM"@) || text::folded(file)
            == text::folded("PulseRMM"@),
{
    let tail = directory + seq!['\\'] + file;
    let path = seq!['\\', '\\', '?', '\\', letter, ':', '\\'] + tail;
    assert(path[0] == '\\' && path[1] == '\\' && path[2] == '?' && path[3] == '\\');
    assert(path[4] == letter && path[5] == ':' && path[6] == '\\');
    let inner = path.skip(4);
    assert(inner[0] == letter && inner[1] == ':' && inner[2] == '\\');
    assert(is_exact_drive(inner));
    assert(prefix_length(path) == 6);
    assert(path.skip(6)[0] == '\\');
    assert(path.skip(6).skip(1) =~= tail);
    lemma_head(directory, '\\', file, true);
    lemma_last(file, true);
}

/// A verbatim path without a drive, or with more behind the colon than a drive has,
/// begins with a device, whose name is no directory.
pub proof fn verbatim_devices_are_no_directories(device: Seq<char>, file: Seq<char>)
    requires
        device.len() > 3,
        device[1] != ':' || device[2] != '/',
        device[3] != '/',
        forall|i: int| 0 <= i < device.len() ==> #[trigger] device[i] != '\\',
        forall|i: int| 0 <= i < file.len() ==> #[trigger] file[i] != '\\',
    ensures
        is_legacy(seq!['\\', '\\', '?', '\\'] + (device + seq!['\\'] + file))
            <==> text::folded(file) == text::folded("PulseRMM"@),
{
    let tail = device + seq!['\\'] + file;
    let path = seq!['\\', '\\', '?', '\\'] + tail;
    assert(path[0] == '\\' && path[1] == '\\' && path[2] == '?' && path[3] == '\\');
    assert(path.skip(4) =~= tail);
    assert(tail[1] == device[1] && tail[2] == device[2] && tail[3] == device[3]);
    assert(path[7] == device[3]);
    assert(!is_exact_drive(tail));
    lemma_head(device, '\\', file, true);
    assert(prefix_length(path) == 4 + device.len());
    let rest = path.skip(4 + device.len() as int);
    assert(rest =~= seq!['\\'] + file);
    assert(rest.skip(1) =~= file);
    lemma_last(file, true);
}

/// The server and the share of a verbatim path are no directories.
pub proof fn verbatim_shares_are_no_directories(
    server: Seq<char>,
    share: Seq<char>,
    file: Seq<char>,
)
    requires
        share.len() > 0,
        forall|i: int| 0 <= i < server.len() ==> #[trigger] server[i] != '\\',
        forall|i: int| 0 <= i < share.len() ==> #[trigger] share[i] != '\\',
        forall|i: int| 0 <= i < file.len() ==> #[trigger] file[i] != '\\',
    ensures
        is_legacy(
            seq!['\\', '\\', '?', '\\', 'U', 'N', 'C', '\\'] + (server + seq!['\\'] + (share
                + seq!['\\'] + file)),
        ) <==> text::folded(file) == text::folded("PulseRMM"@),
{
    let inner = share + seq!['\\'] + file;
    let tail = server + seq!['\\'] + inner;
    let path = seq!['\\', '\\', '?', '\\', 'U', 'N', 'C', '\\'] + tail;
    assert(path[0] == '\\' && path[1] == '\\' && path[2] == '?' && path[3] == '\\');
    assert(path[4] == 'U' && path[5] == 'N' && path[6] == 'C' && path[7] == '\\');
    assert(path.skip(8) =~= tail);
    lemma_head(server, '\\', inner, true);
    lemma_head(share, '\\', file, true);
    let length = server.len() as int + 1 + share.len() as int;
    assert(share_length(tail, true) == length);
    assert(prefix_length(path) == 8 + length);
    let rest = path.skip(8 + length);
    assert(rest =~= seq!['\\'] + file) by {
        assert(rest =~= tail.skip(length));
        assert(tail.skip(length) =~= seq!['\\'] + file);
    }
    assert(rest.skip(1) =~= file);
    lemma_last(file, true);
}

/// The name of a device is no directory.
pub proof fn devices_are_no_directories(device: Seq<char>, file: Seq<char>)
    requires
        forall|i: int| 0 <= i < device.len() ==> #[trigger] device[i] != '\\' && device[i] != '/',
        forall|i: int| 0 <= i < file.len() ==> #[trigger] file[i] != '\\' && file[i] != '/',
    ensures
        is_legacy(seq!['\\', '\\', '.', '\\'] + (device + seq!['\\'] + file))
            <==> text::folded(file) == text::folded("PulseRMM"@),
{
    let tail = device + seq!['\\'] + file;
    let path = seq!['\\', '\\', '.', '\\'] + tail;
    assert(path[0] == '\\' && path[1] == '\\' && path[2] == '.' && path[3] == '\\');
    assert(path.skip(4) =~= tail);
    lemma_head(device, '\\', file, false);
    assert(prefix_length(path) == 4 + device.len());
    let rest = path.skip(4 + device.len() as int);
    assert(rest =~= seq!['\\'] + file);
    assert(rest.skip(1) =~= file);
    lemma_last(file, false);
}

/// A path that begins with no drive begins with a directory, behind a backslash or
/// not; and so does one that begins with a drive and no backslash.
pub proof fn other_paths_begin_with_a_directory(
    letter: char,
    directory: Seq<char>,
    file: Seq<char>,
)
    requires
        65 <= letter as u32 <= 90 || 97 <= letter as u32 <= 122,
        directory.len() > 0,
        directory.len() > 1 ==> directory[1] != ':',
        forall|i: int|
            0 <= i < directory.len() ==> #[trigger] directory[i] != '\\' && directory[i] != '/',
        forall|i: int| 0 <= i < file.len() ==> #[trigger] file[i] != '\\' && file[i] != '/',
    ensures
        ({
            let path = directory + seq!['\\'] + file;
            let former = text::folded(directory) == text::folded("PulseRMM"@) || text::folded(file)
                == text::folded("PulseRMM"@);
            &&& is_legacy(path) <==> former
            &&& is_legacy(seq!['\\'] + path) <==> former
            &&& is_legacy(seq![letter, ':'] + path) <==> former
        }),
{
    let path = directory + seq!['\\'] + file;
    lemma_head(directory, '\\', file, false);
    lemma_last(file, false);
    assert(path[0] == directory[0]);
    assert(directory.len() > 1 ==> path[1] == directory[1]);
    assert(directory.len() == 1 ==> path[1] == '\\');
    assert(prefix_length(path) == 0);
    assert(path.skip(0) =~= path);
    let rooted = seq!['\\'] + path;
    assert(rooted[0] == '\\' && rooted[1] == directory[0]);
    assert(prefix_length(rooted) == 0);
    assert(rooted.skip(0) =~= rooted);
    assert(rooted.skip(1) =~= path);
    let driven = seq![letter, ':'] + path;
    assert(letter != '\\' && letter != '/');
    assert(driven[0] == letter && driven[1] == ':' && driven[2] == directory[0]);
    assert(prefix_length(driven) == 2);
    assert(driven.skip(2) =~= path);
}

} // verus!
