//! Updates: which release is tried, what its files are called, and how an
//! installed executable is replaced without ever leaving the endpoint offline.
use crate::failure::Failure;
use crate::text;
use crate::text::{
    ends_ignoring_case, joined, joined3, parse_u32, push_decimal, push_str, same_ignoring_case,
    same_text, starts_ignoring_case,
};
use vstd::prelude::*;

verus! {

/// How often a release is tried per window.
pub const MAX_ATTEMPTS_PER_VERSION: u32 = 3;

/// The window in which a release is tried only so often.
pub const ATTEMPT_WINDOW_SECONDS: u64 = 86_400;

pub const ATTEMPTS_FILE: &'static str = "update-attempts.json";

pub const MAX_MANIFEST_BYTES: u64 = 1_048_576;

pub const MAX_UPDATE_BYTES: u64 = 268_435_456;

/// The attempts at the release that was offered last.
#[derive(Debug)]
pub struct UpdateAttempts {
    pub version: String,
    pub attempts: u32,
    pub first_attempt_unix: u64,
}

pub struct AttemptsView {
    pub version: Seq<char>,
    pub attempts: u32,
    pub first_attempt_unix: u64,
}

impl View for UpdateAttempts {
    type V = AttemptsView;

    open spec fn view(&self) -> AttemptsView {
        AttemptsView {
            version: self.version@,
            attempts: self.attempts,
            first_attempt_unix: self.first_attempt_unix,
        }
    }
}

/// Whether a record counts against a release now. One from the future does not:
/// a clock that is set back must not hold updates up.
pub open spec fn counts(previous: AttemptsView, version: Seq<char>, now: u64) -> bool {
    previous.version == version && previous.first_attempt_unix <= now && now
        - previous.first_attempt_unix < ATTEMPT_WINDOW_SECONDS
}

/// The record to store before the next attempt, if one is left.
pub open spec fn next_attempt(previous: Option<AttemptsView>, version: Seq<char>, now: u64) -> Option<
    AttemptsView,
> {
    if previous is Some && counts(previous->Some_0, version, now) {
        let previous = previous->Some_0;
        if previous.attempts < MAX_ATTEMPTS_PER_VERSION {
            Some(
                AttemptsView {
                    version,
                    attempts: (previous.attempts + 1) as u32,
                    first_attempt_unix: previous.first_attempt_unix,
                },
            )
        } else {
            None
        }
    } else {
        Some(AttemptsView { version, attempts: 1, first_attempt_unix: now })
    }
}

pub open spec fn viewed(previous: Option<&UpdateAttempts>) -> Option<AttemptsView> {
    match previous {
        Some(record) => Some(record@),
        None => None,
    }
}

impl UpdateAttempts {
    /// The record to store before trying `version`, or nothing once it has used
    /// its attempts in the current window.
    pub fn next(previous: Option<&UpdateAttempts>, version: &str, now: u64) -> (record: Option<Self>)
        ensures
            match record {
                Some(next) => next_attempt(viewed(previous), version@, now) == Some(next@),
                None => next_attempt(viewed(previous), version@, now) is None,
            },
    {
        if let Some(record) = previous {
            if same_text(record.version.as_str(), version) && record.first_attempt_unix <= now
                && now - record.first_attempt_unix < ATTEMPT_WINDOW_SECONDS {
                if record.attempts >= MAX_ATTEMPTS_PER_VERSION {
                    return None;
                }
                return Some(
                    UpdateAttempts {
                        version: version.to_owned(),
                        attempts: record.attempts + 1,
                        first_attempt_unix: record.first_attempt_unix,
                    },
                );
            }
        }
        Some(UpdateAttempts { version: version.to_owned(), attempts: 1, first_attempt_unix: now })
    }
}

/// How many of a series of checks, at the given times and all for one release,
/// lead to an attempt.
pub open spec fn attempts_made(previous: Option<AttemptsView>, version: Seq<char>, times: Seq<u64>) -> (
nat, Option<AttemptsView>)
    decreases times.len(),
{
    if times.len() == 0 {
        (0, previous)
    } else {
        let (made, record) = attempts_made(previous, version, times.drop_last());
        match next_attempt(record, version, times.last()) {
            Some(next) => (made + 1, Some(next)),
            None => (made, record),
        }
    }
}

/// A release that keeps failing is tried at most so often within a window, no
/// matter how often it is checked for.
pub proof fn attempts_are_limited(version: Seq<char>, start: u64, times: Seq<u64>)
    requires
        forall|i: int| 0 <= i < times.len() ==> start <= #[trigger] times[i] && times[i] - start
            < ATTEMPT_WINDOW_SECONDS,
        times.len() > 0 ==> times[0] == start,
    ensures
        attempts_made(None, version, times).0 <= MAX_ATTEMPTS_PER_VERSION,
    decreases times.len(),
{
    lemma_attempts(version, start, times);
}

proof fn lemma_attempts(version: Seq<char>, start: u64, times: Seq<u64>)
    requires
        forall|i: int| 0 <= i < times.len() ==> start <= #[trigger] times[i] && times[i] - start
            < ATTEMPT_WINDOW_SECONDS,
        times.len() > 0 ==> times[0] == start,
    ensures
        ({
            let (made, record) = attempts_made(None, version, times);
            &&& made <= MAX_ATTEMPTS_PER_VERSION
            &&& times.len() == 0 ==> record is None && made == 0
            &&& times.len() > 0 ==> record == Some(
                AttemptsView { version, attempts: made as u32, first_attempt_unix: start },
            ) && made > 0
        }),
    decreases times.len(),
{
    if times.len() > 0 {
        let shorter = times.drop_last();
        assert forall|i: int| 0 <= i < shorter.len() implies start <= #[trigger] shorter[i]
            && shorter[i] - start < ATTEMPT_WINDOW_SECONDS by {
            assert(shorter[i] == times[i]);
        }
        lemma_attempts(version, start, shorter);
        assert(start <= times[times.len() - 1]);
    }
}

/// Whether a file is one that an update leaves behind.
pub open spec fn names_update_file(name: Seq<char>) -> bool {
    text::closes_ignoring_case(name, ".exe"@) && (text::begins_ignoring_case(
        name,
        "update-helper-"@,
    ) || text::begins_ignoring_case(name, "agent-"@))
}

pub fn is_update_file(name: &str) -> (found: bool)
    ensures
        found == names_update_file(name@),
{
    ends_ignoring_case(name, ".exe") && (starts_ignoring_case(name, "update-helper-")
        || starts_ignoring_case(name, "agent-"))
}

/// Whether an entry of the update directory is removed.
pub fn is_stale(plain_file: bool, name: &str) -> (stale: bool)
    ensures
        stale == (plain_file && names_update_file(name@)),
{
    plain_file && is_update_file(name)
}

/// What marks the files of one update.
pub open spec fn suffix(process_id: u32, now_ms: u64) -> Seq<char> {
    text::decimal(process_id as nat) + "-"@ + text::decimal(now_ms as nat)
}

pub fn unique_suffix(process_id: u32, now_ms: u64) -> (text: String)
    ensures
        text@ == suffix(process_id, now_ms),
{
    let mut text = String::new();
    push_decimal(&mut text, process_id as u64);
    push_str(&mut text, "-");
    push_decimal(&mut text, now_ms);
    assert(text@ =~= suffix(process_id, now_ms));
    text
}

pub open spec fn staged_file(version: Seq<char>, suffix: Seq<char>) -> Seq<char> {
    "agent-"@ + version + "-"@ + suffix + ".exe"@
}

/// What a downloaded release is called.
pub fn staged_name(version: &str, suffix: &str) -> (name: String)
    ensures
        name@ == staged_file(version@, suffix@),
{
    let mut name = joined3("agent-", version, "-");
    push_str(&mut name, suffix);
    push_str(&mut name, ".exe");
    name
}

pub open spec fn helper_file(suffix: Seq<char>) -> Seq<char> {
    "update-helper-"@ + suffix + ".exe"@
}

/// What the copy of the agent that installs it is called.
pub fn helper_name(suffix: &str) -> (name: String)
    ensures
        name@ == helper_file(suffix@),
{
    joined3("update-helper-", suffix, ".exe")
}

/// Every file that an update creates is recognized when it is left behind.
pub proof fn update_files_are_recognized(version: Seq<char>, suffix: Seq<char>)
    ensures
        names_update_file(staged_file(version, suffix)),
        names_update_file(helper_file(suffix)),
{
    let staged = staged_file(version, suffix);
    assert(staged.take("agent-"@.len() as int) =~= "agent-"@);
    assert(staged.skip(staged.len() - ".exe"@.len()) =~= ".exe"@);
    let helper = helper_file(suffix);
    assert(helper.take("update-helper-"@.len() as int) =~= "update-helper-"@);
    assert(helper.skip(helper.len() - ".exe"@.len()) =~= ".exe"@);
}

/// Whether a download can be a Windows executable.
pub fn is_executable(bytes: &[u8]) -> (executable: bool)
    ensures
        executable == (bytes@.len() >= 2 && bytes@[0] == 0x4d && bytes@[1] == 0x5a),
{
    bytes.len() >= 2 && bytes[0] == 0x4d && bytes[1] == 0x5a
}

/// What a check for a release comes to.
#[derive(Debug, Clone, Copy, PartialEq, Eq, Structural)]
pub enum CheckResult {
    /// Nothing to do until the next check.
    Nothing,
    /// The release was tried often enough.
    GivenUp,
    /// The release is downloaded and tried.
    Download,
}

/// What to do about the release on offer, given the attempts that were made.
pub fn check_release(
    newer: Option<&str>,
    previous: Option<&UpdateAttempts>,
    now: u64,
) -> (result: (CheckResult, Option<UpdateAttempts>))
    ensures
        match newer {
            None => result.0 == CheckResult::Nothing && result.1 is None,
            Some(version) => match next_attempt(viewed(previous), version@, now) {
                Some(next) => result.0 == CheckResult::Download && result.1 is Some
                    && result.1->Some_0@ == next,
                None => result.0 == CheckResult::GivenUp && result.1 is None,
            },
        },
{
    match newer {
        None => (CheckResult::Nothing, None),
        Some(version) => match UpdateAttempts::next(previous, version, now) {
            Some(next) => (CheckResult::Download, Some(next)),
            None => (CheckResult::GivenUp, None),
        },
    }
}

/// A step of a check for updates, up to the start of the helper that installs
/// one.
#[derive(Debug, Clone, Copy, PartialEq, Eq, Structural)]
pub enum CheckStep {
    DownloadManifest,
    /// Read the manifest and look for a newer release in it.
    ReadManifest,
    /// Make the update directory private.
    PrepareDirectory,
    /// Read the attempts that were made; see `check_release`.
    ReadAttempts,
    Download,
    /// Compare the download with what the manifest says of it.
    Verify,
    /// See that the download can be run; see `is_executable`.
    Inspect,
    /// Find the executable that runs, which the helper is a copy of.
    LocateExecutable,
    CreateStaged,
    WriteStaged,
    /// See that the staged executable is on disk.
    FlushStaged,
    CopyHelper,
    RecordAttempt,
    StartHelper,
}

/// The step after one that worked; none after the last.
pub open spec fn step_after(step: CheckStep) -> Option<CheckStep> {
    match step {
        CheckStep::DownloadManifest => Some(CheckStep::ReadManifest),
        CheckStep::ReadManifest => Some(CheckStep::PrepareDirectory),
        CheckStep::PrepareDirectory => Some(CheckStep::ReadAttempts),
        CheckStep::ReadAttempts => Some(CheckStep::Download),
        CheckStep::Download => Some(CheckStep::Verify),
        CheckStep::Verify => Some(CheckStep::Inspect),
        CheckStep::Inspect => Some(CheckStep::LocateExecutable),
        CheckStep::LocateExecutable => Some(CheckStep::CreateStaged),
        CheckStep::CreateStaged => Some(CheckStep::WriteStaged),
        CheckStep::WriteStaged => Some(CheckStep::FlushStaged),
        CheckStep::FlushStaged => Some(CheckStep::CopyHelper),
        CheckStep::CopyHelper => Some(CheckStep::RecordAttempt),
        CheckStep::RecordAttempt => Some(CheckStep::StartHelper),
        CheckStep::StartHelper => None,
    }
}

/// What is said of a step that failed, given where the staged executable and the
/// helper are.
pub open spec fn step_context(step: CheckStep, staged: Seq<char>, helper: Seq<char>) -> Option<
    Seq<char>,
> {
    match step {
        CheckStep::DownloadManifest => Some("failed to download the Agent update manifest"@),
        CheckStep::PrepareDirectory => Some(
            "failed to prepare a private Agent update directory"@,
        ),
        CheckStep::Download => Some("failed to download the Agent update"@),
        CheckStep::LocateExecutable => Some("could not locate the Agent executable"@),
        CheckStep::CreateStaged => Some("failed to create staged update "@ + staged),
        CheckStep::WriteStaged => Some("failed to write staged update "@ + staged),
        CheckStep::FlushStaged => Some("failed to flush staged update "@ + staged),
        CheckStep::CopyHelper => Some("failed to create Agent update helper "@ + helper),
        CheckStep::RecordAttempt => Some("failed to record the Agent update attempt"@),
        CheckStep::StartHelper => Some("failed to start Agent update helper "@ + helper),
        CheckStep::ReadManifest => None,
        CheckStep::ReadAttempts => None,
        CheckStep::Verify => None,
        CheckStep::Inspect => None,
    }
}

fn context_of(step: CheckStep, staged: &str, helper: &str) -> (context: Option<String>)
    ensures
        match step_context(step, staged@, helper@) {
            Some(text) => context is Some && context->Some_0@ == text,
            None => context is None,
        },
{
    match step {
        CheckStep::DownloadManifest => Some(
            "failed to download the Agent update manifest".to_owned(),
        ),
        CheckStep::PrepareDirectory => Some(
            "failed to prepare a private Agent update directory".to_owned(),
        ),
        CheckStep::Download => Some("failed to download the Agent update".to_owned()),
        CheckStep::LocateExecutable => Some("could not locate the Agent executable".to_owned()),
        CheckStep::CreateStaged => Some(joined("failed to create staged update ", staged)),
        CheckStep::WriteStaged => Some(joined("failed to write staged update ", staged)),
        CheckStep::FlushStaged => Some(joined("failed to flush staged update ", staged)),
        CheckStep::CopyHelper => Some(joined("failed to create Agent update helper ", helper)),
        CheckStep::RecordAttempt => Some("failed to record the Agent update attempt".to_owned()),
        CheckStep::StartHelper => Some(joined("failed to start Agent update helper ", helper)),
        CheckStep::ReadManifest => None,
        CheckStep::ReadAttempts => None,
        CheckStep::Verify => None,
        CheckStep::Inspect => None,
    }
}

/// Whether a step may leave files of the update behind when it fails.
pub open spec fn leaves_files(step: CheckStep) -> bool {
    step == CheckStep::CreateStaged || step == CheckStep::WriteStaged || step
        == CheckStep::FlushStaged || step == CheckStep::CopyHelper || step
        == CheckStep::RecordAttempt || step == CheckStep::StartHelper
}

/// How a step of a check went.
#[derive(Debug)]
pub enum StepOutcome {
    Done,
    /// There is nothing newer, or it was tried often enough.
    NothingToDo,
    /// The configuration is in no directory.
    NoDirectory,
    /// The download is no Windows executable.
    NotExecutable,
    Failed(Failure),
}

/// What a check does next.
#[derive(Debug)]
pub enum Checking {
    Step(CheckStep),
    /// No update is under way.
    Nothing,
    /// The helper runs; the service stops for it.
    Scheduled,
    /// The staged executable and the helper are removed first, where `remove`
    /// says so.
    Failed { failure: Failure, remove: bool },
}

pub enum CheckingView {
    Step(CheckStep),
    Nothing,
    Scheduled,
    Failed { failure: Seq<Seq<char>>, remove: bool },
}

impl View for Checking {
    type V = CheckingView;

    open spec fn view(&self) -> CheckingView {
        match *self {
            Checking::Step(step) => CheckingView::Step(step),
            Checking::Nothing => CheckingView::Nothing,
            Checking::Scheduled => CheckingView::Scheduled,
            Checking::Failed { failure, remove } => CheckingView::Failed {
                failure: failure@,
                remove,
            },
        }
    }
}

pub open spec fn checked(
    step: CheckStep,
    outcome: StepOutcome,
    staged: Seq<char>,
    helper: Seq<char>,
) -> CheckingView {
    match outcome {
        StepOutcome::Done => match step_after(step) {
            Some(next) => CheckingView::Step(next),
            None => CheckingView::Scheduled,
        },
        StepOutcome::NothingToDo => CheckingView::Nothing,
        StepOutcome::NoDirectory => CheckingView::Failed {
            failure: seq!["Agent configuration has no parent directory"@],
            remove: leaves_files(step),
        },
        StepOutcome::NotExecutable => CheckingView::Failed {
            failure: seq!["downloaded Agent update is not a Windows executable"@],
            remove: leaves_files(step),
        },
        StepOutcome::Failed(failure) => CheckingView::Failed {
            failure: match step_context(step, staged, helper) {
                Some(context) => seq![context] + failure@,
                None => failure@,
            },
            remove: leaves_files(step),
        },
    }
}

/// Takes how a step of a check went. The first step is `DownloadManifest`.
/// `staged` and `helper` are where the staged executable and the helper are, as
/// they are shown.
pub fn check_and_schedule(step: CheckStep, outcome: StepOutcome, staged: &str, helper: &str) -> (next:
    Checking)
    ensures
        next@ == checked(step, outcome, staged@, helper@),
{
    let remove = step == CheckStep::CreateStaged || step == CheckStep::WriteStaged || step
        == CheckStep::FlushStaged || step == CheckStep::CopyHelper || step
        == CheckStep::RecordAttempt || step == CheckStep::StartHelper;
    match outcome {
        StepOutcome::Done => match step {
            CheckStep::DownloadManifest => Checking::Step(CheckStep::ReadManifest),
            CheckStep::ReadManifest => Checking::Step(CheckStep::PrepareDirectory),
            CheckStep::PrepareDirectory => Checking::Step(CheckStep::ReadAttempts),
            CheckStep::ReadAttempts => Checking::Step(CheckStep::Download),
            CheckStep::Download => Checking::Step(CheckStep::Verify),
            CheckStep::Verify => Checking::Step(CheckStep::Inspect),
            CheckStep::Inspect => Checking::Step(CheckStep::LocateExecutable),
            CheckStep::LocateExecutable => Checking::Step(CheckStep::CreateStaged),
            CheckStep::CreateStaged => Checking::Step(CheckStep::WriteStaged),
            CheckStep::WriteStaged => Checking::Step(CheckStep::FlushStaged),
            CheckStep::FlushStaged => Checking::Step(CheckStep::CopyHelper),
            CheckStep::CopyHelper => Checking::Step(CheckStep::RecordAttempt),
            CheckStep::RecordAttempt => Checking::Step(CheckStep::StartHelper),
            CheckStep::StartHelper => Checking::Scheduled,
        },
        StepOutcome::NothingToDo => Checking::Nothing,
        StepOutcome::NoDirectory => Checking::Failed {
            failure: Failure::new("Agent configuration has no parent directory"),
            remove,
        },
        StepOutcome::NotExecutable => Checking::Failed {
            failure: Failure::new("downloaded Agent update is not a Windows executable"),
            remove,
        },
        StepOutcome::Failed(failure) => {
            let failure = match context_of(step, staged, helper) {
                Some(context) => failure.context(context),
                None => failure,
            };
            Checking::Failed { failure, remove }
        },
    }
}

/// An attempt is on record before the helper that makes it starts, so that a
/// release that takes the agent down counts too; and a check that fails leaves no
/// file of the update behind.
pub proof fn attempts_are_recorded_first(
    step: CheckStep,
    outcome: StepOutcome,
    staged: Seq<char>,
    helper: Seq<char>,
)
    ensures
        checked(step, outcome, staged, helper) matches CheckingView::Step(CheckStep::StartHelper)
            ==> step == CheckStep::RecordAttempt && outcome is Done,
        checked(step, outcome, staged, helper) is Scheduled ==> step == CheckStep::StartHelper,
        checked(step, outcome, staged, helper) matches CheckingView::Failed { remove, .. }
            ==> remove == leaves_files(step),
{
}

/// What the helper that installs an update is started with, after the two
/// executables: the process that has to exit first, and how to log.
pub fn helper_options(process_id: u32, json_logs: bool) -> (options: Vec<String>)
    ensures
        options@.len() == (if json_logs {
            2int
        } else {
            1int
        }),
        options@[0]@ == text::decimal(process_id as nat),
        json_logs ==> options@[1]@ == "--json-logs"@,
{
    let mut options: Vec<String> = Vec::new();
    let mut process = String::new();
    push_decimal(&mut process, process_id as u64);
    assert(process@ =~= text::decimal(process_id as nat));
    options.push(process);
    if json_logs {
        options.push("--json-logs".to_owned());
    }
    options
}

#[derive(Debug, Clone, Copy, PartialEq, Eq, Structural)]
pub enum ArgumentError {
    /// The paths or the process are missing.
    Missing,
    InvalidProcess,
}

impl ArgumentError {
    pub open spec fn text_of(self) -> Seq<char> {
        match self {
            ArgumentError::Missing =>
                "the Agent update helper requires target and staged executable paths and the service process ID"@,
            ArgumentError::InvalidProcess =>
                "the Agent update helper received an invalid service process ID"@,
        }
    }

    pub fn message(&self) -> (text: &'static str)
        ensures
            text@ == self.text_of(),
    {
        match self {
            ArgumentError::Missing =>
                "the Agent update helper requires target and staged executable paths and the service process ID",
            ArgumentError::InvalidProcess =>
                "the Agent update helper received an invalid service process ID",
        }
    }
}

pub open spec fn is_text(argument: Option<String>, wanted: Seq<char>) -> bool {
    argument matches Some(text) && text@ == wanted
}

pub open spec fn read_arguments(arguments: Seq<Option<String>>) -> Result<
    (u32, bool),
    ArgumentError,
> {
    if arguments.len() < 3 {
        Err(ArgumentError::Missing)
    } else {
        match arguments[2] {
            Some(process) => match text::parsed_u32(process@) {
                Some(id) => Ok(
                    (
                        id,
                        exists|i: int|
                            3 <= i < arguments.len() && is_text(
                                #[trigger] arguments[i],
                                "--json-logs"@,
                            ),
                    ),
                ),
                None => Err(ArgumentError::InvalidProcess),
            },
            None => Err(ArgumentError::InvalidProcess),
        }
    }
}

/// Reads the helper's arguments, each of them text where it is any: the two
/// executables, the process to wait for, and whether logs are JSON.
pub fn update_arguments(arguments: &Vec<Option<String>>) -> (result: Result<
    (u32, bool),
    ArgumentError,
>)
    ensures
        result == read_arguments(arguments@),
{
    if arguments.len() < 3 {
        return Err(ArgumentError::Missing);
    }
    let parsed = match &arguments[2] {
        Some(process) => parse_u32(process.as_str()),
        None => None,
    };
    let id: u32 = match parsed {
        Some(id) => id,
        None => {
            return Err(ArgumentError::InvalidProcess);
        },
    };
    let mut json = false;
    let mut next: usize = 3;
    while next < arguments.len()
        invariant
            3 <= next <= arguments@.len(),
            json == exists|i: int|
                3 <= i < next && is_text(#[trigger] arguments@[i], "--json-logs"@),
        decreases arguments@.len() - next,
    {
        let found = match &arguments[next] {
            Some(option) => same_text(option.as_str(), "--json-logs"),
            None => false,
        };
        assert(found == is_text(arguments@[next as int], "--json-logs"@));
        json = json || found;
        next += 1;
    }
    Ok((id, json))
}

/// What an update is started with is what the helper reads.
pub proof fn helper_reads_its_options(target: String, staged: String, options: Seq<String>, process_id: u32, json_logs: bool)
    requires
        options.len() == (if json_logs {
            2int
        } else {
            1int
        }),
        options[0]@ == text::decimal(process_id as nat),
        json_logs ==> options[1]@ == "--json-logs"@,
    ensures
        read_arguments(
            seq![Some(target), Some(staged)] + Seq::new(options.len(), |i: int| Some(options[i])),
        ) == Ok::<(u32, bool), ArgumentError>((process_id, json_logs)),
{
    let arguments = seq![Some(target), Some(staged)] + Seq::new(
        options.len(),
        |i: int| Some(options[i]),
    );
    text::decimal_is_read_back(process_id);
    assert(arguments[2] == Some(options[0]));
    if json_logs {
        assert(is_text(arguments[3], "--json-logs"@));
    }
}

/// Whether a process runs an executable: their paths are the same, without
/// regard to ASCII case.
pub fn runs_image(process_image: &str, image: &str) -> (runs: bool)
    ensures
        runs == (text::folded(process_image@) == text::folded(image@)),
{
    same_ignoring_case(process_image, image)
}

/// A directory that is made administrator-only before an update is staged.
#[derive(Debug, Clone, Copy, PartialEq, Eq, Structural)]
pub enum SecuredDirectory {
    /// The parent of the configuration directory.
    DataRoot,
    Configuration,
    /// Everything in the configuration directory.
    ConfigurationContents,
    Updates,
}

/// The directories to secure, in order. Those above a configuration directory
/// that the installer does not manage are left alone.
pub fn secured_directories(managed: bool) -> (directories: Vec<SecuredDirectory>)
    ensures
        directories@ == (if managed {
            seq![
                SecuredDirectory::DataRoot,
                SecuredDirectory::Configuration,
                SecuredDirectory::ConfigurationContents,
                SecuredDirectory::Updates,
            ]
        } else {
            seq![SecuredDirectory::Updates]
        }),
{
    let mut directories: Vec<SecuredDirectory> = Vec::new();
    if managed {
        directories.push(SecuredDirectory::DataRoot);
        directories.push(SecuredDirectory::Configuration);
        directories.push(SecuredDirectory::ConfigurationContents);
    }
    directories.push(SecuredDirectory::Updates);
    assert(directories@ =~= (if managed {
        seq![
            SecuredDirectory::DataRoot,
            SecuredDirectory::Configuration,
            SecuredDirectory::ConfigurationContents,
            SecuredDirectory::Updates,
        ]
    } else {
        seq![SecuredDirectory::Updates]
    }));
    directories
}

/// A release is put off only after three attempts within a day; a release that was
/// not tried yet, or whose first attempt is a day old or yet to come, is tried as
/// if it were new. Every attempt is counted, from the first one's time.
pub proof fn releases_get_three_attempts_a_day(
    previous: Option<AttemptsView>,
    version: Seq<char>,
    now: u64,
)
    ensures
        ({
            let next = next_attempt(previous, version, now);
            let counted = previous is Some && previous->0.version == version
                && previous->0.first_attempt_unix <= now < previous->0.first_attempt_unix + 86_400;
            &&& next is None <==> counted && previous->0.attempts >= 3
            &&& next matches Some(record) ==> record.version == version && record.attempts <= 3
                && record.attempts >= 1 && record.first_attempt_unix <= now
            &&& counted && next is Some ==> next->0.attempts == previous->0.attempts + 1
                && next->0.first_attempt_unix == previous->0.first_attempt_unix
            &&& !counted ==> next is Some && next->0.attempts == 1 && next->0.first_attempt_unix
                == now
        }),
{
}

/// Only executables, by their names, are taken for what an update left behind, and
/// only those that an update names; a name's letters may be of either case.
pub proof fn other_files_are_left_alone(name: Seq<char>, other: Seq<char>)
    requires
        text::folded(name) == text::folded(other),
    ensures
        names_update_file(name) == names_update_file(other),
        names_update_file(name) ==> name.len() >= 6,
        names_update_file(name) ==> text::folded(name).skip(name.len() - 4) == seq![
            46u32,
            101u32,
            120u32,
            101u32,
        ],
        names_update_file(name) ==> text::folded(name).take(6) == seq![
            97u32,
            103u32,
            101u32,
            110u32,
            116u32,
            45u32,
        ] || (name.len() >= 14 && text::folded(name).take(14) == text::folded("update-helper-"@)),
{
    reveal_strlit(".exe");
    reveal_strlit("agent-");
    reveal_strlit("update-helper-");
    assert(name.len() == text::folded(name).len());
    assert(other.len() == text::folded(other).len());
    lemma_folded_parts(name);
    lemma_folded_parts(other);
    assert(text::folded(".exe"@) =~= seq![46u32, 101u32, 120u32, 101u32]);
    assert(text::folded("agent-"@) =~= seq![97u32, 103u32, 101u32, 110u32, 116u32, 45u32]);
}

proof fn lemma_folded_parts(name: Seq<char>)
    ensures
        forall|n: int|
            0 <= n <= name.len() ==> #[trigger] text::folded(name.take(n)) == text::folded(
                name,
            ).take(n),
        forall|n: int|
            0 <= n <= name.len() ==> #[trigger] text::folded(name.skip(n)) == text::folded(
                name,
            ).skip(n),
{
    assert forall|n: int| 0 <= n <= name.len() implies #[trigger] text::folded(name.take(n))
        == text::folded(name).take(n) by {
        assert(text::folded(name.take(n)) =~= text::folded(name).take(n));
    }
    assert forall|n: int| 0 <= n <= name.len() implies #[trigger] text::folded(name.skip(n))
        == text::folded(name).skip(n) by {
        assert(text::folded(name.skip(n)) =~= text::folded(name).skip(n));
    }
}

/// A check does its steps in one order, none of them twice: an update is
/// downloaded, compared and seen to be a program before any of it is put on disk,
/// and put on disk whole before anything is started.
pub proof fn checks_go_in_order(at: int)
    requires
        0 <= at < 14,
    ensures
        ({
            let order = seq![
                CheckStep::DownloadManifest,
                CheckStep::ReadManifest,
                CheckStep::PrepareDirectory,
                CheckStep::ReadAttempts,
                CheckStep::Download,
                CheckStep::Verify,
                CheckStep::Inspect,
                CheckStep::LocateExecutable,
                CheckStep::CreateStaged,
                CheckStep::WriteStaged,
                CheckStep::FlushStaged,
                CheckStep::CopyHelper,
                CheckStep::RecordAttempt,
                CheckStep::StartHelper,
            ];
            &&& at < 13 ==> step_after(order[at]) == Some(order[at + 1])
            &&& at == 13 ==> step_after(order[at]) is None
            &&& leaves_files(order[at]) <==> at >= 8
        }),
{
}

/// A step that worked leads on or, after the last one, to an update; one that
/// found nothing to do ends the check without a word; and any other ends it with
/// a failure that ends with its cause.
pub proof fn checks_end_as_their_steps_do(
    step: CheckStep,
    outcome: StepOutcome,
    staged: Seq<char>,
    helper: Seq<char>,
)
    ensures
        ({
            let next = checked(step, outcome, staged, helper);
            &&& next is Step || next is Scheduled <==> outcome is Done
            &&& next is Scheduled <==> outcome is Done && step == CheckStep::StartHelper
            &&& next is Nothing <==> outcome is NothingToDo
            &&& next is Failed <==> outcome is NoDirectory || outcome is NotExecutable || outcome
                is Failed
            &&& outcome matches StepOutcome::Failed(cause) ==> cause@.is_suffix_of(
                next->Failed_failure,
            ) && next->Failed_failure.len() <= cause@.len() + 1
            &&& outcome is NoDirectory ==> next->Failed_failure == seq![
                "Agent configuration has no parent directory"@,
            ]
            &&& outcome is NotExecutable ==> next->Failed_failure == seq![
                "downloaded Agent update is not a Windows executable"@,
            ]
        }),
{
    if let StepOutcome::Failed(cause) = outcome {
        let failure = checked(step, outcome, staged, helper)->Failed_failure;
        assert(failure.skip(failure.len() - cause@.len()) =~= cause@);
    }
}

/// The helper needs the two executables and the process, which is a number; what
/// follows them counts only if it asks for JSON, wherever it stands.
pub proof fn helpers_read_what_they_need(arguments: Seq<Option<String>>, more: Option<String>)
    ensures
        read_arguments(arguments) == Err::<(u32, bool), ArgumentError>(ArgumentError::Missing)
            <==> arguments.len() < 3,
        read_arguments(arguments) is Ok <==> arguments.len() >= 3 && arguments[2] is Some
            && text::parsed_u32(arguments[2]->0@) is Some,
        read_arguments(arguments) matches Ok(read) ==> Some(read.0) == text::parsed_u32(
            arguments[2]->0@,
        ),
        arguments.len() == 3 ==> (read_arguments(arguments) matches Ok(read) ==> !read.1),
        arguments.len() >= 3 ==> (read_arguments(arguments) matches Ok(read) ==> read_arguments(
            arguments.push(more),
        ) == Ok::<(u32, bool), ArgumentError>(
            (read.0, read.1 || (more is Some && more->0@ == "--json-logs"@)),
        )),
{
    if arguments.len() >= 3 && read_arguments(arguments) is Ok {
        let longer = arguments.push(more);
        assert(longer[2] == arguments[2]);
        assert forall|i: int| 3 <= i < arguments.len() implies longer[i] == arguments[i] by {}
        assert(longer[arguments.len() as int] == more);
        if read_arguments(arguments)->Ok_0.1 {
            let at = choose|i: int|
                3 <= i < arguments.len() && is_text(#[trigger] arguments[i], "--json-logs"@);
            assert(is_text(longer[at], "--json-logs"@));
        } else if read_arguments(longer)->Ok_0.1 {
            let at = choose|i: int|
                3 <= i < longer.len() && is_text(#[trigger] longer[i], "--json-logs"@);
            if at < arguments.len() {
                assert(is_text(arguments[at], "--json-logs"@));
            }
        }
    }
}

/// Arguments that are refused say what is missing or wrong.
pub proof fn argument_errors_say_what_is_missing(error: ArgumentError)
    ensures
        error == ArgumentError::Missing ==> error.text_of()
            == "the Agent update helper requires target and staged executable paths and the service process ID"@,
        error == ArgumentError::InvalidProcess ==> error.text_of()
            == "the Agent update helper received an invalid service process ID"@,
{
}

/// A step of a check that failed is named, with the file that it was about; the
/// others say themselves what is wrong.
pub proof fn failed_steps_are_named(step: CheckStep, staged: Seq<char>, helper: Seq<char>)
    ensures
        step == CheckStep::DownloadManifest ==> step_context(step, staged, helper)
            == Some("failed to download the Agent update manifest"@),
        step == CheckStep::PrepareDirectory ==> step_context(step, staged, helper)
            == Some("failed to prepare a private Agent update directory"@),
        step == CheckStep::Download ==> step_context(step, staged, helper)
            == Some("failed to download the Agent update"@),
        step == CheckStep::LocateExecutable ==> step_context(step, staged, helper)
            == Some("could not locate the Agent executable"@),
        step == CheckStep::CreateStaged ==> step_context(step, staged, helper)
            == Some("failed to create staged update "@ + staged),
        step == CheckStep::WriteStaged ==> step_context(step, staged, helper)
            == Some("failed to write staged update "@ + staged),
        step == CheckStep::FlushStaged ==> step_context(step, staged, helper)
            == Some("failed to flush staged update "@ + staged),
        step == CheckStep::CopyHelper ==> step_context(step, staged, helper)
            == Some("failed to create Agent update helper "@ + helper),
        step == CheckStep::RecordAttempt ==> step_context(step, staged, helper)
            == Some("failed to record the Agent update attempt"@),
        step == CheckStep::StartHelper ==> step_context(step, staged, helper)
            == Some("failed to start Agent update helper "@ + helper),
        step == CheckStep::ReadManifest ==> step_context(step, staged, helper) is None,
        step == CheckStep::ReadAttempts ==> step_context(step, staged, helper) is None,
        step == CheckStep::Verify ==> step_context(step, staged, helper) is None,
        step == CheckStep::Inspect ==> step_context(step, staged, helper) is None,
{
}

} // verus!
