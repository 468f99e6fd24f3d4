//! Installing an update: the previous instance exits, its executable is
//! replaced, and the service is started again whatever fails on the way.
use crate::failure;
use crate::failure::Failure;
use crate::text;
use crate::text::{joined, push_decimal, push_str};
use vstd::prelude::*;

verus! {

pub const PREVIOUS_INSTANCE_SECONDS: u64 = 60;

pub const TERMINATED_INSTANCE_SECONDS: u64 = 15;

pub const START_SECONDS: u64 = 30;

/// How long an update has to stay up; otherwise it is rolled back.
pub const STARTUP_GRACE_MS: u64 = 5_000;

pub const POLL_MS: u64 = 250;

/// A step of replacing the installed executable.
#[derive(Debug, Clone, Copy, PartialEq, Eq, Structural)]
pub enum ReplaceStep {
    /// Move the installed executable aside. A backup that an earlier update kept
    /// is removed first.
    BackUp,
    /// Move the staged executable into its place.
    Install,
    /// Let the installed executable have the permissions of its directory.
    Inherit,
    /// Move the previous executable back.
    Restore,
}

/// What there is to replace.
#[derive(Debug, Clone, Copy, PartialEq, Eq, Structural)]
pub enum Executable {
    Previous,
    Update,
}

/// Where the executables are.
pub struct Files {
    pub target: Option<Executable>,
    pub backup: Option<Executable>,
    pub staged: Option<Executable>,
}

impl Files {
    /// Before an update.
    pub open spec fn initial() -> Files {
        Files {
            target: Some(Executable::Previous),
            backup: None,
            staged: Some(Executable::Update),
        }
    }

    /// After a step that worked; a step that did not moves nothing.
    pub open spec fn after(self, step: ReplaceStep, worked: bool) -> Files {
        if !worked {
            self
        } else {
            match step {
                ReplaceStep::BackUp => Files { target: None, backup: self.target, ..self },
                ReplaceStep::Install => Files { target: self.staged, staged: None, ..self },
                ReplaceStep::Inherit => self,
                ReplaceStep::Restore => Files { target: self.backup, backup: None, ..self },
            }
        }
    }
}

/// What follows a step of replacing the executable.
#[derive(Debug)]
pub enum Replacing {
    Step(ReplaceStep),
    Replaced,
    Failed(Failure),
}

pub enum ReplacingView {
    Step(ReplaceStep),
    Replaced,
    Failed(Seq<Seq<char>>),
}

impl View for Replacing {
    type V = ReplacingView;

    open spec fn view(&self) -> ReplacingView {
        match *self {
            Replacing::Step(step) => ReplacingView::Step(step),
            Replacing::Replaced => ReplacingView::Replaced,
            Replacing::Failed(error) => ReplacingView::Failed(error@),
        }
    }
}

/// What is said of a step of a replacement that failed, given where the agent is
/// installed.
pub open spec fn replace_context(step: ReplaceStep, target: Seq<char>) -> Seq<char> {
    match step {
        ReplaceStep::BackUp => "failed to back up installed Agent "@ + target,
        ReplaceStep::Install => "failed to install Agent update "@ + target,
        ReplaceStep::Inherit => "failed to let signed-in users run the updated Agent"@,
        ReplaceStep::Restore => "failed to restore the previous Agent executable "@ + target,
    }
}

fn replace_failure(step: ReplaceStep, target: &str, failure: Failure) -> (result: Failure)
    ensures
        result@ == seq![replace_context(step, target@)] + failure@,
{
    let context = match step {
        ReplaceStep::BackUp => joined("failed to back up installed Agent ", target),
        ReplaceStep::Install => joined("failed to install Agent update ", target),
        ReplaceStep::Inherit => "failed to let signed-in users run the updated Agent".to_owned(),
        ReplaceStep::Restore => joined("failed to restore the previous Agent executable ", target),
    };
    failure.context(context)
}

/// The replacement of the installed executable.
#[derive(Debug)]
pub struct Replacement {
    /// Where the agent is installed, as it is shown.
    pub target: String,
    pub step: ReplaceStep,
    /// Why the update could not be installed, while the previous executable is
    /// restored.
    pub error: Option<Failure>,
}

pub open spec fn chain(error: Option<Failure>) -> Seq<Seq<char>> {
    match error {
        Some(failure) => failure@,
        None => seq![],
    }
}

pub open spec fn replacing(
    step: ReplaceStep,
    error: Seq<Seq<char>>,
    target: Seq<char>,
    outcome: Result<(), Failure>,
) -> (Seq<Seq<char>>, ReplacingView) {
    match outcome {
        Ok(()) => match step {
            ReplaceStep::BackUp => (error, ReplacingView::Step(ReplaceStep::Install)),
            ReplaceStep::Install => (error, ReplacingView::Step(ReplaceStep::Inherit)),
            ReplaceStep::Inherit => (error, ReplacingView::Replaced),
            ReplaceStep::Restore => (error, ReplacingView::Failed(error)),
        },
        Err(cause) => {
            let failure = seq![replace_context(step, target)] + cause@;
            match step {
                ReplaceStep::BackUp => (failure, ReplacingView::Failed(failure)),
                ReplaceStep::Install => (failure, ReplacingView::Step(ReplaceStep::Restore)),
                ReplaceStep::Inherit => (failure, ReplacingView::Step(ReplaceStep::Restore)),
                ReplaceStep::Restore => {
                    let both = seq![
                        "the previous executable could not be restored: "@ + failure::line(
                            failure,
                        ),
                    ] + error;
                    (both, ReplacingView::Failed(both))
                },
            }
        },
    }
}

impl Replacement {
    pub fn new(target: String) -> (replacement: Self)
        ensures
            replacement.target == target,
            replacement.step == ReplaceStep::BackUp,
            replacement.error is None,
    {
        Replacement { target, step: ReplaceStep::BackUp, error: None }
    }

    /// Takes how the current step went.
    pub fn next(&mut self, outcome: Result<(), Failure>) -> (next: Replacing)
        ensures
            final(self).target == old(self).target,
            ({
                let (error, expected) = replacing(
                    old(self).step,
                    chain(old(self).error),
                    old(self).target@,
                    outcome,
                );
                &&& next@ == expected
                &&& expected matches ReplacingView::Step(step) ==> final(self).step == step
                    && chain(final(self).error) == error
            }),
    {
        match outcome {
            Ok(()) => match self.step {
                ReplaceStep::BackUp => {
                    self.step = ReplaceStep::Install;
                    Replacing::Step(ReplaceStep::Install)
                },
                ReplaceStep::Install => {
                    self.step = ReplaceStep::Inherit;
                    Replacing::Step(ReplaceStep::Inherit)
                },
                ReplaceStep::Inherit => Replacing::Replaced,
                ReplaceStep::Restore => Replacing::Failed(self.take_error()),
            },
            Err(cause) => {
                let failure = replace_failure(self.step, self.target.as_str(), cause);
                match self.step {
                    ReplaceStep::BackUp => Replacing::Failed(failure),
                    ReplaceStep::Install => {
                        self.step = ReplaceStep::Restore;
                        self.error = Some(failure);
                        Replacing::Step(ReplaceStep::Restore)
                    },
                    ReplaceStep::Inherit => {
                        self.step = ReplaceStep::Restore;
                        self.error = Some(failure);
                        Replacing::Step(ReplaceStep::Restore)
                    },
                    ReplaceStep::Restore => {
                        let error = self.take_error();
                        Replacing::Failed(
                            error.context_of(
                                "the previous executable could not be restored: ",
                                &failure,
                            ),
                        )
                    },
                }
            },
        }
    }

    fn take_error(&mut self) -> (error: Failure)
        ensures
            error@ == chain(old(self).error),
            final(self).step == old(self).step,
            final(self).target == old(self).target,
    {
        match self.error.take() {
            Some(error) => error,
            None => {
                let error = Failure { chain: Vec::new() };
                assert(error@ =~= seq![]);
                error
            },
        }
    }
}

/// Where the executables can be before a step.
pub open spec fn before(step: ReplaceStep, files: Files) -> bool {
    match step {
        ReplaceStep::BackUp => files.target == Some(Executable::Previous) && files.staged == Some(
            Executable::Update,
        ),
        ReplaceStep::Install => files.backup == Some(Executable::Previous) && files.staged == Some(
            Executable::Update,
        ),
        ReplaceStep::Inherit => files.target == Some(Executable::Update) && files.backup == Some(
            Executable::Previous,
        ),
        ReplaceStep::Restore => files.backup == Some(Executable::Previous),
    }
}

/// A replacement that fails leaves the previous executable in place; only where
/// it cannot be moved back is it left as a backup. One that does not fail
/// installs the update and keeps the previous executable as a backup. The law
/// holds step by step, from any state that a replacement can be in.
pub proof fn failed_replacement_keeps_the_previous_executable(
    step: ReplaceStep,
    error: Seq<Seq<char>>,
    target: Seq<char>,
    outcome: Result<(), Failure>,
    files: Files,
)
    requires
        before(step, files),
    ensures
        before(ReplaceStep::BackUp, Files::initial()),
        ({
            let after = files.after(step, outcome is Ok);
            match replacing(step, error, target, outcome).1 {
                ReplacingView::Step(next) => before(next, after),
                ReplacingView::Replaced => after.target == Some(Executable::Update)
                    && after.backup == Some(Executable::Previous),
                ReplacingView::Failed(_) => after.target == Some(Executable::Previous) || (step
                    == ReplaceStep::Restore && outcome is Err && after.backup == Some(
                    Executable::Previous,
                )),
            }
        }),
{
}

/// A step of installing an update.
#[derive(Debug, Clone, Copy, PartialEq, Eq, Structural)]
pub enum InstallStep {
    /// Wait for the instance that staged the update.
    StopPrevious,
    /// Replace the executable.
    Replace,
    /// Start the update and see it stay up.
    StartUpdate,
    /// Stop an update that did not stay up.
    StopUpdate,
    /// Move the previous executable back.
    Restore,
    /// Start whatever is installed.
    Restart,
}

/// What follows a step of installing an update.
#[derive(Debug)]
pub enum Installing {
    Step(InstallStep),
    /// The update runs; the backup is removed.
    Installed,
    Failed(Failure),
}

pub enum InstallingView {
    Step(InstallStep),
    Installed,
    Failed(Seq<Seq<char>>),
}

impl View for Installing {
    type V = InstallingView;

    open spec fn view(&self) -> InstallingView {
        match *self {
            Installing::Step(step) => InstallingView::Step(step),
            Installing::Installed => InstallingView::Installed,
            Installing::Failed(error) => InstallingView::Failed(error@),
        }
    }
}

/// An installation under way.
#[derive(Debug)]
pub struct Installation {
    /// Where the agent is installed, as it is shown.
    pub target: String,
    pub step: InstallStep,
    /// Why the update failed, while its failure is made good.
    pub error: Option<Failure>,
}

/// The failure that an installation carries on after a step that failed.
pub open spec fn carried(
    step: InstallStep,
    error: Seq<Seq<char>>,
    target: Seq<char>,
    failure: Seq<Seq<char>>,
) -> Seq<Seq<char>> {
    match step {
        InstallStep::StopPrevious => seq!["the previous Agent service instance did not exit"@]
            + failure,
        InstallStep::Replace => failure,
        InstallStep::StartUpdate => seq!["the updated Agent service did not stay running"@]
            + failure,
        InstallStep::StopUpdate => seq![
            "the previous executable could not be restored: "@ + failure::line(failure),
        ] + error,
        InstallStep::Restore => seq![
            "the previous executable could not be restored: "@ + failure::line(
                seq![replace_context(ReplaceStep::Restore, target)] + failure,
            ),
        ] + error,
        InstallStep::Restart => seq![
            "the Agent update failed and the service could not be restarted: "@ + failure::line(
                failure,
            ),
        ] + error,
    }
}

/// The state and the action after a step of an installation.
pub open spec fn installing(
    step: InstallStep,
    error: Seq<Seq<char>>,
    target: Seq<char>,
    outcome: Result<(), Failure>,
) -> (Seq<Seq<char>>, InstallingView) {
    match outcome {
        Ok(()) => match step {
            InstallStep::StopPrevious => (error, InstallingView::Step(InstallStep::Replace)),
            InstallStep::Replace => (error, InstallingView::Step(InstallStep::StartUpdate)),
            InstallStep::StartUpdate => (error, InstallingView::Installed),
            InstallStep::StopUpdate => (error, InstallingView::Step(InstallStep::Restore)),
            InstallStep::Restore => (error, InstallingView::Step(InstallStep::Restart)),
            InstallStep::Restart => (
                error,
                InstallingView::Failed(
                    seq!["the Agent update failed; the previously installed Agent is running"@]
                        + error,
                ),
            ),
        },
        Err(failure) => {
            let carried = carried(step, error, target, failure@);
            match step {
                InstallStep::StartUpdate => (
                    carried,
                    InstallingView::Step(InstallStep::StopUpdate),
                ),
                InstallStep::Restart => (carried, InstallingView::Failed(carried)),
                _ => (carried, InstallingView::Step(InstallStep::Restart)),
            }
        },
    }
}

impl Installation {
    pub fn new(target: String) -> (installation: Self)
        ensures
            installation.target == target,
            installation.step == InstallStep::StopPrevious,
            installation.error is None,
    {
        Installation { target, step: InstallStep::StopPrevious, error: None }
    }

    fn take_error(&mut self) -> (error: Failure)
        ensures
            error@ == chain(old(self).error),
            final(self).step == old(self).step,
            final(self).target == old(self).target,
    {
        match self.error.take() {
            Some(error) => error,
            None => {
                let error = Failure { chain: Vec::new() };
                assert(error@ =~= seq![]);
                error
            },
        }
    }

    fn go(&mut self, step: InstallStep) -> (next: Installing)
        ensures
            next@ == InstallingView::Step(step),
            final(self).step == step,
            final(self).error == old(self).error,
            final(self).target == old(self).target,
    {
        self.step = step;
        Installing::Step(step)
    }

    /// Takes how the current step went.
    pub fn next(&mut self, outcome: Result<(), Failure>) -> (next: Installing)
        ensures
            final(self).target == old(self).target,
            ({
                let (error, expected) = installing(
                    old(self).step,
                    chain(old(self).error),
                    old(self).target@,
                    outcome,
                );
                &&& next@ == expected
                &&& expected matches InstallingView::Step(step) ==> final(self).step == step
                    && chain(final(self).error) == error
            }),
    {
        match outcome {
            Ok(()) => match self.step {
                InstallStep::StopPrevious => self.go(InstallStep::Replace),
                InstallStep::Replace => self.go(InstallStep::StartUpdate),
                InstallStep::StartUpdate => Installing::Installed,
                InstallStep::StopUpdate => self.go(InstallStep::Restore),
                InstallStep::Restore => self.go(InstallStep::Restart),
                InstallStep::Restart => {
                    let error = self.take_error();
                    Installing::Failed(
                        error.context(
                            "the Agent update failed; the previously installed Agent is running".to_owned(),
                        ),
                    )
                },
            },
            Err(failure) => match self.step {
                InstallStep::StopPrevious => {
                    self.error = Some(
                        failure.context(
                            "the previous Agent service instance did not exit".to_owned(),
                        ),
                    );
                    self.go(InstallStep::Restart)
                },
                InstallStep::Replace => {
                    self.error = Some(failure);
                    self.go(InstallStep::Restart)
                },
                InstallStep::StartUpdate => {
                    self.error = Some(
                        failure.context(
                            "the updated Agent service did not stay running".to_owned(),
                        ),
                    );
                    self.go(InstallStep::StopUpdate)
                },
                InstallStep::StopUpdate => {
                    let error = self.take_error();
                    self.error = Some(
                        error.context_of(
                            "the previous executable could not be restored: ",
                            &failure,
                        ),
                    );
                    self.go(InstallStep::Restart)
                },
                InstallStep::Restore => {
                    let failure = replace_failure(
                        ReplaceStep::Restore,
                        self.target.as_str(),
                        failure,
                    );
                    let error = self.take_error();
                    self.error = Some(
                        error.context_of(
                            "the previous executable could not be restored: ",
                            &failure,
                        ),
                    );
                    self.go(InstallStep::Restart)
                },
                InstallStep::Restart => {
                    let error = self.take_error();
                    Installing::Failed(
                        error.context_of(
                            "the Agent update failed and the service could not be restarted: ",
                            &failure,
                        ),
                    )
                },
            },
        }
    }
}

/// How many steps of an installation may still follow.
pub open spec fn steps_left(step: InstallStep) -> nat {
    match step {
        InstallStep::StopPrevious => 5,
        InstallStep::Replace => 4,
        InstallStep::StartUpdate => 3,
        InstallStep::StopUpdate => 2,
        InstallStep::Restore => 1,
        InstallStep::Restart => 0,
    }
}

/// Whatever fails, an installation either ends with the update running or tries
/// to start the service before it gives up, and it ends after a few steps.
pub proof fn installation_always_starts_the_service(
    step: InstallStep,
    error: Seq<Seq<char>>,
    target: Seq<char>,
    outcome: Result<(), Failure>,
)
    ensures
        match installing(step, error, target, outcome).1 {
            InstallingView::Step(next) => steps_left(next) < steps_left(step),
            InstallingView::Installed => step == InstallStep::StartUpdate && outcome is Ok,
            InstallingView::Failed(_) => step == InstallStep::Restart,
        },
{
}

/// The states of a Windows service.
#[derive(Debug, Clone, Copy, PartialEq, Eq, Structural)]
pub enum ServiceState {
    Stopped,
    StartPending,
    StopPending,
    Running,
    ContinuePending,
    PausePending,
    Paused,
}

impl ServiceState {
    pub open spec fn text_of(self) -> Seq<char> {
        match self {
            ServiceState::Stopped => "Stopped"@,
            ServiceState::StartPending => "StartPending"@,
            ServiceState::StopPending => "StopPending"@,
            ServiceState::Running => "Running"@,
            ServiceState::ContinuePending => "ContinuePending"@,
            ServiceState::PausePending => "PausePending"@,
            ServiceState::Paused => "Paused"@,
        }
    }

    pub fn text(&self) -> (text: &'static str)
        ensures
            text@ == self.text_of(),
    {
        match self {
            ServiceState::Stopped => "Stopped",
            ServiceState::StartPending => "StartPending",
            ServiceState::StopPending => "StopPending",
            ServiceState::Running => "Running",
            ServiceState::ContinuePending => "ContinuePending",
            ServiceState::PausePending => "PausePending",
            ServiceState::Paused => "Paused",
        }
    }
}

/// The process to wait for: the one that is named, or else the service's own.
pub fn instance_process(named: Option<u32>, reported: Option<u32>) -> (id: Option<u32>)
    ensures
        id == (match (named, reported) {
            (Some(0), _) => None,
            (Some(process), _) => Some(process),
            (None, Some(0)) => None,
            (None, found) => found,
        }),
{
    let found = match named {
        Some(process) => Some(process),
        None => reported,
    };
    match found {
        Some(0) => None,
        other => other,
    }
}

/// Whether a service still has to be asked to stop.
pub fn has_to_be_stopped(state: ServiceState) -> (ask: bool)
    ensures
        ask == !(state == ServiceState::Stopped || state == ServiceState::StopPending),
{
    match state {
        ServiceState::Stopped => false,
        ServiceState::StopPending => false,
        _ => true,
    }
}

/// What a look at a stopping instance comes to.
#[derive(Debug)]
pub enum Waiting {
    Exited,
    Poll,
    TimedOut(Failure),
}

pub open spec fn overdue(state: ServiceState, exited: bool, seconds: u64) -> Seq<char> {
    "after "@ + text::decimal(seconds as nat) + " seconds the Agent service is "@
        + state.text_of() + " and its process "@ + (if exited {
        "exited"@
    } else {
        "is still running"@
    })
}

/// Looks at a stopping instance: it is gone once the service is stopped and its
/// process, if there is one, has exited.
pub fn wait_for_exit(state: ServiceState, exited: bool, now_ms: u64, deadline_ms: u64, seconds: u64) -> (
waiting: Waiting)
    ensures
        if state == ServiceState::Stopped && exited {
            waiting is Exited
        } else if now_ms >= deadline_ms {
            waiting matches Waiting::TimedOut(error) && error@ == seq![
                overdue(state, exited, seconds),
            ]
        } else {
            waiting is Poll
        },
{
    if state == ServiceState::Stopped && exited {
        return Waiting::Exited;
    }
    if now_ms < deadline_ms {
        return Waiting::Poll;
    }
    let mut message = "after ".to_owned();
    push_decimal(&mut message, seconds);
    push_str(&mut message, " seconds the Agent service is ");
    push_str(&mut message, state.text());
    push_str(&mut message, " and its process ");
    push_str(
        &mut message,
        if exited {
            "exited"
        } else {
            "is still running"
        },
    );
    Waiting::TimedOut(Failure::new(message.as_str()))
}

/// Whether an instance that did not exit in time is terminated: there is a
/// process, and it runs.
pub fn terminates(process: bool, exited: bool) -> (terminate: bool)
    ensures
        terminate == (process && !exited),
{
    process && !exited
}

/// How terminating an instance went, given how the request for it did.
pub fn terminated(outcome: Result<(), Failure>) -> (result: Result<(), Failure>)
    ensures
        match (outcome, result) {
            (Ok(()), Ok(())) => true,
            (Err(cause), Err(failure)) => failure@ == seq![
                "failed to terminate the Agent service instance"@,
            ] + cause@,
            _ => false,
        },
{
    match outcome {
        Ok(()) => Ok(()),
        Err(cause) => Err(
            cause.context("failed to terminate the Agent service instance".to_owned()),
        ),
    }
}

/// How asking for a start went.
#[derive(Debug)]
pub enum StartRequest {
    Accepted,
    /// Something else started the service first, which is as good.
    AlreadyRunning,
    Refused(Failure),
}

pub fn start_accepted(request: StartRequest) -> (result: Result<(), Failure>)
    ensures
        match (request, result) {
            (StartRequest::Refused(cause), Err(failure)) => failure@ == seq![
                "failed to start the Agent service"@,
            ] + cause@,
            (StartRequest::Refused(_), Ok(())) => false,
            (_, result) => result is Ok,
        },
{
    match request {
        StartRequest::Refused(cause) => Err(
            cause.context("failed to start the Agent service".to_owned()),
        ),
        _ => Ok(()),
    }
}

/// What a look at a starting service comes to.
#[derive(Debug)]
pub enum Starting {
    Running,
    Poll,
    Failed(Failure),
}

/// Looks at a starting service.
pub fn wait_for_start(state: ServiceState, now_ms: u64, deadline_ms: u64) -> (starting: Starting)
    ensures
        match state {
            ServiceState::Running => starting is Running,
            ServiceState::Stopped => starting matches Starting::Failed(error) && error@ == seq![
                "the Agent service stopped while starting"@,
            ],
            _ => if now_ms >= deadline_ms {
                starting matches Starting::Failed(error) && error@ == seq![
                    "the Agent service did not start within 30 seconds"@,
                ]
            } else {
                starting is Poll
            },
        },
{
    match state {
        ServiceState::Running => Starting::Running,
        ServiceState::Stopped => Starting::Failed(
            Failure::new("the Agent service stopped while starting"),
        ),
        _ => {
            if now_ms >= deadline_ms {
                Starting::Failed(Failure::new("the Agent service did not start within 30 seconds"))
            } else {
                Starting::Poll
            }
        },
    }
}

/// What a look at a service that has started comes to.
#[derive(Debug)]
pub enum Settling {
    /// It has stayed up long enough.
    Settled,
    Poll,
    Failed(Failure),
}

/// Looks at a service that has started: until it has settled, it has to stay up
/// and in the same process. `state` and `process` are what was seen since the
/// last look, if there was one.
pub fn settle(
    seen: Option<(ServiceState, Option<u32>)>,
    process: Option<u32>,
    now_ms: u64,
    settled_ms: u64,
) -> (settling: Settling)
    ensures
        if seen matches Some((state, found)) && (state != ServiceState::Running || found
            != process) {
            settling matches Settling::Failed(error) && error@ == seq![
                "the Agent service stopped shortly after starting"@,
            ]
        } else if now_ms >= settled_ms {
            settling is Settled
        } else {
            settling is Poll
        },
{
    if let Some((state, found)) = seen {
        let same = match (found, process) {
            (Some(first), Some(second)) => first == second,
            (None, None) => true,
            _ => false,
        };
        if state != ServiceState::Running || !same {
            return Settling::Failed(
                Failure::new("the Agent service stopped shortly after starting"),
            );
        }
    }
    if now_ms >= settled_ms {
        Settling::Settled
    } else {
        Settling::Poll
    }
}

/// An update is put in place only once the previous instance is gone, and started
/// only once it is in place. One that does not stay up is stopped and the previous
/// executable moved back; after any other failure, and after those, the service is
/// started again.
pub proof fn installations_go_in_order(
    step: InstallStep,
    error: Seq<Seq<char>>,
    target: Seq<char>,
    outcome: Result<(), Failure>,
)
    ensures
        ({
            let next = installing(step, error, target, outcome).1;
            &&& next == InstallingView::Step(InstallStep::StopPrevious) ==> false
            &&& next == InstallingView::Step(InstallStep::Replace) <==> step
                == InstallStep::StopPrevious && outcome is Ok
            &&& next == InstallingView::Step(InstallStep::StartUpdate) <==> step
                == InstallStep::Replace && outcome is Ok
            &&& next == InstallingView::Installed <==> step == InstallStep::StartUpdate && outcome
                is Ok
            &&& next == InstallingView::Step(InstallStep::StopUpdate) <==> step
                == InstallStep::StartUpdate && outcome is Err
            &&& next == InstallingView::Step(InstallStep::Restore) <==> step
                == InstallStep::StopUpdate && outcome is Ok
            &&& next is Failed <==> step == InstallStep::Restart
        }),
{
}

/// What an installation ends with says first what came last, and ends with what
/// went wrong first: no failure on the way is left out.
pub proof fn installations_keep_every_failure(
    step: InstallStep,
    error: Seq<Seq<char>>,
    target: Seq<char>,
    outcome: Result<(), Failure>,
)
    ensures
        ({
            let (kept, next) = installing(step, error, target, outcome);
            let first = step == InstallStep::StopPrevious || step == InstallStep::Replace || step
                == InstallStep::StartUpdate;
            &&& outcome is Ok ==> kept == error
            &&& first ==> (outcome matches Err(cause) ==> cause@.is_suffix_of(kept))
            &&& !first ==> error.is_suffix_of(kept)
            &&& !first && outcome is Err ==> kept.len() == error.len() + 1
            &&& next matches InstallingView::Failed(told) ==> error.is_suffix_of(told)
                && told.len() == error.len() + 1
            &&& outcome is Err ==> (next matches InstallingView::Failed(told) ==> told == kept)
            &&& outcome is Ok ==> (next matches InstallingView::Failed(told) ==> told[0]
                == "the Agent update failed; the previously installed Agent is running"@)
        }),
{
    let (kept, next) = installing(step, error, target, outcome);
    match outcome {
        Err(cause) => {
            if step == InstallStep::StopPrevious || step == InstallStep::Replace || step
                == InstallStep::StartUpdate {
                assert(kept.skip(kept.len() - cause@.len()) =~= cause@);
            } else {
                assert(kept.skip(kept.len() - error.len()) =~= error);
            }
        },
        Ok(()) => {
            assert(error.skip(0) =~= error);
            if let InstallingView::Failed(told) = next {
                assert(told.skip(told.len() - error.len()) =~= error);
            }
        },
    }
}

/// An executable is moved aside, then replaced, then made as open as its
/// directory; where either of the last two fails, the previous one is moved back,
/// and that is the end of it. The first failure is the last thing told.
pub proof fn replacements_go_in_order(
    step: ReplaceStep,
    error: Seq<Seq<char>>,
    target: Seq<char>,
    outcome: Result<(), Failure>,
)
    ensures
        ({
            let (kept, next) = replacing(step, error, target, outcome);
            &&& next != ReplacingView::Step(ReplaceStep::BackUp)
            &&& next == ReplacingView::Step(ReplaceStep::Install) <==> step == ReplaceStep::BackUp
                && outcome is Ok
            &&& next == ReplacingView::Step(ReplaceStep::Inherit) <==> step == ReplaceStep::Install
                && outcome is Ok
            &&& next == ReplacingView::Replaced <==> step == ReplaceStep::Inherit && outcome is Ok
            &&& next == ReplacingView::Step(ReplaceStep::Restore) <==> (step
                == ReplaceStep::Install || step == ReplaceStep::Inherit) && outcome is Err
            &&& next is Failed <==> step == ReplaceStep::Restore || (step == ReplaceStep::BackUp
                && outcome is Err)
            &&& outcome is Ok ==> kept == error
            &&& step != ReplaceStep::Restore ==> (outcome matches Err(cause) ==> cause@.is_suffix_of(
                kept,
            ) && kept.len() == cause@.len() + 1)
            &&& step == ReplaceStep::Restore && outcome is Err ==> error.is_suffix_of(kept)
                && kept.len() == error.len() + 1
            &&& next matches ReplacingView::Failed(told) ==> told == kept
        }),
{
    let kept = replacing(step, error, target, outcome).0;
    if let Err(cause) = outcome {
        if step == ReplaceStep::Restore {
            assert(kept.skip(kept.len() - error.len()) =~= error);
        } else {
            assert(kept.skip(kept.len() - cause@.len()) =~= cause@);
        }
    }
}

/// A backup that is made holds what was installed, what is installed was staged,
/// and a backup that is moved back leaves none; nothing is ever lost by a step that
/// did not work.
pub proof fn executables_move_one_by_one(files: Files, step: ReplaceStep)
    ensures
        files.after(step, false) == files,
        ({
            let after = files.after(ReplaceStep::BackUp, true);
            after.backup == files.target && after.target is None && after.staged == files.staged
        }),
        ({
            let after = files.after(ReplaceStep::Install, true);
            after.target == files.staged && after.staged is None && after.backup == files.backup
        }),
        ({
            let after = files.after(ReplaceStep::Restore, true);
            after.target == files.backup && after.backup is None && after.staged == files.staged
        }),
        files.after(ReplaceStep::Inherit, true) == files,
{
}

/// The states of a service are called as Windows calls them.
pub proof fn states_are_called_by_their_names(state: ServiceState)
    ensures
        state == ServiceState::Stopped ==> state.text_of() == "Stopped"@,
        state == ServiceState::StartPending ==> state.text_of() == "StartPending"@,
        state == ServiceState::StopPending ==> state.text_of() == "StopPending"@,
        state == ServiceState::Running ==> state.text_of() == "Running"@,
        state == ServiceState::ContinuePending ==> state.text_of() == "ContinuePending"@,
        state == ServiceState::PausePending ==> state.text_of() == "PausePending"@,
        state == ServiceState::Paused ==> state.text_of() == "Paused"@,
{
}

/// A step of a replacement that failed is named, with what it was to replace.
pub proof fn failed_replacements_are_named(step: ReplaceStep, target: Seq<char>)
    ensures
        step == ReplaceStep::BackUp ==> replace_context(step, target)
            == "failed to back up installed Agent "@ + target,
        step == ReplaceStep::Install ==> replace_context(step, target)
            == "failed to install Agent update "@ + target,
        step == ReplaceStep::Inherit ==> replace_context(step, target)
            == "failed to let signed-in users run the updated Agent"@,
        step == ReplaceStep::Restore ==> replace_context(step, target)
            == "failed to restore the previous Agent executable "@ + target,
{
}

/// An instance that does not stop in time is told by how long it had, by the state
/// of its service, and by whether its process is there.
pub proof fn late_instances_are_described(state: ServiceState, seconds: u64)
    ensures
        overdue(state, true, seconds) == "after "@ + text::decimal(seconds as nat)
            + " seconds the Agent service is "@ + state.text_of() + " and its process "@
            + "exited"@,
        overdue(state, false, seconds) == "after "@ + text::decimal(seconds as nat)
            + " seconds the Agent service is "@ + state.text_of() + " and its process "@
            + "is still running"@,
{
}

} // verus!
