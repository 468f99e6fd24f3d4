//! Starting a stream anew with the capture helper that runs, so that nothing of
//! the old stream reaches the viewer.
use crate::capture::{start_capture, StartPlan};
use crate::command::{CommandView, ParentCommand};
use crate::dispatch;
use crate::dispatch::{ProgressView, SharedView};
use crate::event::{AccessUnitView, EventView};
use crate::failure::Failure;
use crate::helper::DesktopTarget;
use crate::model::{DisplayId, StartedView};
use crate::streamer;
use crate::streamer::{request_result, CaptureRequest, DesktopCaptureStreamer, StreamerView};
use vstd::prelude::*;

verus! {

/// What starting anew does next.
#[derive(Debug)]
pub enum ReconfigureStep {
    /// Take the output away from the stream: what the helper sends is dropped
    /// until it is given back.
    DropOutput,
    /// Send the helper the command that starts the new stream.
    Send(ParentCommand),
    /// Wait for the helper to report; `after_report`. Whatever it sent of the old
    /// stream comes before its report.
    AwaitReport,
    /// See to the service helpers for the desktop and the display.
    SeeToHelpers(DesktopTarget, DisplayId),
    /// Give the new stream its output.
    RestoreOutput,
    RequestKeyframe(ParentCommand),
    Reconfigured,
    Failed(Failure),
}

pub enum ReconfigureView {
    DropOutput,
    Send(CommandView),
    AwaitReport,
    SeeToHelpers(DesktopTarget, DisplayId),
    RestoreOutput,
    RequestKeyframe(CommandView),
    Reconfigured,
    Failed(Seq<Seq<char>>),
}

impl View for ReconfigureStep {
    type V = ReconfigureView;

    open spec fn view(&self) -> ReconfigureView {
        match *self {
            ReconfigureStep::DropOutput => ReconfigureView::DropOutput,
            ReconfigureStep::Send(command) => ReconfigureView::Send(command@),
            ReconfigureStep::AwaitReport => ReconfigureView::AwaitReport,
            ReconfigureStep::SeeToHelpers(target, display) => ReconfigureView::SeeToHelpers(
                target,
                display,
            ),
            ReconfigureStep::RestoreOutput => ReconfigureView::RestoreOutput,
            ReconfigureStep::RequestKeyframe(command) => ReconfigureView::RequestKeyframe(command@),
            ReconfigureStep::Reconfigured => ReconfigureView::Reconfigured,
            ReconfigureStep::Failed(failure) => ReconfigureView::Failed(failure@),
        }
    }
}

/// A step that has been carried out, or could not be.
#[derive(Debug, Clone, Copy, PartialEq, Eq, Structural)]
pub enum ReconfigureStage {
    DropOutput,
    Send,
    SeeToHelpers,
    RestoreOutput,
    RequestKeyframe,
}

/// Why there is no report of a new stream.
#[derive(Debug)]
pub enum ReportError {
    /// The helper reported that it failed.
    Failed(String),
    /// The helper did not report in time, or ended.
    Silent(Failure),
}

pub open spec fn report_chain(error: ReportError) -> Seq<Seq<char>> {
    match error {
        ReportError::Failed(message) => seq![message@],
        ReportError::Silent(failure) => silence(failure@),
    }
}

/// What is said of a helper that did not report.
pub open spec fn silence(cause: Seq<Seq<char>>) -> Seq<Seq<char>> {
    seq!["capture helper did not reconfigure promptly"@] + cause
}

/// The display that a report says is active.
pub open spec fn report_view(report: Result<DisplayId, ReportError>) -> Result<
    DisplayId,
    Seq<Seq<char>>,
> {
    match report {
        Ok(display) => Ok(display),
        Err(error) => Err(report_chain(error)),
    }
}

impl StreamerView {
    /// The first step.
    pub open spec fn reconfigured(self) -> ReconfigureView {
        if self.running is Some {
            ReconfigureView::DropOutput
        } else {
            ReconfigureView::Failed(seq!["capture helper is not running"@])
        }
    }

    /// What follows a step, given how it went.
    pub open spec fn carried(
        self,
        plan: StartPlan,
        stage: ReconfigureStage,
        outcome: Result<(), Seq<Seq<char>>>,
    ) -> ReconfigureView {
        match (stage, outcome) {
            (ReconfigureStage::RequestKeyframe, Err(failure)) => ReconfigureView::Failed(
                seq![CaptureRequest::Keyframe.doing()] + failure,
            ),
            (_, Err(failure)) => ReconfigureView::Failed(failure),
            (ReconfigureStage::DropOutput, Ok(())) => ReconfigureView::Send(
                streamer::capture_command(self.viewer_name, plan),
            ),
            (ReconfigureStage::Send, Ok(())) => ReconfigureView::AwaitReport,
            (ReconfigureStage::SeeToHelpers, Ok(())) => if self.running is Some {
                ReconfigureView::RestoreOutput
            } else {
                ReconfigureView::Failed(seq!["capture helper disappeared"@])
            },
            (ReconfigureStage::RestoreOutput, Ok(())) => match streamer::told(
                self.running is Some,
                CommandView::RequestKeyframe,
                CaptureRequest::Keyframe.doing(),
            ) {
                Ok(command) => ReconfigureView::RequestKeyframe(command),
                Err(failure) => ReconfigureView::Failed(failure),
            },
            (ReconfigureStage::RequestKeyframe, Ok(())) => ReconfigureView::Reconfigured,
        }
    }

    /// What follows the wait for a report.
    pub open spec fn reported(self, report: Result<DisplayId, Seq<Seq<char>>>) -> ReconfigureView {
        match report {
            Err(failure) => ReconfigureView::Failed(failure),
            Ok(display) => match self.running {
                Some(target) => ReconfigureView::SeeToHelpers(target, display),
                None => ReconfigureView::Failed(seq!["capture helper is not running"@]),
            },
        }
    }
}

impl DesktopCaptureStreamer {
    /// Begins to start anew with the capture helper that runs.
    pub fn reconfigure(&self) -> (step: ReconfigureStep)
        ensures
            step@ == self@.reconfigured(),
    {
        if self.running.is_some() {
            ReconfigureStep::DropOutput
        } else {
            ReconfigureStep::Failed(Failure::new("capture helper is not running"))
        }
    }

    /// A step has been carried out, or could not be.
    pub fn reconfigure_step(
        &self,
        plan: &StartPlan,
        stage: ReconfigureStage,
        outcome: Result<(), Failure>,
    ) -> (step: ReconfigureStep)
        ensures
            step@ == self@.carried(*plan, stage, streamer::done_view(outcome)),
    {
        let outcome = if stage == ReconfigureStage::RequestKeyframe {
            request_result(CaptureRequest::Keyframe, outcome)
        } else {
            outcome
        };
        match outcome {
            Err(failure) => ReconfigureStep::Failed(failure),
            Ok(()) => match stage {
                ReconfigureStage::DropOutput => ReconfigureStep::Send(
                    start_capture(self.viewer_name.as_str(), plan),
                ),
                ReconfigureStage::Send => ReconfigureStep::AwaitReport,
                ReconfigureStage::SeeToHelpers => if self.running.is_some() {
                    ReconfigureStep::RestoreOutput
                } else {
                    ReconfigureStep::Failed(Failure::new("capture helper disappeared"))
                },
                ReconfigureStage::RestoreOutput => match self.request_keyframe() {
                    Ok(command) => ReconfigureStep::RequestKeyframe(command),
                    Err(failure) => ReconfigureStep::Failed(failure),
                },
                ReconfigureStage::RequestKeyframe => ReconfigureStep::Reconfigured,
            },
        }
    }

    /// The wait for a report is over: the display that it says is active, or why
    /// there is none.
    pub fn after_report(&self, report: Result<DisplayId, ReportError>) -> (step: ReconfigureStep)
        ensures
            step@ == self@.reported(report_view(report)),
    {
        match report {
            Ok(display) => match self.running {
                Some(target) => ReconfigureStep::SeeToHelpers(target, display),
                None => ReconfigureStep::Failed(Failure::new("capture helper is not running")),
            },
            Err(ReportError::Failed(message)) => ReconfigureStep::Failed(
                Failure::new(message.as_str()),
            ),
            Err(ReportError::Silent(failure)) => ReconfigureStep::Failed(
                failure.context("capture helper did not reconfigure promptly".to_owned()),
            ),
        }
    }
}

/// What happens once the output has been dropped.
pub enum Happening {
    /// The helper sends an event.
    Sent(EventView),
    /// The step that is due has been carried out, or could not be.
    Carried(Result<(), Seq<Seq<char>>>),
    /// The wait is over: with the oldest report that came and was not taken, or,
    /// if there is none, with this cause.
    Waited(Seq<Seq<char>>),
}

/// How far starting anew has come.
pub struct Reuse {
    pub step: ReconfigureView,
    /// Whether the stream has its output.
    pub routed: bool,
    /// The reports that nobody has taken yet.
    pub reports: Seq<Result<StartedView, Seq<char>>>,
}

/// What an event tells whoever waits for a report.
pub open spec fn report_of(event: EventView) -> Option<Result<StartedView, Seq<char>>> {
    match event {
        EventView::Started(started) => Some(Ok(started)),
        EventView::InputStarted => Some(Err("capture helper reported input-only startup"@)),
        EventView::Error(message) => Some(Err(message)),
        EventView::Stopped => Some(Err("desktop helper stopped"@)),
        _ => None,
    }
}

/// The step that can be carried out.
pub open spec fn stage_of(step: ReconfigureView) -> Option<ReconfigureStage> {
    match step {
        ReconfigureView::DropOutput => Some(ReconfigureStage::DropOutput),
        ReconfigureView::Send(_) => Some(ReconfigureStage::Send),
        ReconfigureView::SeeToHelpers(_, _) => Some(ReconfigureStage::SeeToHelpers),
        ReconfigureView::RestoreOutput => Some(ReconfigureStage::RestoreOutput),
        ReconfigureView::RequestKeyframe(_) => Some(ReconfigureStage::RequestKeyframe),
        _ => None,
    }
}

impl Reuse {
    /// The output has just been dropped.
    pub open spec fn begun(streamer: StreamerView, plan: StartPlan) -> Reuse {
        Reuse {
            step: streamer.carried(plan, ReconfigureStage::DropOutput, Ok(())),
            routed: false,
            reports: seq![],
        }
    }

    pub open spec fn after(
        self,
        streamer: StreamerView,
        plan: StartPlan,
        happening: Happening,
    ) -> Reuse {
        match happening {
            Happening::Sent(event) => match report_of(event) {
                Some(report) => Reuse { reports: self.reports.push(report), ..self },
                None => self,
            },
            Happening::Carried(outcome) => match stage_of(self.step) {
                Some(stage) => Reuse {
                    step: streamer.carried(plan, stage, outcome),
                    routed: self.routed || (stage == ReconfigureStage::RestoreOutput
                        && outcome is Ok),
                    ..self
                },
                None => self,
            },
            Happening::Waited(cause) => if !(self.step is AwaitReport) {
                self
            } else if self.reports.len() == 0 {
                Reuse { step: streamer.reported(Err(silence(cause))), ..self }
            } else {
                Reuse {
                    step: streamer.reported(
                        match self.reports[0] {
                            Ok(started) => Ok(started.active_display.id),
                            Err(message) => Err(seq![message]),
                        },
                    ),
                    reports: self.reports.skip(1),
                    ..self
                }
            },
        }
    }

    /// After all that has happened.
    pub open spec fn run(
        streamer: StreamerView,
        plan: StartPlan,
        history: Seq<Happening>,
    ) -> Reuse
        decreases history.len(),
    {
        if history.len() == 0 {
            Reuse::begun(streamer, plan)
        } else {
            Reuse::run(streamer, plan, history.drop_last()).after(streamer, plan, history.last())
        }
    }

    /// Whether a step is due that only a report of the new stream leads to.
    pub open spec fn past_report(self) -> bool {
        self.step is SeeToHelpers || self.step is RestoreOutput || self.step is RequestKeyframe
            || self.step is Reconfigured
    }
}

/// Whether the helper has reported the new stream.
pub open spec fn has_started(history: Seq<Happening>) -> bool {
    exists|at: int|
        0 <= at < history.len() && #[trigger] history[at] matches Happening::Sent(
            EventView::Started(_),
        )
}

proof fn lemma_still_started(history: Seq<Happening>)
    requires
        history.len() > 0,
        has_started(history.drop_last()),
    ensures
        has_started(history),
{
    let shorter = history.drop_last();
    let at = choose|at: int|
        0 <= at < shorter.len() && #[trigger] shorter[at] matches Happening::Sent(
            EventView::Started(_),
        );
    assert(history[at] == shorter[at]);
}

proof fn lemma_reports(streamer: StreamerView, plan: StartPlan, history: Seq<Happening>)
    ensures
        ({
            let reuse = Reuse::run(streamer, plan, history);
            &&& reuse.routed || reuse.past_report() ==> has_started(history)
            &&& forall|i: int|
                0 <= i < reuse.reports.len() && (#[trigger] reuse.reports[i]) is Ok
                    ==> has_started(history)
            &&& reuse.step is RequestKeyframe || reuse.step is Reconfigured ==> reuse.routed
        }),
    decreases history.len(),
{
    if history.len() > 0 {
        let shorter = history.drop_last();
        lemma_reports(streamer, plan, shorter);
        if has_started(shorter) {
            lemma_still_started(history);
        }
        let before = Reuse::run(streamer, plan, shorter);
        let after = Reuse::run(streamer, plan, history);
        match history.last() {
            Happening::Sent(event) => {
                if event is Started {
                    assert(history[history.len() - 1] == history.last());
                    assert(has_started(history));
                } else {
                    assert forall|i: int|
                        0 <= i < after.reports.len() && (#[trigger] after.reports[i])
                            is Ok implies has_started(history) by {
                        if i < before.reports.len() {
                            assert(before.reports[i] == after.reports[i]);
                        }
                    }
                }
            },
            Happening::Carried(_) => {},
            Happening::Waited(_) => {
                if before.step is AwaitReport && before.reports.len() > 0 {
                    assert forall|i: int|
                        0 <= i < after.reports.len() && (#[trigger] after.reports[i])
                            is Ok implies has_started(history) by {
                        assert(before.reports[i + 1] == after.reports[i]);
                    }
                }
            },
        }
    }
}

/// Of a helper that starts anew nothing is delivered that it sent before its
/// report of the new stream, whatever it sends and however the steps go.
pub proof fn nothing_of_the_old_stream_is_delivered(
    streamer: StreamerView,
    plan: StartPlan,
    history: Seq<Happening>,
    shared: SharedView,
    progress: ProgressView,
    frame: AccessUnitView,
)
    requires
        !has_started(history),
    ensures
        dispatch::capture_step(
            shared,
            progress,
            Ok(EventView::Frame(frame)),
            Reuse::run(streamer, plan, history).routed,
        ).step.frame is None,
{
    lemma_reports(streamer, plan, history);
}

/// Once the new stream has started, every frame is delivered.
pub proof fn the_new_stream_is_delivered(
    streamer: StreamerView,
    plan: StartPlan,
    history: Seq<Happening>,
    shared: SharedView,
    progress: ProgressView,
    frame: AccessUnitView,
)
    requires
        Reuse::run(streamer, plan, history).step is Reconfigured,
    ensures
        has_started(history),
        dispatch::capture_step(
            shared,
            progress,
            Ok(EventView::Frame(frame)),
            Reuse::run(streamer, plan, history).routed,
        ).step.frame == Some(frame),
{
    lemma_reports(streamer, plan, history);
}

/// A report is what the capture helper's events tell whoever waits, whatever
/// else they do.
pub proof fn reports_come_from_events(
    shared: SharedView,
    progress: ProgressView,
    event: EventView,
    routed: bool,
)
    ensures
        dispatch::capture_step(shared, progress, Ok(event), routed).step.report == report_of(event),
{
}

/// A helper starts anew step by step: its output is taken away before it is told,
/// it is told what the plan says, its report is awaited, the other helpers are seen
/// to, and only then does it get its output back and is asked for a whole picture.
/// Any step that fails is the last, and ends with its cause.
pub proof fn streams_are_renewed_in_order(
    streamer: StreamerView,
    plan: StartPlan,
    stage: ReconfigureStage,
    outcome: Result<(), Seq<Seq<char>>>,
)
    ensures
        streamer.reconfigured() is DropOutput <==> streamer.running is Some,
        streamer.reconfigured() is DropOutput || streamer.reconfigured() is Failed,
        ({
            let next = streamer.carried(plan, stage, outcome);
            let runs = streamer.running is Some;
            &&& next == ReconfigureView::Send(
                CommandView::Start {
                    viewer_name: streamer.viewer_name,
                    display_id: plan.display,
                    config: plan.config,
                },
            ) <==> stage == ReconfigureStage::DropOutput && outcome is Ok
            &&& next is Send <==> stage == ReconfigureStage::DropOutput && outcome is Ok
            &&& next is AwaitReport <==> stage == ReconfigureStage::Send && outcome is Ok
            &&& next is RestoreOutput <==> stage == ReconfigureStage::SeeToHelpers && outcome is Ok
                && runs
            &&& next is RequestKeyframe <==> stage == ReconfigureStage::RestoreOutput && outcome
                is Ok && runs
            &&& next matches ReconfigureView::RequestKeyframe(command) ==> command
                == CommandView::RequestKeyframe
            &&& next is Reconfigured <==> stage == ReconfigureStage::RequestKeyframe && outcome
                is Ok
            &&& outcome is Err ==> next is Failed
            &&& outcome matches Err(cause) ==> cause.is_suffix_of(next->Failed_0)
            &&& !(next is DropOutput) && !(next is SeeToHelpers)
        }),
{
    if let Err(cause) = outcome {
        let told = streamer.carried(plan, stage, outcome)->Failed_0;
        assert(told.skip(told.len() - cause.len()) =~= cause);
    }
}

/// The helpers are seen to for the display that the report names, on the desktop
/// that the capture runs on; without a report they are not, and why there is none is
/// what the start fails with.
pub proof fn reports_name_the_display(
    streamer: StreamerView,
    report: Result<DisplayId, Seq<Seq<char>>>,
    cause: Seq<Seq<char>>,
)
    ensures
        report matches Err(failure) ==> streamer.reported(report) == ReconfigureView::Failed(
            failure,
        ),
        report matches Ok(display) ==> (streamer.running matches Some(target)
            ==> streamer.reported(report) == ReconfigureView::SeeToHelpers(target, display)),
        report is Ok && streamer.running is None ==> streamer.reported(report) is Failed,
        silence(cause).skip(1) == cause,
        silence(cause)[0] == "capture helper did not reconfigure promptly"@,
{
    assert(silence(cause).skip(1) =~= cause);
}

/// Only a start, an error or an end is a report, and what it reports is what it
/// says.
pub proof fn reports_are_what_helpers_say(event: EventView)
    ensures
        report_of(event) is Some <==> event is Started || event is InputStarted || event is Error
            || event is Stopped,
        report_of(event) matches Some(report) ==> (report is Ok <==> event is Started),
        event matches EventView::Started(started) ==> report_of(event) == Some(
            Ok::<StartedView, Seq<char>>(started),
        ),
        event matches EventView::Error(message) ==> report_of(event) == Some(
            Err::<StartedView, Seq<char>>(message),
        ),
{
}

} // verus!
