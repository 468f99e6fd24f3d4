//! Ctrl+Alt+Del for the viewer: the policy that forbids services to send it is
//! lifted for the moment and put back.
use vstd::prelude::*;

verus! {

/// What happened.
#[derive(Debug, Clone, Copy, PartialEq, Eq, Structural)]
pub enum SasEvent {
    /// The policy was read; it may not be set at all.
    ReadValue(Option<u32>),
    ReadFailed,
    Written,
    WriteFailed,
    Sent,
    /// Sending did not return.
    Interrupted,
}

/// How a request ended.
#[derive(Debug, Clone, Copy, PartialEq, Eq, Structural)]
pub enum SasResult {
    Done,
    ReadFailed,
    OverrideFailed,
    /// It was sent, but the policy could not be put back at once.
    RestoreFailed,
    Interrupted,
}

impl SasResult {
    pub open spec fn text_of(self) -> Seq<char> {
        match self {
            SasResult::Done => ""@,
            SasResult::ReadFailed => "could not read Windows secure attention policy"@,
            SasResult::OverrideFailed =>
                "could not temporarily allow Ctrl+Alt+Del in Windows policy"@,
            SasResult::RestoreFailed =>
                "Ctrl+Alt+Del was requested, but restoring Windows secure attention policy failed"@,
            SasResult::Interrupted => "sending Ctrl+Alt+Del did not return"@,
        }
    }

    pub fn message(&self) -> (text: &'static str)
        ensures
            text@ == self.text_of(),
    {
        match self {
            SasResult::Done => "",
            SasResult::ReadFailed => "could not read Windows secure attention policy",
            SasResult::OverrideFailed => {
                "could not temporarily allow Ctrl+Alt+Del in Windows policy"
            },
            SasResult::RestoreFailed => {
                "Ctrl+Alt+Del was requested, but restoring Windows secure attention policy failed"
            },
            SasResult::Interrupted => "sending Ctrl+Alt+Del did not return",
        }
    }
}

/// What is to be done next.
#[derive(Debug, Clone, Copy, PartialEq, Eq, Structural)]
pub enum SasStep {
    Read,
    /// Set the policy, or remove it.
    Write(Option<u32>),
    Send,
    Finish(SasResult),
}

#[derive(Debug, Clone, Copy, PartialEq, Eq, Structural)]
pub enum Stage {
    Reading,
    Overriding,
    Sending,
    /// Reading what the policy has become.
    Restoring,
    /// Putting it back.
    Rewriting,
    Ended,
}

/// A request that is under way.
#[derive(Debug, Clone, Copy, PartialEq, Eq, Structural)]
pub struct SecureAttention {
    pub stage: Stage,
    pub original: Option<u32>,
    /// What the policy was set to, if it had to be.
    pub temporary: Option<u32>,
    /// Putting the policy back failed once.
    pub failed: bool,
    pub interrupted: bool,
}

/// Whether a policy lets services send it.
pub open spec fn permits(policy: Option<u32>) -> bool {
    policy == Some(1u32) || policy == Some(3u32)
}

/// What a policy is set to for the moment: services may send it, and programs
/// that help with accessibility still may if they could.
pub open spec fn lifted(policy: Option<u32>) -> u32 {
    if policy == Some(2u32) {
        3
    } else {
        1
    }
}

impl SecureAttention {
    pub open spec fn expects(self, event: SasEvent) -> bool {
        match self.stage {
            Stage::Reading => event is ReadValue || event is ReadFailed,
            Stage::Overriding => event is Written || event is WriteFailed,
            Stage::Sending => event is Sent || event is Interrupted,
            Stage::Restoring => event is ReadValue || event is ReadFailed,
            Stage::Rewriting => event is Written || event is WriteFailed,
            Stage::Ended => false,
        }
    }

    pub open spec fn ended(self, result: SasResult) -> (SecureAttention, SasStep) {
        (SecureAttention { stage: Stage::Ended, ..self }, SasStep::Finish(result))
    }

    /// Once the policy is what it should be, or nothing more can be done.
    pub open spec fn settled(self) -> (SecureAttention, SasStep) {
        self.ended(
            if self.interrupted {
                SasResult::Interrupted
            } else if self.failed {
                SasResult::RestoreFailed
            } else {
                SasResult::Done
            },
        )
    }

    /// Putting the policy back is tried once more.
    pub open spec fn retried(self) -> (SecureAttention, SasStep) {
        if self.interrupted || self.failed {
            self.settled()
        } else {
            (
                SecureAttention { stage: Stage::Restoring, failed: true, ..self },
                SasStep::Read,
            )
        }
    }

    pub open spec fn next(self, event: SasEvent) -> (SecureAttention, SasStep) {
        match self.stage {
            Stage::Reading => match event {
                SasEvent::ReadValue(policy) => if permits(policy) {
                    (
                        SecureAttention { stage: Stage::Sending, original: policy, ..self },
                        SasStep::Send,
                    )
                } else {
                    (
                        SecureAttention {
                            stage: Stage::Overriding,
                            original: policy,
                            temporary: Some(lifted(policy)),
                            ..self
                        },
                        SasStep::Write(Some(lifted(policy))),
                    )
                },
                _ => self.ended(SasResult::ReadFailed),
            },
            Stage::Overriding => match event {
                SasEvent::Written => (
                    SecureAttention { stage: Stage::Sending, ..self },
                    SasStep::Send,
                ),
                _ => self.ended(SasResult::OverrideFailed),
            },
            Stage::Sending => {
                let sent = SecureAttention { interrupted: event is Interrupted, ..self };
                if self.temporary is None {
                    sent.settled()
                } else {
                    (SecureAttention { stage: Stage::Restoring, ..sent }, SasStep::Read)
                }
            },
            Stage::Restoring => match event {
                SasEvent::ReadValue(policy) => if policy == self.temporary {
                    (
                        SecureAttention { stage: Stage::Rewriting, ..self },
                        SasStep::Write(self.original),
                    )
                } else {
                    self.settled()
                },
                _ => self.retried(),
            },
            Stage::Rewriting => match event {
                SasEvent::Written => self.settled(),
                _ => self.retried(),
            },
            Stage::Ended => (self, SasStep::Finish(SasResult::Done)),
        }
    }

    pub open spec fn initial() -> SecureAttention {
        SecureAttention {
            stage: Stage::Reading,
            original: None,
            temporary: None,
            failed: false,
            interrupted: false,
        }
    }

    /// A new request; the policy is read first.
    pub fn new() -> (request: Self)
        ensures
            request == Self::initial(),
    {
        SecureAttention {
            stage: Stage::Reading,
            original: None,
            temporary: None,
            failed: false,
            interrupted: false,
        }
    }

    fn settle(&mut self) -> (step: SasStep)
        ensures
            (*final(self), step) == old(self).settled(),
    {
        self.stage = Stage::Ended;
        SasStep::Finish(
            if self.interrupted {
                SasResult::Interrupted
            } else if self.failed {
                SasResult::RestoreFailed
            } else {
                SasResult::Done
            },
        )
    }

    fn retry(&mut self) -> (step: SasStep)
        ensures
            (*final(self), step) == old(self).retried(),
    {
        if self.interrupted || self.failed {
            return self.settle();
        }
        self.stage = Stage::Restoring;
        self.failed = true;
        SasStep::Read
    }

    /// Takes what happened, and tells what is to be done next.
    pub fn step(&mut self, event: SasEvent) -> (step: SasStep)
        requires
            old(self).expects(event),
        ensures
            (*final(self), step) == old(self).next(event),
    {
        match self.stage {
            Stage::Reading => match event {
                SasEvent::ReadValue(policy) => {
                    self.original = policy;
                    let permitted = match policy {
                        Some(1) => true,
                        Some(3) => true,
                        _ => false,
                    };
                    if permitted {
                        self.stage = Stage::Sending;
                        return SasStep::Send;
                    }
                    let temporary: u32 = match policy {
                        Some(2) => 3,
                        _ => 1,
                    };
                    self.temporary = Some(temporary);
                    self.stage = Stage::Overriding;
                    SasStep::Write(Some(temporary))
                },
                _ => {
                    self.stage = Stage::Ended;
                    SasStep::Finish(SasResult::ReadFailed)
                },
            },
            Stage::Overriding => match event {
                SasEvent::Written => {
                    self.stage = Stage::Sending;
                    SasStep::Send
                },
                _ => {
                    self.stage = Stage::Ended;
                    SasStep::Finish(SasResult::OverrideFailed)
                },
            },
            Stage::Sending => {
                self.interrupted = match event {
                    SasEvent::Interrupted => true,
                    _ => false,
                };
                if self.temporary.is_none() {
                    return self.settle();
                }
                self.stage = Stage::Restoring;
                SasStep::Read
            },
            Stage::Restoring => match event {
                SasEvent::ReadValue(policy) => {
                    let same = match (policy, self.temporary) {
                        (Some(first), Some(second)) => first == second,
                        (None, None) => true,
                        _ => false,
                    };
                    if same {
                        self.stage = Stage::Rewriting;
                        SasStep::Write(self.original)
                    } else {
                        self.settle()
                    }
                },
                _ => self.retry(),
            },
            Stage::Rewriting => match event {
                SasEvent::Written => self.settle(),
                _ => self.retry(),
            },
            Stage::Ended => SasStep::Finish(SasResult::Done),
        }
    }
}

/// The policy after the steps of a request, where every step works and nobody
/// else changes it.
pub open spec fn policy_after(policy: Option<u32>, step: SasStep) -> Option<u32> {
    match step {
        SasStep::Write(value) => value,
        _ => policy,
    }
}

/// A request lifts the policy while it sends, and leaves it as it was; a policy
/// that permits it is not touched.
pub proof fn policy_is_put_back(policy: Option<u32>)
    ensures
        ({
            let (first, step) = SecureAttention::initial().next(SasEvent::ReadValue(policy));
            if permits(policy) {
                &&& step == SasStep::Send
                &&& first.next(SasEvent::Sent).1 == SasStep::Finish(SasResult::Done)
            } else {
                let lifted = policy_after(policy, step);
                let (second, send) = first.next(SasEvent::Written);
                let (third, read) = second.next(SasEvent::Sent);
                let (fourth, write) = third.next(SasEvent::ReadValue(lifted));
                &&& permits(lifted)
                &&& send == SasStep::Send
                &&& read == SasStep::Read
                &&& policy_after(lifted, write) == policy
                &&& fourth.next(SasEvent::Written).1 == SasStep::Finish(SasResult::Done)
            }
        }),
{
}

/// A policy that somebody else set meanwhile is left alone, and a request that
/// was interrupted still puts back what it lifted.
pub proof fn foreign_policy_is_kept(request: SecureAttention, policy: Option<u32>)
    requires
        request.stage == Stage::Restoring,
    ensures
        policy != request.temporary ==> request.next(SasEvent::ReadValue(policy)).1 is Finish,
        policy == request.temporary ==> request.next(SasEvent::ReadValue(policy)).1
            == SasStep::Write(request.original),
{
}

/// Nothing is sent unless the policy was read and, where it had to be, lifted.
pub proof fn failures_do_not_send(request: SecureAttention, event: SasEvent)
    requires
        request.expects(event),
        event is ReadFailed || event is WriteFailed,
    ensures
        !(request.next(event).1 is Send),
{
}

/// Whether the agent may send it: only the installed service can, which runs in
/// session 0.
pub fn runs_as_service(session: u32) -> (service: bool)
    ensures
        service == (session == 0),
{
    session == 0
}

/// Of the four values that Windows knows for the policy, those that let services
/// send it are left alone; the others get the services' bit, and keep the one for
/// programs that help with accessibility.
pub proof fn policies_keep_their_other_half(policy: u32)
    requires
        policy <= 3,
    ensures
        permits(Some(policy)) <==> policy % 2 == 1,
        !permits(None),
        !permits(Some(policy)) ==> lifted(Some(policy)) == policy + 1,
        lifted(None) == 1,
        permits(Some(lifted(Some(policy)))),
        permits(Some(lifted(None))),
{
}

/// Every way that a request can end is told as what it was: a policy that could not
/// be read, or lifted, ends it unsent; one that did not return is told so even if
/// the policy was put back; and one that was sent is done unless the policy could
/// not be put back at once.
pub proof fn requests_end_as_they_went(request: SecureAttention, event: SasEvent)
    requires
        request.expects(event),
    ensures
        ({
            let (after, step) = request.next(event);
            &&& step is Finish <==> after.stage == Stage::Ended
            &&& step == SasStep::Finish(SasResult::ReadFailed) <==> request.stage == Stage::Reading
                && event is ReadFailed
            &&& step == SasStep::Finish(SasResult::OverrideFailed) <==> request.stage
                == Stage::Overriding && event is WriteFailed
            &&& step == SasStep::Finish(SasResult::Interrupted) ==> after.interrupted
            &&& step == SasStep::Finish(SasResult::RestoreFailed) ==> after.failed
                && !after.interrupted
            &&& step == SasStep::Finish(SasResult::Done) ==> !after.failed && !after.interrupted
                && !(event is ReadFailed) && !(event is WriteFailed)
            &&& step is Send <==> after.stage == Stage::Sending
            &&& step is Send ==> (request.stage == Stage::Reading && permits(after.original)) || (
            request.stage == Stage::Overriding && event is Written)
        }),
{
}

/// Sending comes once. What was lifted is put back after it whether or not it
/// returned; putting it back is tried once more if that fails, and not after an
/// interruption. Nothing but the first look decides what is put back.
pub proof fn lifted_policies_are_put_back(request: SecureAttention, event: SasEvent)
    requires
        request.expects(event),
    ensures
        ({
            let (after, step) = request.next(event);
            &&& request.stage == Stage::Sending ==> (step is Read <==> request.temporary is Some)
                && (after.interrupted <==> event is Interrupted)
            &&& request.stage != Stage::Sending ==> after.interrupted == request.interrupted
            &&& request.stage != Stage::Reading ==> after.original == request.original
                && after.temporary == request.temporary
            &&& request.stage == Stage::Reading ==> (event matches SasEvent::ReadValue(policy)
                ==> after.original == policy)
            &&& (request.stage == Stage::Restoring && event is ReadFailed) || (request.stage
                == Stage::Rewriting && event is WriteFailed) ==> (step is Read <==> !request.failed
                && !request.interrupted)
            &&& after.failed <==> request.failed || (step is Read && request.stage
                != Stage::Sending)
            &&& step is Read ==> after.stage == Stage::Restoring
            &&& step is Write ==> after.stage == Stage::Overriding || after.stage
                == Stage::Rewriting
            &&& after.stage == Stage::Overriding ==> step == SasStep::Write(after.temporary)
                && permits(after.temporary)
            &&& after.stage == Stage::Rewriting ==> step == SasStep::Write(request.original)
        }),
{
}

/// The result of a request says how far it went.
pub proof fn results_say_how_far_it_went(result: SasResult)
    ensures
        result == SasResult::Done ==> result.text_of() == ""@,
        result == SasResult::ReadFailed ==> result.text_of()
            == "could not read Windows secure attention policy"@,
        result == SasResult::OverrideFailed ==> result.text_of()
            == "could not temporarily allow Ctrl+Alt+Del in Windows policy"@,
        result == SasResult::RestoreFailed ==> result.text_of()
            == "Ctrl+Alt+Del was requested, but restoring Windows secure attention policy failed"@,
        result == SasResult::Interrupted ==> result.text_of()
            == "sending Ctrl+Alt+Del did not return"@,
{
}

/// A request begins by reading, with nothing lifted, failed or interrupted, so that
/// a policy that permits it is sent at once and nothing is put back.
pub proof fn requests_begin_with_nothing_lifted(policy: Option<u32>)
    ensures
        SecureAttention::initial().stage == Stage::Reading,
        SecureAttention::initial().temporary is None,
        !SecureAttention::initial().failed,
        !SecureAttention::initial().interrupted,
        ({
            let after = SecureAttention::initial().next(SasEvent::ReadValue(policy)).0;
            after.temporary is None <==> policy == Some(1u32) || policy == Some(3u32)
        }),
{
}

/// A request is told how its step went: what was read after it asked to read,
/// whether it was written after it asked to write, whether it was sent after it
/// asked to send, and nothing once it has ended.
pub proof fn requests_are_told_how_their_step_went(
    request: SecureAttention,
    event: SasEvent,
    next: SasEvent,
)
    requires
        request.expects(event),
    ensures
        ({
            let (after, step) = request.next(event);
            &&& step is Read ==> (after.expects(next) <==> next is ReadValue || next is ReadFailed)
            &&& step is Write ==> (after.expects(next) <==> next is Written || next is WriteFailed)
            &&& step is Send ==> (after.expects(next) <==> next is Sent || next is Interrupted)
            &&& step is Finish ==> !after.expects(next)
        }),
        SecureAttention::initial().expects(next) <==> next is ReadValue || next is ReadFailed,
{
}

} // verus!
