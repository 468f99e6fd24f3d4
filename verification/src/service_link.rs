//! The pipes between the service and its coordinator: session activity one way,
//! announcements and the request to stop the other.
use crate::text;
use crate::text::{after_prefix, push_str, trim};
use crate::wire::text_from_utf8;
use vstd::prelude::*;
use vstd::utf8;

verus! {

/// Written when the first remote session starts.
pub const SESSION_ACTIVE: &'static str = "session-active";

/// Written when the last remote session ends.
pub const SESSION_IDLE: &'static str = "session-idle";

/// Written before the release that the coordinator is stopped for.
pub const UPDATING_PREFIX: &'static str = "updating ";

/// The release that a line of the service names, if it is such a line. Whether
/// that is a plausible version is another matter.
pub open spec fn announced(line: Seq<u8>) -> Option<Seq<char>> {
    if utf8::valid_utf8(line) && text::begins_with(
        text::trimmed(utf8::decode_utf8(line)),
        UPDATING_PREFIX@,
    ) {
        Some(text::trimmed(utf8::decode_utf8(line)).skip(UPDATING_PREFIX@.len() as int))
    } else {
        None
    }
}

pub fn announced_version(line: Vec<u8>) -> (version: Option<String>)
    ensures
        match version {
            Some(text) => announced(line@) == Some(text@),
            None => announced(line@) is None,
        },
{
    let text = match text_from_utf8(line) {
        Some(text) => text,
        None => {
            return None;
        },
    };
    match after_prefix(trim(text.as_str()), UPDATING_PREFIX) {
        Some(version) => Some(version.to_owned()),
        None => None,
    }
}

/// What the service writes before it stops the coordinator for an update.
pub fn announcement(version: &str) -> (line: String)
    ensures
        line@ == UPDATING_PREFIX@ + version@ + "\n"@,
{
    let mut line = UPDATING_PREFIX.to_owned();
    push_str(&mut line, version);
    push_str(&mut line, "\n");
    line
}

proof fn lemma_without_trail(text: Seq<char>, tail: Seq<char>)
    requires
        forall|i: int| 0 <= i < tail.len() ==> text::is_space(#[trigger] tail[i]),
    ensures
        text::without_trail(text + tail) == text::without_trail(text),
    decreases tail.len(),
{
    if tail.len() == 0 {
        assert(text + tail =~= text);
    } else {
        let longer = text + tail;
        assert(longer.last() == tail.last());
        assert(longer.drop_last() =~= text + tail.drop_last());
        assert forall|i: int| 0 <= i < tail.drop_last().len() implies text::is_space(
            #[trigger] tail.drop_last()[i],
        ) by {
            assert(tail.drop_last()[i] == tail[i]);
        }
        lemma_without_trail(text, tail.drop_last());
    }
}

/// The coordinator reads the release that the service announces, if it neither
/// is empty nor ends in white space.
pub proof fn announcements_are_read_back(version: Seq<char>)
    requires
        version.len() > 0,
        !text::is_space(version.last()),
    ensures
        announced(utf8::encode_utf8(UPDATING_PREFIX@ + version + "\n"@)) == Some(version),
{
    let whole = UPDATING_PREFIX@ + version + "\n"@;
    let line = utf8::encode_utf8(whole);
    utf8::encode_utf8_valid_utf8(whole);
    utf8::encode_utf8_decode_utf8(whole);
    reveal_strlit("updating ");
    reveal_strlit("\n");
    let kept = UPDATING_PREFIX@ + version;
    assert(whole =~= kept + "\n"@);
    assert(!text::is_space(whole[0]));
    assert(text::without_lead(whole) == whole);
    lemma_without_trail(kept, "\n"@);
    assert(kept.last() == version.last());
    assert(text::without_trail(kept) == kept);
    assert(text::trimmed(whole) == kept);
    assert(kept.take(UPDATING_PREFIX@.len() as int) =~= UPDATING_PREFIX@);
    assert(kept.skip(UPDATING_PREFIX@.len() as int) =~= version);
}

/// The release that a line announces, where that is plausible; anything else is
/// not passed on. `plausible` is whether what the line names can be a release,
/// and matters only where it names something.
pub open spec fn accepted(line: Seq<u8>, plausible: bool) -> Option<Seq<char>> {
    if plausible {
        announced(line)
    } else {
        None
    }
}

pub fn update_announcement(line: Vec<u8>, plausible: bool) -> (version: Option<String>)
    ensures
        match version {
            Some(text) => accepted(line@, plausible) == Some(text@),
            None => accepted(line@, plausible) is None,
        },
{
    if plausible {
        announced_version(line)
    } else {
        None
    }
}

/// The remote sessions that run, and what was written of them.
#[derive(Debug)]
pub struct Activity {
    pub sessions: usize,
    /// What is to be written to the service.
    pub output: String,
}

/// The line to write when the number of sessions changes.
pub open spec fn report(before: nat, after: nat) -> Seq<char> {
    if before == 0 && after > 0 {
        SESSION_ACTIVE@ + "\n"@
    } else if before > 0 && after == 0 {
        SESSION_IDLE@ + "\n"@
    } else {
        seq![]
    }
}

pub open spec fn changed(sessions: nat, started: bool) -> nat {
    if started {
        sessions + 1
    } else if sessions == 0 {
        0
    } else {
        (sessions - 1) as nat
    }
}

impl Activity {
    pub fn new() -> (activity: Self)
        ensures
            activity.sessions == 0,
            activity.output@ == Seq::<char>::empty(),
    {
        let output = String::new();
        assert(output@ =~= Seq::<char>::empty());
        Activity { sessions: 0, output }
    }

    /// Counts a session that starts or ends. Only changes between none and some
    /// are reported, in the order in which they happen.
    pub fn change(&mut self, started: bool)
        requires
            started ==> old(self).sessions < usize::MAX,
        ensures
            final(self).sessions == changed(old(self).sessions as nat, started),
            final(self).output@ == old(self).output@ + report(
                old(self).sessions as nat,
                final(self).sessions as nat,
            ),
    {
        let was_active = self.sessions > 0;
        if started {
            self.sessions += 1;
        } else if self.sessions > 0 {
            self.sessions -= 1;
        }
        let active = self.sessions > 0;
        let ghost before = self.output@;
        if active == was_active {
            assert(self.output@ =~= before + report(old(self).sessions as nat, self.sessions as nat));
            return;
        }
        push_str(
            &mut self.output,
            if active {
                SESSION_ACTIVE
            } else {
                SESSION_IDLE
            },
        );
        push_str(&mut self.output, "\n");
        assert(self.output@ =~= before + report(old(self).sessions as nat, self.sessions as nat));
    }
}

/// The sessions and the reports after a series of starts and ends.
pub open spec fn activity_after(changes: Seq<bool>) -> (nat, Seq<char>)
    decreases changes.len(),
{
    if changes.len() == 0 {
        (0, seq![])
    } else {
        let (sessions, output) = activity_after(changes.drop_last());
        let after = changed(sessions, changes.last());
        (after, output + report(sessions, after))
    }
}

/// How many reports have been written.
pub open spec fn reports(changes: Seq<bool>) -> nat
    decreases changes.len(),
{
    if changes.len() == 0 {
        0
    } else {
        let before = activity_after(changes.drop_last()).0;
        let after = activity_after(changes).0;
        reports(changes.drop_last()) + (if (before == 0) != (after == 0) {
            1nat
        } else {
            0nat
        })
    }
}

/// Reports alternate: after an even number of them there is no session, after an
/// odd number there is one.
pub proof fn reports_alternate(changes: Seq<bool>)
    ensures
        (activity_after(changes).0 > 0) == (reports(changes) % 2 == 1),
    decreases changes.len(),
{
    if changes.len() > 0 {
        reports_alternate(changes.drop_last());
    }
}

/// A session that was reported as started and has not ended.
#[derive(Debug)]
pub struct SessionGuard(());

impl SessionGuard {
    /// Ends the session and reports it.
    pub fn end(self, link: &mut ServiceLink)
        ensures
            final(link).stop == old(link).stop,
            final(link).update == old(link).update,
            match old(link).activity {
                Some(activity) => final(link).activity is Some
                    && final(link).activity->Some_0.sessions == changed(
                    activity.sessions as nat,
                    false,
                ) && final(link).activity->Some_0.output@ == activity.output@ + report(
                    activity.sessions as nat,
                    changed(activity.sessions as nat, false),
                ),
                None => final(link).activity is None,
            },
    {
        if let Some(mut activity) = link.activity.take() {
            activity.change(false);
            link.activity = Some(activity);
        }
    }
}

/// What was read from the service.
#[derive(Debug)]
pub enum LinkEvent {
    /// The pipe was closed, which asks the coordinator to stop.
    Closed,
    Line(Vec<u8>),
    Interrupted,
    Failed,
}

/// The coordinator's end of the pipes.
#[derive(Debug)]
pub struct ServiceLink {
    pub stop: bool,
    pub activity: Option<Activity>,
    pub update: Option<String>,
}

impl ServiceLink {
    /// Follows the service's pipes for a coordinator that it launched; any other
    /// reports nothing.
    pub fn new(attached: bool) -> (link: Self)
        ensures
            !link.stop,
            link.update is None,
            link.activity is Some == attached,
            link.activity matches Some(activity) ==> activity.sessions == 0 && activity.output@
                == Seq::<char>::empty(),
    {
        ServiceLink {
            stop: false,
            activity: if attached {
                Some(Activity::new())
            } else {
                None
            },
            update: None,
        }
    }

    /// Takes what was read from the service. Of a line, `plausible` is whether
    /// the release that it names can be one; the last that can is kept.
    pub fn read(&mut self, event: LinkEvent, plausible: bool)
        ensures
            final(self).activity == old(self).activity,
            final(self).stop == (old(self).stop || event is Closed || event is Failed),
            match event {
                LinkEvent::Line(line) => match accepted(line@, plausible) {
                    Some(version) => final(self).update is Some && final(self).update->Some_0@
                        == version,
                    None => final(self).update == old(self).update,
                },
                _ => final(self).update == old(self).update,
            },
    {
        match event {
            LinkEvent::Closed => {
                self.stop = true;
            },
            LinkEvent::Failed => {
                self.stop = true;
            },
            LinkEvent::Interrupted => {},
            LinkEvent::Line(line) => {
                let version = update_announcement(line, plausible);
                if version.is_some() {
                    self.update = version;
                }
            },
        }
    }

    /// The release that the service announced.
    pub fn update_version(&self) -> (version: Option<String>)
        ensures
            match (version, self.update) {
                (Some(copy), Some(update)) => copy@ == update@,
                (None, None) => true,
                _ => false,
            },
    {
        match &self.update {
            Some(update) => Some(update.clone()),
            None => None,
        }
    }

    pub fn stopped(&self) -> (stopped: bool)
        ensures
            stopped == self.stop,
    {
        self.stop
    }

    /// Reports a live session, until its guard is ended.
    pub fn session_started(&mut self) -> (guard: Option<SessionGuard>)
        requires
            old(self).activity matches Some(activity) ==> activity.sessions < usize::MAX,
        ensures
            final(self).stop == old(self).stop,
            final(self).update == old(self).update,
            guard is Some == old(self).activity is Some,
            match old(self).activity {
                Some(activity) => final(self).activity is Some
                    && final(self).activity->Some_0.sessions == activity.sessions + 1
                    && final(self).activity->Some_0.output@ == activity.output@ + report(
                    activity.sessions as nat,
                    activity.sessions as nat + 1,
                ),
                None => final(self).activity is None,
            },
    {
        match self.activity.take() {
            Some(mut activity) => {
                activity.change(true);
                self.activity = Some(activity);
                Some(SessionGuard(()))
            },
            None => None,
        }
    }
}

/// The service is told of the first session that starts and of the last one that
/// ends, and of nothing between.
pub proof fn only_the_first_and_the_last_are_told(sessions: nat)
    ensures
        changed(sessions, true) == sessions + 1,
        sessions > 0 ==> changed(sessions, false) == sessions - 1,
        changed(0, false) == 0,
        report(0, changed(0, true)) == "session-active"@ + "\n"@,
        report(1, changed(1, false)) == "session-idle"@ + "\n"@,
        sessions > 0 ==> report(sessions, changed(sessions, true)) == Seq::<char>::empty(),
        sessions > 1 ==> report(sessions, changed(sessions, false)) == Seq::<char>::empty(),
        report(0, changed(0, false)) == Seq::<char>::empty(),
{
}

/// A release is passed on only if it is plausible, and then as it was announced; a
/// line that does not begin as an announcement, or is no text, announces nothing.
pub proof fn only_plausible_releases_are_passed_on(line: Seq<u8>)
    ensures
        accepted(line, false) is None,
        accepted(line, true) == announced(line),
        !utf8::valid_utf8(line) ==> announced(line) is None,
        announced(line) matches Some(version) ==> text::trimmed(utf8::decode_utf8(line))
            == "updating "@ + version,
{
    if let Some(version) = announced(line) {
        let said = text::trimmed(utf8::decode_utf8(line));
        assert(said =~= said.take("updating "@.len() as int) + said.skip(
            "updating "@.len() as int,
        ));
    }
}

} // verus!
