//! What helpers write to their error streams, bounded in length and in rate.
//!
//! Some helpers run with the user's token, so lines are cut short and floods
//! are counted instead of kept; the rest is drained so that no pipe blocks.
use vstd::prelude::*;

verus! {

pub const MAX_STDERR_LINE_BYTES: usize = 4_096;

pub const STDERR_LINES_PER_WINDOW: u32 = 120;

pub const STDERR_WINDOW_MS: u64 = 60_000;

/// The end of a line.
pub const NEWLINE: u8 = 10;

/// The byte before it that is dropped.
pub const CARRIAGE_RETURN: u8 = 13;

/// A line that is being read.
#[derive(Debug)]
pub struct BoundedLine {
    pub line: Vec<u8>,
    pub truncated: bool,
    pub read_any: bool,
    pub limit: usize,
}

/// What one piece of input did to a line.
#[derive(Debug, Clone, Copy, PartialEq, Eq, Structural)]
pub struct Fed {
    /// How many of its bytes belong to the line, its end included.
    pub consumed: usize,
    /// The line is complete.
    pub complete: bool,
}

/// The part of a line that is kept.
pub open spec fn kept(content: Seq<u8>, limit: nat) -> Seq<u8> {
    if content.len() <= limit {
        content
    } else {
        content.take(limit as int)
    }
}

/// A kept line without the carriage return at its end.
pub open spec fn without_return(line: Seq<u8>) -> Seq<u8> {
    if line.len() > 0 && line.last() == CARRIAGE_RETURN {
        line.drop_last()
    } else {
        line
    }
}

/// Where a line ends in a piece of input.
pub open spec fn newline_in(bytes: Seq<u8>) -> Option<int>
    decreases bytes.len(),
{
    if bytes.len() == 0 {
        None
    } else if bytes[0] == NEWLINE {
        Some(0)
    } else {
        match newline_in(bytes.skip(1)) {
            Some(at) => Some(at + 1),
            None => None,
        }
    }
}

proof fn lemma_newline(bytes: Seq<u8>, at: int)
    requires
        0 <= at <= bytes.len(),
        forall|i: int| 0 <= i < at ==> bytes[i] != NEWLINE,
    ensures
        at < bytes.len() && bytes[at] == NEWLINE ==> newline_in(bytes) == Some(at),
        at == bytes.len() ==> newline_in(bytes) is None,
    decreases bytes.len(),
{
    if at > 0 {
        lemma_newline(bytes.skip(1), at - 1);
    }
}

fn find_newline(bytes: &[u8]) -> (at: Option<usize>)
    ensures
        match at {
            Some(index) => index < bytes@.len() && newline_in(bytes@) == Some(index as int),
            None => newline_in(bytes@) is None,
        },
{
    let mut at: usize = 0;
    while at < bytes.len() && bytes[at] != NEWLINE
        invariant
            at <= bytes@.len(),
            forall|i: int| 0 <= i < at ==> bytes@[i] != NEWLINE,
        decreases bytes@.len() - at,
    {
        at += 1;
    }
    proof {
        lemma_newline(bytes@, at as int);
    }
    if at < bytes.len() {
        Some(at)
    } else {
        None
    }
}

impl BoundedLine {
    /// Whether this is what remains of `content`, the bytes of the line so far.
    pub open spec fn holds(self, content: Seq<u8>) -> bool {
        self.line@ == kept(content, self.limit as nat) && self.truncated == (content.len()
            > self.limit)
    }

    pub fn new(limit: usize) -> (line: Self)
        ensures
            line.holds(seq![]),
            !line.read_any,
            line.limit == limit,
    {
        BoundedLine { line: Vec::new(), truncated: false, read_any: false, limit }
    }

    /// Takes the next piece of input, up to and including the end of the line.
    pub fn feed(&mut self, available: &[u8]) -> (fed: Fed)
        requires
            available@.len() > 0,
        ensures
            final(self).read_any,
            final(self).limit == old(self).limit,
            fed == (match newline_in(available@) {
                Some(at) => (Fed { consumed: (at + 1) as usize, complete: true }),
                None => (Fed { consumed: available@.len() as usize, complete: false }),
            }),
            fed.consumed <= available@.len(),
            forall|content: Seq<u8>| #[trigger]
                old(self).holds(content) ==> match newline_in(available@) {
                    Some(at) => {
                        let whole = content + available@.take(at);
                        final(self).line@ == without_return(kept(whole, old(self).limit as nat))
                            && final(self).truncated == (whole.len() > old(self).limit)
                    },
                    None => final(self).holds(content + available@),
                },
    {
        self.read_any = true;
        let total: usize = available.len();
        let newline = find_newline(available);
        let length: usize = match newline {
            Some(at) => at,
            None => total,
        };
        let room: usize = if self.line.len() < self.limit {
            self.limit - self.line.len()
        } else {
            0
        };
        if length > room {
            self.truncated = true;
        }
        let taken: usize = if length < room {
            length
        } else {
            room
        };
        let ghost before = self.line@;
        let piece = vstd::slice::slice_subrange(available, 0, taken);
        self.line.extend_from_slice(piece);
        assert(self.line@ =~= before + available@.take(taken as int));
        proof {
            let segment = available@.take(length as int);
            assert forall|content: Seq<u8>| #[trigger] old(self).holds(content) implies self.line@
                == kept(content + segment, self.limit as nat) && self.truncated == ((content
                + segment).len() > self.limit) by {
                assert(self.line@ =~= kept(content + segment, self.limit as nat));
            }
            assert(available@.take(available@.len() as int) =~= available@);
        }
        match newline {
            Some(at) => {
                let ghost full = self.line@;
                if self.line.len() > 0 && self.line[self.line.len() - 1] == CARRIAGE_RETURN {
                    self.line.pop();
                }
                assert(self.line@ =~= without_return(full));
                Fed { consumed: at + 1, complete: true }
            },
            None => Fed { consumed: total, complete: false },
        }
    }

    /// What the end of the input leaves: whether the last line was cut short,
    /// or nothing if there was none.
    pub fn finish(&self) -> (truncated: Option<bool>)
        ensures
            truncated == (if self.read_any {
                Some(self.truncated)
            } else {
                None
            }),
    {
        if self.read_any {
            Some(self.truncated)
        } else {
            None
        }
    }
}

/// However a line is cut into pieces on its way, the same is kept of it.
pub proof fn pieces_do_not_matter(line: BoundedLine, content: Seq<u8>, first: Seq<u8>, second: Seq<u8>)
    ensures
        line.holds((content + first) + second) == line.holds(content + (first + second)),
        kept(content, line.limit as nat).len() <= line.limit,
{
    assert((content + first) + second =~= content + (first + second));
}

/// Allows `limit` lines per window and counts the lines it refuses.
#[derive(Debug, Clone, Copy, PartialEq, Eq, Structural)]
pub struct LineBudget {
    pub limit: u32,
    pub window_ms: u64,
    pub window_start_ms: u64,
    pub used: u32,
    pub suppressed: u64,
}

impl LineBudget {
    pub open spec fn within_limit(self) -> bool {
        self.used <= self.limit
    }

    /// Whether the window that a line falls into is a new one.
    pub open spec fn window_over(self, now_ms: u64) -> bool {
        now_ms - self.window_start_ms >= self.window_ms || (now_ms < self.window_start_ms
            && self.window_ms == 0)
    }

    /// The budget at the time of a line, before the line counts.
    pub open spec fn at(self, now_ms: u64) -> LineBudget {
        if self.window_over(now_ms) {
            LineBudget { window_start_ms: now_ms, used: 0, suppressed: 0, ..self }
        } else {
            self
        }
    }

    pub open spec fn admits(self, now_ms: u64) -> bool {
        self.at(now_ms).used < self.limit
    }

    /// How many refused lines are reported with a line.
    pub open spec fn reported(self, now_ms: u64) -> u64 {
        if self.window_over(now_ms) {
            self.suppressed
        } else {
            0
        }
    }

    pub open spec fn after(self, now_ms: u64) -> LineBudget {
        let current = self.at(now_ms);
        if self.admits(now_ms) {
            LineBudget { used: (current.used + 1) as u32, ..current }
        } else {
            LineBudget { suppressed: (current.suppressed + 1) as u64, ..current }
        }
    }

    pub fn new(limit: u32, window_ms: u64, now_ms: u64) -> (budget: Self)
        ensures
            budget == (LineBudget {
                limit,
                window_ms,
                window_start_ms: now_ms,
                used: 0,
                suppressed: 0,
            }),
            budget.within_limit(),
    {
        LineBudget { limit, window_ms, window_start_ms: now_ms, used: 0, suppressed: 0 }
    }

    /// Whether to log this line, and how many lines the window that just ended
    /// suppressed.
    pub fn allow_line(&mut self, now_ms: u64) -> (result: (bool, u64))
        requires
            old(self).within_limit(),
            old(self).suppressed < u64::MAX,
        ensures
            result == (old(self).admits(now_ms), old(self).reported(now_ms)),
            *final(self) == old(self).after(now_ms),
            final(self).within_limit(),
    {
        let mut ended: u64 = 0;
        if now_ms.saturating_sub(self.window_start_ms) >= self.window_ms {
            ended = self.take_suppressed();
            self.window_start_ms = now_ms;
            self.used = 0;
        }
        if self.used < self.limit {
            self.used += 1;
            (true, ended)
        } else {
            self.suppressed += 1;
            (false, ended)
        }
    }

    /// The lines refused and not yet reported, once.
    pub fn take_suppressed(&mut self) -> (suppressed: u64)
        ensures
            suppressed == old(self).suppressed,
            *final(self) == (LineBudget { suppressed: 0, ..*old(self) }),
    {
        let suppressed: u64 = self.suppressed;
        self.suppressed = 0;
        suppressed
    }
}

/// The budget after lines at the given times.
pub open spec fn after_lines(budget: LineBudget, times: Seq<u64>) -> LineBudget
    decreases times.len(),
{
    if times.len() == 0 {
        budget
    } else {
        after_lines(budget, times.drop_last()).after(times.last())
    }
}

pub open spec fn admitted_lines(budget: LineBudget, times: Seq<u64>) -> nat
    decreases times.len(),
{
    if times.len() == 0 {
        0
    } else {
        let before = after_lines(budget, times.drop_last());
        admitted_lines(budget, times.drop_last()) + if before.admits(times.last()) {
            1nat
        } else {
            0
        }
    }
}

pub open spec fn reported_lines(budget: LineBudget, times: Seq<u64>) -> nat
    decreases times.len(),
{
    if times.len() == 0 {
        0
    } else {
        let before = after_lines(budget, times.drop_last());
        reported_lines(budget, times.drop_last()) + before.reported(times.last()) as nat
    }
}

/// No line is lost from the books: each is logged, or reported as suppressed,
/// or still counted.
pub proof fn every_line_is_accounted_for(budget: LineBudget, times: Seq<u64>)
    requires
        budget.suppressed + times.len() < u64::MAX,
    ensures
        admitted_lines(budget, times) + reported_lines(budget, times) + after_lines(
            budget,
            times,
        ).suppressed == budget.suppressed + times.len(),
    decreases times.len(),
{
    if times.len() > 0 {
        every_line_is_accounted_for(budget, times.drop_last());
    }
}

/// Within one window no more lines are logged than the limit allows.
pub proof fn windows_stay_within_the_limit(budget: LineBudget, times: Seq<u64>)
    requires
        budget.used == 0,
        forall|i: int|
            0 <= i < times.len() ==> budget.window_start_ms <= #[trigger] times[i]
                && times[i] - budget.window_start_ms < budget.window_ms,
    ensures
        admitted_lines(budget, times) <= budget.limit,
        after_lines(budget, times).used == admitted_lines(budget, times),
        after_lines(budget, times).limit == budget.limit,
        after_lines(budget, times).window_start_ms == budget.window_start_ms,
        after_lines(budget, times).window_ms == budget.window_ms,
    decreases times.len(),
{
    if times.len() > 0 {
        let earlier = times.drop_last();
        assert forall|i: int| 0 <= i < earlier.len() implies budget.window_start_ms
            <= #[trigger] earlier[i] && earlier[i] - budget.window_start_ms < budget.window_ms by {
            assert(earlier[i] == times[i]);
        }
        windows_stay_within_the_limit(budget, earlier);
        let last = times[times.len() - 1];
        assert(!after_lines(budget, earlier).window_over(last));
    }
}

/// What is kept of a line is its beginning, and all of it where it is no longer
/// than may be kept.
pub proof fn lines_keep_their_beginning(content: Seq<u8>, limit: nat)
    ensures
        kept(content, limit).is_prefix_of(content),
        content.len() <= limit ==> kept(content, limit) == content,
        content.len() > limit ==> kept(content, limit).len() == limit,
{
}

/// A line ends at its first line feed, and a carriage return before that is not
/// part of it; one elsewhere, and a second one, is.
pub proof fn lines_end_at_the_first_line_feed(line: Seq<u8>, rest: Seq<u8>)
    requires
        forall|i: int| 0 <= i < line.len() ==> line[i] != 10,
    ensures
        newline_in(line + seq![10u8] + rest) == Some(line.len() as int),
        newline_in(line) is None,
        without_return(line.push(13)) == line,
        line.len() > 0 && line.last() != 13 ==> without_return(line) == line,
        without_return(seq![]) == Seq::<u8>::empty(),
{
    let whole = line + seq![10u8] + rest;
    assert forall|i: int| 0 <= i < line.len() implies whole[i] != NEWLINE by {
        assert(whole[i] == line[i]);
    }
    assert(whole[line.len() as int] == 10);
    lemma_newline(whole, line.len() as int);
    lemma_newline(line, line.len() as int);
    assert(line.push(13).drop_last() =~= line);
}

/// A window begins with the first line after the one before is over, and lasts
/// from then on, whatever is said in it. The lines of a window are logged until
/// there are too many; those refused are counted, and reported with the first line
/// of the next.
pub proof fn windows_last_from_their_first_line(budget: LineBudget, now_ms: u64)
    requires
        budget.used < u32::MAX,
        budget.suppressed < u64::MAX,
    ensures
        ({
            let after = budget.after(now_ms);
            let over = now_ms >= budget.window_start_ms + budget.window_ms || budget.window_ms == 0;
            &&& after.limit == budget.limit && after.window_ms == budget.window_ms
            &&& over ==> after.window_start_ms == now_ms && budget.reported(now_ms)
                == budget.suppressed && (budget.admits(now_ms) <==> budget.limit > 0)
            &&& over && budget.admits(now_ms) ==> after.used == 1 && after.suppressed == 0
            &&& over && !budget.admits(now_ms) ==> after.used == 0 && after.suppressed == 1
            &&& !over ==> after.window_start_ms == budget.window_start_ms && budget.reported(now_ms)
                == 0 && (budget.admits(now_ms) <==> budget.used < budget.limit)
            &&& !over && budget.admits(now_ms) ==> after.used == budget.used + 1
                && after.suppressed == budget.suppressed
            &&& !over && !budget.admits(now_ms) ==> after.used == budget.used && after.suppressed
                == budget.suppressed + 1
        }),
{
}

/// A line holds what may be kept of its bytes, and knows whether that is all.
pub proof fn lines_know_what_they_lack(line: BoundedLine, content: Seq<u8>)
    ensures
        line.holds(content) ==> line.line@.is_prefix_of(content) && line.line@.len()
            <= line.limit,
        line.holds(content) ==> (line.truncated <==> line.line@ != content),
        line.holds(content) ==> (line.truncated <==> content.len() > line.limit),
        line.holds(content) && line.truncated ==> line.line@.len() == line.limit,
{
    if line.holds(content) && content.len() > line.limit {
        assert(line.line@.len() != content.len());
    }
}

} // verus!
