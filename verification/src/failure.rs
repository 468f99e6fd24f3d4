//! Failures: what went wrong, and what was being done at the time.
use crate::text::{joined, push_str};
use vstd::prelude::*;

verus! {

/// A failure with what is said of it, the most general first.
#[derive(Debug)]
pub struct Failure {
    pub chain: Vec<String>,
}

/// What is said of a failure, in one line.
pub open spec fn line(chain: Seq<Seq<char>>) -> Seq<char>
    decreases chain.len(),
{
    if chain.len() == 0 {
        seq![]
    } else if chain.len() == 1 {
        chain[0]
    } else {
        line(chain.drop_last()) + ": "@ + chain.last()
    }
}

impl View for Failure {
    type V = Seq<Seq<char>>;

    open spec fn view(&self) -> Seq<Seq<char>> {
        Seq::new(self.chain@.len(), |i: int| self.chain@[i]@)
    }
}

impl Failure {
    pub fn new(message: &str) -> (failure: Self)
        ensures
            failure@ == seq![message@],
    {
        let mut chain: Vec<String> = Vec::new();
        chain.push(message.to_owned());
        let failure = Failure { chain };
        assert(failure@ =~= seq![message@]);
        failure
    }

    /// Says what was being done when it went wrong.
    pub fn context(self, message: String) -> (failure: Self)
        ensures
            failure@ == seq![message@] + self@,
    {
        let ghost before = self@;
        let mut chain = self.chain;
        chain.insert(0, message);
        let failure = Failure { chain };
        assert(failure@ =~= seq![message@] + before);
        failure
    }

    pub fn describe(&self) -> (text: String)
        ensures
            text@ == line(self@),
    {
        let mut text = String::new();
        let mut next: usize = 0;
        while next < self.chain.len()
            invariant
                next <= self.chain@.len(),
                text@ == line(self@.take(next as int)),
            decreases self.chain@.len() - next,
        {
            let ghost before = text@;
            if next > 0 {
                push_str(&mut text, ": ");
            }
            push_str(&mut text, self.chain[next].as_str());
            proof {
                let longer = self@.take(next + 1);
                assert(longer.drop_last() =~= self@.take(next as int));
                assert(longer.last() == self.chain@[next as int]@);
                if next == 0 {
                    assert(before =~= seq![]);
                    assert(text@ =~= longer[0]);
                } else {
                    assert(text@ =~= before + ": "@ + longer.last());
                }
            }
            next += 1;
        }
        assert(self@.take(next as int) =~= self@);
        text
    }

    /// Says what was being done, and what else went wrong then.
    pub fn context_of(self, message: &str, other: &Failure) -> (failure: Self)
        ensures
            failure@ == seq![message@ + line(other@)] + self@,
    {
        let described = other.describe();
        let text = joined(message, described.as_str());
        self.context(text)
    }
}

/// A failure is told from what came last to what went wrong first, with a colon
/// between each two, and one alone as it is.
pub proof fn failures_are_told_in_order(chain: Seq<Seq<char>>, last: Seq<char>)
    ensures
        line(seq![last]) == last,
        line(seq![]) == Seq::<char>::empty(),
        chain.len() > 0 ==> line(chain.push(last)) == line(chain) + seq![':', ' '] + last,
{
    reveal_strlit(": ");
    assert(": "@ =~= seq![':', ' ']);
    assert(chain.push(last).drop_last() =~= chain);
}

} // verus!
