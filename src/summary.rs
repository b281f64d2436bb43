//! Aggregates the outcomes of one operation into a report.
use vstd::prelude::*;
use crate::progress::CommandStatus;

verus! {

/// How many outcomes are successes.
pub open spec fn count_successes(s: Seq<CommandStatus>) -> nat
    decreases s.len(),
{
    if s.len() == 0 {
        0
    } else {
        count_successes(s.drop_last()) + if s.last().success {
            1nat
        } else {
            0nat
        }
    }
}

/// How many outcomes are failures.
pub open spec fn count_failures(s: Seq<CommandStatus>) -> nat
    decreases s.len(),
{
    if s.len() == 0 {
        0
    } else {
        count_failures(s.drop_last()) + if s.last().success {
            0nat
        } else {
            1nat
        }
    }
}

/// The counts of an operation's outcomes. `requested` may exceed the number
/// of outcomes: skipped instances and dropped chunks give none.
#[derive(Clone, Copy, Debug, PartialEq, Eq, Structural)]
pub struct Summary {
    pub requested: usize,
    pub successful: usize,
    pub failed: usize,
}

impl Summary {
    /// Whether the report lists the failures; otherwise it is one line.
    pub fn lists_failures(&self) -> (r: bool)
        ensures
            r == (self.failed > 0),
    {
        self.failed > 0
    }
}

/// Every outcome is a success or a failure.
pub proof fn lemma_counts_partition(s: Seq<CommandStatus>)
    ensures
        count_successes(s) + count_failures(s) == s.len(),
    decreases s.len(),
{
    if s.len() > 0 {
        lemma_counts_partition(s.drop_last());
    }
}

/// Counts the successes and failures among `status`.
pub fn summary(requested: usize, status: &Vec<CommandStatus>) -> (r: Summary)
    ensures
        r.requested == requested,
        r.successful == count_successes(status@),
        r.failed == count_failures(status@),
        r.successful + r.failed == status.len(),
{
    let mut successful: usize = 0;
    let mut failed: usize = 0;
    for i in 0..status.len()
        invariant
            successful == count_successes(status@.take(i as int)),
            failed == count_failures(status@.take(i as int)),
            successful + failed == i,
    {
        proof {
            assert(status@.take(i + 1).drop_last() =~= status@.take(i as int));
        }
        if status[i].success {
            successful = successful + 1;
        } else {
            failed = failed + 1;
        }
    }
    assert(status@.take(status.len() as int) =~= status@);
    Summary { requested, successful, failed }
}

/// The positions of the failures, in order: what the report lists.
pub fn failures(status: &Vec<CommandStatus>) -> (r: Vec<usize>)
    ensures
        forall|k: int| 0 <= k < r.len() ==> r@[k] < status.len() && !status@[r@[k] as int].success,
        forall|k: int, l: int| 0 <= k < l < r.len() ==> r@[k] < r@[l],
        forall|i: int|
            0 <= i < status.len() && !(#[trigger] status@[i]).success ==> exists|k: int|
                0 <= k < r.len() && r@[k] == i,
        r.len() == count_failures(status@),
{
    let mut r: Vec<usize> = Vec::new();
    for i in 0..status.len()
        invariant
            forall|k: int| 0 <= k < r.len() ==> r@[k] < i && !status@[r@[k] as int].success,
            forall|k: int, l: int| 0 <= k < l < r.len() ==> r@[k] < r@[l],
            forall|j: int|
                0 <= j < i && !(#[trigger] status@[j]).success ==> exists|k: int|
                    0 <= k < r.len() && r@[k] == j,
            r.len() == count_failures(status@.take(i as int)),
    {
        proof {
            assert(status@.take(i + 1).drop_last() =~= status@.take(i as int));
        }
        let ghost before = r@;
        if !status[i].success {
            r.push(i);
        }
        assert forall|j: int|
            0 <= j < i + 1 && !(#[trigger] status@[j]).success implies exists|k: int|
                0 <= k < r.len() && r@[k] == j by {
            if j == i {
                assert(r@[r.len() - 1] == j);
            } else {
                let k = choose|k: int| 0 <= k < before.len() && before[k] == j;
                assert(r@[k] == j);
            }
        }
    }
    assert(status@.take(status.len() as int) =~= status@);
    r
}

} // verus!
