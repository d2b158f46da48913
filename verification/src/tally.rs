//! Counting what was stored: each command reports a count or fails, each
//! worker adds up its counts, and the workers' sums are added up in turn. A
//! failure anywhere leaves no partial result.

use vstd::prelude::*;

verus! {

/// What the reports add up to: the sum of the counts if every report is a
/// count, and nothing if any report is a failure.
pub open spec fn tallied(outcomes: Seq<Option<usize>>) -> Option<int>
    decreases outcomes.len(),
{
    if outcomes.len() == 0 {
        Some(0int)
    } else {
        match (tallied(outcomes.drop_last()), outcomes.last()) {
            (Some(sum), Some(count)) => Some(sum + count),
            _ => None,
        }
    }
}

/// How far a count of stored vectors has come.
#[derive(Clone, Copy, Debug, PartialEq, Eq, Structural)]
pub enum Progress {
    /// Nothing has failed, and this many vectors were counted.
    Counted(usize),
    /// A command has failed, or the count has passed what a `usize` holds.
    /// Nothing is counted from here on.
    Failed,
}

/// The progress after one more report: a count is added, and a failure, or
/// a sum beyond `usize`, leaves nothing.
pub open spec fn advanced(progress: Progress, outcome: Option<usize>) -> Progress {
    match (progress, outcome) {
        (Progress::Counted(sum), Some(count)) => if sum + count <= usize::MAX {
            Progress::Counted((sum + count) as usize)
        } else {
            Progress::Failed
        },
        _ => Progress::Failed,
    }
}

/// The progress after the given reports, taken in from none.
pub open spec fn counted(outcomes: Seq<Option<usize>>) -> Progress
    decreases outcomes.len(),
{
    if outcomes.len() == 0 {
        Progress::Counted(0)
    } else {
        advanced(counted(outcomes.drop_last()), outcomes.last())
    }
}

impl Progress {
    /// The progress before any report.
    pub fn start() -> (progress: Progress)
        ensures
            progress == Progress::Counted(0),
    {
        Progress::Counted(0)
    }

    /// Takes in one report.
    pub fn advance(self, outcome: Option<usize>) -> (next: Progress)
        ensures
            next == advanced(self, outcome),
    {
        match (self, outcome) {
            (Progress::Counted(sum), Some(count)) => {
                if count <= usize::MAX - sum {
                    Progress::Counted(sum + count)
                } else {
                    Progress::Failed
                }
            },
            _ => Progress::Failed,
        }
    }

    /// The count, if nothing has failed. No partial count is handed out.
    pub fn total(self) -> (total: Option<usize>)
        ensures
            total == match self {
                Progress::Counted(sum) => Some(sum),
                Progress::Failed => None,
            },
    {
        match self {
            Progress::Counted(sum) => Some(sum),
            Progress::Failed => None,
        }
    }
}

/// Adds up the reports of the workers, or of one worker's commands: the sum
/// of the counts, and nothing if any report is a failure or the sum exceeds
/// what a `usize` holds. No partial sum is handed out.
pub fn tally(outcomes: &[Option<usize>]) -> (total: Option<usize>)
    ensures
        total == match tallied(outcomes@) {
            Some(sum) => if sum <= usize::MAX {
                Some(sum as usize)
            } else {
                None
            },
            None => None,
        },
{
    let mut sum: usize = 0;
    let mut i: usize = 0;
    while i < outcomes.len()
        invariant
            i <= outcomes.len(),
            tallied(outcomes@.take(i as int)) == Some(sum as int),
        decreases outcomes.len() - i,
    {
        let ghost next = outcomes@.take(i + 1);
        assert(next.drop_last() == outcomes@.take(i as int));
        assert(next.last() == outcomes@[i as int]);
        proof {
            lemma_tallied_prefix(outcomes@, i + 1);
        }
        match outcomes[i] {
            Some(count) => {
                if count > usize::MAX - sum {
                    return None;
                }
                sum = sum + count;
            },
            None => {
                return None;
            },
        }
        i += 1;
    }
    assert(outcomes@.take(outcomes.len() as int) == outcomes@);
    Some(sum)
}

/// A failure among the first reports is a failure of all of them, and the
/// sum of the first reports is no more than the sum of all.
pub proof fn lemma_tallied_prefix(outcomes: Seq<Option<usize>>, prefix: int)
    requires
        0 <= prefix <= outcomes.len(),
    ensures
        tallied(outcomes.take(prefix)) is None ==> tallied(outcomes) is None,
        tallied(outcomes) matches Some(sum) ==> tallied(outcomes.take(prefix)) matches Some(part)
            && part <= sum,
    decreases outcomes.len(),
{
    if prefix == outcomes.len() {
        assert(outcomes.take(prefix) == outcomes);
    } else {
        lemma_tallied_prefix(outcomes.drop_last(), prefix);
        assert(outcomes.drop_last().take(prefix) == outcomes.take(prefix));
    }
}

/// The workers' sums add up to the sum of all reports, in whatever order
/// the workers finish: the reports of two workers, taken together in either
/// order, come to the sum of the two workers' sums, and to a failure if
/// either worker failed.
pub proof fn lemma_tallied_concat(first: Seq<Option<usize>>, second: Seq<Option<usize>>)
    ensures
        tallied(first + second) == match (tallied(first), tallied(second)) {
            (Some(a), Some(b)) => Some(a + b),
            _ => None,
        },
        tallied(first + second) == tallied(second + first),
{
    lemma_tallied_append(first, second);
    lemma_tallied_append(second, first);
}

/// The reports of one worker followed by those of another come to the sum of
/// the two, and to a failure if either failed.
proof fn lemma_tallied_append(first: Seq<Option<usize>>, second: Seq<Option<usize>>)
    ensures
        tallied(first + second) == match (tallied(first), tallied(second)) {
            (Some(a), Some(b)) => Some(a + b),
            _ => None,
        },
    decreases second.len(),
{
    if second.len() == 0 {
        assert(first + second == first);
    } else {
        lemma_tallied_append(first, second.drop_last());
        assert((first + second).drop_last() == first + second.drop_last());
        assert((first + second).last() == second.last());
    }
}

/// A run without failures in which every command reports one vector comes
/// to the number of commands.
pub proof fn lemma_tallied_ones(outcomes: Seq<Option<usize>>)
    requires
        forall|i: int| 0 <= i < outcomes.len() ==> #[trigger] outcomes[i] == Some(1usize),
    ensures
        tallied(outcomes) == Some(outcomes.len() as int),
    decreases outcomes.len(),
{
    if outcomes.len() > 0 {
        lemma_tallied_ones(outcomes.drop_last());
        assert(outcomes[outcomes.len() - 1] == Some(1usize));
    }
}

/// Counting report by report comes to the sum of the reports: the count is
/// the sum where every report is a count and the sum fits a `usize`, and
/// it has failed otherwise.
pub proof fn lemma_counted_tallied(outcomes: Seq<Option<usize>>)
    ensures
        counted(outcomes) == match tallied(outcomes) {
            Some(sum) => if sum <= usize::MAX {
                Progress::Counted(sum as usize)
            } else {
                Progress::Failed
            },
            None => Progress::Failed,
        },
        tallied(outcomes) matches Some(sum) ==> sum >= 0,
    decreases outcomes.len(),
{
    if outcomes.len() > 0 {
        lemma_counted_tallied(outcomes.drop_last());
    }
}

/// An upload without failures in which every command reports one vector
/// ends with the number of its commands counted.
pub proof fn lemma_counted_ones(outcomes: Seq<Option<usize>>)
    requires
        outcomes.len() <= usize::MAX,
        forall|i: int| 0 <= i < outcomes.len() ==> #[trigger] outcomes[i] == Some(1usize),
    ensures
        counted(outcomes) == Progress::Counted(outcomes.len() as usize),
{
    lemma_tallied_ones(outcomes);
    lemma_counted_tallied(outcomes);
}

} // verus!
