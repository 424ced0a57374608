//! The poller against a ledger that only grows.
//!
//! A ledger is modelled as the sequence of the signatures confirmed for the
//! watched address, oldest first, each of them once. Between two polls it may
//! grow at its end and does not change otherwise. The laws of this module say
//! what a poller that is answered from such a ledger delivers: from its first
//! sight of the ledger on, every signature, once, in the ledger's order.

use vstd::prelude::*;
use crate::cycle::{cursor_after, dispatch_order};
use crate::request::{request_for, FetchRequest};
use crate::signature::Signature;

verus! {

/// The signatures of `ledger` that are strictly newer than `bound`, oldest
/// first. Without a bound, or with one that the ledger does not hold, these
/// are all of them.
pub open spec fn newer_than(ledger: Seq<Signature>, bound: Option<Signature>) -> Seq<Signature> {
    match bound {
        Some(signature) => if ledger.contains(signature) {
            ledger.subrange(ledger.index_of(signature) + 1, ledger.len() as int)
        } else {
            ledger
        },
        None => ledger,
    }
}

/// What a ledger answers to a request that sets no upper bound: the
/// signatures strictly newer than the lower bound, most recent first, and of
/// these no more than the limit, the newest ones.
pub open spec fn ledger_answer(ledger: Seq<Signature>, request: FetchRequest) -> Seq<Signature> {
    let recent_first = newer_than(ledger, request.until).reverse();
    match request.limit {
        Some(limit) => if limit < recent_first.len() {
            recent_first.subrange(0, limit as int)
        } else {
            recent_first
        },
        None => recent_first,
    }
}

/// How far a poller has come: its cursor, and the signatures it has handed to
/// the decoder so far, in the order in which it did.
#[verifier::ext_equal]
pub struct Progress {
    pub cursor: Option<Signature>,
    pub delivered: Seq<Signature>,
}

impl Progress {
    /// A poller that has not polled yet.
    pub open spec fn start() -> Progress {
        Progress { cursor: None, delivered: Seq::empty() }
    }

    /// One cycle against `ledger`.
    pub open spec fn poll(self, ledger: Seq<Signature>) -> Progress {
        let answer = ledger_answer(ledger, request_for(self.cursor));
        Progress {
            cursor: cursor_after(self.cursor, answer),
            delivered: self.delivered + dispatch_order(answer),
        }
    }

    /// One cycle against each of `ledgers` in turn.
    pub open spec fn poll_all(self, ledgers: Seq<Seq<Signature>>) -> Progress
        decreases ledgers.len(),
    {
        if ledgers.len() == 0 {
            self
        } else {
            self.poll_all(ledgers.drop_last()).poll(ledgers.last())
        }
    }
}

/// The states of one ledger at successive polls: each holds every signature
/// once and begins with the state before it.
pub open spec fn grows(ledgers: Seq<Seq<Signature>>) -> bool {
    &&& forall|i: int| 0 <= i < ledgers.len() ==> (#[trigger] ledgers[i]).no_duplicates()
    &&& forall|i: int, j: int|
        0 <= i <= j < ledgers.len() ==> (#[trigger] ledgers[i]).is_prefix_of(#[trigger] ledgers[j])
}

/// In a ledger the newest signature of an earlier state stands where it
/// stood.
proof fn lemma_cursor_position(before: Seq<Signature>, after: Seq<Signature>)
    requires
        after.no_duplicates(),
        before.is_prefix_of(after),
        before.len() > 0,
    ensures
        after.contains(before.last()),
        after.index_of(before.last()) == before.len() - 1,
{
    let position = before.len() - 1;
    assert(before[position] == after.subrange(0, before.len() as int)[position]);
    assert(after[position] == before.last());
}

/// A poller without a cursor takes the newest signature of the ledger, and
/// nothing of its history. On an empty ledger it takes nothing and stays
/// without a cursor.
pub proof fn law_first_poll_seeds(ledger: Seq<Signature>)
    ensures
        ledger.len() == 0 ==> Progress::start().poll(ledger) == Progress::start(),
        ledger.len() > 0 ==> Progress::start().poll(ledger) == (Progress {
            cursor: Some(ledger.last()),
            delivered: seq![ledger.last()],
        }),
{
    let answer = ledger_answer(ledger, request_for(None));
    if ledger.len() == 0 {
        assert(answer =~= Seq::empty());
        assert(dispatch_order(answer) =~= Seq::empty());
    } else {
        assert(answer =~= seq![ledger.last()]);
        assert(dispatch_order(answer) =~= seq![ledger.last()]);
    }
}

/// A poller whose cursor is the newest signature of the ledger as it was,
/// polling the ledger as it is now, takes exactly what has been added since,
/// oldest first: nothing that it took before, and nothing left out. Its
/// cursor is then the newest signature of the ledger as it is now.
pub proof fn law_poll_takes_what_is_new(
    before: Seq<Signature>,
    after: Seq<Signature>,
    progress: Progress,
)
    requires
        after.no_duplicates(),
        before.is_prefix_of(after),
        before.len() > 0,
        progress.cursor == Some(before.last()),
    ensures
        progress.poll(after) == (Progress {
            cursor: Some(after.last()),
            delivered: progress.delivered + after.subrange(
                before.len() as int,
                after.len() as int,
            ),
        }),
{
    lemma_cursor_position(before, after);
    let added = after.subrange(before.len() as int, after.len() as int);
    let answer = ledger_answer(after, request_for(progress.cursor));
    assert(answer == added.reverse());
    assert(dispatch_order(answer) =~= added);
    if added.len() == 0 {
        assert(after.last() == before.last()) by {
            assert(before[before.len() - 1] == after.subrange(0, before.len() as int)[before.len()
                - 1]);
        }
    } else {
        assert(answer.first() == after.last());
    }
}

/// A poller that is started on a ledger and polls it again and again
/// delivers, from its first sight of a signature on, the ledger itself: the
/// newest signature that its first answer held and every signature confirmed
/// after it, each once, in the order of their confirmation, over however many
/// cycles they came in. `first` is the poll at which the ledger first held
/// anything.
pub proof fn law_delivery_follows_ledger(ledgers: Seq<Seq<Signature>>, first: int)
    requires
        grows(ledgers),
        0 <= first < ledgers.len(),
        ledgers[first].len() > 0,
        forall|i: int| 0 <= i < first ==> (#[trigger] ledgers[i]).len() == 0,
    ensures
        Progress::start().poll_all(ledgers) == (Progress {
            cursor: Some(ledgers.last().last()),
            delivered: ledgers.last().subrange(
                ledgers[first].len() - 1,
                ledgers.last().len() as int,
            ),
        }),
        Progress::start().poll_all(ledgers).delivered.no_duplicates(),
    decreases ledgers.len(),
{
    let earlier = ledgers.drop_last();
    let now = ledgers.last();
    let seen = ledgers[first].len() - 1;
    assert(ledgers[first].is_prefix_of(now));
    if first == ledgers.len() - 1 {
        lemma_polls_of_nothing(earlier);
        law_first_poll_seeds(now);
        assert(seq![now.last()] =~= now.subrange(seen, now.len() as int));
    } else {
        let before = earlier.last();
        assert(before == ledgers[ledgers.len() - 2]);
        assert(ledgers[first].is_prefix_of(before));
        assert(before.is_prefix_of(now));
        assert(grows(earlier)) by {
            assert forall|i: int| 0 <= i < earlier.len() implies (
            #[trigger] earlier[i]).no_duplicates() by {
                assert(earlier[i] == ledgers[i]);
            }
            assert forall|i: int, j: int| 0 <= i <= j < earlier.len() implies (
            #[trigger] earlier[i]).is_prefix_of(#[trigger] earlier[j]) by {
                assert(earlier[i] == ledgers[i]);
                assert(earlier[j] == ledgers[j]);
            }
        }
        assert(earlier[first] == ledgers[first]);
        assert forall|i: int| 0 <= i < first implies (#[trigger] earlier[i]).len() == 0 by {
            assert(earlier[i] == ledgers[i]);
        }
        law_delivery_follows_ledger(earlier, first);
        let progress = Progress::start().poll_all(earlier);
        law_poll_takes_what_is_new(before, now, progress);
        assert(before.subrange(seen, before.len() as int) + now.subrange(
            before.len() as int,
            now.len() as int,
        ) =~= now.subrange(seen, now.len() as int)) by {
            assert forall|i: int| 0 <= i < before.len() implies before[i] == now[i] by {
                assert(before[i] == now.subrange(0, before.len() as int)[i]);
            }
        }
    }
    let delivered = now.subrange(seen, now.len() as int);
    assert(delivered.no_duplicates()) by {
        assert forall|i: int, j: int|
            0 <= i < delivered.len() && 0 <= j < delivered.len() && i != j implies delivered[i]
            != delivered[j] by {
            assert(delivered[i] == now[seen + i]);
            assert(delivered[j] == now[seen + j]);
        }
    }
}

/// Polls of a ledger that holds nothing yet leave a new poller as it is.
proof fn lemma_polls_of_nothing(ledgers: Seq<Seq<Signature>>)
    requires
        forall|i: int| 0 <= i < ledgers.len() ==> (#[trigger] ledgers[i]).len() == 0,
    ensures
        Progress::start().poll_all(ledgers) == Progress::start(),
    decreases ledgers.len(),
{
    if ledgers.len() > 0 {
        let earlier = ledgers.drop_last();
        assert forall|i: int| 0 <= i < earlier.len() implies (#[trigger] earlier[i]).len() == 0 by {
            assert(earlier[i] == ledgers[i]);
        }
        lemma_polls_of_nothing(earlier);
        law_first_poll_seeds(ledgers.last());
    }
}

} // verus!
