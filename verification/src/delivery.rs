//! A whole run of the worker against a ledger that only grows.
//!
//! The module `cycle` says what the worker does over one cycle, the module
//! `ledger` what a poller delivers that takes from each answer what `cycle`
//! says. This module puts the two together: it follows the worker itself,
//! input by input, over any number of cycles, and says what reaches the
//! decoder and the output queue.

use vstd::prelude::*;
use crate::cycle::{
    batch_of, cycle_inputs, cycle_outputs, dispatch_order, dispatch_outputs, law_cycle, reads_as,
    trace,
};
use crate::ledger::{grows, law_delivery_follows_ledger, ledger_answer, Progress};
use crate::poller::{Input, Output, Phase, PollerState};
use crate::request::request_for;
use crate::signature::Signature;

verus! {

/// What the world outside answered during one cycle: the ledger with `texts`,
/// the decoder with `decodes`, in the order in which it was asked.
#[verifier::ext_equal]
pub struct Cycle<E> {
    pub texts: Seq<Seq<char>>,
    pub decodes: Seq<Option<Seq<E>>>,
}

/// The inputs of a run of several cycles, one after the other, in which
/// every batch is taken by the queue.
pub open spec fn run_inputs<E>(cycles: Seq<Cycle<E>>) -> Seq<Input<E>>
    decreases cycles.len(),
{
    if cycles.len() == 0 {
        Seq::empty()
    } else {
        run_inputs(cycles.drop_last()) + cycle_inputs(cycles.last().texts, cycles.last().decodes)
    }
}

/// The batches that are due over these cycles, in order: one for each answer
/// of the decoder.
pub open spec fn batches_due<E>(cycles: Seq<Cycle<E>>) -> Seq<Seq<E>>
    decreases cycles.len(),
{
    if cycles.len() == 0 {
        Seq::empty()
    } else {
        batches_due(cycles.drop_last()) + cycles.last().decodes.map_values(
            |decoded: Option<Seq<E>>| batch_of(decoded),
        )
    }
}

/// The signatures that these outputs hand to the decoder, in order.
pub open spec fn decoded_in<E>(outputs: Seq<Output<E>>) -> Seq<Signature>
    decreases outputs.len(),
{
    if outputs.len() == 0 {
        Seq::empty()
    } else {
        match outputs.first() {
            Output::Decode(signature) => seq![signature] + decoded_in(outputs.drop_first()),
            _ => decoded_in(outputs.drop_first()),
        }
    }
}

/// The batches that these outputs push to the queue, in order.
pub open spec fn pushed_in<E>(outputs: Seq<Output<E>>) -> Seq<Seq<E>>
    decreases outputs.len(),
{
    if outputs.len() == 0 {
        Seq::empty()
    } else {
        match outputs.first() {
            Output::Push(batch) => seq![batch] + pushed_in(outputs.drop_first()),
            _ => pushed_in(outputs.drop_first()),
        }
    }
}

/// Each cycle was answered from the ledger as it stood at that poll: the
/// texts of cycle `i` read as what `ledgers[i]` answers to the request of a
/// poller that has polled the states before it, and the decoder answered
/// once for each of them.
pub open spec fn answered_from<E>(cycles: Seq<Cycle<E>>, ledgers: Seq<Seq<Signature>>) -> bool {
    &&& cycles.len() == ledgers.len()
    &&& forall|i: int|
        #![trigger cycles[i]]
        0 <= i < cycles.len() ==> {
            &&& reads_as(
                cycles[i].texts,
                ledger_answer(
                    ledgers[i],
                    request_for(Progress::start().poll_all(ledgers.take(i)).cursor),
                ),
            )
            &&& cycles[i].decodes.len() == cycles[i].texts.len()
        }
}

/// Resuming the worker with one list of inputs and then with another is
/// resuming it with the two in a row.
pub proof fn lemma_trace_concat<E>(state: PollerState, early: Seq<Input<E>>, late: Seq<Input<E>>)
    ensures
        trace(state, early + late).0 == trace(trace(state, early).0, late).0,
        trace(state, early + late).1 == trace(state, early).1 + trace(
            trace(state, early).0,
            late,
        ).1,
    decreases early.len(),
{
    if early.len() == 0 {
        assert(early + late =~= late);
        assert(trace(state, early).1 + trace(state, late).1 =~= trace(state, late).1);
    } else {
        let all = early + late;
        let next = state.step(early.first()).0;
        assert(all.first() == early.first());
        assert(all.drop_first() =~= early.drop_first() + late);
        lemma_trace_concat(next, early.drop_first(), late);
        assert(trace(state, all).1 =~= trace(state, early).1 + trace(
            trace(state, early).0,
            late,
        ).1);
    }
}

proof fn lemma_decoded_in_concat<E>(early: Seq<Output<E>>, late: Seq<Output<E>>)
    ensures
        decoded_in(early + late) == decoded_in(early) + decoded_in(late),
        pushed_in(early + late) == pushed_in(early) + pushed_in(late),
    decreases early.len(),
{
    if early.len() == 0 {
        assert(early + late =~= late);
        assert(decoded_in(early) + decoded_in(late) =~= decoded_in(late));
        assert(pushed_in(early) + pushed_in(late) =~= pushed_in(late));
    } else {
        let all = early + late;
        assert(all.first() == early.first());
        assert(all.drop_first() =~= early.drop_first() + late);
        lemma_decoded_in_concat(early.drop_first(), late);
        assert(decoded_in(all) =~= decoded_in(early) + decoded_in(late));
        assert(pushed_in(all) =~= pushed_in(early) + pushed_in(late));
    }
}

proof fn lemma_dispatches_hand_out<E>(
    order: Seq<Signature>,
    decodes: Seq<Option<Seq<E>>>,
    interval_ms: u64,
)
    requires
        decodes.len() == order.len(),
    ensures
        decoded_in(dispatch_outputs(order, decodes, interval_ms)) == order,
        pushed_in(dispatch_outputs(order, decodes, interval_ms)) == decodes.map_values(
            |decoded: Option<Seq<E>>| batch_of(decoded),
        ),
    decreases order.len(),
{
    reveal_with_fuel(decoded_in, 3);
    reveal_with_fuel(pushed_in, 3);
    let outputs = dispatch_outputs(order, decodes, interval_ms);
    let batches = decodes.map_values(|decoded: Option<Seq<E>>| batch_of(decoded));
    if order.len() == 0 {
        assert(outputs.drop_first() =~= Seq::empty());
        assert(decoded_in(outputs) =~= order);
        assert(pushed_in(outputs) =~= batches);
    } else {
        let rest = dispatch_outputs(order.drop_first(), decodes.drop_first(), interval_ms);
        lemma_dispatches_hand_out(order.drop_first(), decodes.drop_first(), interval_ms);
        assert(outputs.drop_first().drop_first() =~= rest);
        assert(outputs.drop_first().first() == Output::Push(batch_of(decodes.first())));
        assert(decoded_in(outputs) =~= seq![order.first()] + order.drop_first());
        assert(seq![order.first()] + order.drop_first() =~= order);
        assert(pushed_in(outputs) =~= seq![batch_of(decodes.first())] + decodes.drop_first().map_values(
            |decoded: Option<Seq<E>>| batch_of(decoded),
        ));
        assert(seq![batch_of(decodes.first())] + decodes.drop_first().map_values(
            |decoded: Option<Seq<E>>| batch_of(decoded),
        ) =~= batches);
    }
}

/// The worker, run over cycles that were answered from `ledgers`, does what
/// [`Progress::poll_all`] says: it hands to the decoder what is delivered
/// there, in that order, pushes one batch for each, and ends idle on that
/// cursor.
pub proof fn lemma_run_makes_progress<E>(
    interval_ms: u64,
    cycles: Seq<Cycle<E>>,
    ledgers: Seq<Seq<Signature>>,
)
    requires
        answered_from(cycles, ledgers),
    ensures
        trace(PollerState::initial(interval_ms), run_inputs(cycles)).0 == (PollerState {
            cursor: Progress::start().poll_all(ledgers).cursor,
            interval_ms,
            phase: Phase::Idle,
            pending: Seq::empty(),
        }),
        decoded_in(trace(PollerState::initial(interval_ms), run_inputs(cycles)).1)
            == Progress::start().poll_all(ledgers).delivered,
        pushed_in(trace(PollerState::initial(interval_ms), run_inputs(cycles)).1) == batches_due(
            cycles,
        ),
    decreases cycles.len(),
{
    let initial = PollerState::initial(interval_ms);
    if cycles.len() > 0 {
        let earlier = cycles.drop_last();
        let before = ledgers.drop_last();
        let now = cycles.last();
        assert(answered_from(earlier, before)) by {
            assert forall|i: int| #![trigger earlier[i]] 0 <= i < earlier.len() implies {
                &&& reads_as(
                    earlier[i].texts,
                    ledger_answer(
                        before[i],
                        request_for(Progress::start().poll_all(before.take(i)).cursor),
                    ),
                )
                &&& earlier[i].decodes.len() == earlier[i].texts.len()
            } by {
                assert(earlier[i] == cycles[i]);
                assert(before[i] == ledgers[i]);
                assert(before.take(i) =~= ledgers.take(i));
            }
        }
        lemma_run_makes_progress(interval_ms, earlier, before);
        let progress = Progress::start().poll_all(before);
        let (idle, early_outputs) = trace(initial, run_inputs(earlier));
        let last = ledgers.len() - 1;
        assert(ledgers.take(last) =~= before);
        let answer = ledger_answer(ledgers[last], request_for(progress.cursor));
        assert(cycles[last] == now);
        assert(reads_as(now.texts, answer));
        law_cycle(idle, now.texts, answer, now.decodes);
        lemma_trace_concat(initial, run_inputs(earlier), cycle_inputs(now.texts, now.decodes));
        let late_outputs = cycle_outputs(
            idle.cursor,
            dispatch_order(answer),
            now.decodes,
            interval_ms,
        );
        lemma_decoded_in_concat(early_outputs, late_outputs);
        lemma_dispatches_hand_out(dispatch_order(answer), now.decodes, interval_ms);
        let dispatches = dispatch_outputs(dispatch_order(answer), now.decodes, interval_ms);
        assert(late_outputs.drop_first() =~= dispatches);
        assert(decoded_in(late_outputs) == decoded_in(dispatches));
        assert(pushed_in(late_outputs) == pushed_in(dispatches));
    }
}

/// The worker against a growing ledger, from its start, over any number of
/// cycles and whatever the decoder answers: the signatures that it hands to
/// the decoder, one after the other, are the ledger from the newest signature
/// of its first answer on, each once and in the order of their confirmation;
/// for each of them it pushes one batch, in the same order, with the events
/// that the decoder gave for it; and it ends idle, its cursor on the ledger's
/// newest signature. `first` is the poll at which the ledger first held
/// anything.
pub proof fn law_run_follows_ledger<E>(
    interval_ms: u64,
    cycles: Seq<Cycle<E>>,
    ledgers: Seq<Seq<Signature>>,
    first: int,
)
    requires
        grows(ledgers),
        answered_from(cycles, ledgers),
        0 <= first < ledgers.len(),
        ledgers[first].len() > 0,
        forall|i: int| 0 <= i < first ==> (#[trigger] ledgers[i]).len() == 0,
    ensures
        ({
            let (last, outputs) = trace(PollerState::initial(interval_ms), run_inputs(cycles));
            &&& decoded_in(outputs) == ledgers.last().subrange(
                ledgers[first].len() - 1,
                ledgers.last().len() as int,
            )
            &&& decoded_in(outputs).no_duplicates()
            &&& pushed_in(outputs) == batches_due(cycles)
            &&& last.cursor == Some(ledgers.last().last())
            &&& last.phase is Idle
        }),
{
    lemma_run_makes_progress(interval_ms, cycles, ledgers);
    law_delivery_follows_ledger(ledgers, first);
}

} // verus!
