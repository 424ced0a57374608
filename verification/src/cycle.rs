//! What a driver observes over one poll cycle.
//!
//! A cycle is a wake-up, one query to the ledger, one decode and one push for
//! each signature of the answer, and a pause. The laws of this module say
//! what the worker asks for over such a cycle and how it is left, whatever the
//! decoder answers.

use vstd::prelude::*;
use crate::poller::{Input, Output, Phase, PollerState};
use crate::request::request_for;
use crate::signature::{parsed_signature, Signature};

verus! {

/// The worker is resumed with each of `inputs` in turn: the state it is left
/// in, and everything it asked for, one output for each input.
pub open spec fn trace<E>(state: PollerState, inputs: Seq<Input<E>>) -> (
    PollerState,
    Seq<Output<E>>,
)
    decreases inputs.len(),
{
    if inputs.len() == 0 {
        (state, Seq::empty())
    } else {
        let (next, output) = state.step(inputs.first());
        let (last, outputs) = trace(next, inputs.drop_first());
        (last, seq![output] + outputs)
    }
}

/// The texts are the text forms of the signatures of `answer`, one for one.
pub open spec fn reads_as(texts: Seq<Seq<char>>, answer: Seq<Signature>) -> bool {
    &&& texts.len() == answer.len()
    &&& forall|i: int|
        0 <= i < texts.len() ==> parsed_signature(#[trigger] texts[i]) == Some(answer[i])
}

/// The cursor after a cycle in which the ledger answered `answer`, most recent
/// first: the newest signature of the answer, or the old cursor where the
/// answer is empty.
pub open spec fn cursor_after(cursor: Option<Signature>, answer: Seq<Signature>) -> Option<
    Signature,
> {
    if answer.len() == 0 {
        cursor
    } else {
        Some(answer.first())
    }
}

/// The order in which the signatures of an answer are decoded and their
/// batches pushed: oldest first, the reverse of the answer.
pub open spec fn dispatch_order(answer: Seq<Signature>) -> Seq<Signature> {
    answer.reverse()
}

/// What the decoder's answer becomes as an input: `None` is a decode that
/// failed.
pub open spec fn decode_input<E>(decoded: Option<Seq<E>>) -> Input<E> {
    match decoded {
        Some(events) => Input::Decoded(events),
        None => Input::DecodeFailed,
    }
}

/// The batch that is pushed for a transaction: the events it decoded to, and
/// none where the decode failed.
pub open spec fn batch_of<E>(decoded: Option<Seq<E>>) -> Seq<E> {
    match decoded {
        Some(events) => events,
        None => Seq::empty(),
    }
}

/// The inputs of the dispatches of one cycle: for each signature the
/// decoder's answer, then the queue's acceptance.
pub open spec fn dispatch_inputs<E>(decodes: Seq<Option<Seq<E>>>) -> Seq<Input<E>>
    decreases decodes.len(),
{
    if decodes.len() == 0 {
        Seq::empty()
    } else {
        seq![decode_input(decodes.first()), Input::Pushed] + dispatch_inputs(
            decodes.drop_first(),
        )
    }
}

/// The inputs of one whole cycle during which nothing outside fails but,
/// perhaps, the decoder: the ledger answers `texts`, the decoder answers
/// `decodes` in the order in which it is asked, the queue takes every batch.
pub open spec fn cycle_inputs<E>(texts: Seq<Seq<char>>, decodes: Seq<Option<Seq<E>>>) -> Seq<
    Input<E>,
> {
    seq![Input::Wake, Input::Fetched(texts)] + dispatch_inputs(decodes)
}

/// A decode and a push for each signature of `order` in turn, then the pause.
pub open spec fn dispatch_outputs<E>(
    order: Seq<Signature>,
    decodes: Seq<Option<Seq<E>>>,
    interval_ms: u64,
) -> Seq<Output<E>>
    decreases order.len(),
{
    if order.len() == 0 {
        seq![Output::Sleep(interval_ms)]
    } else {
        seq![Output::Decode(order.first()), Output::Push(batch_of(decodes.first()))]
            + dispatch_outputs(order.drop_first(), decodes.drop_first(), interval_ms)
    }
}

/// The query for everything after `cursor`, then the dispatches of `order`,
/// then the pause.
pub open spec fn cycle_outputs<E>(
    cursor: Option<Signature>,
    order: Seq<Signature>,
    decodes: Seq<Option<Seq<E>>>,
    interval_ms: u64,
) -> Seq<Output<E>> {
    seq![Output::Fetch(request_for(cursor))] + dispatch_outputs(order, decodes, interval_ms)
}

/// The worker after a cycle that it began with `state` and in which the
/// ledger answered `answer`.
pub open spec fn after_cycle(state: PollerState, answer: Seq<Signature>) -> PollerState {
    PollerState {
        cursor: cursor_after(state.cursor, answer),
        interval_ms: state.interval_ms,
        phase: Phase::Idle,
        pending: Seq::empty(),
    }
}

/// A new worker is well formed.
pub proof fn lemma_initial_is_wf(interval_ms: u64)
    ensures
        PollerState::initial(interval_ms).wf(),
{
}

/// A well-formed worker stays so, whatever it is resumed with.
pub proof fn lemma_step_keeps_wf<E>(state: PollerState, input: Input<E>)
    requires
        state.wf(),
    ensures
        state.step(input).0.wf(),
{
}

/// The dispatches of `order`, by position: the decode of the `k`-th signature
/// is followed by the push of its batch, and the pause comes last.
pub proof fn lemma_dispatch_outputs_at<E>(
    order: Seq<Signature>,
    decodes: Seq<Option<Seq<E>>>,
    interval_ms: u64,
)
    requires
        decodes.len() == order.len(),
    ensures
        dispatch_outputs(order, decodes, interval_ms).len() == 2 * order.len() + 1,
        dispatch_outputs(order, decodes, interval_ms).last() == Output::<E>::Sleep(interval_ms),
        forall|k: int|
            #![trigger order[k]]
            0 <= k < order.len() ==> {
                &&& dispatch_outputs(order, decodes, interval_ms)[2 * k] == Output::<E>::Decode(
                    order[k],
                )
                &&& dispatch_outputs(order, decodes, interval_ms)[2 * k + 1] == Output::Push(
                    batch_of(decodes[k]),
                )
            },
    decreases order.len(),
{
    if order.len() > 0 {
        let rest = dispatch_outputs(order.drop_first(), decodes.drop_first(), interval_ms);
        let all = dispatch_outputs(order, decodes, interval_ms);
        lemma_dispatch_outputs_at(order.drop_first(), decodes.drop_first(), interval_ms);
        assert forall|k: int| #![trigger order[k]] 0 <= k < order.len() implies {
            &&& all[2 * k] == Output::<E>::Decode(order[k])
            &&& all[2 * k + 1] == Output::Push(batch_of(decodes[k]))
        } by {
            if k > 0 {
                assert(order.drop_first()[k - 1] == order[k]);
                assert(decodes.drop_first()[k - 1] == decodes[k]);
                assert(all[2 * k] == rest[2 * (k - 1)]);
                assert(all[2 * k + 1] == rest[2 * (k - 1) + 1]);
            }
        }
    }
}

/// The rest of a cycle, from the input that makes the worker go on with
/// `texts` pending: the ledger's answer itself, or the queue's acceptance of
/// the batch before.
proof fn lemma_dispatches<E>(
    state: PollerState,
    resume: Input<E>,
    texts: Seq<Seq<char>>,
    answer: Seq<Signature>,
    decodes: Seq<Option<Seq<E>>>,
)
    requires
        reads_as(texts, answer),
        decodes.len() == answer.len(),
        (state.phase is Fetching && resume == Input::<E>::Fetched(texts)) || (state.phase is Pushing
            && resume == Input::<E>::Pushed && state.pending == texts),
    ensures
        trace(state, seq![resume] + dispatch_inputs(decodes)).0 == after_cycle(state, answer),
        trace(state, seq![resume] + dispatch_inputs(decodes)).1 == dispatch_outputs(
            dispatch_order(answer),
            decodes,
            state.interval_ms,
        ),
    decreases texts.len(),
{
    reveal_with_fuel(trace, 3);
    let inputs = seq![resume] + dispatch_inputs(decodes);
    let order = dispatch_order(answer);
    assert(inputs.first() == resume);
    assert(inputs.drop_first() =~= dispatch_inputs(decodes));
    let loaded = PollerState { pending: texts, ..state };
    assert(state.step(resume) == loaded.advance::<E>());
    if texts.len() == 0 {
        assert(order =~= Seq::empty());
        assert(trace(state, inputs).1 =~= dispatch_outputs(order, decodes, state.interval_ms));
    } else {
        let signature = answer.last();
        assert(parsed_signature(texts.last()) == Some(signature));
        let (decoding, first_output) = loaded.advance::<E>();
        assert(first_output == Output::<E>::Decode(signature));
        let later = dispatch_inputs(decodes);
        let pushed = seq![Input::<E>::Pushed] + dispatch_inputs(decodes.drop_first());
        assert(later.first() == decode_input(decodes.first()));
        assert(later.drop_first() =~= pushed);
        let (pushing, second_output) = decoding.step(decode_input(decodes.first()));
        assert(second_output == Output::Push(batch_of(decodes.first())));
        assert(reads_as(texts.drop_last(), answer.drop_last()));
        lemma_dispatches(
            pushing,
            Input::Pushed,
            texts.drop_last(),
            answer.drop_last(),
            decodes.drop_first(),
        );
        assert(order.first() == signature);
        assert(order.drop_first() =~= dispatch_order(answer.drop_last()));
        assert(answer.drop_last().len() > 0 ==> answer.drop_last().first() == answer.first());
        assert(trace(state, inputs).0 == trace(pushing, pushed).0);
        assert(trace(state, inputs).1 =~= seq![first_output, second_output] + trace(
            pushing,
            pushed,
        ).1);
    }
}

/// One cycle, whatever the decoder answers: the worker asks the ledger for
/// what is newer than its cursor, has each signature of the answer decoded
/// and the batch pushed, oldest first, and pauses. It is then idle again,
/// with the newest signature of the answer as its cursor.
pub proof fn law_cycle<E>(
    state: PollerState,
    texts: Seq<Seq<char>>,
    answer: Seq<Signature>,
    decodes: Seq<Option<Seq<E>>>,
)
    requires
        state.phase is Idle,
        reads_as(texts, answer),
        decodes.len() == answer.len(),
    ensures
        trace(state, cycle_inputs(texts, decodes)).0 == after_cycle(state, answer),
        trace(state, cycle_inputs(texts, decodes)).1 == cycle_outputs(
            state.cursor,
            dispatch_order(answer),
            decodes,
            state.interval_ms,
        ),
{
    let inputs = cycle_inputs(texts, decodes);
    let fetched = seq![Input::<E>::Fetched(texts)] + dispatch_inputs(decodes);
    let fetching = PollerState { phase: Phase::Fetching, ..state };
    assert(inputs.first() == Input::<E>::Wake);
    assert(inputs.drop_first() =~= fetched);
    lemma_dispatches(fetching, Input::Fetched(texts), texts, answer, decodes);
    assert(trace(state, inputs).1 =~= seq![Output::<E>::Fetch(request_for(state.cursor))] + trace(
        fetching,
        fetched,
    ).1);
}

/// A poll that finds nothing new changes nothing: the worker asks the ledger,
/// pushes nothing, pauses, and is what it was, cursor and all.
pub proof fn law_empty_poll_changes_nothing<E>(state: PollerState)
    requires
        state.wf(),
        state.phase is Idle,
    ensures
        trace(state, seq![Input::<E>::Wake, Input::Fetched(Seq::empty())]).0 == state,
        trace(state, seq![Input::<E>::Wake, Input::Fetched(Seq::empty())]).1 == seq![
            Output::<E>::Fetch(request_for(state.cursor)),
            Output::Sleep(state.interval_ms),
        ],
{
    let decodes = Seq::<Option<Seq<E>>>::empty();
    law_cycle(state, Seq::empty(), Seq::empty(), decodes);
    assert(cycle_inputs(Seq::empty(), decodes) =~= seq![
        Input::<E>::Wake,
        Input::Fetched(Seq::empty()),
    ]);
    assert(cycle_outputs(
        state.cursor,
        dispatch_order(Seq::empty()),
        decodes,
        state.interval_ms,
    ) =~= seq![Output::<E>::Fetch(request_for(state.cursor)), Output::Sleep(state.interval_ms)]);
}

/// A decode that fails costs its own transaction's events and nothing else.
/// Where the decoder fails on the `failed`-th signature of a cycle, the
/// worker pushes an empty batch for it; every signature of the answer, before
/// and after, is still handed to the decoder in its turn and its batch
/// pushed, and the cursor ends on the newest signature all the same.
pub proof fn law_decode_failure_is_isolated<E>(
    state: PollerState,
    texts: Seq<Seq<char>>,
    answer: Seq<Signature>,
    decodes: Seq<Option<Seq<E>>>,
    failed: int,
)
    requires
        state.phase is Idle,
        reads_as(texts, answer),
        decodes.len() == answer.len(),
        0 <= failed < decodes.len(),
        decodes[failed] is None,
    ensures
        ({
            let (last, outputs) = trace(state, cycle_inputs(texts, decodes));
            let order = dispatch_order(answer);
            &&& last.cursor == Some(answer.first())
            &&& last.phase is Idle
            &&& outputs.len() == 2 * answer.len() + 2
            &&& outputs[2 * failed + 2] == Output::<E>::Push(Seq::empty())
            &&& forall|k: int|
                #![trigger order[k]]
                0 <= k < order.len() ==> {
                    &&& outputs[2 * k + 1] == Output::<E>::Decode(order[k])
                    &&& outputs[2 * k + 2] == Output::Push(batch_of(decodes[k]))
                }
        }),
{
    let order = dispatch_order(answer);
    let dispatches = dispatch_outputs(order, decodes, state.interval_ms);
    law_cycle(state, texts, answer, decodes);
    lemma_dispatch_outputs_at(order, decodes, state.interval_ms);
    let outputs = trace(state, cycle_inputs(texts, decodes)).1;
    assert forall|k: int| #![trigger order[k]] 0 <= k < order.len() implies {
        &&& outputs[2 * k + 1] == Output::<E>::Decode(order[k])
        &&& outputs[2 * k + 2] == Output::Push(batch_of(decodes[k]))
    } by {
        assert(outputs[2 * k + 1] == dispatches[2 * k]);
        assert(outputs[2 * k + 2] == dispatches[2 * k + 1]);
    }
    assert(dispatches[2 * failed + 1] == Output::<E>::Push(batch_of(decodes[failed]))) by {
        let _ = order[failed];
    }
    assert(outputs[2 * failed + 2] == dispatches[2 * failed + 1]);
}

} // verus!
