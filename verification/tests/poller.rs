use event_poller::poller::{Action, Event, EventPoller, Fault, Phase, DEFAULT_INTERVAL_MS};
use event_poller::request::{Commitment, FetchRequest};
use event_poller::signature::Signature;

fn signature(tag: u8) -> Signature {
    Signature { bytes: [tag; 64] }
}

fn text(tag: u8) -> String {
    solana_sdk::signature::Signature::from([tag; 64]).to_string()
}

fn latest() -> FetchRequest {
    FetchRequest { before: None, until: None, limit: Some(1), commitment: Commitment::Confirmed }
}

fn since(tag: u8) -> FetchRequest {
    FetchRequest {
        before: None,
        until: Some(signature(tag)),
        limit: None,
        commitment: Commitment::Confirmed,
    }
}

#[test]
fn new_poller_is_idle_without_cursor() {
    let poller: EventPoller = EventPoller::new(250);
    assert_eq!(poller.cursor(), None);
    assert_eq!(poller.phase(), Phase::Idle);
    assert_eq!(poller.interval_ms(), 250);
}

#[test]
fn default_timeout_is_one_second() {
    let poller: EventPoller = EventPoller::new_with_default_timeout();
    assert_eq!(DEFAULT_INTERVAL_MS, 1000);
    assert_eq!(poller.interval_ms(), 1000);
    assert_eq!(poller.cursor(), None);
    assert_eq!(poller.phase(), Phase::Idle);
}

#[test]
fn default_timeout_is_the_pause_after_a_cycle() {
    let mut poller: EventPoller = EventPoller::new_with_default_timeout();
    assert_eq!(poller.run::<u32>(Event::Wake), Action::Fetch(latest()));
    assert_eq!(poller.run::<u32>(Event::Fetched(vec![])), Action::Sleep(1000));
}

#[test]
fn first_wake_asks_for_the_single_newest_signature() {
    let mut poller: EventPoller = EventPoller::new(250);
    assert_eq!(poller.run::<u32>(Event::Wake), Action::Fetch(latest()));
    assert_eq!(poller.phase(), Phase::Fetching);
}

#[test]
fn scenario_three_then_two_signatures() {
    let mut poller: EventPoller = EventPoller::new(250);
    let mut decoded: Vec<Signature> = Vec::new();
    let mut pushed: Vec<Vec<u32>> = Vec::new();

    assert_eq!(poller.run::<u32>(Event::Wake), Action::Fetch(latest()));
    let mut action: Action<u32> = poller.run(Event::Fetched(vec![text(3), text(2), text(1)]));
    let mut round: u32 = 0;
    while let Action::Decode(next) = action {
        decoded.push(next);
        round += 1;
        match poller.run(Event::Decoded(vec![round, round * 10])) {
            Action::Push(batch) => pushed.push(batch),
            other => panic!("expected a push, got {:?}", other),
        }
        action = poller.run(Event::Pushed);
    }
    assert_eq!(action, Action::Sleep(250));
    assert_eq!(decoded, vec![signature(1), signature(2), signature(3)]);
    assert_eq!(pushed, vec![vec![1, 10], vec![2, 20], vec![3, 30]]);
    assert_eq!(poller.cursor(), Some(signature(3)));

    assert_eq!(poller.run::<u32>(Event::Wake), Action::Fetch(since(3)));
    assert_eq!(
        poller.run::<u32>(Event::Fetched(vec![text(5), text(4)])),
        Action::Decode(signature(4))
    );
    assert_eq!(poller.run(Event::Decoded(vec![4u32])), Action::Push(vec![4u32]));
    assert_eq!(poller.run::<u32>(Event::Pushed), Action::Decode(signature(5)));
    assert_eq!(poller.run(Event::Decoded(vec![5u32])), Action::Push(vec![5u32]));
    assert_eq!(poller.run::<u32>(Event::Pushed), Action::Sleep(250));
    assert_eq!(poller.cursor(), Some(signature(5)));
    assert_eq!(poller.phase(), Phase::Idle);
}

#[test]
fn scenario_fetch_error_on_second_cycle_stops_the_worker() {
    let mut poller: EventPoller = EventPoller::new(250);
    assert_eq!(poller.run::<u32>(Event::Wake), Action::Fetch(latest()));
    assert_eq!(poller.run::<u32>(Event::Fetched(vec![text(1)])), Action::Decode(signature(1)));
    assert_eq!(poller.run(Event::Decoded(vec![7u32])), Action::Push(vec![7u32]));
    assert_eq!(poller.run::<u32>(Event::Pushed), Action::Sleep(250));

    assert_eq!(poller.run::<u32>(Event::Wake), Action::Fetch(since(1)));
    assert_eq!(poller.run::<u32>(Event::FetchFailed), Action::Stop);
    assert_eq!(poller.phase(), Phase::Stopped);

    assert_eq!(poller.run::<u32>(Event::Wake), Action::Stop);
    assert_eq!(poller.run::<u32>(Event::Fetched(vec![text(2)])), Action::Stop);
    assert_eq!(poller.run(Event::Decoded(vec![8u32])), Action::Stop);
    assert_eq!(poller.run::<u32>(Event::Pushed), Action::Stop);
    assert_eq!(poller.cursor(), Some(signature(1)));
    assert_eq!(poller.join(), None);
}

#[test]
fn fetch_error_on_first_cycle_stops_the_worker() {
    let mut poller: EventPoller = EventPoller::new(250);
    assert_eq!(poller.run::<u32>(Event::Wake), Action::Fetch(latest()));
    assert_eq!(poller.run::<u32>(Event::FetchFailed), Action::Stop);
    assert_eq!(poller.cursor(), None);
    assert_eq!(poller.join(), None);
}

#[test]
fn empty_answer_leaves_cursor_and_pushes_nothing() {
    let mut poller: EventPoller = EventPoller::new(40);
    assert_eq!(poller.run::<u32>(Event::Wake), Action::Fetch(latest()));
    assert_eq!(poller.run::<u32>(Event::Fetched(vec![])), Action::Sleep(40));
    assert_eq!(poller.cursor(), None);
    assert_eq!(poller.phase(), Phase::Idle);

    assert_eq!(poller.run::<u32>(Event::Wake), Action::Fetch(latest()));
    assert_eq!(poller.run::<u32>(Event::Fetched(vec![text(8)])), Action::Decode(signature(8)));
    assert_eq!(poller.run(Event::Decoded(vec![1u32])), Action::Push(vec![1u32]));
    assert_eq!(poller.run::<u32>(Event::Pushed), Action::Sleep(40));

    assert_eq!(poller.run::<u32>(Event::Wake), Action::Fetch(since(8)));
    assert_eq!(poller.run::<u32>(Event::Fetched(vec![])), Action::Sleep(40));
    assert_eq!(poller.cursor(), Some(signature(8)));
    assert_eq!(poller.phase(), Phase::Idle);
    assert_eq!(poller.run::<u32>(Event::Wake), Action::Fetch(since(8)));
}

#[test]
fn decode_failure_pushes_an_empty_batch_and_goes_on() {
    let mut poller: EventPoller = EventPoller::new(250);
    assert_eq!(poller.run::<u32>(Event::Wake), Action::Fetch(latest()));
    assert_eq!(
        poller.run::<u32>(Event::Fetched(vec![text(3), text(2), text(1)])),
        Action::Decode(signature(1))
    );
    assert_eq!(poller.run(Event::Decoded(vec![11u32])), Action::Push(vec![11u32]));
    assert_eq!(poller.run::<u32>(Event::Pushed), Action::Decode(signature(2)));
    assert_eq!(poller.run::<u32>(Event::DecodeFailed), Action::Push(vec![]));
    assert_eq!(poller.run::<u32>(Event::Pushed), Action::Decode(signature(3)));
    assert_eq!(poller.run(Event::Decoded(vec![33u32])), Action::Push(vec![33u32]));
    assert_eq!(poller.run::<u32>(Event::Pushed), Action::Sleep(250));
    assert_eq!(poller.cursor(), Some(signature(3)));
}

#[test]
fn decode_failure_of_the_newest_still_advances_the_cursor() {
    let mut poller: EventPoller = EventPoller::new(250);
    assert_eq!(poller.run::<u32>(Event::Wake), Action::Fetch(latest()));
    assert_eq!(poller.run::<u32>(Event::Fetched(vec![text(6)])), Action::Decode(signature(6)));
    assert_eq!(poller.run::<u32>(Event::DecodeFailed), Action::Push(vec![]));
    assert_eq!(poller.run::<u32>(Event::Pushed), Action::Sleep(250));
    assert_eq!(poller.cursor(), Some(signature(6)));
    assert_eq!(poller.run::<u32>(Event::Wake), Action::Fetch(since(6)));
}

#[test]
fn transaction_without_events_counts_for_the_cursor() {
    let mut poller: EventPoller = EventPoller::new(250);
    assert_eq!(poller.run::<u32>(Event::Wake), Action::Fetch(latest()));
    assert_eq!(poller.run::<u32>(Event::Fetched(vec![text(6)])), Action::Decode(signature(6)));
    assert_eq!(poller.run::<u32>(Event::Decoded(vec![])), Action::Push(vec![]));
    assert_eq!(poller.run::<u32>(Event::Pushed), Action::Sleep(250));
    assert_eq!(poller.cursor(), Some(signature(6)));
}

#[test]
fn cursor_moves_when_the_newest_is_taken_up() {
    let mut poller: EventPoller = EventPoller::new(250);
    assert_eq!(poller.run::<u32>(Event::Wake), Action::Fetch(latest()));
    assert_eq!(
        poller.run::<u32>(Event::Fetched(vec![text(2), text(1)])),
        Action::Decode(signature(1))
    );
    assert_eq!(poller.cursor(), None);
    assert_eq!(poller.phase(), Phase::Decoding);
    assert_eq!(poller.run(Event::Decoded(vec![1u32])), Action::Push(vec![1u32]));
    assert_eq!(poller.cursor(), None);
    assert_eq!(poller.phase(), Phase::Pushing);
    assert_eq!(poller.run::<u32>(Event::Pushed), Action::Decode(signature(2)));
    assert_eq!(poller.cursor(), Some(signature(2)));
    assert_eq!(poller.phase(), Phase::Decoding);
}

#[test]
fn many_signatures_come_out_oldest_first() {
    let mut poller: EventPoller = EventPoller::new(5);
    let mut texts: Vec<String> = Vec::new();
    let mut tag: u8 = 200;
    while tag > 0 {
        texts.push(text(tag));
        tag -= 1;
    }
    assert_eq!(poller.run::<u8>(Event::Wake), Action::Fetch(latest()));
    let mut action: Action<u8> = poller.run(Event::Fetched(texts));
    let mut expected: u8 = 1;
    while let Action::Decode(next) = action {
        assert_eq!(next, signature(expected));
        assert_eq!(poller.run(Event::Decoded(vec![expected])), Action::Push(vec![expected]));
        action = poller.run(Event::Pushed);
        expected += 1;
    }
    assert_eq!(expected, 201);
    assert_eq!(action, Action::Sleep(5));
    assert_eq!(poller.cursor(), Some(signature(200)));
}

#[test]
fn run_reads_signatures_from_their_base58_text() {
    let mut poller: EventPoller = EventPoller::new(250);
    let sample: &str =
        "11cgTH4D5e8S3snD444WbbGrkepjTvWMj2jkmCGJtgn3H7qrPb1BnwapxpbGdRtHQh9t9Wbn9t6ZDGHzWpL4df";
    let bytes: [u8; 64] = [
        0, 0, 10, 85, 198, 191, 71, 18, 5, 54, 6, 255, 181, 32, 227, 150, 208, 3, 157, 135, 222,
        67, 50, 23, 237, 51, 240, 123, 34, 148, 111, 84, 98, 162, 236, 133, 31, 93, 185, 142, 108,
        41, 191, 1, 138, 6, 192, 0, 46, 93, 25, 65, 243, 223, 225, 225, 85, 55, 82, 251, 109, 132,
        165, 2,
    ];
    assert_eq!(poller.run::<u32>(Event::Wake), Action::Fetch(latest()));
    assert_eq!(
        poller.run::<u32>(Event::Fetched(vec![sample.to_string()])),
        Action::Decode(Signature { bytes })
    );
    assert_eq!(poller.cursor(), Some(Signature { bytes }));
}

#[test]
fn malformed_signature_kills_the_worker_after_the_older_ones() {
    let mut poller: EventPoller = EventPoller::new(250);
    assert_eq!(poller.run::<u32>(Event::Wake), Action::Fetch(latest()));
    assert_eq!(
        poller.run::<u32>(Event::Fetched(vec![text(3), "not a signature".to_string(), text(1)])),
        Action::Decode(signature(1))
    );
    assert_eq!(poller.run(Event::Decoded(vec![1u32])), Action::Push(vec![1u32]));
    assert_eq!(poller.run::<u32>(Event::Pushed), Action::Abort(Fault::MalformedSignature));
    assert_eq!(poller.phase(), Phase::Failed(Fault::MalformedSignature));
    assert_eq!(poller.cursor(), None);
    assert_eq!(poller.run::<u32>(Event::Wake), Action::Abort(Fault::MalformedSignature));
    assert_eq!(poller.run::<u32>(Event::Pushed), Action::Abort(Fault::MalformedSignature));
}

#[test]
fn malformed_newest_signature_leaves_the_cursor() {
    let mut poller: EventPoller = EventPoller::new(250);
    assert_eq!(poller.run::<u32>(Event::Wake), Action::Fetch(latest()));
    assert_eq!(
        poller.run::<u32>(Event::Fetched(vec![String::new()])),
        Action::Abort(Fault::MalformedSignature)
    );
    assert_eq!(poller.cursor(), None);
}

#[test]
fn closed_queue_kills_the_worker() {
    let mut poller: EventPoller = EventPoller::new(250);
    assert_eq!(poller.run::<u32>(Event::Wake), Action::Fetch(latest()));
    assert_eq!(
        poller.run::<u32>(Event::Fetched(vec![text(2), text(1)])),
        Action::Decode(signature(1))
    );
    assert_eq!(poller.run(Event::Decoded(vec![1u32])), Action::Push(vec![1u32]));
    assert_eq!(poller.run::<u32>(Event::PushFailed), Action::Abort(Fault::QueueClosed));
    assert_eq!(poller.phase(), Phase::Failed(Fault::QueueClosed));
    assert_eq!(poller.run::<u32>(Event::Pushed), Action::Abort(Fault::QueueClosed));
    assert_eq!(poller.run::<u32>(Event::Wake), Action::Abort(Fault::QueueClosed));
}

#[test]
fn answer_out_of_turn_kills_the_worker() {
    let mut idle: EventPoller = EventPoller::new(250);
    assert_eq!(idle.run::<u32>(Event::Pushed), Action::Abort(Fault::OutOfTurn));
    assert_eq!(idle.phase(), Phase::Failed(Fault::OutOfTurn));

    let mut fetching: EventPoller = EventPoller::new(250);
    assert_eq!(fetching.run::<u32>(Event::Wake), Action::Fetch(latest()));
    assert_eq!(fetching.run::<u32>(Event::Wake), Action::Abort(Fault::OutOfTurn));

    let mut decoding: EventPoller = EventPoller::new(250);
    assert_eq!(decoding.run::<u32>(Event::Wake), Action::Fetch(latest()));
    assert_eq!(decoding.run::<u32>(Event::Fetched(vec![text(1)])), Action::Decode(signature(1)));
    assert_eq!(decoding.run::<u32>(Event::Pushed), Action::Abort(Fault::OutOfTurn));

    let mut pushing: EventPoller = EventPoller::new(250);
    assert_eq!(pushing.run::<u32>(Event::Wake), Action::Fetch(latest()));
    assert_eq!(pushing.run::<u32>(Event::Fetched(vec![text(1)])), Action::Decode(signature(1)));
    assert_eq!(pushing.run::<u32>(Event::DecodeFailed), Action::Push(vec![]));
    assert_eq!(pushing.run::<u32>(Event::FetchFailed), Action::Abort(Fault::OutOfTurn));
    assert_eq!(pushing.run::<u32>(Event::Pushed), Action::Abort(Fault::OutOfTurn));
}

#[test]
fn take_up_with_nothing_pending_ends_the_cycle() {
    let mut poller: EventPoller = EventPoller::new(75);
    assert_eq!(poller.take_up::<u32>(Some(signature(9))), Action::Sleep(75));
    assert_eq!(poller.cursor(), None);
    assert_eq!(poller.phase(), Phase::Idle);
}

#[test]
fn take_up_goes_by_what_it_is_given() {
    let mut poller: EventPoller = EventPoller::new(75);
    assert_eq!(poller.run::<u32>(Event::Wake), Action::Fetch(latest()));
    assert_eq!(
        poller.run::<u32>(Event::Fetched(vec![text(3), text(2), text(1)])),
        Action::Decode(signature(1))
    );
    assert_eq!(poller.take_up::<u32>(Some(signature(42))), Action::Decode(signature(42)));
    assert_eq!(poller.cursor(), None);
    assert_eq!(poller.take_up::<u32>(Some(signature(43))), Action::Decode(signature(43)));
    assert_eq!(poller.cursor(), Some(signature(43)));
    assert_eq!(poller.take_up::<u32>(None), Action::Sleep(75));
}

#[test]
fn take_up_of_no_signature_kills_the_worker() {
    let mut poller: EventPoller = EventPoller::new(75);
    assert_eq!(poller.run::<u32>(Event::Wake), Action::Fetch(latest()));
    assert_eq!(
        poller.run::<u32>(Event::Fetched(vec![text(2), text(1)])),
        Action::Decode(signature(1))
    );
    assert_eq!(poller.take_up::<u32>(None), Action::Abort(Fault::MalformedSignature));
    assert_eq!(poller.phase(), Phase::Failed(Fault::MalformedSignature));
}

#[test]
fn zero_interval_is_taken_as_it_is() {
    let mut poller: EventPoller = EventPoller::new(0);
    assert_eq!(poller.run::<u32>(Event::Wake), Action::Fetch(latest()));
    assert_eq!(poller.run::<u32>(Event::Fetched(vec![])), Action::Sleep(0));
}
