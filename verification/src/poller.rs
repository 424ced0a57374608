//! The poller as a resumable worker.
//!
//! The worker never waits by itself. Whenever it needs the ledger, the decoder,
//! the output queue or the clock it hands out an [`Action`] and is suspended;
//! its driver performs the action and resumes the worker with the [`Event`]
//! that tells how it went. [`PollerState::step`] is the worker's whole
//! behaviour, and [`EventPoller::run`] computes it.

use vstd::prelude::*;
use crate::request::{request_for, FetchRequest};
use crate::signature::{parsed_signature, Signature};

verus! {

/// The pause between two polls, in milliseconds, of a poller that was given
/// none.
pub const DEFAULT_INTERVAL_MS: u64 = 1000;

/// Why a worker died.
#[derive(Clone, Copy, Debug, PartialEq, Eq, Structural)]
pub enum Fault {
    /// The ledger reported a signature that is no base58 text of 64 bytes.
    MalformedSignature,
    /// The output queue refused a batch: nobody is left to read it.
    QueueClosed,
    /// The driver answered something the worker was not waiting for.
    OutOfTurn,
}

/// What a worker is waiting for.
#[derive(Clone, Copy, Debug, PartialEq, Eq, Structural)]
pub enum Phase {
    /// Between two polls: not yet started, or pausing.
    Idle,
    /// For the ledger's answer.
    Fetching,
    /// For the events of one transaction.
    Decoding,
    /// For the output queue to take one batch.
    Pushing,
    /// For nothing: the ledger failed and the worker returned.
    Stopped,
    /// For nothing: the worker died.
    Failed(Fault),
}

/// How the action that the worker asked for went.
#[derive(Debug, PartialEq, Eq)]
pub enum Event<E> {
    /// The pause is over, or the worker has just been started.
    Wake,
    /// The ledger answered with these signatures, most recent first.
    Fetched(Vec<String>),
    /// The ledger could not be asked.
    FetchFailed,
    /// The transaction decoded to these events, possibly none.
    Decoded(Vec<E>),
    /// The transaction could not be fetched or decoded.
    DecodeFailed,
    /// The output queue took the batch.
    Pushed,
    /// The output queue is closed.
    PushFailed,
}

/// What the worker needs next.
#[derive(Debug, PartialEq, Eq)]
pub enum Action<E> {
    /// Ask the ledger; answer with `Fetched` or `FetchFailed`.
    Fetch(FetchRequest),
    /// Decode this transaction; answer with `Decoded` or `DecodeFailed`.
    Decode(Signature),
    /// Push this batch, the events of one transaction, to the output queue;
    /// answer with `Pushed` or `PushFailed`.
    Push(Vec<E>),
    /// Pause for this many milliseconds; answer with `Wake`.
    Sleep(u64),
    /// Nothing: the worker has returned, without a result.
    Stop,
    /// Nothing: the worker has died of this fault.
    Abort(Fault),
}

/// An [`Event`] as a mathematical value.
#[verifier::ext_equal]
pub enum Input<E> {
    Wake,
    Fetched(Seq<Seq<char>>),
    FetchFailed,
    Decoded(Seq<E>),
    DecodeFailed,
    Pushed,
    PushFailed,
}

/// An [`Action`] as a mathematical value.
#[verifier::ext_equal]
pub enum Output<E> {
    Fetch(FetchRequest),
    Decode(Signature),
    Push(Seq<E>),
    Sleep(u64),
    Stop,
    Abort(Fault),
}

/// An [`EventPoller`] as a mathematical value.
#[verifier::ext_equal]
pub struct PollerState {
    /// The newest signature that the worker has taken up, if any.
    pub cursor: Option<Signature>,
    /// The pause between two polls, in milliseconds.
    pub interval_ms: u64,
    pub phase: Phase,
    /// The rest of the ledger's last answer, most recent first: the texts
    /// that the worker has not taken up yet.
    pub pending: Seq<Seq<char>>,
}

/// The texts that a list of strings holds.
pub open spec fn texts_of(strings: Seq<String>) -> Seq<Seq<char>> {
    strings.map_values(|text: String| text@)
}

impl<E> View for Event<E> {
    type V = Input<E>;

    open spec fn view(&self) -> Input<E> {
        match *self {
            Event::Wake => Input::Wake,
            Event::Fetched(texts) => Input::Fetched(texts_of(texts@)),
            Event::FetchFailed => Input::FetchFailed,
            Event::Decoded(events) => Input::Decoded(events@),
            Event::DecodeFailed => Input::DecodeFailed,
            Event::Pushed => Input::Pushed,
            Event::PushFailed => Input::PushFailed,
        }
    }
}

impl<E> View for Action<E> {
    type V = Output<E>;

    open spec fn view(&self) -> Output<E> {
        match *self {
            Action::Fetch(request) => Output::Fetch(request),
            Action::Decode(signature) => Output::Decode(signature),
            Action::Push(batch) => Output::Push(batch@),
            Action::Sleep(millis) => Output::Sleep(millis),
            Action::Stop => Output::Stop,
            Action::Abort(fault) => Output::Abort(fault),
        }
    }
}

impl PollerState {
    /// A worker that has not polled yet.
    pub open spec fn initial(interval_ms: u64) -> PollerState {
        PollerState { cursor: None, interval_ms, phase: Phase::Idle, pending: Seq::empty() }
    }

    /// What every state that a worker can reach has in common: between two
    /// cycles nothing is pending.
    pub open spec fn wf(self) -> bool {
        (self.phase is Idle || self.phase is Fetching || self.phase is Stopped)
            ==> self.pending.len() == 0
    }

    /// The worker dies.
    pub open spec fn fail<E>(self, fault: Fault) -> (PollerState, Output<E>) {
        (PollerState { phase: Phase::Failed(fault), ..self }, Output::Abort(fault))
    }

    /// The worker turns to the oldest pending text, which reads as `parsed`.
    /// A signature is handed to the decoder; if it is the newest of its answer
    /// it becomes the cursor at once, before it is decoded. A text that is no
    /// signature kills the worker. With nothing pending the cycle is over and
    /// the worker pauses.
    pub open spec fn take_up<E>(self, parsed: Option<Signature>) -> (PollerState, Output<E>) {
        if self.pending.len() == 0 {
            (PollerState { phase: Phase::Idle, ..self }, Output::Sleep(self.interval_ms))
        } else {
            let rest = self.pending.drop_last();
            match parsed {
                None => PollerState { pending: rest, ..self }.fail(Fault::MalformedSignature),
                Some(signature) => (
                    PollerState {
                        cursor: if rest.len() == 0 {
                            Some(signature)
                        } else {
                            self.cursor
                        },
                        phase: Phase::Decoding,
                        pending: rest,
                        ..self
                    },
                    Output::Decode(signature),
                ),
            }
        }
    }

    /// The worker goes on with its cycle: it reads the oldest pending text,
    /// the last of the list, and takes it up.
    pub open spec fn advance<E>(self) -> (PollerState, Output<E>) {
        if self.pending.len() == 0 {
            self.take_up(None)
        } else {
            self.take_up(parsed_signature(self.pending.last()))
        }
    }

    /// The worker is resumed with `input` and runs until it is suspended
    /// again: the state it is left in, and what it asks for.
    ///
    /// A worker that has returned or died stays as it is, whatever comes. An
    /// input that does not answer what the worker was waiting for kills it.
    pub open spec fn step<E>(self, input: Input<E>) -> (PollerState, Output<E>) {
        match self.phase {
            Phase::Stopped => (self, Output::Stop),
            Phase::Failed(fault) => (self, Output::Abort(fault)),
            Phase::Idle => match input {
                Input::Wake => (
                    PollerState { phase: Phase::Fetching, ..self },
                    Output::Fetch(request_for(self.cursor)),
                ),
                _ => self.fail(Fault::OutOfTurn),
            },
            Phase::Fetching => match input {
                Input::Fetched(texts) => PollerState { pending: texts, ..self }.advance(),
                Input::FetchFailed => (PollerState { phase: Phase::Stopped, ..self }, Output::Stop),
                _ => self.fail(Fault::OutOfTurn),
            },
            Phase::Decoding => match input {
                Input::Decoded(events) => (
                    PollerState { phase: Phase::Pushing, ..self },
                    Output::Push(events),
                ),
                Input::DecodeFailed => (
                    PollerState { phase: Phase::Pushing, ..self },
                    Output::Push(Seq::empty()),
                ),
                _ => self.fail(Fault::OutOfTurn),
            },
            Phase::Pushing => match input {
                Input::Pushed => self.advance(),
                Input::PushFailed => self.fail(Fault::QueueClosed),
                _ => self.fail(Fault::OutOfTurn),
            },
        }
    }
}

/// The worker that follows one address: its cursor, its pause, what it is
/// waiting for, and what is left of the ledger's last answer.
#[derive(Debug)]
pub struct EventPoller {
    cursor: Option<Signature>,
    interval_ms: u64,
    phase: Phase,
    pending: Vec<String>,
}

impl View for EventPoller {
    type V = PollerState;

    closed spec fn view(&self) -> PollerState {
        PollerState {
            cursor: self.cursor,
            interval_ms: self.interval_ms,
            phase: self.phase,
            pending: texts_of(self.pending@),
        }
    }
}

impl EventPoller {
    /// A worker that pauses for `timeout_ms` milliseconds between two polls.
    /// It has no cursor and waits to be woken. A pause of 0 is taken as it is:
    /// the worker then polls without rest.
    pub fn new(timeout_ms: u64) -> (poller: EventPoller)
        ensures
            poller@ == PollerState::initial(timeout_ms),
    {
        let poller = EventPoller {
            cursor: None,
            interval_ms: timeout_ms,
            phase: Phase::Idle,
            pending: Vec::new(),
        };
        assert(poller@.pending =~= Seq::empty());
        poller
    }

    /// A worker with the default pause.
    pub fn new_with_default_timeout() -> (poller: EventPoller)
        ensures
            poller@ == PollerState::initial(DEFAULT_INTERVAL_MS),
    {
        EventPoller::new(DEFAULT_INTERVAL_MS)
    }

    /// Resumes the worker with the outcome of the action it asked for, and
    /// returns the action it asks for next. The first event of a new worker
    /// is `Wake`.
    pub fn run<E>(&mut self, event: Event<E>) -> (action: Action<E>)
        ensures
            final(self)@ == old(self)@.step(event@).0,
            action@ == old(self)@.step(event@).1,
    {
        match self.phase {
            Phase::Stopped => Action::Stop,
            Phase::Failed(fault) => Action::Abort(fault),
            Phase::Idle => match event {
                Event::Wake => {
                    self.phase = Phase::Fetching;
                    Action::Fetch(FetchRequest::after(self.cursor))
                },
                _ => self.fail(Fault::OutOfTurn),
            },
            Phase::Fetching => match event {
                Event::Fetched(texts) => {
                    self.pending = texts;
                    self.advance()
                },
                Event::FetchFailed => {
                    self.phase = Phase::Stopped;
                    Action::Stop
                },
                _ => self.fail(Fault::OutOfTurn),
            },
            Phase::Decoding => match event {
                Event::Decoded(events) => {
                    self.phase = Phase::Pushing;
                    Action::Push(events)
                },
                Event::DecodeFailed => {
                    self.phase = Phase::Pushing;
                    Action::Push(Vec::new())
                },
                _ => self.fail(Fault::OutOfTurn),
            },
            Phase::Pushing => match event {
                Event::Pushed => self.advance(),
                Event::PushFailed => self.fail(Fault::QueueClosed),
                _ => self.fail(Fault::OutOfTurn),
            },
        }
    }

    /// Takes up the oldest pending text, given what it reads as: see
    /// [`PollerState::take_up`]. [`EventPoller::run`] comes here with each
    /// text it has read.
    pub fn take_up<E>(&mut self, parsed: Option<Signature>) -> (action: Action<E>)
        ensures
            final(self)@ == old(self)@.take_up::<E>(parsed).0,
            action@ == old(self)@.take_up::<E>(parsed).1,
    {
        let ghost before = self.pending@;
        match self.pending.pop() {
            None => {
                self.phase = Phase::Idle;
                Action::Sleep(self.interval_ms)
            },
            Some(_) => {
                assert(texts_of(self.pending@) =~= texts_of(before).drop_last());
                match parsed {
                    None => self.fail(Fault::MalformedSignature),
                    Some(signature) => {
                        if self.pending.len() == 0 {
                            self.cursor = Some(signature);
                        }
                        self.phase = Phase::Decoding;
                        Action::Decode(signature)
                    },
                }
            },
        }
    }

    /// The worker's result once it has returned: none, for it returns only
    /// when the ledger has failed. A worker that died has no result, and one
    /// that is still at work has none yet.
    pub fn join(self) -> (outcome: Option<()>)
        requires
            self@.phase is Stopped,
        ensures
            outcome is None,
    {
        None
    }

    /// The newest signature that the worker has taken up, if any.
    pub fn cursor(&self) -> (cursor: Option<Signature>)
        ensures
            cursor == self@.cursor,
    {
        self.cursor
    }

    /// What the worker is waiting for.
    pub fn phase(&self) -> (phase: Phase)
        ensures
            phase == self@.phase,
    {
        self.phase
    }

    /// The pause between two polls, in milliseconds.
    pub fn interval_ms(&self) -> (millis: u64)
        ensures
            millis == self@.interval_ms,
    {
        self.interval_ms
    }

    fn fail<E>(&mut self, fault: Fault) -> (action: Action<E>)
        ensures
            final(self)@ == old(self)@.fail::<E>(fault).0,
            action@ == old(self)@.fail::<E>(fault).1,
    {
        self.phase = Phase::Failed(fault);
        Action::Abort(fault)
    }

    fn advance<E>(&mut self) -> (action: Action<E>)
        ensures
            final(self)@ == old(self)@.advance::<E>().0,
            action@ == old(self)@.advance::<E>().1,
    {
        let count: usize = self.pending.len();
        let parsed = if count == 0 {
            None
        } else {
            assert(texts_of(self.pending@).last() == self.pending@[count - 1]@);
            Signature::parse(self.pending[count - 1].as_str())
        };
        self.take_up(parsed)
    }
}

} // verus!
