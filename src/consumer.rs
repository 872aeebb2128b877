//! The event consumer: what a broker message holds, and the decisions of the
//! consumption loop, one event at a time. The loop itself, with its waits and
//! its log lines, runs around `ConsumerState::step`.
use vstd::prelude::*;

verus! {

/// The topic that the consumer subscribes to.
pub const TOPIC: &'static str = "messages";

/// The kind of a domain event.
#[derive(Debug, Clone, Copy, PartialEq, Eq, Structural)]
pub enum Action {
    Create,
    Update,
    Delete,
}

/// The optional content of a domain event.
#[derive(Debug)]
pub struct CustomMessage {
    pub name: String,
    pub message: String,
}

/// A domain event, as one broker message carries it.
#[derive(Debug)]
pub struct KafkaMessage {
    pub action: Action,
    pub message_id: i32,
    pub data: Option<CustomMessage>,
}

/// What one receive from the broker came to.
pub enum Delivery {
    /// The broker client reported an error.
    TransportError,
    /// A message arrived without a payload.
    MissingPayload,
    /// A payload arrived that is not a domain event.
    Undecodable,
    /// A payload arrived and decoded to this event.
    Decoded(KafkaMessage),
}

/// Where the consumer stands.
#[derive(Debug, Clone, Copy, PartialEq, Eq, Structural)]
pub enum ConsumerState {
    /// Not started.
    Idle,
    /// Waiting for the subscription to the topic.
    Subscribing,
    /// Waiting for the next delivery.
    Receiving,
    /// An event was handed out; waiting to hear whether its offset was stored.
    Processing,
    /// Done, by shutdown or because the subscription failed.
    Stopped,
}

/// What the loop hears.
pub enum ConsumerEvent {
    Start,
    Subscribed,
    SubscribeFailed,
    Received(Delivery),
    OffsetStored,
    OffsetStoreFailed,
    Shutdown,
}

/// How loudly a skipped step is logged.
#[derive(Debug, Clone, Copy, PartialEq, Eq, Structural)]
pub enum Severity {
    Info,
    Warn,
    Error,
}

/// What the loop does next.
pub enum Command {
    /// Subscribe to `TOPIC`.
    Subscribe,
    /// Wait for the next delivery.
    Receive,
    /// Log what went wrong at this severity, store no offset, and wait for the next delivery.
    Skip(Severity),
    /// Log and dispatch the event, then store its message's offset.
    Process(KafkaMessage),
    /// Give up: without a subscription the process cannot go on.
    Abort,
    /// Stop consuming.
    Halt,
    /// The event does not belong in this state; nothing to do.
    Ignore,
}

/// The consumer's transition table.
pub open spec fn transition(s: ConsumerState, e: ConsumerEvent) -> (ConsumerState, Command) {
    match (s, e) {
        (ConsumerState::Stopped, _) => (ConsumerState::Stopped, Command::Halt),
        (_, ConsumerEvent::Shutdown) => (ConsumerState::Stopped, Command::Halt),
        (ConsumerState::Idle, ConsumerEvent::Start) => (ConsumerState::Subscribing, Command::Subscribe),
        (ConsumerState::Subscribing, ConsumerEvent::Subscribed) => (ConsumerState::Receiving, Command::Receive),
        (ConsumerState::Subscribing, ConsumerEvent::SubscribeFailed) => (ConsumerState::Stopped, Command::Abort),
        (ConsumerState::Receiving, ConsumerEvent::Received(d)) => match d {
            Delivery::TransportError => (ConsumerState::Receiving, Command::Skip(Severity::Warn)),
            Delivery::MissingPayload => (ConsumerState::Receiving, Command::Skip(Severity::Error)),
            Delivery::Undecodable => (ConsumerState::Receiving, Command::Skip(Severity::Error)),
            Delivery::Decoded(m) => (ConsumerState::Processing, Command::Process(m)),
        },
        (ConsumerState::Processing, ConsumerEvent::OffsetStored) => (ConsumerState::Receiving, Command::Receive),
        (ConsumerState::Processing, ConsumerEvent::OffsetStoreFailed) => (ConsumerState::Receiving, Command::Skip(Severity::Warn)),
        (s, _) => (s, Command::Ignore),
    }
}

/// One delivery while receiving, followed, when it yields an event, by the
/// outcome of storing its offset (`stored`).
pub open spec fn cycle(s: ConsumerState, d: Delivery, stored: bool) -> (ConsumerState, Seq<Command>) {
    let (s1, c1) = transition(s, ConsumerEvent::Received(d));
    if s1 == ConsumerState::Processing {
        let (s2, c2) = transition(
            s1,
            if stored {
                ConsumerEvent::OffsetStored
            } else {
                ConsumerEvent::OffsetStoreFailed
            },
        );
        (s2, seq![c1, c2])
    } else {
        (s1, seq![c1])
    }
}

/// The consumer fed a run of deliveries, each with the outcome of its store.
pub open spec fn run(s: ConsumerState, ds: Seq<(Delivery, bool)>) -> (ConsumerState, Seq<Command>)
    decreases ds.len(),
{
    if ds.len() == 0 {
        (s, seq![])
    } else {
        let (s0, cs) = run(s, ds.drop_last());
        let (s1, cs1) = cycle(s0, ds.last().0, ds.last().1);
        (s1, cs + cs1)
    }
}

/// The events that commands hand out for processing, in order.
pub open spec fn processed(cs: Seq<Command>) -> Seq<KafkaMessage>
    decreases cs.len(),
{
    if cs.len() == 0 {
        seq![]
    } else {
        match cs.last() {
            Command::Process(m) => processed(cs.drop_last()).push(m),
            _ => processed(cs.drop_last()),
        }
    }
}

/// The events among a run of deliveries, in order.
pub open spec fn decoded(ds: Seq<(Delivery, bool)>) -> Seq<KafkaMessage>
    decreases ds.len(),
{
    if ds.len() == 0 {
        seq![]
    } else {
        match ds.last().0 {
            Delivery::Decoded(m) => decoded(ds.drop_last()).push(m),
            _ => decoded(ds.drop_last()),
        }
    }
}

/// Whether a command ends the loop.
pub open spec fn stops(c: Command) -> bool {
    c is Abort || c is Halt
}

proof fn lemma_processed_concat(a: Seq<Command>, b: Seq<Command>)
    ensures
        processed(a + b) == processed(a) + processed(b),
    decreases b.len(),
{
    if b.len() == 0 {
        assert(a + b =~= a);
        assert(processed(b) =~= seq![]);
    } else {
        lemma_processed_concat(a, b.drop_last());
        assert((a + b).drop_last() =~= a + b.drop_last());
        assert((a + b).last() == b.last());
    }
}

/// While receiving, a delivery that is no event (a broker error, a missing
/// payload, a payload that does not decode) is logged and skipped: no offset
/// is stored and the consumer keeps receiving. A decoded event is processed
/// and its offset stored; a failed store is logged and the loop goes on.
pub proof fn lemma_delivery_never_stops_the_loop(d: Delivery, stored: bool)
    ensures
        cycle(ConsumerState::Receiving, d, stored).0 == ConsumerState::Receiving,
        d is TransportError ==> cycle(ConsumerState::Receiving, d, stored).1 == seq![Command::Skip(Severity::Warn)],
        d is MissingPayload ==> cycle(ConsumerState::Receiving, d, stored).1 == seq![Command::Skip(Severity::Error)],
        d is Undecodable ==> cycle(ConsumerState::Receiving, d, stored).1 == seq![Command::Skip(Severity::Error)],
        d matches Delivery::Decoded(m) ==> cycle(ConsumerState::Receiving, d, stored).1 == seq![
            Command::Process(m),
            if stored {
                Command::Receive
            } else {
                Command::Skip(Severity::Warn)
            },
        ],
{
}

/// Over any run of deliveries the consumer keeps receiving, never stops, and
/// processes exactly the deliveries that decoded, in the order they came: one
/// that does not decode holds up none after it.
pub proof fn lemma_run_processes_decoded_in_order(ds: Seq<(Delivery, bool)>)
    ensures
        run(ConsumerState::Receiving, ds).0 == ConsumerState::Receiving,
        processed(run(ConsumerState::Receiving, ds).1) == decoded(ds),
        forall|i: int| 0 <= i < run(ConsumerState::Receiving, ds).1.len() ==> !stops(#[trigger] run(ConsumerState::Receiving, ds).1[i]),
    decreases ds.len(),
{
    if ds.len() > 0 {
        let rest = ds.drop_last();
        lemma_run_processes_decoded_in_order(rest);
        let (s0, cs) = run(ConsumerState::Receiving, rest);
        let (s1, cs1) = cycle(s0, ds.last().0, ds.last().1);
        lemma_delivery_never_stops_the_loop(ds.last().0, ds.last().1);
        lemma_processed_concat(cs, cs1);
        let all = run(ConsumerState::Receiving, ds).1;
        assert(all == cs + cs1);
        reveal_with_fuel(processed, 3);
        match ds.last().0 {
            Delivery::Decoded(m) => {
                assert(processed(cs1) =~= seq![m]) by {
                    assert(cs1.drop_last() =~= seq![Command::Process(m)]);
                    assert(seq![Command::Process(m)].drop_last() =~= seq![]);
                }
            },
            _ => {
                assert(cs1.drop_last() =~= seq![]);
                assert(processed(cs1) =~= seq![]);
            },
        }
        assert forall|i: int| 0 <= i < all.len() implies !stops(#[trigger] all[i]) by {
            if i >= cs.len() {
                assert(all[i] == cs1[i - cs.len()]);
            } else {
                assert(all[i] == cs[i]);
            }
        }
    }
}

impl ConsumerState {
    /// The state that the consumer starts in.
    pub fn new() -> (r: ConsumerState)
        ensures
            r == ConsumerState::Idle,
    {
        ConsumerState::Idle
    }

    /// The next state and what to do, on hearing `event`. Only a decoded event
    /// leads to storing an offset; every other delivery, and a failed store,
    /// is logged and skipped, and the loop goes on. Only shutdown and a failed
    /// subscription stop it.
    pub fn step(self, event: ConsumerEvent) -> (r: (ConsumerState, Command))
        ensures
            r == transition(self, event),
    {
        match (self, event) {
            (ConsumerState::Stopped, _) => (ConsumerState::Stopped, Command::Halt),
            (_, ConsumerEvent::Shutdown) => (ConsumerState::Stopped, Command::Halt),
            (ConsumerState::Idle, ConsumerEvent::Start) => (ConsumerState::Subscribing, Command::Subscribe),
            (ConsumerState::Subscribing, ConsumerEvent::Subscribed) => (ConsumerState::Receiving, Command::Receive),
            (ConsumerState::Subscribing, ConsumerEvent::SubscribeFailed) => (ConsumerState::Stopped, Command::Abort),
            (ConsumerState::Receiving, ConsumerEvent::Received(d)) => match d {
                Delivery::TransportError => (ConsumerState::Receiving, Command::Skip(Severity::Warn)),
                Delivery::MissingPayload => (ConsumerState::Receiving, Command::Skip(Severity::Error)),
                Delivery::Undecodable => (ConsumerState::Receiving, Command::Skip(Severity::Error)),
                Delivery::Decoded(m) => (ConsumerState::Processing, Command::Process(m)),
            },
            (ConsumerState::Processing, ConsumerEvent::OffsetStored) => (ConsumerState::Receiving, Command::Receive),
            (ConsumerState::Processing, ConsumerEvent::OffsetStoreFailed) => (
                ConsumerState::Receiving,
                Command::Skip(Severity::Warn),
            ),
            (s, _) => (s, Command::Ignore),
        }
    }
}

} // verus!
