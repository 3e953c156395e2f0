//! The event multiplexer's alphabet and decision logic.
//!
//! Four independently paced producers (console input, a fixed-interval tick,
//! peer discovery, and the peer manager's relay) feed one consumer queue.
//! The queue itself is a plain FIFO; the logic worth stating is which event
//! each producer emits for each stimulus, when the input producer stops, and
//! that delivery order equals arrival order.

use vstd::prelude::*;

verus! {

/// A console key, as the input producer sees it.
#[derive(Clone, Copy, Debug, PartialEq, Eq, Structural)]
pub enum Key {
    Char(char),
    Ctrl(char),
    Alt(char),
    Backspace,
    Esc,
    Up,
    Down,
    Left,
    Right,
    Other,
}

/// Multiplexer configuration: the key that stops the input producer, and the
/// tick interval in milliseconds.
#[derive(Clone, Copy, Debug, PartialEq, Eq, Structural)]
pub struct Config {
    pub exit_key: Key,
    pub tick_rate: u64,
}

impl Default for Config {
    /// The default configuration: `q` exits, ticks come every 250 ms.
    fn default() -> (r: Config)
        ensures
            r.exit_key == Key::Char('q'),
            r.tick_rate == 250,
    {
        Config { exit_key: Key::Char('q'), tick_rate: 250 }
    }
}

/// The transport over which a peer is reachable.
#[derive(Clone, Copy, Debug, PartialEq, Eq, Structural)]
pub enum Protocol {
    Net,
}

/// An owned copy of a byte vector with the same contents.
pub fn clone_bytes(v: &Vec<u8>) -> (r: Vec<u8>)
    ensures
        r@ == v@,
{
    let mut out: Vec<u8> = Vec::new();
    let mut i: usize = 0;
    while i < v.len()
        invariant
            i <= v@.len(),
            out@ == v@.take(i as int),
        decreases v@.len() - i,
    {
        out.push(v[i]);
        proof {
            assert(out@ =~= v@.take(i as int + 1));
        }
        i += 1;
    }
    proof {
        assert(v@.take(v@.len() as int) =~= v@);
    }
    out
}

/// A transport address: 4 (IPv4) or 16 (IPv6) address bytes and a port.
#[derive(Clone, Debug, PartialEq, Eq)]
pub struct TransportAddr {
    pub ip: Vec<u8>,
    pub port: u16,
}

/// The mathematical value of a transport address.
#[verifier::ext_equal]
pub struct TransportAddrView {
    pub ip: Seq<u8>,
    pub port: u16,
}

impl View for TransportAddr {
    type V = TransportAddrView;

    open spec fn view(&self) -> TransportAddrView {
        TransportAddrView { ip: self.ip@, port: self.port }
    }
}

impl TransportAddr {
    /// The address bytes name either an IPv4 or an IPv6 address.
    pub open spec fn wf(self) -> bool {
        self.ip@.len() == 4 || self.ip@.len() == 16
    }

    /// An owned copy of the same address.
    pub fn duplicate(&self) -> (r: TransportAddr)
        ensures
            r@ == self@,
    {
        let r = TransportAddr { ip: clone_bytes(&self.ip), port: self.port };
        proof {
            assert(r@ =~= self@);
        }
        r
    }
}

/// A peer's identity, independent of any live connection: a 32-byte public
/// key, the transport address it was seen at, and the transport tag.
#[derive(Clone, Debug, PartialEq, Eq)]
pub struct PeerAddr {
    pub public_key: Vec<u8>,
    pub socket_addr: TransportAddr,
    pub protocol: Protocol,
}

/// The mathematical value of a peer identity.
#[verifier::ext_equal]
pub struct PeerAddrView {
    pub public_key: Seq<u8>,
    pub socket_addr: TransportAddrView,
    pub protocol: Protocol,
}

impl View for PeerAddr {
    type V = PeerAddrView;

    open spec fn view(&self) -> PeerAddrView {
        PeerAddrView {
            public_key: self.public_key@,
            socket_addr: self.socket_addr@,
            protocol: self.protocol,
        }
    }
}

impl PeerAddr {
    /// The identity is a 32-byte public key over a well-formed address.
    pub open spec fn wf(self) -> bool {
        self.public_key@.len() == 32 && self.socket_addr.wf()
    }

    /// The identity the server side reconstructs after authentication: the
    /// connecting peer's verified public key at the stream's observed remote
    /// address, over the network transport.
    pub fn from_authenticated(public_key: Vec<u8>, socket_addr: TransportAddr) -> (r: PeerAddr)
        requires
            public_key@.len() == 32,
            socket_addr.wf(),
        ensures
            r.wf(),
            r@.public_key == public_key@,
            r@.socket_addr == socket_addr@,
            r.protocol == Protocol::Net,
    {
        PeerAddr { public_key, socket_addr, protocol: Protocol::Net }
    }

    /// An owned copy of the same identity.
    pub fn duplicate(&self) -> (r: PeerAddr)
        ensures
            r@ == self@,
    {
        let r = PeerAddr {
            public_key: clone_bytes(&self.public_key),
            socket_addr: self.socket_addr.duplicate(),
            protocol: self.protocol,
        };
        proof {
            assert(r@ =~= self@);
        }
        r
    }
}

/// Something a live connection reports about its peer.
#[derive(Clone, Debug, PartialEq, Eq)]
pub enum PeerEvent {
    MessageReceived(String),
}

/// A peer-manager notification: which peer, and what happened.
#[derive(Clone, Debug, PartialEq, Eq)]
pub struct PeerManagerEvent {
    pub peer: PeerAddr,
    pub event: PeerEvent,
}

/// The control loop's unified alphabet.
#[derive(Clone, Debug, PartialEq, Eq)]
pub enum Event<I> {
    Input(I),
    Tick,
    NewPeer(PeerAddr),
    PeerManagerEvent(PeerManagerEvent),
}

/// What the tick producer enqueues at every interval.
pub fn tick_event<I>() -> (r: Event<I>)
    ensures
        r is Tick,
{
    Event::Tick
}

/// What the discovery relay enqueues for a newly discovered peer.
pub fn new_peer_event<I>(peer: PeerAddr) -> (r: Event<I>)
    ensures
        r == Event::<I>::NewPeer(peer),
{
    Event::NewPeer(peer)
}

/// What the peer-manager relay enqueues for a relayed notification.
pub fn peer_manager_event<I>(ev: PeerManagerEvent) -> (r: Event<I>)
    ensures
        r == Event::<I>::PeerManagerEvent(ev),
{
    Event::PeerManagerEvent(ev)
}

/// Whether the input producer is still reading keys.
#[derive(Clone, Copy, Debug, PartialEq, Eq, Structural)]
pub enum InputState {
    Running,
    Stopped,
}

/// The input producer's next state after seeing `key`: it stops exactly when
/// it sees the exit key, and stays stopped for good.
pub open spec fn input_next_state(s: InputState, key: Key, exit: Key) -> InputState {
    match s {
        InputState::Stopped => InputState::Stopped,
        InputState::Running => if key == exit {
            InputState::Stopped
        } else {
            InputState::Running
        },
    }
}

/// What the input producer emits for `key`: every key read while running is
/// delivered, the exit key included; a stopped producer emits nothing.
pub open spec fn input_emits(s: InputState, key: Key) -> Option<Event<Key>> {
    match s {
        InputState::Stopped => None,
        InputState::Running => Some(Event::Input(key)),
    }
}

/// The console-input producer: forwards each key as an `Input` event and
/// stops permanently once the configured exit key has been forwarded.
pub struct InputProducer {
    pub state: InputState,
    pub exit_key: Key,
}

impl InputProducer {
    /// A running producer for the configured exit key.
    pub fn new(config: &Config) -> (r: InputProducer)
        ensures
            r.state == InputState::Running,
            r.exit_key == config.exit_key,
    {
        InputProducer { state: InputState::Running, exit_key: config.exit_key }
    }

    /// Decide what one key read from the console becomes.
    pub fn on_key(&mut self, key: Key) -> (r: Option<Event<Key>>)
        ensures
            final(self).exit_key == old(self).exit_key,
            final(self).state == input_next_state(old(self).state, key, old(self).exit_key),
            r == input_emits(old(self).state, key),
    {
        match self.state {
            InputState::Stopped => None,
            InputState::Running => {
                if key == self.exit_key {
                    self.state = InputState::Stopped;
                }
                Some(Event::Input(key))
            },
        }
    }
}

/// What the input producer emits over a whole key sequence, state threaded
/// through step by step.
pub open spec fn input_trace(s: InputState, keys: Seq<Key>, exit: Key) -> Seq<Option<Event<Key>>>
    decreases keys.len(),
{
    if keys.len() == 0 {
        Seq::empty()
    } else {
        seq![input_emits(s, keys[0])] + input_trace(
            input_next_state(s, keys[0], exit),
            keys.drop_first(),
            exit,
        )
    }
}

/// The trace has one entry per key.
pub proof fn lemma_input_trace_len(s: InputState, keys: Seq<Key>, exit: Key)
    ensures
        input_trace(s, keys, exit).len() == keys.len(),
    decreases keys.len(),
{
    if keys.len() > 0 {
        lemma_input_trace_len(input_next_state(s, keys[0], exit), keys.drop_first(), exit);
    }
}

/// A stopped input producer emits nothing, whatever keys follow.
pub proof fn lemma_stopped_emits_nothing(keys: Seq<Key>, exit: Key, j: int)
    requires
        0 <= j < keys.len(),
    ensures
        input_trace(InputState::Stopped, keys, exit)[j] is None,
    decreases keys.len(),
{
    lemma_input_trace_len(InputState::Stopped, keys, exit);
    let trace = input_trace(InputState::Stopped, keys, exit);
    let rest = input_trace(InputState::Stopped, keys.drop_first(), exit);
    if j == 0 {
        assert(trace[0] == input_emits(InputState::Stopped, keys[0]));
    } else {
        lemma_stopped_emits_nothing(keys.drop_first(), exit, j - 1);
        assert(trace[j] == rest[j - 1]);
    }
}

/// Once the exit key is observed, exactly its own `Input` event is delivered
/// and the producer emits nothing further: at the first position `i` where
/// the exit key stands, the trace holds `Input(exit)`, every earlier entry
/// forwards its own key, and every later entry is empty.
pub proof fn lemma_exit_key_stops(keys: Seq<Key>, exit: Key, i: int)
    requires
        0 <= i < keys.len(),
        keys[i] == exit,
        forall|j: int| 0 <= j < i ==> keys[j] != exit,
    ensures
        input_trace(InputState::Running, keys, exit)[i] == Some(Event::<Key>::Input(exit)),
        forall|j: int| 0 <= j < i ==> input_trace(InputState::Running, keys, exit)[j] == Some(
            Event::<Key>::Input(keys[j]),
        ),
        forall|j: int|
            i < j < keys.len() ==> input_trace(InputState::Running, keys, exit)[j] is None,
    decreases i,
{
    lemma_input_trace_len(InputState::Running, keys, exit);
    let trace = input_trace(InputState::Running, keys, exit);
    let rest = input_trace(
        input_next_state(InputState::Running, keys[0], exit),
        keys.drop_first(),
        exit,
    );
    if i == 0 {
        assert(trace[0] == Some(Event::<Key>::Input(exit)));
        assert forall|j: int| 0 < j < keys.len() implies trace[j] is None by {
            lemma_stopped_emits_nothing(keys.drop_first(), exit, j - 1);
            assert(trace[j] == rest[j - 1]);
        }
    } else {
        assert(keys[0] != exit);
        lemma_exit_key_stops(keys.drop_first(), exit, i - 1);
        assert(trace[i] == rest[i - 1]);
        assert(keys.drop_first()[i - 1] == keys[i]);
        assert forall|j: int| 0 <= j < i implies trace[j] == Some(Event::<Key>::Input(keys[j])) by {
            if j > 0 {
                assert(trace[j] == rest[j - 1]);
                assert(keys.drop_first()[j - 1] == keys[j]);
            }
        }
        assert forall|j: int| i < j < keys.len() implies trace[j] is None by {
            assert(trace[j] == rest[j - 1]);
        }
    }
}

/// The consumer-side queue the producers feed: a FIFO of events. Delivery
/// order equals arrival order; per-producer order is therefore preserved.
pub struct EventQueue<I> {
    events: Vec<Event<I>>,
}

impl<I> View for EventQueue<I> {
    type V = Seq<Event<I>>;

    closed spec fn view(&self) -> Seq<Event<I>> {
        self.events@
    }
}

impl<I> EventQueue<I> {
    /// An empty queue.
    pub fn new() -> (r: EventQueue<I>)
        ensures
            r@ == Seq::<Event<I>>::empty(),
    {
        EventQueue { events: Vec::new() }
    }

    /// How many events wait for the consumer.
    pub fn len(&self) -> (r: usize)
        ensures
            r == self@.len(),
    {
        self.events.len()
    }

    /// A producer enqueues one event at the back.
    pub fn push(&mut self, ev: Event<I>)
        ensures
            final(self)@ == old(self)@.push(ev),
    {
        self.events.push(ev);
    }

    /// The consumer takes the oldest event, if any: the queue delivers in
    /// arrival order and never invents or reorders events.
    pub fn pop(&mut self) -> (r: Option<Event<I>>)
        ensures
            old(self)@.len() == 0 ==> r is None && final(self)@ == old(self)@,
            old(self)@.len() > 0 ==> r == Some(old(self)@[0]) && final(self)@ == old(
                self,
            )@.drop_first(),
    {
        if self.events.len() == 0 {
            None
        } else {
            Some(self.events.remove(0))
        }
    }

    /// Take everything at once: the delivered sequence is exactly the arrival
    /// sequence.
    pub fn drain(&mut self) -> (r: Vec<Event<I>>)
        ensures
            r@ == old(self)@,
            final(self)@ == Seq::<Event<I>>::empty(),
    {
        let mut out: Vec<Event<I>> = Vec::new();
        proof {
            assert(out@ + self@ =~= old(self)@);
        }
        while self.events.len() != 0
            invariant
                out@ + self@ == old(self)@,
            decreases self@.len(),
        {
            let ghost prev_out = out@;
            let ghost prev_q = self@;
            let ev = self.events.remove(0);
            out.push(ev);
            proof {
                assert(out@ + self@ =~= prev_out + prev_q);
            }
        }
        proof {
            assert(out@ =~= out@ + self@);
        }
        out
    }
}

/// Two events enqueued by one producer, in that order, stand in the delivered
/// sequence in the same order, whatever the other producers enqueue in
/// between: with `earlier` already queued, `e1` enqueued first, `mid`
/// arriving from elsewhere, and `e2` enqueued last, `e1` is delivered at an
/// earlier position than `e2`.
pub proof fn lemma_emission_order_kept<I>(
    earlier: Seq<Event<I>>,
    e1: Event<I>,
    mid: Seq<Event<I>>,
    e2: Event<I>,
)
    ensures
        ({
            let delivered = earlier.push(e1) + mid + seq![e2];
            &&& delivered[earlier.len() as int] == e1
            &&& delivered[earlier.len() + 1 + mid.len() as int] == e2
            &&& earlier.len() < earlier.len() + 1 + mid.len()
        }),
{
}

} // verus!
