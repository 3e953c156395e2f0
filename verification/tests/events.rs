use peer_core::event::{
    new_peer_event, peer_manager_event, tick_event, Config, Event, EventQueue, InputProducer,
    InputState, Key, PeerAddr, PeerEvent, PeerManagerEvent, Protocol, TransportAddr,
};

fn test_peer() -> PeerAddr {
    PeerAddr {
        public_key: vec![1u8; 32],
        socket_addr: TransportAddr { ip: vec![10, 0, 0, 2], port: 8008 },
        protocol: Protocol::Net,
    }
}

#[test]
fn default_config_is_q_and_250ms() {
    let config = Config::default();
    assert_eq!(config.exit_key, Key::Char('q'));
    assert_eq!(config.tick_rate, 250);
}

#[test]
fn input_producer_forwards_keys_until_exit_key() {
    let config = Config::default();
    let mut producer = InputProducer::new(&config);

    assert_eq!(producer.on_key(Key::Char('a')), Some(Event::Input(Key::Char('a'))));
    assert_eq!(producer.state, InputState::Running);

    assert_eq!(producer.on_key(Key::Char('q')), Some(Event::Input(Key::Char('q'))));
    assert_eq!(producer.state, InputState::Stopped);

    assert_eq!(producer.on_key(Key::Char('b')), None);
    assert_eq!(producer.on_key(Key::Char('q')), None);
    assert_eq!(producer.state, InputState::Stopped);
}

#[test]
fn exactly_one_exit_input_event_is_delivered() {
    let config = Config { exit_key: Key::Esc, tick_rate: 100 };
    let mut producer = InputProducer::new(&config);
    let keys = vec![Key::Char('x'), Key::Esc, Key::Esc, Key::Char('y')];
    let mut exit_events = 0;
    for key in keys {
        if let Some(Event::Input(k)) = producer.on_key(key) {
            if k == Key::Esc {
                exit_events += 1;
            }
        }
    }
    assert_eq!(exit_events, 1);
}

#[test]
fn producer_step_events_have_their_variants() {
    let tick: Event<Key> = tick_event();
    assert!(matches!(tick, Event::Tick));

    let peer = test_peer();
    let discovered: Event<Key> = new_peer_event(peer.clone());
    assert_eq!(discovered, Event::NewPeer(peer.clone()));

    let relayed: Event<Key> = peer_manager_event(PeerManagerEvent {
        peer,
        event: PeerEvent::MessageReceived(String::from("hi")),
    });
    assert!(matches!(relayed, Event::PeerManagerEvent(_)));
}

#[test]
fn queue_delivers_in_arrival_order() {
    let mut queue: EventQueue<Key> = EventQueue::new();
    queue.push(Event::Tick);
    queue.push(Event::Input(Key::Char('a')));
    queue.push(Event::Tick);

    assert_eq!(queue.pop(), Some(Event::Tick));
    assert_eq!(queue.pop(), Some(Event::Input(Key::Char('a'))));
    assert_eq!(queue.pop(), Some(Event::Tick));
    assert_eq!(queue.pop(), None);
}

#[test]
fn two_ticks_are_observed_in_emission_order() {
    let mut queue: EventQueue<Key> = EventQueue::new();
    let peer = test_peer();
    queue.push(Event::Tick);
    queue.push(Event::NewPeer(peer));
    queue.push(Event::Tick);

    let delivered = queue.drain();
    assert_eq!(queue.len(), 0);
    let tick_positions: Vec<usize> = delivered
        .iter()
        .enumerate()
        .filter(|(_, ev)| matches!(ev, Event::Tick))
        .map(|(i, _)| i)
        .collect();
    assert_eq!(tick_positions, vec![0, 2]);
}

#[test]
fn drain_returns_everything_in_order_and_empties_the_queue() {
    let mut queue: EventQueue<Key> = EventQueue::new();
    queue.push(Event::Input(Key::Char('a')));
    queue.push(Event::Input(Key::Char('b')));
    let delivered = queue.drain();
    assert_eq!(
        delivered,
        vec![Event::Input(Key::Char('a')), Event::Input(Key::Char('b'))]
    );
    assert_eq!(queue.pop(), None);
}
