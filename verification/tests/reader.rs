use peer_core::event::{PeerAddr, PeerEvent, Protocol, TransportAddr};
use peer_core::peer_connection::{encode_outbound, ReaderLoop};

fn test_peer() -> PeerAddr {
    PeerAddr {
        public_key: vec![7u8; 32],
        socket_addr: TransportAddr { ip: vec![127, 0, 0, 1], port: 8008 },
        protocol: Protocol::Net,
    }
}

fn message_text(ev: peer_core::event::PeerManagerEvent) -> String {
    let PeerEvent::MessageReceived(text) = ev.event;
    text
}

#[test]
fn reader_delivers_frame_then_goodbye_then_nothing() {
    let mut reader = ReaderLoop::new(test_peer());

    let first = reader.step(Some(b"hi".to_vec())).expect("frame is delivered");
    assert_eq!(message_text(first), "hi");

    let farewell = reader.step(None).expect("end of stream is delivered");
    assert_eq!(message_text(farewell), "Goodbye!");

    assert!(reader.step(Some(b"late".to_vec())).is_none());
    assert!(reader.step(None).is_none());
}

#[test]
fn reader_emits_exactly_one_goodbye() {
    let mut reader = ReaderLoop::new(test_peer());
    let mut goodbyes = 0;
    let frames: Vec<Option<Vec<u8>>> =
        vec![Some(b"a".to_vec()), None, None, Some(b"b".to_vec()), None];
    for frame in frames {
        if let Some(ev) = reader.step(frame) {
            if message_text(ev) == "Goodbye!" {
                goodbyes += 1;
            }
        }
    }
    assert_eq!(goodbyes, 1);
}

#[test]
fn reader_preserves_inbound_order() {
    let mut reader = ReaderLoop::new(test_peer());
    let msgs = vec![String::from("one"), String::from("two"), String::from("three")];
    let mut seen: Vec<String> = Vec::new();
    for msg in &msgs {
        let frame = encode_outbound(msg);
        let ev = reader.step(Some(frame)).expect("frame is delivered");
        seen.push(message_text(ev));
    }
    assert_eq!(seen, msgs);
}

#[test]
fn reader_renders_undecodable_payload() {
    let mut reader = ReaderLoop::new(test_peer());
    let ev = reader.step(Some(vec![0xc3, 0x28])).expect("frame is delivered");
    let text = message_text(ev);
    assert!(!text.is_empty());
    assert_eq!(text, "Raw bytes: [195, 40]");
}

#[test]
fn reader_event_carries_peer_identity() {
    let peer = test_peer();
    let mut reader = ReaderLoop::new(peer.clone());
    let ev = reader.step(Some(b"hi".to_vec())).expect("frame is delivered");
    assert_eq!(ev.peer, peer);
}
