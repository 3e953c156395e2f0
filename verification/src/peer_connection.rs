//! Per-peer connection logic: the error taxonomy, the session-key model,
//! and the decision cores of the reader and writer loops.
//!
//! A live connection runs one reader loop and one writer loop over the two
//! directions of an encrypted channel. The channel itself (handshake
//! cryptography and encrypted framing) is an external collaborator; what is
//! stated and proved here is everything the loops decide: how an inbound
//! frame becomes a typed event, that the end-of-stream signal yields exactly
//! one terminal `"Goodbye!"` event, that undecodable payloads are rendered
//! rather than dropped, and that outbound messages survive the encode/decode
//! round trip in order.

use vstd::prelude::*;
use vstd::string::*;
use vstd::utf8::*;
use crate::event::{PeerAddr, PeerEvent, PeerManagerEvent};

verus! {

/// Why a connection, or one of its loops, failed.
#[derive(Clone, Copy, Debug, PartialEq, Eq, Structural)]
pub enum PeerConnectionError {
    /// The inbound channel reported a framing, decryption or transport error.
    BoxReaderError,
    /// The outbound channel could not write a frame.
    BoxWriterError,
    /// The writer loop's private queue lost its sending side.
    MsgReceiveFailed,
    /// The cryptographic handshake rejected the peer.
    HandshakeFailed,
    /// The transport handle could not be duplicated for the writer.
    TcpStreamCloneFailed,
    /// The outbound connect attempt timed out or was refused.
    CannotConnectToPeer,
}

/// The text shown for each failure.
pub open spec fn error_text(e: PeerConnectionError) -> Seq<char> {
    match e {
        PeerConnectionError::BoxReaderError => "Failed to read message from BoxReader"@,
        PeerConnectionError::BoxWriterError => "Failed to send message to BoxWriter"@,
        PeerConnectionError::MsgReceiveFailed => "Failed to receive peer message from channel"@,
        PeerConnectionError::HandshakeFailed => "Failed to perform handshake"@,
        PeerConnectionError::TcpStreamCloneFailed => "Failed to clone TcpStream for BoxWriter"@,
        PeerConnectionError::CannotConnectToPeer => "Timeout when attempting to connect to peer"@,
    }
}

impl PeerConnectionError {
    /// A human-readable description of the failure.
    pub fn describe(&self) -> (r: &'static str)
        ensures
            r@ == error_text(*self),
    {
        match self {
            PeerConnectionError::BoxReaderError => "Failed to read message from BoxReader",
            PeerConnectionError::BoxWriterError => "Failed to send message to BoxWriter",
            PeerConnectionError::MsgReceiveFailed => "Failed to receive peer message from channel",
            PeerConnectionError::HandshakeFailed => "Failed to perform handshake",
            PeerConnectionError::TcpStreamCloneFailed => "Failed to clone TcpStream for BoxWriter",
            PeerConnectionError::CannotConnectToPeer => "Timeout when attempting to connect to peer",
        }
    }
}

/// The symmetric keys and starting nonces of one established session:
/// one key/nonce pair per direction, derived exactly once per handshake.
#[derive(Clone, Debug, PartialEq, Eq)]
pub struct SessionKeys {
    pub write_key: Vec<u8>,
    pub write_nonce: Vec<u8>,
    pub read_key: Vec<u8>,
    pub read_nonce: Vec<u8>,
}

impl SessionKeys {
    /// Assemble the per-direction key material derived by one handshake.
    pub fn new(write_key: Vec<u8>, write_nonce: Vec<u8>, read_key: Vec<u8>, read_nonce: Vec<u8>) -> (r:
        SessionKeys)
        requires
            write_key@.len() == 32,
            read_key@.len() == 32,
            write_nonce@.len() == 24,
            read_nonce@.len() == 24,
        ensures
            r.wf(),
            r.write_key@ == write_key@,
            r.write_nonce@ == write_nonce@,
            r.read_key@ == read_key@,
            r.read_nonce@ == read_nonce@,
    {
        SessionKeys { write_key, write_nonce, read_key, read_nonce }
    }

    /// Keys are 32 bytes, starting nonces 24 bytes.
    pub open spec fn wf(self) -> bool {
        &&& self.write_key@.len() == 32
        &&& self.read_key@.len() == 32
        &&& self.write_nonce@.len() == 24
        &&& self.read_nonce@.len() == 24
    }

    /// The two directions use distinct key material.
    pub open spec fn direction_disjoint(self) -> bool {
        self.write_key@ != self.read_key@
    }
}

/// Two sides of one handshake agree across directions: what one side writes
/// with, the other reads with, and vice versa.
pub open spec fn direction_consistent(a: SessionKeys, b: SessionKeys) -> bool {
    &&& a.write_key@ == b.read_key@
    &&& a.read_key@ == b.write_key@
    &&& a.write_nonce@ == b.read_nonce@
    &&& a.read_nonce@ == b.write_nonce@
}

/// Direction-consistency is mutual: if side A's keys line up with side B's,
/// then side B's line up with side A's.
pub proof fn lemma_direction_consistency_symmetric(a: SessionKeys, b: SessionKeys)
    requires
        direction_consistent(a, b),
    ensures
        direction_consistent(b, a),
{
}

/// The decimal digit characters of a byte, most significant first, without
/// leading zeros.
pub open spec fn dec_chars(n: u8) -> Seq<char> {
    if n < 10 {
        seq![digit_char(n as int)]
    } else if n < 100 {
        seq![digit_char(n as int / 10), digit_char(n as int % 10)]
    } else {
        seq![
            digit_char(n as int / 100),
            digit_char((n as int / 10) % 10),
            digit_char(n as int % 10),
        ]
    }
}

/// The character for one decimal digit.
pub open spec fn digit_char(d: int) -> char {
    if d == 0 {
        '0'
    } else if d == 1 {
        '1'
    } else if d == 2 {
        '2'
    } else if d == 3 {
        '3'
    } else if d == 4 {
        '4'
    } else if d == 5 {
        '5'
    } else if d == 6 {
        '6'
    } else if d == 7 {
        '7'
    } else if d == 8 {
        '8'
    } else {
        '9'
    }
}

fn digit_str(d: u8) -> (r: &'static str)
    requires
        d < 10,
    ensures
        r@ == seq![digit_char(d as int)],
{
    let r: &'static str = match d {
        0 => "0",
        1 => "1",
        2 => "2",
        3 => "3",
        4 => "4",
        5 => "5",
        6 => "6",
        7 => "7",
        8 => "8",
        _ => "9",
    };
    proof {
        reveal_strlit("0");
        reveal_strlit("1");
        reveal_strlit("2");
        reveal_strlit("3");
        reveal_strlit("4");
        reveal_strlit("5");
        reveal_strlit("6");
        reveal_strlit("7");
        reveal_strlit("8");
        reveal_strlit("9");
        assert(r@ =~= seq![digit_char(d as int)]);
    }
    r
}

/// Append the decimal rendering of one byte.
fn push_decimal(out: &mut String, b: u8)
    ensures
        final(out)@ == old(out)@ + dec_chars(b),
{
    if b < 10 {
        out.append(digit_str(b));
    } else if b < 100 {
        out.append(digit_str(b / 10));
        out.append(digit_str(b % 10));
    } else {
        out.append(digit_str(b / 100));
        out.append(digit_str((b / 10) % 10));
        out.append(digit_str(b % 10));
    }
    proof {
        assert(out@ =~= old(out)@ + dec_chars(b));
    }
}

/// The first `i` bytes rendered as a comma-separated decimal list.
pub open spec fn byte_list_chars(bytes: Seq<u8>, i: int) -> Seq<char>
    decreases i,
{
    if i <= 0 {
        Seq::empty()
    } else if i == 1 {
        dec_chars(bytes[0])
    } else {
        byte_list_chars(bytes, i - 1) + ", "@ + dec_chars(bytes[i - 1])
    }
}

/// The debug rendering of a payload that is not valid UTF-8: the bytes,
/// spelled out in decimal, behind a fixed prefix.
pub open spec fn raw_rendering(bytes: Seq<u8>) -> Seq<char> {
    "Raw bytes: ["@ + byte_list_chars(bytes, bytes.len() as int) + "]"@
}

/// Render a payload's bytes for display. The result is never empty.
pub fn render_raw_bytes(bytes: &Vec<u8>) -> (r: String)
    ensures
        r@ == raw_rendering(bytes@),
        r@.len() > 0,
{
    let mut out = String::from_str("Raw bytes: [");
    proof {
        assert(out@ =~= "Raw bytes: ["@ + byte_list_chars(bytes@, 0));
    }
    let mut i: usize = 0;
    while i < bytes.len()
        invariant
            i <= bytes@.len(),
            out@ == "Raw bytes: ["@ + byte_list_chars(bytes@, i as int),
        decreases bytes@.len() - i,
    {
        if i > 0 {
            out.append(", ");
        }
        push_decimal(&mut out, bytes[i]);
        proof {
            assert(out@ =~= "Raw bytes: ["@ + byte_list_chars(bytes@, i as int + 1));
        }
        i += 1;
    }
    out.append("]");
    proof {
        reveal_strlit("Raw bytes: [");
        assert(out@ =~= raw_rendering(bytes@));
    }
    out
}

/// Relies on `String::from_utf8`: it returns `Ok` exactly when the bytes are
/// a valid UTF-8 encoding, and then returns the string those bytes encode.
#[verifier::external_body]
fn utf8_decode(bytes: &Vec<u8>) -> (r: Option<String>)
    ensures
        r matches Some(s) ==> encode_utf8(s@) == bytes@,
        r is None <==> !valid_utf8(bytes@),
{
    String::from_utf8(bytes.clone()).ok()
}

/// What an inbound payload is shown as: its text if it is valid UTF-8, a
/// rendering of its raw bytes otherwise. Content is never discarded.
pub open spec fn decoded_message(bytes: Seq<u8>) -> Seq<char> {
    if valid_utf8(bytes) {
        decode_utf8(bytes)
    } else {
        raw_rendering(bytes)
    }
}

/// Turn one decrypted inbound payload into the text to deliver: decoded
/// UTF-8 where possible, a non-empty byte rendering otherwise, never an
/// error and never a silently dropped message.
pub fn decode_frame(bytes: &Vec<u8>) -> (r: String)
    ensures
        r@ == decoded_message(bytes@),
        !valid_utf8(bytes@) ==> r@.len() > 0,
{
    match utf8_decode(bytes) {
        Some(s) => {
            proof {
                encode_utf8_valid_utf8(s@);
                encode_utf8_decode_utf8(s@);
            }
            s
        },
        None => render_raw_bytes(bytes),
    }
}

/// Encode one outbound message for the channel: the message's UTF-8 bytes,
/// which decode back to exactly the message.
pub fn encode_outbound(msg: &String) -> (r: Vec<u8>)
    ensures
        r@ == encode_utf8(msg@),
        valid_utf8(r@),
        decode_utf8(r@) == msg@,
{
    let r = msg.as_str().as_bytes_vec();
    proof {
        encode_utf8_valid_utf8(msg@);
        encode_utf8_decode_utf8(msg@);
    }
    r
}

/// The text one channel signal is delivered as: a decoded payload for a
/// frame, the terminal farewell for the "no more frames" signal.
pub open spec fn frame_message(frame: Option<Seq<u8>>) -> Seq<char> {
    match frame {
        Some(b) => decoded_message(b),
        None => "Goodbye!"@,
    }
}

/// The decision core of a connection's reader loop. It turns each inbound
/// channel signal into at most one event for the shared sink: every frame is
/// delivered (decoded or rendered, never dropped), the end-of-stream signal
/// is delivered exactly once as `"Goodbye!"`, and a closed reader emits
/// nothing further.
pub struct ReaderLoop {
    pub peer: PeerAddr,
    pub open: bool,
}

impl ReaderLoop {
    /// Whether the reader still accepts signals.
    pub open spec fn is_open(self) -> bool {
        self.open
    }

    /// A fresh reader for one connection's inbound direction.
    pub fn new(peer: PeerAddr) -> (r: ReaderLoop)
        ensures
            r.peer == peer,
            r.is_open(),
    {
        ReaderLoop { peer, open: true }
    }

    /// Decide what one channel signal becomes. `Some(bytes)` is a decrypted
    /// frame; `None` is the channel's "no more frames" signal.
    pub fn step(&mut self, frame: Option<Vec<u8>>) -> (r: Option<PeerManagerEvent>)
        ensures
            final(self).peer == old(self).peer,
            !old(self).is_open() ==> r is None && !final(self).is_open(),
            old(self).is_open() ==> final(self).is_open() == (frame is Some),
            old(self).is_open() ==> (r matches Some(ev) && ev.peer@ == old(self).peer@ && (
            ev.event matches PeerEvent::MessageReceived(m) && m@ == frame_message(
                match frame {
                    Some(b) => Some(b@),
                    None => None,
                },
            ))),
    {
        if !self.open {
            return None;
        }
        let text = match &frame {
            Some(bytes) => decode_frame(bytes),
            None => {
                self.open = false;
                let goodbye = String::from_str("Goodbye!");
                goodbye
            },
        };
        Some(PeerManagerEvent { peer: self.peer.duplicate(), event: PeerEvent::MessageReceived(text) })
    }
}

/// The texts a reader delivers over a whole sequence of channel signals: one
/// per frame, in arrival order, up to and including the first end-of-stream
/// signal, and nothing after it.
pub open spec fn reader_messages(frames: Seq<Option<Seq<u8>>>) -> Seq<Seq<char>>
    decreases frames.len(),
{
    if frames.len() == 0 {
        Seq::empty()
    } else if frames[0] is None {
        seq![frame_message(frames[0])]
    } else {
        seq![frame_message(frames[0])] + reader_messages(frames.drop_first())
    }
}

/// The "no more frames" signal is terminal, and terminal exactly once: at
/// the first position `i` where the channel signals end-of-stream, the
/// reader has delivered each earlier frame in order, delivers `"Goodbye!"`
/// there, and delivers nothing further, whatever follows.
pub proof fn lemma_goodbye_terminal(frames: Seq<Option<Seq<u8>>>, i: int)
    requires
        0 <= i < frames.len(),
        frames[i] is None,
        forall|j: int| 0 <= j < i ==> frames[j] is Some,
    ensures
        reader_messages(frames).len() == i + 1,
        reader_messages(frames)[i] == "Goodbye!"@,
        forall|j: int| 0 <= j < i ==> reader_messages(frames)[j] == frame_message(frames[j]),
    decreases i,
{
    let msgs = reader_messages(frames);
    if i == 0 {
    } else {
        let rest = reader_messages(frames.drop_first());
        lemma_goodbye_terminal(frames.drop_first(), i - 1);
        assert forall|j: int| 0 <= j < i implies msgs[j] == frame_message(frames[j]) by {
            if j > 0 {
                assert(msgs[j] == rest[j - 1]);
                assert(frames.drop_first()[j - 1] == frames[j]);
            }
        }
        assert(msgs[i] == rest[i - 1]);
    }
}

/// Outbound order is preserved end to end: when each message in a sequence
/// is encoded in turn and the frames arrive unreordered, the peer's reader
/// delivers exactly those messages, in the same order, unchanged.
pub proof fn lemma_outbound_order_preserved(msgs: Seq<Seq<char>>, frames: Seq<Option<Seq<u8>>>)
    requires
        frames.len() == msgs.len(),
        forall|i: int| 0 <= i < frames.len() ==> frames[i] == Some(encode_utf8(msgs[i])),
    ensures
        reader_messages(frames) == msgs,
    decreases frames.len(),
{
    if frames.len() == 0 {
        assert(reader_messages(frames) =~= msgs);
    } else {
        encode_utf8_valid_utf8(msgs[0]);
        encode_utf8_decode_utf8(msgs[0]);
        assert(frame_message(frames[0]) == msgs[0]);
        assert forall|i: int| 0 <= i < frames.drop_first().len() implies frames.drop_first()[i]
            == Some(encode_utf8(msgs.drop_first()[i])) by {
            assert(frames.drop_first()[i] == frames[i + 1]);
            assert(msgs.drop_first()[i] == msgs[i + 1]);
        }
        lemma_outbound_order_preserved(msgs.drop_first(), frames.drop_first());
        assert(reader_messages(frames) =~= msgs);
    }
}

} // verus!
