//! Datagrams exchanged by two peers once the UDP path between them is open.
//!
//! Every datagram starts with a one-byte header naming its kind; text
//! messages carry one byte per character after it, address messages carry
//! four IPv4 octets and a big-endian port.
use vstd::prelude::*;
use vstd::utf8::*;

verus! {

/// The kind of a datagram, written as its first byte.
pub enum MessageHeader {
    TextMessage,
    UpdateConnection,
    Close,
    Connect,
}

impl MessageHeader {
    /// The byte that announces this kind of datagram.
    pub open spec fn header_value(self) -> u8 {
        match self {
            MessageHeader::TextMessage => 0,
            MessageHeader::UpdateConnection => 1,
            MessageHeader::Close => 2,
            MessageHeader::Connect => 3,
        }
    }

    pub fn byte(&self) -> (b: u8)
        ensures
            b == self.header_value(),
            *self is TextMessage ==> b == 0,
            *self is UpdateConnection ==> b == 1,
            *self is Close ==> b == 2,
            *self is Connect ==> b == 3,
    {
        match self {
            MessageHeader::TextMessage => 0,
            MessageHeader::UpdateConnection => 1,
            MessageHeader::Close => 2,
            MessageHeader::Connect => 3,
        }
    }
}

/// A message between the two peers. Addresses are IPv4 octets in network order.
#[derive(Debug)]
pub enum MessageType {
    TextMessage(String),
    UpdateConnection([u8; 4], u16),
    Connect([u8; 4], u16),
    Close,
}

/// The mathematical content of a [`MessageType`].
pub enum MessageModel {
    TextMessage(Seq<char>),
    UpdateConnection(Seq<u8>, u16),
    Connect(Seq<u8>, u16),
    Close,
}

impl View for MessageType {
    type V = MessageModel;

    open spec fn view(&self) -> MessageModel {
        match self {
            MessageType::TextMessage(s) => MessageModel::TextMessage(s@),
            MessageType::UpdateConnection(ip, port) => MessageModel::UpdateConnection(ip@, *port),
            MessageType::Connect(ip, port) => MessageModel::Connect(ip@, *port),
            MessageType::Close => MessageModel::Close,
        }
    }
}

impl MessageModel {
    /// Address messages carry exactly four octets (always true of a [`MessageType`]).
    pub open spec fn well_formed(self) -> bool {
        match self {
            MessageModel::UpdateConnection(ip, _) => ip.len() == 4,
            MessageModel::Connect(ip, _) => ip.len() == 4,
            _ => true,
        }
    }
}

/// The two bytes of `v`, most significant first.
pub open spec fn be_u16_bytes(v: u16) -> Seq<u8> {
    seq![(v / 256) as u8, (v % 256) as u8]
}

/// The number whose big-endian bytes are `hi`, `lo`.
pub open spec fn be_u16_value(hi: u8, lo: u8) -> u16 {
    (hi * 256 + lo) as u16
}

/// A text travels as the low byte of each of its characters.
pub open spec fn text_payload(s: Seq<char>) -> Seq<u8> {
    s.map_values(|c: char| c as u8)
}

/// The bytes of a message on the wire.
pub open spec fn encode_message(m: MessageModel) -> Seq<u8> {
    match m {
        MessageModel::TextMessage(s) => seq![0u8] + text_payload(s),
        MessageModel::UpdateConnection(ip, port) => seq![1u8] + ip + be_u16_bytes(port),
        MessageModel::Close => seq![2u8],
        MessageModel::Connect(ip, port) => seq![3u8] + ip + be_u16_bytes(port),
    }
}

/// What `String::from_utf8_lossy` makes of `bytes`: each maximal ill-formed
/// part becomes U+FFFD, the rest is decoded.
pub uninterp spec fn utf8_lossy(bytes: Seq<u8>) -> Seq<char>;

/// The text read back from a text payload.
pub open spec fn decoded_text(payload: Seq<u8>) -> Seq<char> {
    if valid_utf8(payload) {
        decode_utf8(payload)
    } else {
        utf8_lossy(payload)
    }
}

/// The message a datagram holds, if any.
pub open spec fn decode_message(b: Seq<u8>) -> Option<MessageModel> {
    if b.len() == 0 {
        None
    } else if b[0] == 0 {
        Some(MessageModel::TextMessage(decoded_text(b.drop_first())))
    } else if b[0] == 1 {
        if b.len() >= 7 {
            Some(MessageModel::UpdateConnection(b.subrange(1, 5), be_u16_value(b[5], b[6])))
        } else {
            None
        }
    } else if b[0] == 2 {
        Some(MessageModel::Close)
    } else if b[0] == 3 {
        if b.len() >= 7 {
            Some(MessageModel::Connect(b.subrange(1, 5), be_u16_value(b[5], b[6])))
        } else {
            None
        }
    } else {
        None
    }
}

/// Every byte of the payload is an ASCII code.
pub open spec fn is_ascii_bytes(b: Seq<u8>) -> bool {
    forall|i: int| 0 <= i < b.len() ==> #[trigger] b[i] < 128
}

/// A datagram that is exactly the encoding of the message it holds: a text
/// datagram with an ASCII payload, a one-byte close, or a seven-byte address.
pub open spec fn canonical_datagram(b: Seq<u8>) -> bool {
    &&& b.len() > 0
    &&& {
        ||| (b[0] == 0 && is_ascii_bytes(b.drop_first()))
        ||| (b[0] == 2 && b.len() == 1)
        ||| ((b[0] == 1 || b[0] == 3) && b.len() == 7)
    }
}

proof fn lemma_ascii_text_payload(s: Seq<char>)
    requires
        is_ascii_chars(s),
    ensures
        text_payload(s) == encode_utf8(s),
        valid_utf8(text_payload(s)),
        decode_utf8(text_payload(s)) == s,
{
    is_ascii_chars_encode_utf8(s);
    assert(text_payload(s) =~= encode_utf8(s));
    encode_utf8_valid_utf8(s);
    encode_utf8_decode_utf8(s);
}

proof fn lemma_be_u16_roundtrip(v: u16)
    ensures
        be_u16_value(be_u16_bytes(v)[0], be_u16_bytes(v)[1]) == v,
{
}

/// Decoding the encoding of a message gives the message back, for every
/// message whose text, if it is a text message, is ASCII.
pub proof fn lemma_decode_encode(m: MessageModel)
    requires
        m.well_formed(),
        m matches MessageModel::TextMessage(s) ==> is_ascii_chars(s),
    ensures
        decode_message(encode_message(m)) == Some(m),
{
    let b = encode_message(m);
    match m {
        MessageModel::TextMessage(s) => {
            assert(b.drop_first() =~= text_payload(s));
            lemma_ascii_text_payload(s);
        },
        MessageModel::UpdateConnection(ip, port) => {
            assert(b.subrange(1, 5) =~= ip);
            lemma_be_u16_roundtrip(port);
        },
        MessageModel::Connect(ip, port) => {
            assert(b.subrange(1, 5) =~= ip);
            lemma_be_u16_roundtrip(port);
        },
        MessageModel::Close => {},
    }
}

/// Encoding the message that a canonical datagram holds gives the datagram back.
pub proof fn lemma_encode_decode(b: Seq<u8>)
    requires
        canonical_datagram(b),
    ensures
        decode_message(b) is Some,
        decode_message(b)->0.well_formed(),
        encode_message(decode_message(b)->0) == b,
{
    if b[0] == 0 {
        let p = b.drop_first();
        let s = p.map_values(|x: u8| x as char);
        assert forall|i: int| 0 <= i < s.len() implies '\0' <= #[trigger] s[i] <= '\u{7f}' by {
            assert(p[i] < 128);
        }
        assert forall|i: int| 0 <= i < p.len() implies #[trigger] text_payload(s)[i] == p[i] by {
            let x = p[i];
            assert((x as char) as u8 == x);
        }
        assert(text_payload(s) =~= p);
        lemma_ascii_text_payload(s);
        assert(b =~= seq![0u8] + p);
    } else if b[0] == 2 {
        assert(b =~= seq![2u8]);
    } else {
        let port = be_u16_value(b[5], b[6]);
        assert(be_u16_bytes(port) =~= seq![b[5], b[6]]);
        assert(b =~= seq![b[0]] + b.subrange(1, 5) + be_u16_bytes(port));
    }
}

/// On the wire a text message is the byte 0 followed by the low byte of each
/// character, in order; for an ASCII text that is exactly its UTF-8 encoding.
pub proof fn lemma_text_wire_format(s: Seq<char>)
    ensures
        encode_message(MessageModel::TextMessage(s)).len() == s.len() + 1,
        encode_message(MessageModel::TextMessage(s))[0] == 0,
        forall|i: int|
            0 <= i < s.len() ==> #[trigger] encode_message(MessageModel::TextMessage(s))[i + 1]
                == s[i] as u8,
        is_ascii_chars(s) ==> encode_message(MessageModel::TextMessage(s)) == seq![0u8]
            + encode_utf8(s),
{
    let b = encode_message(MessageModel::TextMessage(s));
    assert forall|i: int| 0 <= i < s.len() implies #[trigger] b[i + 1] == s[i] as u8 by {
        assert(b[i + 1] == text_payload(s)[i]);
    }
    if is_ascii_chars(s) {
        lemma_ascii_text_payload(s);
    }
}

/// A datagram with header 0 holds a text message, and when its payload is
/// valid UTF-8 the text is that payload decoded.
pub proof fn lemma_text_datagram_decodes_utf8(b: Seq<u8>)
    requires
        b.len() > 0,
        b[0] == 0,
    ensures
        decode_message(b) matches Some(MessageModel::TextMessage(_)),
        valid_utf8(b.drop_first()) ==> decode_message(b) == Some(
            MessageModel::TextMessage(decode_utf8(b.drop_first())),
        ),
        !valid_utf8(b.drop_first()) ==> decode_message(b) == Some(
            MessageModel::TextMessage(utf8_lossy(b.drop_first())),
        ),
{
}

/// On the wire an address message is its header (1 to update, 3 to connect),
/// the four octets in order, and the port's high byte then low byte; a
/// close is the single byte 2.
pub proof fn lemma_address_wire_format(ip: Seq<u8>, port: u16)
    ensures
        encode_message(MessageModel::UpdateConnection(ip, port)) == seq![1u8] + ip + seq![
            (port / 256) as u8,
            (port % 256) as u8,
        ],
        encode_message(MessageModel::Connect(ip, port)) == seq![3u8] + ip + seq![
            (port / 256) as u8,
            (port % 256) as u8,
        ],
        encode_message(MessageModel::Close) == seq![2u8],
        (port / 256) * 256 + port % 256 == port,
{
}

/// An address datagram of at least seven bytes holds the octets at bytes
/// 1..5 and the port `b[5] * 256 + b[6]`; a shorter one, an empty datagram
/// and an unknown header hold nothing; header 2 holds a close.
pub proof fn lemma_address_datagram_decodes(b: Seq<u8>)
    ensures
        b.len() >= 7 && b[0] == 3 ==> decode_message(b) == Some(
            MessageModel::Connect(b.subrange(1, 5), (b[5] * 256 + b[6]) as u16),
        ),
        b.len() >= 7 && b[0] == 1 ==> decode_message(b) == Some(
            MessageModel::UpdateConnection(b.subrange(1, 5), (b[5] * 256 + b[6]) as u16),
        ),
        b.len() >= 1 && b[0] == 2 ==> decode_message(b) == Some(MessageModel::Close),
        (b.len() == 0 || b[0] > 3 || ((b[0] == 1 || b[0] == 3) && b.len() < 7)) ==> decode_message(
            b,
        ) is None,
        b.len() >= 7 ==> 0 <= b[5] * 256 + b[6] <= 65535,
{
}

/// `String::from_utf8_lossy`, made owned.
///
/// Trusted: std decodes valid UTF-8 unchanged and replaces ill-formed parts
/// with U+FFFD; the contract names the result and states the first half.
#[verifier::external_body]
fn lossy_utf8_string(bytes: &[u8]) -> (s: String)
    ensures
        s@ == utf8_lossy(bytes@),
        valid_utf8(bytes@) ==> s@ == decode_utf8(bytes@),
{
    String::from_utf8_lossy(bytes).into_owned()
}

fn push_be_u16(bytes: &mut Vec<u8>, v: u16)
    ensures
        final(bytes)@ == old(bytes)@ + be_u16_bytes(v),
{
    bytes.push((v / 256) as u8);
    bytes.push((v % 256) as u8);
}

fn address_datagram(header: u8, addr: &[u8; 4], port: u16) -> (bytes: Vec<u8>)
    ensures
        bytes@ == seq![header] + addr@ + be_u16_bytes(port),
{
    let mut bytes: Vec<u8> = Vec::with_capacity(23);
    bytes.push(header);
    bytes.push(addr[0]);
    bytes.push(addr[1]);
    bytes.push(addr[2]);
    bytes.push(addr[3]);
    push_be_u16(&mut bytes, port);
    assert(bytes@ =~= seq![header] + addr@ + be_u16_bytes(port));
    bytes
}

impl MessageType {
    /// The datagram that carries this message.
    pub fn as_bytes(&self) -> (bytes: Vec<u8>)
        ensures
            bytes@ == encode_message(self@),
            self matches MessageType::TextMessage(t) ==> {
                &&& bytes@.len() == t@.len() + 1
                &&& bytes@[0] == 0
                &&& forall|i: int| 0 <= i < t@.len() ==> #[trigger] bytes@[i + 1] == t@[i] as u8
                &&& is_ascii_chars(t@) ==> bytes@ == seq![0u8] + encode_utf8(t@)
            },
            self matches MessageType::Connect(ip, port) ==> bytes@ == seq![
                3u8,
                ip[0],
                ip[1],
                ip[2],
                ip[3],
                (port / 256) as u8,
                (port % 256) as u8,
            ],
            self matches MessageType::UpdateConnection(ip, port) ==> bytes@ == seq![
                1u8,
                ip[0],
                ip[1],
                ip[2],
                ip[3],
                (port / 256) as u8,
                (port % 256) as u8,
            ],
            self is Close ==> bytes@ == seq![2u8],
    {
        proof {
            match self {
                MessageType::TextMessage(t) => lemma_text_wire_format(t@),
                MessageType::Connect(ip, port) => {
                    lemma_address_wire_format(ip@, *port);
                },
                MessageType::UpdateConnection(ip, port) => {
                    lemma_address_wire_format(ip@, *port);
                },
                MessageType::Close => {},
            }
        }
        match self {
            MessageType::TextMessage(message) => {
                let mut bytes: Vec<u8> = Vec::new();
                bytes.push(MessageHeader::TextMessage.byte());
                for ch in iter: message.chars()
                    invariant
                        iter.seq() == message@,
                        bytes@ == seq![0u8] + text_payload(
                            iter.seq().take(iter.index() as int),
                        ),
                {
                    proof {
                        assert(iter.seq().take(iter.index() + 1) =~= iter.seq().take(
                            iter.index() as int,
                        ).push(ch));
                    }
                    bytes.push(ch as u8);
                    proof {
                        assert(bytes@ =~= seq![0u8] + text_payload(
                            iter.seq().take(iter.index() + 1),
                        ));
                    }
                }
                assert(message@.take(message@.len() as int) =~= message@);
                bytes
            },
            MessageType::UpdateConnection(addr, port) => {
                address_datagram(MessageHeader::UpdateConnection.byte(), addr, *port)
            },
            MessageType::Close => {
                let bytes = vec![MessageHeader::Close.byte()];
                assert(bytes@ =~= seq![2u8]);
                bytes
            },
            MessageType::Connect(addr, port) => {
                address_datagram(MessageHeader::Connect.byte(), addr, *port)
            },
        }
    }

    /// The message a datagram holds; `None` for an empty datagram, an unknown
    /// header, or an address message shorter than seven bytes.
    pub fn from_bytes(bytes: &[u8]) -> (m: Option<MessageType>)
        ensures
            match m {
                Some(x) => decode_message(bytes@) == Some(x@),
                None => decode_message(bytes@) is None,
            },
            bytes@.len() > 0 && bytes@[0] == 0 ==> (m matches Some(MessageType::TextMessage(t))
                && (valid_utf8(bytes@.drop_first()) ==> t@ == decode_utf8(bytes@.drop_first()))
                && (!valid_utf8(bytes@.drop_first()) ==> t@ == utf8_lossy(bytes@.drop_first()))),
            bytes@.len() >= 7 && bytes@[0] == 3 ==> (m matches Some(MessageType::Connect(ip, port))
                && ip@ == bytes@.subrange(1, 5) && port == bytes@[5] * 256 + bytes@[6]),
            bytes@.len() >= 7 && bytes@[0] == 1 ==> (m matches Some(
                MessageType::UpdateConnection(ip, port),
            ) && ip@ == bytes@.subrange(1, 5) && port == bytes@[5] * 256 + bytes@[6]),
            bytes@.len() >= 1 && bytes@[0] == 2 ==> m matches Some(MessageType::Close),
            (bytes@.len() == 0 || bytes@[0] > 3 || ((bytes@[0] == 1 || bytes@[0] == 3)
                && bytes@.len() < 7)) ==> m is None,
    {
        proof {
            lemma_address_datagram_decodes(bytes@);
            if bytes@.len() > 0 && bytes@[0] == 0 {
                lemma_text_datagram_decodes_utf8(bytes@);
            }
        }
        if bytes.len() == 0 {
            return None;
        }
        let header = bytes[0];
        if header == MessageHeader::TextMessage.byte() {
            let payload = vstd::slice::slice_subrange(bytes, 1, bytes.len());
            assert(payload@ =~= bytes@.drop_first());
            let text = lossy_utf8_string(payload);
            Some(MessageType::TextMessage(text))
        } else if header == MessageHeader::UpdateConnection.byte() {
            if bytes.len() >= 7 {
                let addr: [u8; 4] = [bytes[1], bytes[2], bytes[3], bytes[4]];
                let port = read_be_u16(bytes[5], bytes[6]);
                assert(addr@ =~= bytes@.subrange(1, 5));
                Some(MessageType::UpdateConnection(addr, port))
            } else {
                None
            }
        } else if header == MessageHeader::Close.byte() {
            Some(MessageType::Close)
        } else if header == MessageHeader::Connect.byte() {
            if bytes.len() >= 7 {
                let addr: [u8; 4] = [bytes[1], bytes[2], bytes[3], bytes[4]];
                let port = read_be_u16(bytes[5], bytes[6]);
                assert(addr@ =~= bytes@.subrange(1, 5));
                Some(MessageType::Connect(addr, port))
            } else {
                None
            }
        } else {
            None
        }
    }
}

/// `u16::from_be_bytes([hi, lo])`.
pub fn read_be_u16(hi: u8, lo: u8) -> (v: u16)
    ensures
        v == be_u16_value(hi, lo),
        v == hi * 256 + lo,
{
    hi as u16 * 256 + lo as u16
}

} // verus!
