//! The two loops of a chat session, as decisions: what the sending side does
//! on each turn, and what the receiving side does with each datagram.
//!
//! A session starts `Connecting`: the sender announces its endpoint every
//! second until the peer's own announcement arrives, after which typed lines
//! are sent as text messages and received text is shown.
use vstd::prelude::*;
use vstd::string::StringExecFns;
use crate::message::{MessageType, MessageModel, decode_message, encode_message};

verus! {

/// Whether the peer has been heard from yet.
#[derive(Debug, Clone, Copy, PartialEq, Eq)]
pub enum ClientState {
    Connecting,
    Connected,
}

impl Default for ClientState {
    fn default() -> (s: ClientState)
        ensures
            s == ClientState::Connecting,
    {
        ClientState::Connecting
    }
}

/// What the sending side does on one turn of its loop.
pub enum SenderAction {
    /// Send this `Connect` datagram, then wait a second.
    Announce(Vec<u8>),
    /// Read a line from standard input and send it with [`typed_line_datagram`].
    SendTyped,
}

/// The sending side's turn: announce our public endpoint until connected,
/// then relay typed lines.
pub fn sender_step(state: ClientState, ip: &[u8; 4], port: u16) -> (a: SenderAction)
    ensures
        state == ClientState::Connecting ==> (a matches SenderAction::Announce(b) && b@
            == encode_message(MessageModel::Connect(ip@, port))),
        state == ClientState::Connected ==> a is SendTyped,
{
    match state {
        ClientState::Connecting => SenderAction::Announce(MessageType::Connect(*ip, port).as_bytes()),
        ClientState::Connected => SenderAction::SendTyped,
    }
}

/// The datagram that carries a typed line.
pub fn typed_line_datagram(line: String) -> (b: Vec<u8>)
    ensures
        b@ == encode_message(MessageModel::TextMessage(line@)),
{
    MessageType::TextMessage(line).as_bytes()
}

/// What the receiving side does with one datagram.
pub enum ReceiverAction {
    /// Forward the datagram to the relay and write this line to standard output.
    Show(String),
    /// Write this line to standard output: the peer has been heard from.
    ReportConnected(String),
    /// Nothing to do.
    Ignore,
    /// The datagram holds no message; the session cannot go on.
    Malformed,
}

/// The state after receiving datagram `d` in state `s`: the first `Connect`
/// message moves the session to `Connected`, which it never leaves.
pub open spec fn next_state(s: ClientState, d: Seq<u8>) -> ClientState {
    match decode_message(d) {
        Some(MessageModel::Connect(_, _)) => ClientState::Connected,
        _ => s,
    }
}

/// Whether receiving `d` in state `s` reports the connection.
pub open spec fn reports_connection(s: ClientState, d: Seq<u8>) -> bool {
    s == ClientState::Connecting && decode_message(d) matches Some(MessageModel::Connect(_, _))
}

/// The line shown for a received text.
pub open spec fn received_line(text: Seq<char>) -> Seq<char> {
    "Received: "@ + text + seq!['\n']
}

/// The line shown for a received text is `Received: `, the whole text, and
/// a newline: ten characters of prefix, then every character of the text in
/// order, then `\n`.
pub proof fn lemma_received_line_shows_text(text: Seq<char>)
    ensures
        received_line(text) == "Received: "@ + text + seq!['\n'],
        received_line(text).len() == text.len() + 11,
        received_line(text).subrange(0, 10) == seq!['R', 'e', 'c', 'e', 'i', 'v', 'e', 'd', ':', ' '],
        received_line(text).subrange(10, 10 + text.len() as int) == text,
        received_line(text)[10 + text.len() as int] == '\n',
{
    reveal_strlit("Received: ");
    let l = received_line(text);
    assert(l.subrange(0, 10) =~= seq!['R', 'e', 'c', 'e', 'i', 'v', 'e', 'd', ':', ' ']);
    assert(l.subrange(10, 10 + text.len() as int) =~= text);
}

/// The receiving side's handling of one datagram.
pub fn receive_step(state: ClientState, datagram: &[u8]) -> (r: (ClientState, ReceiverAction))
    ensures
        r.0 == next_state(state, datagram@),
        decode_message(datagram@) is None <==> r.1 is Malformed,
        reports_connection(state, datagram@) <==> r.1 is ReportConnected,
        r.1 matches ReceiverAction::ReportConnected(line) ==> line@ == "Connected\n"@,
        (decode_message(datagram@) matches Some(MessageModel::TextMessage(t))) <==> r.1 is Show,
        r.1 matches ReceiverAction::Show(line) ==> (decode_message(datagram@) matches Some(
            MessageModel::TextMessage(t),
        ) && line@ == received_line(t) && line@ == "Received: "@ + t + seq!['\n']),
{
    match MessageType::from_bytes(datagram) {
        None => (state, ReceiverAction::Malformed),
        Some(MessageType::TextMessage(message)) => {
            let mut line = String::from_str("Received: ");
            line.append(message.as_str());
            crate::text::push_char(&mut line, '\n');
            (state, ReceiverAction::Show(line))
        },
        Some(MessageType::UpdateConnection(_, _)) => (state, ReceiverAction::Ignore),
        Some(MessageType::Connect(_, _)) => {
            match state {
                ClientState::Connected => (ClientState::Connected, ReceiverAction::Ignore),
                ClientState::Connecting => (
                    ClientState::Connected,
                    ReceiverAction::ReportConnected(String::from_str("Connected\n")),
                ),
            }
        },
        Some(MessageType::Close) => (state, ReceiverAction::Ignore),
    }
}

/// The state after receiving each datagram of `ds` in turn.
pub open spec fn state_after(s: ClientState, ds: Seq<Seq<u8>>) -> ClientState
    decreases ds.len(),
{
    if ds.len() == 0 {
        s
    } else {
        state_after(next_state(s, ds[0]), ds.drop_first())
    }
}

/// How many of the datagrams `ds`, received in turn from state `s`, report
/// the connection.
pub open spec fn connection_reports(s: ClientState, ds: Seq<Seq<u8>>) -> nat
    decreases ds.len(),
{
    if ds.len() == 0 {
        0
    } else {
        (if reports_connection(s, ds[0]) {
            1nat
        } else {
            0nat
        }) + connection_reports(next_state(s, ds[0]), ds.drop_first())
    }
}

/// Whether some datagram of `ds` holds a `Connect` message.
pub open spec fn holds_connect(ds: Seq<Seq<u8>>) -> bool {
    exists|i: int| 0 <= i < ds.len() && (decode_message(#[trigger] ds[i]) matches Some(MessageModel::Connect(_, _)))
}

/// Once connected, a session stays connected whatever it receives.
pub proof fn lemma_connected_is_final(ds: Seq<Seq<u8>>)
    ensures
        state_after(ClientState::Connected, ds) == ClientState::Connected,
        connection_reports(ClientState::Connected, ds) == 0,
    decreases ds.len(),
{
    if ds.len() > 0 {
        lemma_connected_is_final(ds.drop_first());
    }
}

/// The connection is reported at most once in a session, and exactly once
/// when the session starts connecting and some datagram holds a `Connect`
/// message; the session then ends connected.
pub proof fn lemma_connection_reported_once(s: ClientState, ds: Seq<Seq<u8>>)
    ensures
        connection_reports(s, ds) <= 1,
        connection_reports(s, ds) == 1 <==> (s == ClientState::Connecting && holds_connect(ds)),
        state_after(s, ds) == ClientState::Connected <==> (s == ClientState::Connected
            || holds_connect(ds)),
    decreases ds.len(),
{
    if ds.len() == 0 {
    } else {
        let rest = ds.drop_first();
        let s1 = next_state(s, ds[0]);
        lemma_connection_reported_once(s1, rest);
        if s1 == ClientState::Connected {
            lemma_connected_is_final(rest);
        }
        if holds_connect(rest) {
            let i = choose|i: int| 0 <= i < rest.len() && (decode_message(#[trigger] rest[i]) matches Some(MessageModel::Connect(_, _)));
            assert(ds[i + 1] == rest[i]);
        }
        if holds_connect(ds) && !(decode_message(ds[0]) matches Some(MessageModel::Connect(_, _))) {
            let i = choose|i: int| 0 <= i < ds.len() && (decode_message(#[trigger] ds[i]) matches Some(MessageModel::Connect(_, _)));
            assert(rest[i - 1] == ds[i]);
        }
    }
}

} // verus!
