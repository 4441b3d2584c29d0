//! Signalling over a Pusher presence channel: the subscription request a
//! peer sends, and how it reacts to the frames that the channel delivers.
use vstd::prelude::*;
use vstd::string::StringExecFns;
use crate::text::{decimal, decimal_value, is_decimal_digit, lemma_decimal_is_base10, push_char, push_decimal};

pub mod auth_message_gen;

use auth_message_gen::{PusherType, auth_key_text, generate_auth_key};

verus! {

/// The fields of a subscription request; on the wire they form the JSON
/// object `{"event": .., "data": {"channel": .., "auth": .., "channel_data": ..}}`.
pub struct AuthMessage {
    pub event: String,
    pub channel: String,
    pub auth: String,
    pub channel_data: String,
}

/// The channel on which peers find each other.
pub open spec fn presence_channel() -> Seq<char> {
    "presence-channel"@
}

/// The channel is named `presence-channel`, and the two events are named
/// `pusher:subscribe` and `pusher:unsubscribe`, character for character.
pub proof fn lemma_channel_and_event_names()
    ensures
        presence_channel() == seq!['p', 'r', 'e', 's', 'e', 'n', 'c', 'e', '-', 'c', 'h', 'a', 'n', 'n', 'e', 'l'],
        PusherType::Subscribe.event_name_spec() == seq!['p', 'u', 's', 'h', 'e', 'r', ':', 's', 'u', 'b', 's', 'c', 'r', 'i', 'b', 'e'],
        PusherType::Unsubscribe.event_name_spec() == seq!['p', 'u', 's', 'h', 'e', 'r', ':', 'u', 'n', 's', 'u', 'b', 's', 'c', 'r', 'i', 'b', 'e'],
{
    reveal_strlit("presence-channel");
    reveal_strlit("pusher:subscribe");
    reveal_strlit("pusher:unsubscribe");
    assert(presence_channel() =~= seq!['p', 'r', 'e', 's', 'e', 'n', 'c', 'e', '-', 'c', 'h', 'a', 'n', 'n', 'e', 'l']);
    assert(PusherType::Subscribe.event_name_spec() =~= seq!['p', 'u', 's', 'h', 'e', 'r', ':', 's', 'u', 'b', 's', 'c', 'r', 'i', 'b', 'e']);
    assert(PusherType::Unsubscribe.event_name_spec() =~= seq!['p', 'u', 's', 'h', 'e', 'r', ':', 'u', 'n', 's', 'u', 'b', 's', 'c', 'r', 'i', 'b', 'e']);
}

/// The member data a peer presents: `{"user_id": <uuid>}`.
pub open spec fn user_data_text(uuid: u16) -> Seq<char> {
    "{\"user_id\": "@ + decimal(uuid as nat) + seq!['}']
}

/// The member data is the prefix `{"user_id": `, the base-10 digits of the
/// uuid itself (no leading zero), and a closing brace.
pub proof fn lemma_user_data_names_uuid(uuid: u16)
    ensures
        user_data_text(uuid) == "{\"user_id\": "@ + decimal(uuid as nat) + seq!['}'],
        forall|i: int|
            0 <= i < decimal(uuid as nat).len() ==> is_decimal_digit(
                #[trigger] decimal(uuid as nat)[i],
            ),
        decimal_value(decimal(uuid as nat)) == uuid,
        decimal(uuid as nat)[0] == '0' ==> uuid == 0,
{
    lemma_decimal_is_base10(uuid as nat);
}

/// `format!("{{\"user_id\": {uuid}}}")`.
pub fn user_data(uuid: u16) -> (s: String)
    ensures
        s@ == user_data_text(uuid),
        s@ == "{\"user_id\": "@ + decimal(uuid as nat) + seq!['}'],
{
    let mut s = String::from_str("{\"user_id\": ");
    push_decimal(&mut s, uuid as u32);
    push_char(&mut s, '}');
    assert(s@ =~= user_data_text(uuid));
    s
}

/// The request that subscribes (or unsubscribes, as `pusher_type` says;
/// subscribing when it says nothing) the socket `socket_id` to the presence
/// channel as member `uuid`, signed with the application's key and secret.
pub fn generate_auth_message(
    app_key: &str,
    app_secret: &str,
    socket_id: &str,
    uuid: u16,
    pusher_type: Option<PusherType>,
) -> (m: AuthMessage)
    ensures
        m.event@ == match pusher_type {
            Some(t) => t.event_name_spec(),
            None => PusherType::Subscribe.event_name_spec(),
        },
        m.channel@ == presence_channel(),
        m.channel_data@ == user_data_text(uuid),
        m.auth@ == auth_key_text(
            app_key@,
            app_secret@,
            socket_id@,
            presence_channel(),
            user_data_text(uuid),
        ),
{
    let pusher_type = match pusher_type {
        Some(t) => t,
        None => PusherType::Subscribe,
    };
    let event = pusher_type.event_name();
    let channel_name = "presence-channel";
    let user_data = user_data(uuid);
    let auth = generate_auth_key(app_key, app_secret, socket_id, channel_name, user_data.as_str());
    AuthMessage { event, channel: String::from_str(channel_name), auth, channel_data: user_data }
}

/// What Pusher's JSON frame `text` holds: its `event` member when that is a
/// string, and its `data` member written back as JSON; `None` when `text` is
/// not JSON.
pub uninterp spec fn json_event_fields(text: Seq<char>) -> Option<(Option<Seq<char>>, Seq<char>)>;

/// The socket id that a connection's first frame `text` announces: the
/// `socket_id` string inside the JSON text held by the frame's `data` string;
/// `None` when either text is not JSON or a member is missing or not a string.
pub uninterp spec fn handshake_socket_id(text: Seq<char>) -> Option<Seq<char>>;

/// `serde_json::from_str::<Value>`, then the `event` member if it is a string
/// and the `data` member written with `Value::to_string`.
///
/// Trusted: the result is a function of the text alone, named
/// `json_event_fields`; how JSON is read and written is not stated.
#[verifier::external_body]
fn event_fields(text: &str) -> (r: Option<(Option<String>, String)>)
    ensures
        match r {
            Some((e, d)) => json_event_fields(text@) == Some(
                (
                    match e {
                        Some(s) => Some(s@),
                        None => None::<Seq<char>>,
                    },
                    d@,
                ),
            ),
            None => json_event_fields(text@) is None,
        },
{
    match serde_json::from_str::<serde_json::Value>(text) {
        Ok(v) => {
            let event = match &v["event"] {
                serde_json::Value::String(e) => Some(e.clone()),
                _ => None,
            };
            Some((event, v["data"].to_string()))
        },
        Err(_) => None,
    }
}

/// `serde_json::from_str::<Value>` on the frame, `as_str` on its `data`,
/// `serde_json::from_str::<Value>` on that, and `as_str` on its `socket_id`.
///
/// Trusted: the result is a function of the text alone, named
/// `handshake_socket_id`; how JSON is read is not stated.
#[verifier::external_body]
pub(crate) fn socket_id_of_handshake(text: &str) -> (r: Option<String>)
    ensures
        match r {
            Some(s) => handshake_socket_id(text@) == Some(s@),
            None => handshake_socket_id(text@) is None,
        },
{
    let outer: serde_json::Value = serde_json::from_str(text).ok()?;
    let inner: serde_json::Value = serde_json::from_str(outer["data"].as_str()?).ok()?;
    inner["socket_id"].as_str().map(|s| s.to_string())
}

/// A frame as the websocket delivers it.
pub enum RawFrame {
    /// A text frame.
    Text(String),
    /// A ping carrying these bytes.
    Ping(Vec<u8>),
    /// Any other frame.
    Other,
}

/// The request to send after the first frame of a connection: the
/// subscription of the socket that the frame announces. `None` when the frame
/// is not a text frame announcing a socket id; the connection cannot be used
/// then.
pub fn answer_handshake(app_key: &str, app_secret: &str, first: &RawFrame, uuid: u16) -> (r: Option<
    AuthMessage,
>)
    ensures
        r is Some <==> (first matches RawFrame::Text(t) && handshake_socket_id(t@) is Some),
        match (first, r) {
            (RawFrame::Text(t), Some(m)) => {
                &&& m.event@ == PusherType::Subscribe.event_name_spec()
                &&& m.channel@ == presence_channel()
                &&& m.channel_data@ == user_data_text(uuid)
                &&& m.auth@ == auth_key_text(
                    app_key@,
                    app_secret@,
                    handshake_socket_id(t@)->0,
                    presence_channel(),
                    user_data_text(uuid),
                )
            },
            _ => true,
        },
{
    match first {
        RawFrame::Text(text) => match socket_id_of_handshake(text.as_str()) {
            Some(socket_id) => Some(
                generate_auth_message(app_key, app_secret, socket_id.as_str(), uuid, None),
            ),
            None => None,
        },
        _ => None,
    }
}

/// The reply to a frame.
pub enum ChannelReply {
    /// Answer the ping with a pong carrying the same bytes.
    Pong(Vec<u8>),
    /// Close the connection; the awaited event arrived with this data.
    Finish(String),
    /// Keep reading.
    Continue,
}

/// How the channel reacts to a frame while it waits for the event named
/// `awaited`: it finishes with the data of the first such event, answers
/// pings, and reads on past everything else. `None` when a text frame is not
/// JSON, which ends the wait.
pub fn answer_frame(frame: RawFrame, awaited: &str) -> (r: Option<ChannelReply>)
    ensures
        match frame {
            RawFrame::Text(t) => match json_event_fields(t@) {
                None => r is None,
                Some((Some(e), d)) => if e == awaited@ {
                    r matches Some(ChannelReply::Finish(x)) && x@ == d
                } else {
                    r matches Some(ChannelReply::Continue)
                },
                Some((None, _)) => r matches Some(ChannelReply::Continue),
            },
            RawFrame::Ping(p) => r matches Some(ChannelReply::Pong(q)) && q@ == p@,
            RawFrame::Other => r matches Some(ChannelReply::Continue),
        },
{
    match frame {
        RawFrame::Text(text) => match event_fields(text.as_str()) {
            None => None,
            Some((Some(e), data)) => {
                let wanted = String::from_str(awaited);
                if e == wanted {
                    Some(ChannelReply::Finish(data))
                } else {
                    Some(ChannelReply::Continue)
                }
            },
            Some((None, _)) => Some(ChannelReply::Continue),
        },
        RawFrame::Ping(p) => Some(ChannelReply::Pong(p)),
        RawFrame::Other => Some(ChannelReply::Continue),
    }
}

} // verus!
