//! Subscription request of the probe, which always joins as the same member.
use vstd::prelude::*;
use vstd::string::StringExecFns;
use crate::pusher_interaction::{AuthMessage, handshake_socket_id, socket_id_of_handshake};
use crate::pusher_interaction::auth_message_gen::{PusherType, auth_key_text, is_lower_hex_digit};

verus! {

/// The member data the probe presents.
pub open spec fn probe_user_data() -> Seq<char> {
    "{\"user_id\": \"159.89.173.104\"}"@
}

/// The probe presents itself as member `"159.89.173.104"`: its data is the
/// JSON text `{"user_id": "159.89.173.104"}`, character for character.
pub proof fn lemma_probe_user_data()
    ensures
        probe_user_data() == seq!['{', '"', 'u', 's', 'e', 'r', '_', 'i', 'd', '"', ':', ' ', '"', '1', '5', '9', '.', '8', '9', '.', '1', '7', '3', '.', '1', '0', '4', '"', '}'],
{
    reveal_strlit("{\"user_id\": \"159.89.173.104\"}");
    assert(probe_user_data() =~= seq!['{', '"', 'u', 's', 'e', 'r', '_', 'i', 'd', '"', ':', ' ', '"', '1', '5', '9', '.', '8', '9', '.', '1', '7', '3', '.', '1', '0', '4', '"', '}']);
}

/// The `auth` value for `socket_id` on `channel_name` with `user_data`:
/// `key:hex(HMAC-SHA256(secret, socket_id:channel_name:user_data))`.
pub fn generate_auth_key(
    app_key: &str,
    app_secret: &str,
    socket_id: &str,
    channel_name: &str,
    user_data: &str,
) -> (auth_key: String)
    ensures
        auth_key@ == auth_key_text(app_key@, app_secret@, socket_id@, channel_name@, user_data@),
        auth_key@.len() == app_key@.len() + 65,
        auth_key@.subrange(0, app_key@.len() as int) == app_key@,
        auth_key@[app_key@.len() as int] == ':',
        forall|i: int|
            app_key@.len() < i < auth_key@.len() ==> is_lower_hex_digit(#[trigger] auth_key@[i]),
{
    crate::pusher_interaction::auth_message_gen::generate_auth_key(
        app_key,
        app_secret,
        socket_id,
        channel_name,
        user_data,
    )
}

/// The probe's request to subscribe `socket_id` to the presence channel.
pub fn generate_auth_message(app_key: &str, app_secret: &str, socket_id: &str) -> (m: AuthMessage)
    ensures
        m.event@ == PusherType::Subscribe.event_name_spec(),
        m.channel@ == crate::pusher_interaction::presence_channel(),
        m.channel_data@ == probe_user_data(),
        m.auth@ == auth_key_text(
            app_key@,
            app_secret@,
            socket_id@,
            crate::pusher_interaction::presence_channel(),
            probe_user_data(),
        ),
{
    let channel_name = "presence-channel";
    let user_data = "{\"user_id\": \"159.89.173.104\"}";
    let auth_key = generate_auth_key(app_key, app_secret, socket_id, channel_name, user_data);
    AuthMessage {
        event: String::from_str("pusher:subscribe"),
        channel: String::from_str(channel_name),
        auth: auth_key,
        channel_data: String::from_str(user_data),
    }
}

/// The probe's request after the first frame `first_text` of its
/// connection: the subscription of the socket that the frame announces, or
/// `None` when it announces none.
pub fn subscription_for_handshake(app_key: &str, app_secret: &str, first_text: &str) -> (r: Option<
    AuthMessage,
>)
    ensures
        r is Some <==> handshake_socket_id(first_text@) is Some,
        r matches Some(m) ==> {
            &&& m.event@ == PusherType::Subscribe.event_name_spec()
            &&& m.channel@ == crate::pusher_interaction::presence_channel()
            &&& m.channel_data@ == probe_user_data()
            &&& m.auth@ == auth_key_text(
                app_key@,
                app_secret@,
                handshake_socket_id(first_text@)->0,
                crate::pusher_interaction::presence_channel(),
                probe_user_data(),
            )
        },
{
    match socket_id_of_handshake(first_text) {
        Some(socket_id) => Some(generate_auth_message(app_key, app_secret, socket_id.as_str())),
        None => None,
    }
}

} // verus!
