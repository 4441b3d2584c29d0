use p2p_chat::pusher_interaction::auth_message_gen::{generate_auth_key, PusherType};
use p2p_chat::pusher_interaction::{
    answer_frame, answer_handshake, generate_auth_message, user_data, ChannelReply, RawFrame,
};
use p2p_chat::pusher_test;

#[test]
fn auth_key_is_key_and_hmac() {
    let k = generate_auth_key("app-key", "secret", "123.456", "presence-channel", "{\"user_id\": 7}");
    assert_eq!(
        k,
        "app-key:72cb273a753c7d92b5e120f8ca36839e65472cdc7b1e561e59c77bc79fcb7536"
    );
}

#[test]
fn auth_key_with_empty_fields() {
    let k = generate_auth_key("", "", "", "", "");
    assert_eq!(k, ":c71ce9f870a4923d9e4072869dbfb2897d6c279cb1e9c56f5236a1d37d4e77fa");
}

#[test]
fn auth_key_shape() {
    let k = generate_auth_key("abc", "s3cr3t", "1.2", "presence-x", "{}");
    assert_eq!(k.len(), 3 + 1 + 64);
    assert!(k.starts_with("abc:"));
    assert!(k[4..].chars().all(|c| c.is_ascii_digit() || ('a'..='f').contains(&c)));
}

#[test]
fn pusher_type_strings() {
    let s: String = PusherType::Subscribe.into();
    assert_eq!(s, "pusher:subscribe");
    let u: String = String::from(PusherType::Unsubscribe);
    assert_eq!(u, "pusher:unsubscribe");
    assert_eq!(PusherType::Unsubscribe.event_name(), "pusher:unsubscribe");
}

#[test]
fn user_data_format() {
    assert_eq!(user_data(7), "{\"user_id\": 7}");
    assert_eq!(user_data(65535), "{\"user_id\": 65535}");
}

#[test]
fn auth_message_fields() {
    let m = generate_auth_message("app-key", "secret", "123.456", 7, None);
    assert_eq!(m.event, "pusher:subscribe");
    assert_eq!(m.channel, "presence-channel");
    assert_eq!(m.channel_data, "{\"user_id\": 7}");
    assert_eq!(
        m.auth,
        "app-key:72cb273a753c7d92b5e120f8ca36839e65472cdc7b1e561e59c77bc79fcb7536"
    );
    let u = generate_auth_message("app-key", "secret", "123.456", 7, Some(PusherType::Unsubscribe));
    assert_eq!(u.event, "pusher:unsubscribe");
    assert_eq!(u.auth, m.auth);
}

#[test]
fn probe_auth_message_fields() {
    let m = pusher_test::auth_message_gen::generate_auth_message("k", "app-secret", "1234.5678");
    assert_eq!(m.event, "pusher:subscribe");
    assert_eq!(m.channel, "presence-channel");
    assert_eq!(m.channel_data, "{\"user_id\": \"159.89.173.104\"}");
    assert_eq!(
        m.auth,
        "k:fcfd8c5b9f702912a9279f1896c8fd22ab07a44c364184b2856ebe5790aefa9a"
    );
    let k = pusher_test::auth_message_gen::generate_auth_key("a", "b", "c", "d", "e");
    assert_eq!(k, generate_auth_key("a", "b", "c", "d", "e"));
}

fn handshake_text(socket_id: &str) -> String {
    format!(
        "{{\"event\":\"pusher:connection_established\",\"data\":\"{{\\\"socket_id\\\":\\\"{}\\\",\\\"activity_timeout\\\":120}}\"}}",
        socket_id
    )
}

#[test]
fn handshake_answers() {
    let h = RawFrame::Text(handshake_text("123.456"));
    let m = answer_handshake("app-key", "secret", &h, 7).expect("subscribes");
    assert_eq!(m.event, "pusher:subscribe");
    assert_eq!(m.channel, "presence-channel");
    assert_eq!(m.channel_data, "{\"user_id\": 7}");
    assert_eq!(
        m.auth,
        "app-key:72cb273a753c7d92b5e120f8ca36839e65472cdc7b1e561e59c77bc79fcb7536"
    );
}

#[test]
fn handshake_refusals() {
    assert!(answer_handshake("k", "s", &RawFrame::Other, 7).is_none());
    assert!(answer_handshake("k", "s", &RawFrame::Ping(vec![1]), 7).is_none());
    assert!(answer_handshake("k", "s", &RawFrame::Text("not json".to_string()), 7).is_none());
    let no_string_data = RawFrame::Text("{\"data\": 5}".to_string());
    assert!(answer_handshake("k", "s", &no_string_data, 7).is_none());
    let no_socket = RawFrame::Text("{\"data\": \"{\\\"x\\\": 1}\"}".to_string());
    assert!(answer_handshake("k", "s", &no_socket, 7).is_none());
}

#[test]
fn probe_handshake() {
    let m = pusher_test::auth_message_gen::subscription_for_handshake(
        "k",
        "app-secret",
        &handshake_text("1234.5678"),
    )
    .expect("subscribes");
    assert_eq!(m.channel_data, "{\"user_id\": \"159.89.173.104\"}");
    assert_eq!(
        m.auth,
        "k:fcfd8c5b9f702912a9279f1896c8fd22ab07a44c364184b2856ebe5790aefa9a"
    );
    assert!(pusher_test::auth_message_gen::subscription_for_handshake("k", "s", "[]").is_none());
}

#[test]
fn frames_while_waiting() {
    let f = RawFrame::Text(
        "{\"event\":\"answer\",\"channel\":\"presence-channel\",\"data\":\"\\\"1.2.3.4:5\\\"\"}"
            .to_string(),
    );
    match answer_frame(f, "answer") {
        Some(ChannelReply::Finish(d)) => assert_eq!(d, "\"\\\"1.2.3.4:5\\\"\""),
        _ => panic!("should finish"),
    }
    let f = RawFrame::Text("{\"event\":\"connect\",\"data\":1}".to_string());
    assert!(matches!(answer_frame(f, "answer"), Some(ChannelReply::Continue)));
    let f = RawFrame::Text("{\"event\":7,\"data\":1}".to_string());
    assert!(matches!(answer_frame(f, "answer"), Some(ChannelReply::Continue)));
    let f = RawFrame::Text("{\"event\":\"answer\"}".to_string());
    match answer_frame(f, "answer") {
        Some(ChannelReply::Finish(d)) => assert_eq!(d, "null"),
        _ => panic!("should finish"),
    }
    match answer_frame(RawFrame::Ping(vec![1, 2, 3]), "answer") {
        Some(ChannelReply::Pong(p)) => assert_eq!(p, vec![1, 2, 3]),
        _ => panic!("should pong"),
    }
    assert!(matches!(answer_frame(RawFrame::Other, "answer"), Some(ChannelReply::Continue)));
    assert!(answer_frame(RawFrame::Text("{oops".to_string()), "answer").is_none());
}

#[test]
fn finished_data_trims_to_endpoint() {
    let f = RawFrame::Text(
        "{\"event\":\"connect\",\"data\":\"\\\"10.0.0.2:55165\\\"\"}".to_string(),
    );
    match answer_frame(f, "connect") {
        Some(ChannelReply::Finish(d)) => {
            assert_eq!(p2p_chat::text::trim_event_data(&d), "10.0.0.2:55165")
        }
        _ => panic!("should finish"),
    }
}

#[test]
fn probe_auth_key_shape() {
    let k = pusher_test::auth_message_gen::generate_auth_key("key", "s", "1.2", "presence-channel", "{}");
    assert_eq!(k.len(), 3 + 65);
    assert!(k.starts_with("key:"));
    assert!(k[4..].chars().all(|c| c.is_ascii_digit() || ('a'..='f').contains(&c)));
}
