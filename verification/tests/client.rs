use p2p_chat::client::{
    receive_step, sender_step, typed_line_datagram, ClientState, ReceiverAction, SenderAction,
};

#[test]
fn starts_connecting() {
    assert_eq!(ClientState::default(), ClientState::Connecting);
}

#[test]
fn sender_announces_until_connected() {
    match sender_step(ClientState::Connecting, &[203, 0, 113, 5], 55165) {
        SenderAction::Announce(b) => assert_eq!(b, vec![3, 203, 0, 113, 5, 0xd7, 0x7d]),
        SenderAction::SendTyped => panic!("should announce"),
    }
    assert!(matches!(
        sender_step(ClientState::Connected, &[203, 0, 113, 5], 55165),
        SenderAction::SendTyped
    ));
}

#[test]
fn typed_line_is_text_datagram() {
    assert_eq!(typed_line_datagram("ok\n".to_string()), vec![0, b'o', b'k', b'\n']);
}

#[test]
fn first_connect_reports_once() {
    let connect = [3, 1, 2, 3, 4, 0, 80];
    let (s, a) = receive_step(ClientState::Connecting, &connect);
    assert_eq!(s, ClientState::Connected);
    match a {
        ReceiverAction::ReportConnected(line) => assert_eq!(line, "Connected\n"),
        _ => panic!("should report"),
    }
    let (s2, a2) = receive_step(s, &connect);
    assert_eq!(s2, ClientState::Connected);
    assert!(matches!(a2, ReceiverAction::Ignore));
}

#[test]
fn text_is_shown_in_any_state() {
    for state in [ClientState::Connecting, ClientState::Connected] {
        let (s, a) = receive_step(state, &[0, b'h', b'e', b'y']);
        assert_eq!(s, state);
        match a {
            ReceiverAction::Show(line) => assert_eq!(line, "Received: hey\n"),
            _ => panic!("should show"),
        }
    }
}

#[test]
fn update_and_close_are_ignored() {
    let (s, a) = receive_step(ClientState::Connecting, &[1, 1, 2, 3, 4, 0, 1]);
    assert_eq!(s, ClientState::Connecting);
    assert!(matches!(a, ReceiverAction::Ignore));
    let (s, a) = receive_step(ClientState::Connecting, &[2]);
    assert_eq!(s, ClientState::Connecting);
    assert!(matches!(a, ReceiverAction::Ignore));
}

#[test]
fn malformed_datagrams() {
    for d in [&[][..], &[9][..], &[3, 1, 2][..]] {
        let (s, a) = receive_step(ClientState::Connecting, d);
        assert_eq!(s, ClientState::Connecting);
        assert!(matches!(a, ReceiverAction::Malformed));
    }
}

#[test]
fn connected_stays_connected_over_a_session() {
    let datagrams: Vec<Vec<u8>> = vec![
        vec![0, b'a'],
        vec![3, 9, 9, 9, 9, 0, 1],
        vec![2],
        vec![3, 9, 9, 9, 9, 0, 1],
        vec![1, 1, 1, 1, 1, 1, 1],
    ];
    let mut state = ClientState::Connecting;
    let mut reports = 0;
    for d in &datagrams {
        let (s, a) = receive_step(state, d);
        if matches!(a, ReceiverAction::ReportConnected(_)) {
            reports += 1;
        }
        state = s;
    }
    assert_eq!(state, ClientState::Connected);
    assert_eq!(reports, 1);
}
