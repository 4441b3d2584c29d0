use p2p_chat::stun::{
    binding_request_with_id, new_binding_request, parse_binding_response, stun_server_or_default,
    StunError, StunStep,
};

fn id() -> [u8; 16] {
    [1, 2, 3, 4, 5, 6, 7, 8, 9, 10, 11, 12, 13, 14, 15, 16]
}

fn response(kind: [u8; 2], id: [u8; 16], port: u16, ip: [u8; 4]) -> [u8; 32] {
    let mut r = [0u8; 32];
    r[0] = kind[0];
    r[1] = kind[1];
    r[3] = 12;
    r[4..20].copy_from_slice(&id);
    r[20] = 0;
    r[21] = 1;
    r[23] = 8;
    r[25] = 1;
    r[26..28].copy_from_slice(&port.to_be_bytes());
    r[28..32].copy_from_slice(&ip);
    r
}

#[test]
fn request_layout() {
    let req = binding_request_with_id(&id());
    assert_eq!(&req[..4], &[0, 1, 0, 0]);
    assert_eq!(&req[4..], &id());
}

#[test]
fn fresh_request_layout() {
    let req = new_binding_request();
    assert_eq!(&req[..4], &[0, 1, 0, 0]);
    let other = new_binding_request();
    assert_eq!(&other[..4], &[0, 1, 0, 0]);
}

#[test]
fn success_response_gives_address() {
    let req = binding_request_with_id(&id());
    let resp = response([1, 1], id(), 40000, [198, 51, 100, 7]);
    assert_eq!(parse_binding_response(&req, &resp), Ok(([198, 51, 100, 7], 40000)));
}

#[test]
fn mismatched_id_is_refused_first() {
    let req = binding_request_with_id(&id());
    let mut other = id();
    other[15] = 0;
    let resp = response([1, 1], other, 1, [1, 1, 1, 1]);
    assert_eq!(parse_binding_response(&req, &resp), Err(StunError::TransactionIdMismatch));
    let resp = response([0, 0x20], other, 1, [1, 1, 1, 1]);
    assert_eq!(parse_binding_response(&req, &resp), Err(StunError::TransactionIdMismatch));
}

#[test]
fn error_type_is_unexpected_response() {
    let req = binding_request_with_id(&id());
    let resp = response([0, 0x20], id(), 1, [1, 1, 1, 1]);
    assert_eq!(parse_binding_response(&req, &resp), Err(StunError::UnexpectedResponse));
}

#[test]
fn other_type_is_general_error() {
    let req = binding_request_with_id(&id());
    let resp = response([1, 0x11], id(), 1, [1, 1, 1, 1]);
    assert_eq!(parse_binding_response(&req, &resp), Err(StunError::GeneralError));
    let empty = [0u8; 32];
    let zero_req = binding_request_with_id(&[0u8; 16]);
    assert_eq!(parse_binding_response(&zero_req, &empty), Err(StunError::GeneralError));
}

#[test]
fn step_failures() {
    assert_eq!(StunStep::Bind.failure(), StunError::BindError);
    assert_eq!(StunStep::Send.failure(), StunError::SendError);
    assert_eq!(StunStep::SetTimeout.failure(), StunError::TimeoutError);
    assert_eq!(StunStep::Receive.failure(), StunError::ReceiveError);
}

#[test]
fn default_server() {
    assert_eq!(stun_server_or_default(None), "stun.l.google.com:19302");
    assert_eq!(stun_server_or_default(Some("stun.example.org:3478")), "stun.example.org:3478");
}
