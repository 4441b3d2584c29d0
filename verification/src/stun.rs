//! Learning the public address of a UDP socket with one STUN binding request.
//!
//! The request is twenty bytes: message type `0x0001`, a zero length, and a
//! sixteen-byte transaction id. The answer is read from a thirty-two-byte
//! buffer: its type, its transaction id, and the address attribute that
//! follows the header.
use vstd::prelude::*;
use crate::message::be_u16_value;

verus! {

/// Why finding the public address failed.
#[derive(Debug, PartialEq, Eq)]
pub enum StunError {
    BindError,
    SendError,
    TimeoutError,
    ReceiveError,
    TransactionIdMismatch,
    UnexpectedResponse,
    GeneralError,
}

/// The socket operations around the exchange, each of which can fail.
#[derive(Debug, PartialEq, Eq)]
pub enum StunStep {
    Bind,
    Send,
    SetTimeout,
    Receive,
}

impl StunStep {
    /// The error reported when this step fails.
    pub open spec fn failure_spec(self) -> StunError {
        match self {
            StunStep::Bind => StunError::BindError,
            StunStep::Send => StunError::SendError,
            StunStep::SetTimeout => StunError::TimeoutError,
            StunStep::Receive => StunError::ReceiveError,
        }
    }

    pub fn failure(&self) -> (e: StunError)
        ensures
            e == self.failure_spec(),
            *self == StunStep::Bind ==> e == StunError::BindError,
            *self == StunStep::Send ==> e == StunError::SendError,
            *self == StunStep::SetTimeout ==> e == StunError::TimeoutError,
            *self == StunStep::Receive ==> e == StunError::ReceiveError,
    {
        match self {
            StunStep::Bind => StunError::BindError,
            StunStep::Send => StunError::SendError,
            StunStep::SetTimeout => StunError::TimeoutError,
            StunStep::Receive => StunError::ReceiveError,
        }
    }
}

/// The server asked when the caller names none.
pub fn stun_server_or_default(server: Option<&str>) -> (r: &str)
    ensures
        match server {
            Some(s) => r@ == s@,
            None => r@ == "stun.l.google.com:19302"@,
        },
{
    match server {
        Some(s) => s,
        None => "stun.l.google.com:19302",
    }
}

/// A binding request with transaction id `id`.
pub open spec fn binding_request(id: Seq<u8>) -> Seq<u8> {
    seq![0u8, 1u8, 0u8, 0u8] + id
}

/// The transaction id of a request or response.
pub open spec fn transaction_id(b: Seq<u8>) -> Seq<u8> {
    b.subrange(4, 20)
}

/// The big-endian number at bytes `i` and `i + 1`.
pub open spec fn be_u16_at(b: Seq<u8>, i: int) -> u16 {
    be_u16_value(b[i], b[i + 1])
}

/// How a response buffer is read, against the request that was sent: the
/// transaction ids must agree; a binding success (`0x0101`) yields the address
/// octets at bytes 28..32 and the port at 26..28; an error type (`0x0020` as
/// read here) is an unexpected response; any other type is a general error.
pub open spec fn binding_outcome(request: Seq<u8>, response: Seq<u8>) -> Result<
    (Seq<u8>, u16),
    StunError,
> {
    if transaction_id(response) != transaction_id(request) {
        Err(StunError::TransactionIdMismatch)
    } else if be_u16_at(response, 0) == 0x0101 {
        Ok((response.subrange(28, 32), be_u16_at(response, 26)))
    } else if be_u16_at(response, 0) == 0x0020 {
        Err(StunError::UnexpectedResponse)
    } else {
        Err(StunError::GeneralError)
    }
}

/// Sixteen bytes from `rand::thread_rng()`, written by `Rng::fill`.
///
/// Trusted: the bytes are random; nothing is promised of their values.
#[verifier::external_body]
fn random_transaction_id() -> (id: [u8; 16]) {
    let mut id = [0u8; 16];
    rand::Rng::fill(&mut rand::thread_rng(), &mut id[..]);
    id
}

/// The binding request with the given transaction id.
pub fn binding_request_with_id(id: &[u8; 16]) -> (request: [u8; 20])
    ensures
        request@ == binding_request(id@),
        request@ == seq![0u8, 1u8, 0u8, 0u8] + id@,
{
    let mut request: [u8; 20] = [0; 20];
    request[1] = 1;
    let mut i: usize = 0;
    while i < 16
        invariant
            0 <= i <= 16,
            request@.subrange(0, 4) == seq![0u8, 1u8, 0u8, 0u8],
            request@.subrange(4, 4 + i as int) == id@.subrange(0, i as int),
        decreases 16 - i,
    {
        request[4 + i] = id[i];
        i = i + 1;
        assert(request@.subrange(4, 4 + i as int) =~= id@.subrange(0, i as int));
        assert(request@.subrange(0, 4) =~= seq![0u8, 1u8, 0u8, 0u8]);
    }
    assert(request@ =~= request@.subrange(0, 4) + request@.subrange(4, 20));
    assert(id@.subrange(0, 16) =~= id@);
    request
}

/// A binding request with a fresh random transaction id.
pub fn new_binding_request() -> (request: [u8; 20])
    ensures
        request@ == binding_request(transaction_id(request@)),
        request[0] == 0 && request[1] == 1 && request[2] == 0 && request[3] == 0,
{
    let id = random_transaction_id();
    let request = binding_request_with_id(&id);
    assert(transaction_id(request@) =~= id@);
    request
}

/// Reads the public address out of the response to `request`.
pub fn parse_binding_response(request: &[u8; 20], response: &[u8; 32]) -> (r: Result<
    ([u8; 4], u16),
    StunError,
>)
    ensures
        match r {
            Ok((ip, port)) => binding_outcome(request@, response@) == Ok::<(Seq<u8>, u16), StunError>((ip@, port)),
            Err(e) => binding_outcome(request@, response@) == Err::<(Seq<u8>, u16), StunError>(e),
        },
        (exists|i: int| 4 <= i < 20 && response[i] != request[i]) ==> r == Err::<
            ([u8; 4], u16),
            StunError,
        >(StunError::TransactionIdMismatch),
        r matches Ok((ip, port)) ==> {
            &&& forall|i: int| 4 <= i < 20 ==> response[i] == request[i]
            &&& response[0] == 1 && response[1] == 1
            &&& ip@ == seq![response[28], response[29], response[30], response[31]]
            &&& port == response[26] * 256 + response[27]
        },
        (forall|i: int| 4 <= i < 20 ==> response[i] == request[i]) ==> {
            &&& (response[0] == 1 && response[1] == 1) ==> r is Ok
            &&& (response[0] == 0 && response[1] == 0x20) ==> r == Err::<([u8; 4], u16), StunError>(
                StunError::UnexpectedResponse,
            )
            &&& !((response[0] == 1 && response[1] == 1) || (response[0] == 0 && response[1]
                == 0x20)) ==> r == Err::<([u8; 4], u16), StunError>(StunError::GeneralError)
        },
{
    proof {
        lemma_binding_outcome_bytes(request@, response@);
    }
    let message_type = crate::message::read_be_u16(response[0], response[1]);
    let mut i: usize = 4;
    while i < 20
        invariant
            4 <= i <= 20,
            response@.subrange(4, i as int) == request@.subrange(4, i as int),
        decreases 20 - i,
    {
        if response[i] != request[i] {
            assert(transaction_id(response@)[i - 4] != transaction_id(request@)[i - 4]);
            return Err(StunError::TransactionIdMismatch);
        }
        i = i + 1;
        assert(response@.subrange(4, i as int) =~= request@.subrange(4, i as int));
    }
    let port = crate::message::read_be_u16(response[26], response[27]);
    let ip: [u8; 4] = [response[28], response[29], response[30], response[31]];
    assert(ip@ =~= response@.subrange(28, 32));
    if message_type == 0x0101 {
        Ok((ip, port))
    } else if message_type == 0x0020 {
        Err(StunError::UnexpectedResponse)
    } else {
        Err(StunError::GeneralError)
    }
}

/// A response is accepted exactly when it is a binding success that echoes
/// the request's transaction id; every other response is refused.
pub proof fn lemma_accepted_responses(request: Seq<u8>, response: Seq<u8>)
    requires
        request.len() == 20,
        response.len() == 32,
    ensures
        binding_outcome(request, response) is Ok <==> (transaction_id(response) == transaction_id(
            request,
        ) && response[0] == 1 && response[1] == 1),
        transaction_id(response) != transaction_id(request) ==> binding_outcome(request, response)
            == Err::<(Seq<u8>, u16), StunError>(StunError::TransactionIdMismatch),
{
}

/// How a response is read, over its bytes: if any of bytes 4..20 differs
/// from the request's, the transaction ids mismatch; otherwise bytes 0 and 1
/// equal to 1 and 1 give the octets at bytes 28..32 and the port
/// `b[26] * 256 + b[27]`; bytes 0 and 0x20 give an unexpected response; any
/// other pair gives a general error.
pub proof fn lemma_binding_outcome_bytes(request: Seq<u8>, response: Seq<u8>)
    requires
        request.len() == 20,
        response.len() == 32,
    ensures
        (exists|i: int| 4 <= i < 20 && response[i] != request[i]) ==> binding_outcome(
            request,
            response,
        ) == Err::<(Seq<u8>, u16), StunError>(StunError::TransactionIdMismatch),
        (forall|i: int| 4 <= i < 20 ==> response[i] == request[i]) ==> {
            &&& (response[0] == 1 && response[1] == 1) ==> binding_outcome(request, response)
                == Ok::<(Seq<u8>, u16), StunError>(
                (
                    seq![response[28], response[29], response[30], response[31]],
                    (response[26] * 256 + response[27]) as u16,
                ),
            )
            &&& (response[0] == 0 && response[1] == 0x20) ==> binding_outcome(request, response)
                == Err::<(Seq<u8>, u16), StunError>(StunError::UnexpectedResponse)
            &&& !((response[0] == 1 && response[1] == 1) || (response[0] == 0 && response[1]
                == 0x20)) ==> binding_outcome(request, response) == Err::<(Seq<u8>, u16), StunError>(
                StunError::GeneralError,
            )
        },
        0 <= response[26] * 256 + response[27] <= 65535,
{
    if exists|i: int| 4 <= i < 20 && response[i] != request[i] {
        let i = choose|i: int| 4 <= i < 20 && response[i] != request[i];
        assert(transaction_id(response)[i - 4] != transaction_id(request)[i - 4]);
    }
    if forall|i: int| 4 <= i < 20 ==> response[i] == request[i] {
        assert(transaction_id(response) =~= transaction_id(request));
        assert(response.subrange(28, 32) =~= seq![response[28], response[29], response[30], response[31]]);
    }
}

/// A success response to a request made with id `id` gives back the address
/// that it carries.
pub proof fn lemma_success_response_address(
    id: Seq<u8>,
    header_rest: Seq<u8>,
    attribute_head: Seq<u8>,
    port: u16,
    ip: Seq<u8>,
)
    requires
        id.len() == 16,
        header_rest.len() == 2,
        attribute_head.len() == 6,
        ip.len() == 4,
    ensures
        binding_outcome(
            binding_request(id),
            seq![1u8, 1u8] + header_rest + id + attribute_head + crate::message::be_u16_bytes(port)
                + ip,
        ) == Ok::<(Seq<u8>, u16), StunError>((ip, port)),
{
    let response = seq![1u8, 1u8] + header_rest + id + attribute_head
        + crate::message::be_u16_bytes(port) + ip;
    assert(transaction_id(response) =~= id);
    assert(transaction_id(binding_request(id)) =~= id);
    assert(response.subrange(28, 32) =~= ip);
    assert(response[26] == crate::message::be_u16_bytes(port)[0]);
    assert(response[27] == crate::message::be_u16_bytes(port)[1]);
}

} // verus!
