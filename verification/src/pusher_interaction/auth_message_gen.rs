//! The signature that admits a socket to a Pusher presence channel.
//!
//! Pusher authorises a subscription with `key:signature`, where the signature
//! is the lowercase hex HMAC-SHA256, under the application secret, of
//! `socket_id:channel_name:channel_data`.
use vstd::prelude::*;
use vstd::string::StringExecFns;
use vstd::string::StringSliceAdditionalSpecFns;
use vstd::utf8::*;
use crate::text::push_char;

verus! {

/// HMAC-SHA256 of `msg` under `key`.
pub uninterp spec fn hmac_sha256(key: Seq<u8>, msg: Seq<u8>) -> Seq<u8>;

/// The HMAC-SHA256 tag computed with the `hmac` and `sha2` crates
/// (`Hmac::<Sha256>::new_from_slice`, `update`, `finalize`).
///
/// Trusted: the tag is the function of key and message named
/// `hmac_sha256`, and it is 32 bytes long (SHA-256's output size); the key
/// may have any length, as `new_from_slice` hashes or pads it and never fails.
#[verifier::external_body]
fn hmac_sha256_tag(key: &[u8], msg: &[u8]) -> (tag: Vec<u8>)
    ensures
        tag@ == hmac_sha256(key@, msg@),
        tag@.len() == 32,
{
    let mut mac = <hmac::Hmac<sha2::Sha256> as hmac::Mac>::new_from_slice(key).expect(
        "HMAC accepts keys of any length",
    );
    hmac::Mac::update(&mut mac, msg);
    hmac::Mac::finalize(mac).into_bytes().to_vec()
}

/// The lowercase hexadecimal digit for `n < 16`.
pub open spec fn hex_digit(n: u8) -> char {
    if n < 10 {
        (48 + n) as char
    } else {
        (87 + n) as char
    }
}

/// Two lowercase hex digits per byte, high nibble first.
pub open spec fn hex_lower(bytes: Seq<u8>) -> Seq<char>
    decreases bytes.len(),
{
    if bytes.len() == 0 {
        Seq::empty()
    } else {
        seq![hex_digit(bytes[0] / 16), hex_digit(bytes[0] % 16)] + hex_lower(bytes.drop_first())
    }
}

/// `hex::encode`.
///
/// Trusted: the crate writes each byte as two lowercase digits, high nibble
/// first, from the table `0123456789abcdef`.
#[verifier::external_body]
fn hex_encode(bytes: &[u8]) -> (s: String)
    ensures
        s@ == hex_lower(bytes@),
{
    hex::encode(bytes)
}

/// The number that a lowercase hex digit stands for.
pub open spec fn hex_digit_value(c: char) -> int {
    if c <= '9' {
        c as int - 48
    } else {
        c as int - 87
    }
}

/// `hex_lower` writes each byte as two lowercase hex digits, high nibble
/// first, and nothing else: digits `2i` and `2i + 1` give back byte `i`.
pub proof fn lemma_hex_lower_digits(bytes: Seq<u8>)
    ensures
        hex_lower(bytes).len() == 2 * bytes.len(),
        forall|i: int|
            0 <= i < bytes.len() ==> hex_digit_value(#[trigger] hex_lower(bytes)[2 * i]) * 16
                + hex_digit_value(hex_lower(bytes)[2 * i + 1]) == bytes[i],
        forall|i: int|
            0 <= i < hex_lower(bytes).len() ==> is_lower_hex_digit(#[trigger] hex_lower(bytes)[i]),
    decreases bytes.len(),
{
    lemma_hex_lower_shape(bytes);
    if bytes.len() > 0 {
        lemma_hex_lower_digits(bytes.drop_first());
        let h = hex_lower(bytes);
        let rest = hex_lower(bytes.drop_first());
        let hi = bytes[0] / 16;
        let lo = bytes[0] % 16;
        assert(hex_digit_value(hex_digit(hi)) == hi);
        assert(hex_digit_value(hex_digit(lo)) == lo);
        assert forall|i: int| 0 <= i < bytes.len() implies hex_digit_value(
            #[trigger] h[2 * i],
        ) * 16 + hex_digit_value(h[2 * i + 1]) == bytes[i] by {
            if i > 0 {
                assert(h[2 * i] == rest[2 * (i - 1)]);
                assert(h[2 * i + 1] == rest[2 * (i - 1) + 1]);
                assert(bytes[i] == bytes.drop_first()[i - 1]);
            }
        }
    }
}

/// The string that is signed: `socket_id:channel_name:user_data`.
pub open spec fn auth_subject(socket_id: Seq<char>, channel: Seq<char>, user_data: Seq<char>) -> Seq<
    char,
> {
    socket_id + seq![':'] + channel + seq![':'] + user_data
}

/// The signature of a subscription: hex of the HMAC of the subject's UTF-8
/// bytes under the secret's UTF-8 bytes.
pub open spec fn auth_signature(
    secret: Seq<char>,
    socket_id: Seq<char>,
    channel: Seq<char>,
    user_data: Seq<char>,
) -> Seq<char> {
    hex_lower(hmac_sha256(encode_utf8(secret), encode_utf8(auth_subject(socket_id, channel, user_data))))
}

/// `key:signature`.
pub open spec fn auth_key_text(
    app_key: Seq<char>,
    secret: Seq<char>,
    socket_id: Seq<char>,
    channel: Seq<char>,
    user_data: Seq<char>,
) -> Seq<char> {
    app_key + seq![':'] + auth_signature(secret, socket_id, channel, user_data)
}

/// The key is the application key, a colon, and the lowercase hex of the
/// HMAC-SHA256 under the secret's UTF-8 bytes of the UTF-8 bytes of
/// `socket_id:channel:user_data`, for exactly the channel given.
pub proof fn lemma_auth_key_signs_subject(
    app_key: Seq<char>,
    secret: Seq<char>,
    socket_id: Seq<char>,
    channel: Seq<char>,
    user_data: Seq<char>,
)
    ensures
        auth_key_text(app_key, secret, socket_id, channel, user_data) == app_key + seq![':']
            + hex_lower(
            hmac_sha256(
                encode_utf8(secret),
                encode_utf8(socket_id + seq![':'] + channel + seq![':'] + user_data),
            ),
        ),
{
}

/// The `auth` value that admits `socket_id` to `channel_name` with
/// `user_data`, for the application with key `app_key` and secret `app_secret`.
pub fn generate_auth_key(
    app_key: &str,
    app_secret: &str,
    socket_id: &str,
    channel_name: &str,
    user_data: &str,
) -> (auth_key: String)
    ensures
        auth_key@ == auth_key_text(app_key@, app_secret@, socket_id@, channel_name@, user_data@),
        auth_key@ == app_key@ + seq![':'] + hex_lower(
            hmac_sha256(
                encode_utf8(app_secret@),
                encode_utf8(socket_id@ + seq![':'] + channel_name@ + seq![':'] + user_data@),
            ),
        ),
        auth_key@.len() == app_key@.len() + 65,
        auth_key@.subrange(0, app_key@.len() as int) == app_key@,
        auth_key@[app_key@.len() as int] == ':',
        forall|i: int|
            app_key@.len() < i < auth_key@.len() ==> is_lower_hex_digit(#[trigger] auth_key@[i]),
{
    let mut subject = String::from_str(socket_id);
    push_char(&mut subject, ':');
    subject.append(channel_name);
    push_char(&mut subject, ':');
    subject.append(user_data);
    assert(subject@ =~= auth_subject(socket_id@, channel_name@, user_data@));
    let tag = hmac_sha256_tag(app_secret.as_bytes(), subject.as_str().as_bytes());
    let signature = hex_encode(tag.as_slice());
    proof {
        lemma_hex_lower_shape(tag@);
    }
    let mut auth_key = String::from_str(app_key);
    push_char(&mut auth_key, ':');
    auth_key.append(signature.as_str());
    assert(auth_key@ =~= auth_key_text(
        app_key@,
        app_secret@,
        socket_id@,
        channel_name@,
        user_data@,
    ));
    auth_key
}

/// Whether `c` is one of `0123456789abcdef`.
pub open spec fn is_lower_hex_digit(c: char) -> bool {
    ('0' <= c && c <= '9') || ('a' <= c && c <= 'f')
}

proof fn lemma_hex_lower_shape(bytes: Seq<u8>)
    ensures
        hex_lower(bytes).len() == 2 * bytes.len(),
        forall|i: int| 0 <= i < hex_lower(bytes).len() ==> is_lower_hex_digit(#[trigger] hex_lower(bytes)[i]),
    decreases bytes.len(),
{
    if bytes.len() > 0 {
        lemma_hex_lower_shape(bytes.drop_first());
        let h = hex_lower(bytes);
        let rest = hex_lower(bytes.drop_first());
        let hi = bytes[0] / 16;
        let lo = bytes[0] % 16;
        assert(is_lower_hex_digit(hex_digit(hi)));
        assert(is_lower_hex_digit(hex_digit(lo)));
        assert forall|i: int| 0 <= i < h.len() implies is_lower_hex_digit(#[trigger] h[i]) by {
            if i >= 2 {
                assert(h[i] == rest[i - 2]);
            }
        }
    }
}

/// The event that a Pusher client sends on the socket.
pub enum PusherType {
    Subscribe,
    Unsubscribe,
}

impl PusherType {
    /// The name of the event on the wire.
    pub open spec fn event_name_spec(self) -> Seq<char> {
        match self {
            PusherType::Subscribe => "pusher:subscribe"@,
            PusherType::Unsubscribe => "pusher:unsubscribe"@,
        }
    }

    /// The name of the event on the wire, as `String::from(self)` gives it.
    pub fn event_name(&self) -> (s: String)
        ensures
            s@ == self.event_name_spec(),
    {
        match self {
            PusherType::Subscribe => String::from_str("pusher:subscribe"),
            PusherType::Unsubscribe => String::from_str("pusher:unsubscribe"),
        }
    }
}

impl From<PusherType> for String {
    fn from(value: PusherType) -> (s: String)
        ensures
            s@ == value.event_name_spec(),
    {
        value.event_name()
    }
}

impl vstd::std_specs::convert::FromSpecImpl<PusherType> for String {
    /// A `String` is known only by its characters, so no single value of it
    /// is named here; `from` states the characters instead.
    open spec fn obeys_from_spec() -> bool {
        false
    }

    open spec fn from_spec(v: PusherType) -> String {
        vstd::pervasive::arbitrary()
    }
}

} // verus!
