//! Text that the peers put on the signalling channel: decimal numbers,
//! `address:port` endpoints, and the endpoint read back out of an event.
use vstd::prelude::*;
use vstd::string::StringSliceAdditionalSpecFns;
use vstd::utf8::*;

verus! {

/// The character of decimal digit `d`.
pub open spec fn digit_char(d: nat) -> char {
    (48 + d) as char
}

/// The decimal representation of `n`, without sign or leading zeros.
pub open spec fn decimal(n: nat) -> Seq<char>
    decreases n,
{
    if n < 10 {
        seq![digit_char(n)]
    } else {
        decimal(n / 10).push(digit_char(n % 10))
    }
}

/// The number that a string of decimal digits denotes, most significant first.
pub open spec fn decimal_value(s: Seq<char>) -> int
    decreases s.len(),
{
    if s.len() == 0 {
        0
    } else {
        decimal_value(s.drop_last()) * 10 + (s.last() as int - 48)
    }
}

/// Whether `c` is one of `0123456789`.
pub open spec fn is_decimal_digit(c: char) -> bool {
    '0' <= c && c <= '9'
}

/// `decimal(n)` is the base-10 representation of `n`: a non-empty string of
/// digits whose value is `n`, with no leading zero unless `n` is zero.
pub proof fn lemma_decimal_is_base10(n: nat)
    ensures
        decimal(n).len() >= 1,
        forall|i: int| 0 <= i < decimal(n).len() ==> is_decimal_digit(#[trigger] decimal(n)[i]),
        decimal_value(decimal(n)) == n,
        decimal(n)[0] == '0' ==> n == 0,
    decreases n,
{
    if n < 10 {
        assert(digit_char(n) as int == 48 + n);
        assert(decimal(n).drop_last() =~= Seq::<char>::empty());
        assert(decimal_value(Seq::<char>::empty()) == 0);
        assert(decimal_value(decimal(n)) == decimal_value(decimal(n).drop_last()) * 10 + (
        decimal(n).last() as int - 48));
    } else {
        lemma_decimal_is_base10(n / 10);
        let d = decimal(n / 10);
        assert(decimal(n).drop_last() =~= d);
        assert(digit_char(n % 10) as int == 48 + n % 10);
        assert(decimal(n)[0] == d[0]);
        assert(decimal(n).last() == digit_char(n % 10));
        assert(decimal_value(decimal(n)) == decimal_value(d) * 10 + (n % 10));
        assert forall|i: int| 0 <= i < decimal(n).len() implies is_decimal_digit(
            #[trigger] decimal(n)[i],
        ) by {
            if i < d.len() {
                assert(decimal(n)[i] == d[i]);
            }
        }
    }
}

/// `a.b.c.d`, each octet in decimal.
pub open spec fn dotted_quad(ip: Seq<u8>) -> Seq<char> {
    decimal(ip[0] as nat) + seq!['.'] + decimal(ip[1] as nat) + seq!['.'] + decimal(
        ip[2] as nat,
    ) + seq!['.'] + decimal(ip[3] as nat)
}

/// `a.b.c.d:port`, the form in which a peer announces its public endpoint.
pub open spec fn endpoint_text(ip: Seq<u8>, port: u16) -> Seq<char> {
    dotted_quad(ip) + seq![':'] + decimal(port as nat)
}

/// `String::push`.
///
/// Trusted: std appends the character at the end of the string.
#[verifier::external_body]
pub(crate) fn push_char(s: &mut String, c: char)
    ensures
        final(s)@ == old(s)@.push(c),
{
    s.push(c);
}

fn digit(d: u32) -> (c: char)
    requires
        d < 10,
    ensures
        c == digit_char(d as nat),
{
    ((48 + d) as u8) as char
}

/// Appends the decimal representation of `n`.
pub fn push_decimal(s: &mut String, n: u32)
    ensures
        final(s)@ == old(s)@ + decimal(n as nat),
    decreases n,
{
    if n >= 10 {
        push_decimal(s, n / 10);
    }
    let c = digit(n % 10);
    push_char(s, c);
    proof {
        if n < 10 {
            assert(final(s)@ =~= old(s)@ + decimal(n as nat)) by {
                assert(n % 10 == n);
            }
        }
    }
    assert(s@ =~= old(s)@ + decimal(n as nat));
}

/// The decimal representation of `n`, as `n.to_string()` writes it.
pub fn decimal_string(n: u32) -> (s: String)
    ensures
        s@ == decimal(n as nat),
        s@.len() >= 1,
        forall|i: int| 0 <= i < s@.len() ==> is_decimal_digit(#[trigger] s@[i]),
        decimal_value(s@) == n,
        s@[0] == '0' ==> n == 0,
{
    proof {
        lemma_decimal_is_base10(n as nat);
    }
    let mut s = String::new();
    push_decimal(&mut s, n);
    assert(s@ =~= decimal(n as nat));
    s
}

/// `Ipv4Addr::to_string() + ":" + port.to_string()`: the endpoint a peer
/// publishes on the signalling channel.
pub fn endpoint_string(ip: &[u8; 4], port: u16) -> (s: String)
    ensures
        s@ == endpoint_text(ip@, port),
{
    let mut s = String::new();
    push_decimal(&mut s, ip[0] as u32);
    push_char(&mut s, '.');
    push_decimal(&mut s, ip[1] as u32);
    push_char(&mut s, '.');
    push_decimal(&mut s, ip[2] as u32);
    push_char(&mut s, '.');
    push_decimal(&mut s, ip[3] as u32);
    push_char(&mut s, ':');
    push_decimal(&mut s, port as u32);
    assert(s@ =~= endpoint_text(ip@, port));
    s
}

/// An endpoint is written as the four octets' decimals separated by dots, a
/// colon, and the port's decimal, each of them the base-10 representation of
/// its number.
pub proof fn lemma_endpoint_text_layout(ip: Seq<u8>, port: u16)
    requires
        ip.len() == 4,
    ensures
        endpoint_text(ip, port) == decimal(ip[0] as nat) + seq!['.'] + decimal(ip[1] as nat) + seq![
            '.',
        ] + decimal(ip[2] as nat) + seq!['.'] + decimal(ip[3] as nat) + seq![':'] + decimal(
            port as nat,
        ),
        decimal_value(decimal(ip[0] as nat)) == ip[0],
        decimal_value(decimal(ip[1] as nat)) == ip[1],
        decimal_value(decimal(ip[2] as nat)) == ip[2],
        decimal_value(decimal(ip[3] as nat)) == ip[3],
        decimal_value(decimal(port as nat)) == port,
{
    lemma_decimal_is_base10(ip[0] as nat);
    lemma_decimal_is_base10(ip[1] as nat);
    lemma_decimal_is_base10(ip[2] as nat);
    lemma_decimal_is_base10(ip[3] as nat);
    lemma_decimal_is_base10(port as nat);
}

/// The event data with its first three and last three bytes removed, read
/// as text.
pub open spec fn trimmed_event_data(s: Seq<char>) -> Seq<char> {
    decode_utf8(encode_utf8(s).subrange(3, encode_utf8(s).len() - 3))
}

/// Whether `data[3..len - 3]` can be taken: at least six bytes, and both
/// cuts on character boundaries.
pub open spec fn can_trim_event_data(s: Seq<char>) -> bool {
    let b = encode_utf8(s);
    &&& b.len() >= 6
    &&& is_char_boundary(b, 3)
    &&& is_char_boundary(b, b.len() - 3)
}

/// Removes the three bytes of quoting on each side of an event's data,
/// `data[3..data.len() - 3]`.
pub fn trim_event_data(data: &str) -> (r: String)
    requires
        can_trim_event_data(data@),
    ensures
        r@ == trimmed_event_data(data@),
        encode_utf8(r@) == encode_utf8(data@).subrange(3, encode_utf8(data@).len() - 3),
{
    let ghost b = data.spec_bytes();
    proof {
        encode_utf8_valid_utf8(data@);
    }
    let n = data.as_bytes().len();
    let (_, rest) = data.split_at(3);
    assert(rest.spec_bytes() =~= b.subrange(3, b.len() as int));
    proof {
        valid_utf8_split(b, 3);
        let rb = rest.spec_bytes();
        assert(rb[n - 6] == b[n - 3]);
        is_char_boundary_iff_not_is_continuation_byte(b, n - 3);
        is_char_boundary_iff_not_is_continuation_byte(rb, n - 6);
    }
    let (mid, _) = rest.split_at(n - 6);
    assert(mid.spec_bytes() =~= b.subrange(3, b.len() - 3));
    let r = mid.to_owned();
    proof {
        encode_utf8_decode_utf8(r@);
    }
    r
}

proof fn lemma_encode_utf8_concat(a: Seq<char>, b: Seq<char>)
    ensures
        encode_utf8(a + b) == encode_utf8(a) + encode_utf8(b),
    decreases a.len(),
{
    if a.len() == 0 {
        assert(a + b =~= b);
    } else {
        lemma_encode_utf8_concat(a.drop_first(), b);
        assert((a + b).drop_first() =~= a.drop_first() + b);
        assert((a + b)[0] == a[0]);
        assert(encode_utf8(a + b) =~= encode_utf8(a) + encode_utf8(b));
    }
}

/// An endpoint as it arrives in a Pusher event: the data serialised twice,
/// so that it is wrapped in `"\"` and `\""`.
pub open spec fn quoted_event_data(x: Seq<char>) -> Seq<char> {
    seq!['"', '\\', '"'] + x + seq!['\\', '"', '"']
}

/// Trimming the data of an event that carries `x` gives `x` back: the cuts
/// are always allowed, and what is left is exactly `x`.
pub proof fn lemma_trim_quoted_event_data(x: Seq<char>)
    ensures
        can_trim_event_data(quoted_event_data(x)),
        trimmed_event_data(quoted_event_data(x)) == x,
{
    let pre = seq!['"', '\\', '"'];
    let post = seq!['\\', '"', '"'];
    let q = quoted_event_data(x);
    lemma_encode_utf8_concat(pre + x, post);
    lemma_encode_utf8_concat(pre, x);
    let ex = encode_utf8(x);
    let b = encode_utf8(q);
    assert(is_ascii_chars(pre));
    assert(is_ascii_chars(post));
    is_ascii_chars_encode_utf8(pre);
    is_ascii_chars_encode_utf8(post);
    assert(encode_utf8(pre) =~= seq![34u8, 92u8, 34u8]) by {
        assert(pre[0] as u8 == 34u8);
        assert(pre[1] as u8 == 92u8);
        assert(pre[2] as u8 == 34u8);
    }
    assert(encode_utf8(post) =~= seq![92u8, 34u8, 34u8]) by {
        assert(post[0] as u8 == 92u8);
        assert(post[1] as u8 == 34u8);
        assert(post[2] as u8 == 34u8);
    }
    assert(b =~= seq![34u8, 92u8, 34u8] + ex + seq![92u8, 34u8, 34u8]);
    encode_utf8_valid_utf8(q);
    is_char_boundary_iff_not_is_continuation_byte(b, 3);
    if x.len() > 0 {
        encode_utf8_first_scalar(x);
        assert(b[3] == ex[0]);
    } else {
        assert(b[3] == 92u8);
    }
    assert(is_char_boundary(b, 3));
    is_char_boundary_iff_not_is_continuation_byte(b, b.len() - 3);
    assert(b[b.len() - 3] == 92u8);
    assert(b.subrange(3, b.len() - 3) =~= ex);
    encode_utf8_decode_utf8(x);
}

} // verus!
