//! Percent-encoding of URL components, query-string reading, and the links
//! the application builds.

use vstd::prelude::*;

use crate::text::{hex_char, hex_to_char, owned, push_char, push_str};

verus! {

// ---------------------------------------------------------------------------
// Encoding
// ---------------------------------------------------------------------------

/// Bytes that a URL component carries unescaped (RFC 3986 "unreserved").
pub open spec fn unreserved(b: u8) -> bool {
    (65 <= b <= 90) || (97 <= b <= 122) || (48 <= b <= 57) || b == 45 || b == 95 || b == 46 || b
        == 126
}

/// One byte of a component: itself when unreserved, else `%` and two uppercase hex digits.
pub open spec fn encode_byte(b: u8) -> Seq<char> {
    if unreserved(b) {
        seq![b as char]
    } else {
        seq!['%', hex_char((b / 16) as nat), hex_char((b % 16) as nat)]
    }
}

/// Percent-encoding of a byte sequence.
pub open spec fn percent_encode(bytes: Seq<u8>) -> Seq<char>
    decreases bytes.len(),
{
    if bytes.len() == 0 {
        Seq::empty()
    } else {
        encode_byte(bytes[0]) + percent_encode(bytes.drop_first())
    }
}

pub proof fn lemma_percent_encode_push(bytes: Seq<u8>, b: u8)
    ensures
        percent_encode(bytes.push(b)) == percent_encode(bytes) + encode_byte(b),
    decreases bytes.len(),
{
    if bytes.len() == 0 {
        assert(bytes.push(b).drop_first() == Seq::<u8>::empty());
        assert(percent_encode(bytes.push(b)) == encode_byte(b) + percent_encode(Seq::<u8>::empty()));
        assert(encode_byte(b) + Seq::<char>::empty() == encode_byte(b));
    } else {
        lemma_percent_encode_push(bytes.drop_first(), b);
        assert(bytes.push(b).drop_first() == bytes.drop_first().push(b));
        assert(bytes.push(b)[0] == bytes[0]);
        assert(percent_encode(bytes.push(b)) == encode_byte(bytes[0]) + (percent_encode(
            bytes.drop_first(),
        ) + encode_byte(b)));
    }
}

fn push_encoded_byte(out: &mut String, b: u8)
    ensures
        final(out)@ == old(out)@ + encode_byte(b),
{
    if (65 <= b && b <= 90) || (97 <= b && b <= 122) || (48 <= b && b <= 57) || b == 45 || b
        == 95 || b == 46 || b == 126 {
        push_char(out, b as char);
        assert(old(out)@.push(b as char) == old(out)@ + seq![b as char]);
    } else {
        push_char(out, '%');
        push_char(out, hex_to_char(b / 16));
        push_char(out, hex_to_char(b % 16));
        assert(old(out)@.push('%').push(hex_char((b / 16) as nat)).push(hex_char((b % 16) as nat))
            == old(out)@ + encode_byte(b));
    }
}

fn encode_bytes(bytes: &[u8]) -> (r: String)
    ensures
        r@ == percent_encode(bytes@),
{
    let mut out = String::new();
    let mut i: usize = 0;
    while i < bytes.len()
        invariant
            i <= bytes@.len(),
            out@ == percent_encode(bytes@.subrange(0, i as int)),
        decreases bytes@.len() - i,
    {
        proof {
            lemma_percent_encode_push(bytes@.subrange(0, i as int), bytes@[i as int]);
            assert(bytes@.subrange(0, i + 1) == bytes@.subrange(0, i as int).push(bytes@[i as int]));
        }
        push_encoded_byte(&mut out, bytes[i]);
        i += 1;
    }
    assert(bytes@.subrange(0, bytes@.len() as int) == bytes@);
    out
}

/// Percent-encodes the UTF-8 bytes of `value` for use as a query component.
pub fn url_query_component(value: &str) -> (r: String)
    ensures
        r@ == percent_encode(vstd::utf8::encode_utf8(value@)),
{
    encode_bytes(value.as_bytes())
}

/// Percent-encodes the UTF-8 bytes of `value`; the same encoding as [`url_query_component`].
pub fn percent_encode_component(value: &str) -> (r: String)
    ensures
        r@ == percent_encode(vstd::utf8::encode_utf8(value@)),
{
    encode_bytes(value.as_bytes())
}

// ---------------------------------------------------------------------------
// Decoding
// ---------------------------------------------------------------------------

pub open spec fn hex_value(b: u8) -> Option<u8> {
    if 48 <= b <= 57 {
        Some((b - 48) as u8)
    } else if 97 <= b <= 102 {
        Some((b - 97 + 10) as u8)
    } else if 65 <= b <= 70 {
        Some((b - 65 + 10) as u8)
    } else {
        None
    }
}

/// The value of one hexadecimal digit byte.
pub fn hex_nibble(byte: u8) -> (r: Option<u8>)
    ensures
        r == hex_value(byte),
        r matches Some(v) ==> v < 16,
{
    if 48 <= byte && byte <= 57 {
        Some(byte - 48)
    } else if 97 <= byte && byte <= 102 {
        Some(byte - 97 + 10)
    } else if 65 <= byte && byte <= 70 {
        Some(byte - 65 + 10)
    } else {
        None
    }
}

/// Decoding of a query component: `%XY` with two hex digits becomes that byte,
/// `+` becomes a space, every other byte stays.
pub open spec fn percent_decode_bytes(b: Seq<u8>) -> Seq<u8>
    decreases b.len(),
{
    if b.len() == 0 {
        Seq::empty()
    } else if b[0] == 37 && b.len() > 2 && hex_value(b[1]) is Some && hex_value(b[2]) is Some {
        seq![(hex_value(b[1])->0 * 16 + hex_value(b[2])->0) as u8] + percent_decode_bytes(
            b.subrange(3, b.len() as int),
        )
    } else if b[0] == 43 {
        seq![32u8] + percent_decode_bytes(b.drop_first())
    } else {
        seq![b[0]] + percent_decode_bytes(b.drop_first())
    }
}

/// The characters `String::from_utf8_lossy` yields for a byte sequence.
pub uninterp spec fn utf8_lossy(bytes: Seq<u8>) -> Seq<char>;

/// Calls `String::from_utf8_lossy`. The result is named by `utf8_lossy`; as the
/// std documentation states, valid UTF-8 decodes to its own characters.
#[verifier::external_body]
fn string_from_utf8_lossy(bytes: &Vec<u8>) -> (r: String)
    ensures
        r@ == utf8_lossy(bytes@),
        vstd::utf8::valid_utf8(bytes@) ==> r@ == vstd::utf8::decode_utf8(bytes@),
{
    String::from_utf8_lossy(bytes).into_owned()
}

/// Decodes a percent-encoded query component back to text.
pub fn percent_decode_component(value: &str) -> (r: String)
    ensures
        r@ == utf8_lossy(percent_decode_bytes(vstd::utf8::encode_utf8(value@))),
        vstd::utf8::valid_utf8(percent_decode_bytes(vstd::utf8::encode_utf8(value@))) ==> r@
            == vstd::utf8::decode_utf8(percent_decode_bytes(vstd::utf8::encode_utf8(value@))),
{
    let bytes = value.as_bytes();
    let ghost all = bytes@;
    let mut out: Vec<u8> = Vec::new();
    let mut index: usize = 0;
    assert(all.subrange(0, all.len() as int) == all);
    assert(out@ + percent_decode_bytes(all) == percent_decode_bytes(all));
    while index < bytes.len()
        invariant
            index <= bytes@.len(),
            bytes@ == all,
            out@ + percent_decode_bytes(all.subrange(index as int, all.len() as int))
                == percent_decode_bytes(all),
        decreases bytes@.len() - index,
    {
        let ghost rest = all.subrange(index as int, all.len() as int);
        let b = bytes[index];
        if b == 37 && 2 < bytes.len() - index {
            let high = hex_nibble(bytes[index + 1]);
            let low = hex_nibble(bytes[index + 2]);
            if high.is_some() && low.is_some() {
                let h = high.unwrap();
                let l = low.unwrap();
                proof {
                    assert(rest[0] == b && rest[1] == bytes@[index + 1] && rest[2] == bytes@[index
                        + 2]);
                    assert(rest.subrange(3, rest.len() as int) == all.subrange(
                        index + 3,
                        all.len() as int,
                    ));
                    assert((h * 16 + l) as u8 == (h << 4) | l) by (bit_vector)
                        requires
                            h < 16,
                            l < 16,
                    ;
                }
                let ghost before = out@;
                out.push((h << 4) | l);
                proof {
                    let tail = percent_decode_bytes(all.subrange(index + 3, all.len() as int));
                    assert(percent_decode_bytes(rest) == seq![(h * 16 + l) as u8] + tail);
                    assert(out@ + tail == before + (seq![(h * 16 + l) as u8] + tail));
                }
                index += 3;
                continue;
            }
            proof {
                assert(rest[1] == bytes@[index + 1] && rest[2] == bytes@[index + 2]);
            }
        }
        proof {
            assert(rest.drop_first() == all.subrange(index + 1, all.len() as int));
            assert(rest[0] == b);
        }
        let ghost before = out@;
        let pushed: u8 = if b == 43 { 32 } else { b };
        out.push(pushed);
        proof {
            let tail = percent_decode_bytes(all.subrange(index + 1, all.len() as int));
            assert(percent_decode_bytes(rest) == seq![pushed] + tail);
            assert(out@ + tail == before + (seq![pushed] + tail));
        }
        index += 1;
    }
    string_from_utf8_lossy(&out)
}

// ---------------------------------------------------------------------------
// Links
// ---------------------------------------------------------------------------

pub open spec fn development_callback_url_spec(
    provider_id: Seq<char>,
    state: Seq<char>,
    redirect_url: Seq<char>,
) -> Seq<char> {
    "/api/auth/oauth/"@ + provider_id + "/callback?code=development-oauth-code&state="@
        + percent_encode(vstd::utf8::encode_utf8(state)) + "&next="@ + percent_encode(
        vstd::utf8::encode_utf8(redirect_url),
    )
}

/// The callback link that skips the provider when the development bypass is on.
pub fn development_oauth_callback_url(provider_id: &str, state: &str, redirect_url: &str) -> (r:
    String)
    ensures
        r@ == development_callback_url_spec(provider_id@, state@, redirect_url@),
{
    let mut r = owned("/api/auth/oauth/");
    push_str(&mut r, provider_id);
    push_str(&mut r, "/callback?code=development-oauth-code&state=");
    let s = url_query_component(state);
    push_str(&mut r, s.as_str());
    push_str(&mut r, "&next=");
    let n = url_query_component(redirect_url);
    push_str(&mut r, n.as_str());
    r
}


// ---------------------------------------------------------------------------
// Round trip
// ---------------------------------------------------------------------------

pub open spec fn ascii_bytes(cs: Seq<char>) -> Seq<u8> {
    cs.map_values(|c: char| c as u8)
}

/// A hexadecimal digit is a decimal digit or one of `A` to `F`.
pub proof fn hex_char_spec_is_hex(d: nat)
    ensures
        ('0' <= hex_char(d) <= '9') || ('A' <= hex_char(d) <= 'F'),
{
}

proof fn lemma_hex_char_value(d: nat)
    requires
        d < 16,
    ensures
        (hex_char(d) as u32) < 128,
        hex_value(hex_char(d) as u8) == Some(d as u8),
        hex_char(d) as u8 != 37u8,
        hex_char(d) as u8 != 43u8,
{
}

proof fn lemma_encode_byte_shape(b: u8)
    ensures
        vstd::utf8::is_ascii_chars(encode_byte(b)),
        unreserved(b) ==> ascii_bytes(encode_byte(b)) == seq![b],
        !unreserved(b) ==> ascii_bytes(encode_byte(b)) == seq![
            37u8,
            hex_char((b / 16) as nat) as u8,
            hex_char((b % 16) as nat) as u8,
        ],
{
    lemma_hex_char_value((b / 16) as nat);
    lemma_hex_char_value((b % 16) as nat);
    if unreserved(b) {
        assert(((b as char) as u8) == b);
        assert(ascii_bytes(encode_byte(b)) =~= seq![b]);
    } else {
        assert(ascii_bytes(encode_byte(b)) =~= seq![
            37u8,
            hex_char((b / 16) as nat) as u8,
            hex_char((b % 16) as nat) as u8,
        ]);
    }
}

proof fn lemma_percent_encode_ascii(b: Seq<u8>)
    ensures
        vstd::utf8::is_ascii_chars(percent_encode(b)),
    decreases b.len(),
{
    if b.len() > 0 {
        lemma_percent_encode_ascii(b.drop_first());
        lemma_encode_byte_shape(b[0]);
        let e = encode_byte(b[0]);
        let r = percent_encode(b.drop_first());
        assert forall|i: int| 0 <= i < (e + r).len() implies '\0' <= #[trigger] (e + r)[i]
            <= '\u{7f}' by {
            if i < e.len() {
                assert((e + r)[i] == e[i]);
            } else {
                assert((e + r)[i] == r[i - e.len()]);
            }
        }
    }
}

proof fn lemma_decode_of_encode(b: Seq<u8>)
    ensures
        percent_decode_bytes(ascii_bytes(percent_encode(b))) == b,
    decreases b.len(),
{
    if b.len() == 0 {
        assert(ascii_bytes(percent_encode(b)) =~= Seq::<u8>::empty());
    } else {
        let x = b[0];
        let rest = percent_encode(b.drop_first());
        lemma_decode_of_encode(b.drop_first());
        lemma_encode_byte_shape(x);
        let whole = ascii_bytes(encode_byte(x) + rest);
        assert(whole =~= ascii_bytes(encode_byte(x)) + ascii_bytes(rest));
        if unreserved(x) {
            assert(whole[0] == x);
            assert(whole.drop_first() =~= ascii_bytes(rest));
            assert(percent_decode_bytes(whole) == seq![x] + b.drop_first());
        } else {
            lemma_hex_char_value((x / 16) as nat);
            lemma_hex_char_value((x % 16) as nat);
            assert(whole[0] == 37u8);
            assert(whole.subrange(3, whole.len() as int) =~= ascii_bytes(rest));
            assert(((x / 16) * 16 + (x % 16)) as u8 == x);
            assert(percent_decode_bytes(whole) == seq![x] + b.drop_first());
        }
        assert(seq![x] + b.drop_first() =~= b);
    }
}

/// Decoding what [`url_query_component`] (or [`percent_encode_component`])
/// produced gives back the original text: the encoded form is valid UTF-8
/// bytes of the original once decoded, so no character is lost or altered.
pub proof fn percent_encoding_round_trip(s: Seq<char>)
    ensures
        vstd::utf8::valid_utf8(
            percent_decode_bytes(vstd::utf8::encode_utf8(percent_encode(vstd::utf8::encode_utf8(s)))),
        ),
        vstd::utf8::decode_utf8(
            percent_decode_bytes(vstd::utf8::encode_utf8(percent_encode(vstd::utf8::encode_utf8(s)))),
        ) == s,
{
    let bytes = vstd::utf8::encode_utf8(s);
    let enc = percent_encode(bytes);
    lemma_percent_encode_ascii(bytes);
    vstd::utf8::is_ascii_chars_encode_utf8(enc);
    assert(vstd::utf8::encode_utf8(enc) =~= ascii_bytes(enc));
    lemma_decode_of_encode(bytes);
    vstd::utf8::encode_utf8_valid_utf8(s);
    vstd::utf8::encode_utf8_decode_utf8(s);
}

/// The sign-in link that returns to `next_url` afterwards.
pub fn login_redirect_href(next_url: &str) -> (r: String)
    ensures
        r@ == "/login?next="@ + percent_encode(vstd::utf8::encode_utf8(next_url@)),
{
    let mut r = owned("/login?next=");
    let e = percent_encode_component(next_url);
    push_str(&mut r, e.as_str());
    r
}

} // verus!
