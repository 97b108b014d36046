//! Authenticator enrollment: the QR code that carries an `otpauth://` URI,
//! and the decisions of the authenticator page.

use vstd::prelude::*;

use crate::organizations::first_n;
use crate::text::{chars_of, is_digit, opt_is, owned, push_char, push_str};
use crate::validation::{utf8_len, utf8_len_below};

verus! {

/// The SVG that `qrcode` renders for `data`, with the given minimum size and
/// dark and light colours and a quiet zone; `None` when the data does not fit
/// in a QR code.
pub uninterp spec fn qr_svg(data: Seq<u8>, min_size: u32, dark: Seq<char>, light: Seq<char>) -> Option<
    Seq<char>,
>;

/// Calls `qrcode::QrCode::new` on the data and, when it succeeds, renders the
/// code as an SVG image with `min_dimensions(min_size, min_size)`, the given
/// colours and a quiet zone. The result is named by `qr_svg`. The renderer
/// adds the minimum size to the code's width in `u32` arithmetic, so the
/// size is bounded far below where that could overflow.
#[verifier::external_body]
fn render_qr_svg(data: &[u8], min_size: u32, dark: &str, light: &str) -> (r: Option<String>)
    requires
        min_size <= 4096,
    ensures
        match r {
            Some(svg) => qr_svg(data@, min_size, dark@, light@) == Some(svg@),
            None => qr_svg(data@, min_size, dark@, light@) is None,
        },
{
    match qrcode::QrCode::new(data) {
        Ok(code) => Some(
            code.render::<qrcode::render::svg::Color>()
                .min_dimensions(min_size, min_size)
                .dark_color(qrcode::render::svg::Color(dark))
                .light_color(qrcode::render::svg::Color(light))
                .quiet_zone(true)
                .build(),
        ),
        Err(_) => None,
    }
}

/// The smallest side of the enrollment QR code, in pixels.
pub const QR_MIN_SIZE: u32 = 168;

/// The QR code of an `otpauth://` URI as an SVG image: 168 pixels or more,
/// near-black on white; empty when the URI does not fit in a QR code.
pub fn otpauth_qr_svg(uri: &str) -> (r: String)
    ensures
        r@ == (match qr_svg(vstd::utf8::encode_utf8(uri@), QR_MIN_SIZE, "#0d0d0d"@, "#ffffff"@) {
            Some(svg) => svg,
            None => Seq::empty(),
        }),
{
    match render_qr_svg(uri.as_bytes(), QR_MIN_SIZE, "#0d0d0d", "#ffffff") {
        Some(svg) => svg,
        None => String::new(),
    }
}

/// What the authenticator page shows, one at a time.
#[derive(Clone, Copy, Debug, PartialEq, Eq, Structural)]
pub enum MfaScreen {
    /// The recovery codes, right after the app was confirmed.
    RecoveryCodes,
    /// The QR code is being prepared.
    Preparing,
    /// The QR code to scan and the confirmation field.
    Scan,
    /// An enrolled account: step-up and recovery tools.
    Manage,
    /// The status and the setup button.
    Overview,
}

/// The page's screen: the recovery codes once the app is confirmed, then the
/// pending setup, then the QR code, then the tools of an enrolled account,
/// and the overview otherwise.
pub fn mfa_screen(confirmed: bool, start_pending: bool, enrollment_ready: bool, enrolled: bool) -> (r:
    MfaScreen)
    ensures
        r == if confirmed {
            MfaScreen::RecoveryCodes
        } else if start_pending {
            MfaScreen::Preparing
        } else if enrollment_ready {
            MfaScreen::Scan
        } else if enrolled {
            MfaScreen::Manage
        } else {
            MfaScreen::Overview
        },
{
    if confirmed {
        MfaScreen::RecoveryCodes
    } else if start_pending {
        MfaScreen::Preparing
    } else if enrollment_ready {
        MfaScreen::Scan
    } else if enrolled {
        MfaScreen::Manage
    } else {
        MfaScreen::Overview
    }
}

/// The ASCII digits of `s`, in order.
pub open spec fn digit_chars(s: Seq<char>) -> Seq<char>
    decreases s.len(),
{
    if s.len() == 0 {
        Seq::empty()
    } else if is_digit(s.last()) {
        digit_chars(s.drop_last()).push(s.last())
    } else {
        digit_chars(s.drop_last())
    }
}

proof fn lemma_first_n_push(s: Seq<char>, c: char, n: nat)
    ensures
        first_n(s.push(c), n) == if s.len() < n {
            s.push(c)
        } else {
            first_n(s, n)
        },
{
    if s.len() >= n {
        assert(s.push(c).subrange(0, n as int) =~= first_n(s, n));
    }
}

proof fn lemma_digit_chars_shape(s: Seq<char>)
    ensures
        forall|i: int| 0 <= i < digit_chars(s).len() ==> is_digit(#[trigger] digit_chars(s)[i]),
        (forall|i: int| 0 <= i < s.len() ==> is_digit(#[trigger] s[i])) ==> digit_chars(s) == s,
    decreases s.len(),
{
    if s.len() > 0 {
        let p = s.drop_last();
        lemma_digit_chars_shape(p);
        let d = digit_chars(p);
        if is_digit(s.last()) {
            assert forall|i: int| 0 <= i < d.push(s.last()).len() implies is_digit(
                #[trigger] d.push(s.last())[i],
            ) by {
                if i < d.len() {
                    assert(d.push(s.last())[i] == d[i]);
                }
            }
        }
        if forall|i: int| 0 <= i < s.len() ==> is_digit(#[trigger] s[i]) {
            assert forall|i: int| 0 <= i < p.len() implies is_digit(#[trigger] p[i]) by {
                assert(p[i] == s[i]);
            }
            assert(is_digit(s[s.len() - 1]));
            assert(p.push(s.last()) =~= s);
        }
    }
}

/// A code field holds at most six ASCII digits, and typing its text again
/// keeps it as it is.
pub proof fn otp_code_input_is_stable(s: Seq<char>)
    ensures
        first_n(digit_chars(s), 6).len() <= 6,
        forall|i: int|
            0 <= i < first_n(digit_chars(s), 6).len() ==> is_digit(
                #[trigger] first_n(digit_chars(s), 6)[i],
            ),
        first_n(digit_chars(first_n(digit_chars(s), 6)), 6) == first_n(digit_chars(s), 6),
{
    let d = digit_chars(s);
    let c = first_n(d, 6);
    lemma_digit_chars_shape(s);
    assert forall|i: int| 0 <= i < c.len() implies is_digit(#[trigger] c[i]) by {
        assert(c[i] == d[i]);
    }
    lemma_digit_chars_shape(c);
}

/// A code field keeps the first six digits typed.
pub fn otp_code_input(raw: &str) -> (r: String)
    ensures
        r@ == first_n(digit_chars(raw@), 6),
{
    let v = chars_of(raw);
    let mut r = String::new();
    let mut kept: usize = 0;
    let mut i: usize = 0;
    while i < v.len()
        invariant
            i <= v@.len(),
            r@ == first_n(digit_chars(v@.subrange(0, i as int)), 6),
            kept == r@.len(),
            kept <= 6,
            kept < 6 ==> r@ == digit_chars(v@.subrange(0, i as int)),
        decreases v@.len() - i,
    {
        let ghost w = v@.subrange(0, i + 1);
        proof {
            assert(w.drop_last() =~= v@.subrange(0, i as int));
            assert(w.last() == v@[i as int]);
            lemma_first_n_push(digit_chars(v@.subrange(0, i as int)), v@[i as int], 6);
        }
        let c = v[i];
        if '0' <= c && c <= '9' && kept < 6 {
            push_char(&mut r, c);
            kept += 1;
        }
        i += 1;
    }
    proof {
        assert(v@.subrange(0, v@.len() as int) =~= v@);
    }
    r
}

/// Whether a code can be sent: six digits typed and no request running.
pub fn code_submit_enabled(pending: bool, code: &str) -> (r: bool)
    ensures
        r == (!pending && utf8_len(code@) >= 6),
{
    !pending && !utf8_len_below(&chars_of(code), 6)
}

/// The recovery codes, one per line, as the copy button puts them on the clipboard.
pub open spec fn lines_of(codes: Seq<String>) -> Seq<char>
    decreases codes.len(),
{
    if codes.len() == 0 {
        Seq::empty()
    } else if codes.len() == 1 {
        codes[0]@
    } else {
        lines_of(codes.drop_last()) + "\n"@ + codes.last()@
    }
}

pub fn recovery_codes_text(codes: &Vec<String>) -> (r: String)
    ensures
        r@ == lines_of(codes@),
{
    let mut r = String::new();
    let mut i: usize = 0;
    while i < codes.len()
        invariant
            i <= codes@.len(),
            r@ == lines_of(codes@.subrange(0, i as int)),
        decreases codes@.len() - i,
    {
        let ghost w = codes@.subrange(0, i + 1);
        proof {
            assert(w.drop_last() =~= codes@.subrange(0, i as int));
            assert(w.last() == codes@[i as int]);
            if i == 0 {
                assert(w[0] == codes@[0]);
            }
        }
        if i > 0 {
            push_str(&mut r, "\n");
        }
        push_str(&mut r, codes[i].as_str());
        i += 1;
    }
    proof {
        assert(codes@.subrange(0, codes@.len() as int) =~= codes@);
    }
    r
}

/// "Finish setup" leaves the page only once the codes are marked as stored;
/// before that it answers with a reminder.
pub fn finish_setup_reminder(codes_saved: bool) -> (r: Option<String>)
    ensures
        codes_saved ==> r is None,
        !codes_saved ==> opt_is(r, "Check the box below after you store the codes."@),
{
    if codes_saved {
        None
    } else {
        Some(owned("Check the box below after you store the codes."))
    }
}

} // verus!
