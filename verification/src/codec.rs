//! The encodings that titles, bodies and markup go through: HTML escaping
//! (maud), percent-encoding of URL components (urlencoding), Base64 (base64)
//! and UTF-8.

use vstd::prelude::*;
use vstd::utf8::*;

verus! {

// ---------------------------------------------------------------------------
// HTML escaping
// ---------------------------------------------------------------------------

/// What one character becomes in escaped HTML text.
pub open spec fn escape_char(c: char) -> Seq<char> {
    if c == '&' {
        seq!['&', 'a', 'm', 'p', ';']
    } else if c == '<' {
        seq!['&', 'l', 't', ';']
    } else if c == '>' {
        seq!['&', 'g', 't', ';']
    } else if c == '"' {
        seq!['&', 'q', 'u', 'o', 't', ';']
    } else {
        seq![c]
    }
}

/// Text escaped for HTML: `&`, `<`, `>` and `"` become entities, every other
/// character stays as it is.
pub open spec fn html_escaped(s: Seq<char>) -> Seq<char>
    decreases s.len(),
{
    if s.len() == 0 {
        Seq::empty()
    } else {
        html_escaped(s.drop_last()) + escape_char(s.last())
    }
}

/// Escapes text for HTML with maud's `Render` impl for `str`, which is what
/// maud's `html!` applies to every spliced value.
/// Claimed: the result is `html_escaped` of the input (maud's escape replaces
/// the bytes `&`, `<`, `>`, `"` by their entities and copies every other byte).
#[verifier::external_body]
pub(crate) fn escape_html(text: &str) -> (escaped: String)
    ensures
        escaped@ == html_escaped(text@),
{
    let mut out = String::new();
    maud::Render::render_to(text, &mut out);
    out
}

/// Escaped text holds none of the characters that would open or close markup
/// or an attribute value.
pub proof fn law_escaped_text_has_no_markup(s: Seq<char>)
    ensures
        !html_escaped(s).contains('<'),
        !html_escaped(s).contains('>'),
        !html_escaped(s).contains('"'),
    decreases s.len(),
{
    if s.len() > 0 {
        law_escaped_text_has_no_markup(s.drop_last());
        let prefix = html_escaped(s.drop_last());
        let tail = escape_char(s.last());
        assert(html_escaped(s) == prefix + tail);
        assert forall|i: int| 0 <= i < html_escaped(s).len() implies html_escaped(s)[i] != '<'
            && html_escaped(s)[i] != '>' && html_escaped(s)[i] != '"' by {
            if i < prefix.len() {
                assert(html_escaped(s)[i] == prefix[i]);
                assert(prefix.contains(prefix[i]));
            } else {
                assert(html_escaped(s)[i] == tail[i - prefix.len()]);
            }
        }
    }
}

// ---------------------------------------------------------------------------
// Percent-encoding
// ---------------------------------------------------------------------------

/// Bytes that percent-encoding leaves as they are: ASCII letters, digits and
/// `-`, `.`, `_`, `~`.
pub open spec fn is_unreserved(b: u8) -> bool {
    (48 <= b <= 57) || (65 <= b <= 90) || (97 <= b <= 122) || b == 45 || b == 46 || b == 95
        || b == 126
}

/// An upper-case hexadecimal digit.
pub open spec fn hex_digit(v: int) -> char {
    if v < 10 {
        (48 + v) as char
    } else {
        (55 + v) as char
    }
}

/// What one byte becomes when percent-encoded.
pub open spec fn encode_byte(b: u8) -> Seq<char> {
    if is_unreserved(b) {
        seq![b as char]
    } else {
        seq!['%', hex_digit((b / 16) as int), hex_digit((b % 16) as int)]
    }
}

/// The percent-encoding of a byte string.
pub open spec fn percent_encoded(bytes: Seq<u8>) -> Seq<char>
    decreases bytes.len(),
{
    if bytes.len() == 0 {
        Seq::empty()
    } else {
        percent_encoded(bytes.drop_last()) + encode_byte(bytes.last())
    }
}

/// In a percent-encoding, every `%` is followed by two more characters.
proof fn lemma_percent_sign_has_two_digits(bytes: Seq<u8>, i: int)
    requires
        0 <= i < percent_encoded(bytes).len(),
        percent_encoded(bytes)[i] == '%',
    ensures
        i + 2 < percent_encoded(bytes).len(),
    decreases bytes.len(),
{
    if bytes.len() > 0 {
        let prefix = percent_encoded(bytes.drop_last());
        let e = encode_byte(bytes.last());
        assert(percent_encoded(bytes) == prefix + e);
        if i < prefix.len() {
            assert(prefix[i] == percent_encoded(bytes)[i]);
            lemma_percent_sign_has_two_digits(bytes.drop_last(), i);
        } else {
            assert(e[i - prefix.len()] == '%');
            if is_unreserved(bytes.last()) {
                assert(e[0] == bytes.last() as char);
                assert(false);
            } else {
                if i - prefix.len() > 0 {
                    assert(e[i - prefix.len()] == hex_digit((bytes.last() / 16) as int) || e[i
                        - prefix.len()] == hex_digit((bytes.last() % 16) as int));
                    assert(false);
                }
            }
        }
    }
}

/// Different digits are written differently.
proof fn lemma_hex_digit_injective(v: int, w: int)
    requires
        0 <= v < 16,
        0 <= w < 16,
        hex_digit(v) == hex_digit(w),
    ensures
        v == w,
{
    let cv: char = hex_digit(v);
    let cw: char = hex_digit(w);
    assert(cv as u32 == (if v < 10 { 48 + v } else { 55 + v }));
    assert(cw as u32 == (if w < 10 { 48 + w } else { 55 + w }));
}

/// One byte is encoded differently from any other.
proof fn lemma_encode_byte_injective(a: u8, b: u8)
    requires
        encode_byte(a) == encode_byte(b),
    ensures
        a == b,
{
    if is_unreserved(a) && is_unreserved(b) {
        assert(encode_byte(a)[0] == encode_byte(b)[0]);
        assert(encode_byte(a)[0] == a as char);
        assert(encode_byte(b)[0] == b as char);
        assert((a as char) as u32 == a as u32);
        assert((b as char) as u32 == b as u32);
        assert(a == b);
    } else if !is_unreserved(a) && !is_unreserved(b) {
        assert(encode_byte(a)[1] == encode_byte(b)[1]);
        assert(encode_byte(a)[2] == encode_byte(b)[2]);
        lemma_hex_digit_injective((a / 16) as int, (b / 16) as int);
        lemma_hex_digit_injective((a % 16) as int, (b % 16) as int);
        assert(a == 16 * (a / 16) + a % 16);
        assert(b == 16 * (b / 16) + b % 16);
    } else {
        assert(encode_byte(a).len() != encode_byte(b).len());
    }
}

/// Percent-encoding loses nothing: different bytes are encoded differently.
proof fn lemma_percent_encoded_injective(x: Seq<u8>, y: Seq<u8>)
    requires
        percent_encoded(x) == percent_encoded(y),
    ensures
        x == y,
    decreases x.len() + y.len(),
{
    if x.len() == 0 || y.len() == 0 {
        if x.len() > 0 {
            assert(percent_encoded(x).len() >= encode_byte(x.last()).len());
        }
        if y.len() > 0 {
            assert(percent_encoded(y).len() >= encode_byte(y.last()).len());
        }
        assert(x =~= y);
    } else {
        let px = percent_encoded(x.drop_last());
        let py = percent_encoded(y.drop_last());
        let ex = encode_byte(x.last());
        let ey = encode_byte(y.last());
        let whole = percent_encoded(x);
        assert(whole == px + ex);
        assert(whole == py + ey);
        if ex.len() != ey.len() {
            // the three-character code starts with a `%` that the other side
            // would have to finish within its last character
            if ex.len() == 3 {
                let i = px.len() as int;
                assert(whole[i] == '%');
                assert(ey.len() == 1);
                assert(i < py.len());
                assert(py[i] == '%');
                lemma_percent_sign_has_two_digits(y.drop_last(), i);
                assert(false);
            } else {
                let i = py.len() as int;
                assert(whole[i] == '%');
                assert(i < px.len());
                assert(px[i] == '%');
                lemma_percent_sign_has_two_digits(x.drop_last(), i);
                assert(false);
            }
        }
        assert(ex =~= whole.subrange(px.len() as int, whole.len() as int));
        assert(ey =~= whole.subrange(py.len() as int, whole.len() as int));
        assert(px =~= whole.subrange(0, px.len() as int));
        assert(py =~= whole.subrange(0, py.len() as int));
        lemma_encode_byte_injective(x.last(), y.last());
        lemma_percent_encoded_injective(x.drop_last(), y.drop_last());
        assert(x =~= x.drop_last().push(x.last()));
        assert(y =~= y.drop_last().push(y.last()));
    }
}

/// Every title has a key of its own: different titles are percent-encoded
/// differently.
pub proof fn law_distinct_titles_distinct_keys(a: Seq<char>, b: Seq<char>)
    ensures
        percent_encoded(encode_utf8(a)) == percent_encoded(encode_utf8(b)) ==> a == b,
{
    if percent_encoded(encode_utf8(a)) == percent_encoded(encode_utf8(b)) {
        lemma_percent_encoded_injective(encode_utf8(a), encode_utf8(b));
        encode_utf8_decode_utf8(a);
        encode_utf8_decode_utf8(b);
    }
}

/// What `urlencoding::decode` gives for a text: the decoded text, or `None`
/// where the decoded bytes are not UTF-8.
pub uninterp spec fn url_decoded(text: Seq<char>) -> Option<Seq<char>>;

/// Percent-encodes the UTF-8 bytes of a text with `urlencoding::encode`.
/// Claimed: every byte but an ASCII letter, digit, `-`, `.`, `_` or `~` becomes
/// `%` and two upper-case hex digits; and `urlencoding::decode` gives the text
/// back from the result (it turns each `%XX` back into its byte).
#[verifier::external_body]
pub(crate) fn url_encode(text: &str) -> (encoded: String)
    ensures
        encoded@ == percent_encoded(encode_utf8(text@)),
        url_decoded(encoded@) == Some(text@),
{
    urlencoding::encode(text).into_owned()
}

/// Decodes a percent-encoded text with `urlencoding::decode`; `None` where
/// the decoded bytes are not UTF-8 (the crate's `FromUtf8Error`).
/// Claimed: the result is `url_decoded` of the text, and a text without `%`
/// comes back unchanged. What the crate does with malformed `%` sequences is
/// not stated.
#[verifier::external_body]
pub(crate) fn url_decode(text: &str) -> (decoded: Option<String>)
    ensures
        (match decoded {
            Some(d) => url_decoded(text@) == Some(d@) && (!text@.contains('%') ==> d@ == text@),
            None => url_decoded(text@) is None && text@.contains('%'),
        }),
{
    urlencoding::decode(text).ok().map(|d| d.into_owned())
}

// ---------------------------------------------------------------------------
// Base64 and UTF-8
// ---------------------------------------------------------------------------

/// What `base64::encode` gives for a byte string (standard alphabet, padded).
pub uninterp spec fn base64_encoded(bytes: Seq<u8>) -> Seq<char>;

/// What `base64::decode` gives for a text: the bytes, or `None` where the
/// crate reports a `DecodeError`.
pub uninterp spec fn base64_decoded(text: Seq<char>) -> Option<Seq<u8>>;

/// Encodes the UTF-8 bytes of a text with `base64::encode`.
/// Claimed: the result is `base64_encoded` of those bytes, and
/// `base64::decode` gives the same bytes back from it.
#[verifier::external_body]
pub(crate) fn base64_encode_text(text: &str) -> (encoded: String)
    ensures
        encoded@ == base64_encoded(encode_utf8(text@)),
        base64_decoded(encoded@) == Some(encode_utf8(text@)),
{
    base64::encode(text)
}

/// Decodes a Base64 text with `base64::decode`; `None` on a `DecodeError`.
/// Claimed: the result is `base64_decoded` of the text.
#[verifier::external_body]
pub(crate) fn base64_decode(text: &str) -> (bytes: Option<Vec<u8>>)
    ensures
        (match bytes {
            Some(b) => base64_decoded(text@) == Some(b@),
            None => base64_decoded(text@) is None,
        }),
{
    base64::decode(text).ok()
}

/// Reads bytes as UTF-8 text with `String::from_utf8`.
/// Claimed (std's documentation): the text is there exactly when the bytes are
/// valid UTF-8, and its UTF-8 encoding is those bytes.
#[verifier::external_body]
pub(crate) fn utf8_text(bytes: Vec<u8>) -> (text: Option<String>)
    ensures
        text is Some <==> valid_utf8(bytes@),
        text matches Some(t) ==> encode_utf8(t@) == bytes@,
{
    String::from_utf8(bytes).ok()
}

/// The text of an article body as it is stored: Base64 of its UTF-8 bytes.
pub open spec fn stored_body_text(stored: Seq<char>) -> Option<Seq<char>> {
    match base64_decoded(stored) {
        Some(bytes) => if valid_utf8(bytes) {
            Some(decode_utf8(bytes))
        } else {
            None
        },
        None => None,
    }
}

/// Encodes an article body for storage (Base64 of its UTF-8 bytes).
pub fn encode_body(text: &str) -> (stored: String)
    ensures
        stored@ == base64_encoded(encode_utf8(text@)),
        stored_body_text(stored@) == Some(text@),
{
    let stored = base64_encode_text(text);
    proof {
        lemma_utf8_roundtrip(text@);
    }
    stored
}

/// Decodes a stored article body; `None` where it is not Base64 of UTF-8.
pub fn decode_body(stored: &str) -> (text: Option<String>)
    ensures
        (match text {
            Some(t) => stored_body_text(stored@) == Some(t@),
            None => stored_body_text(stored@) is None,
        }),
{
    match base64_decode(stored) {
        Some(bytes) => {
            let text = utf8_text(bytes);
            proof {
                if text is Some {
                    encode_utf8_decode_utf8(text->0@);
                }
            }
            text
        },
        None => None,
    }
}

/// UTF-8 encoding is valid and decodes back to the same characters.
pub proof fn lemma_utf8_roundtrip(s: Seq<char>)
    ensures
        valid_utf8(encode_utf8(s)),
        decode_utf8(encode_utf8(s)) == s,
{
    encode_utf8_valid_utf8(s);
    encode_utf8_decode_utf8(s);
}

} // verus!
