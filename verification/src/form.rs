//! Form bodies as the text that is sent: `application/x-www-form-urlencoded`
//! and `multipart/form-data`.
use vstd::prelude::*;
use vstd::utf8::*;
use vstd::string::StringSliceAdditionalSpecFns;
use crate::text::{concat, push_str};

verus! {

/// A byte that the url-encoded form serializer keeps as it is: an ASCII
/// letter or digit, or one of `*`, `-`, `.`, `_`.
pub open spec fn is_form_safe(b: u8) -> bool {
    (0x30 <= b && b <= 0x39) || (0x41 <= b && b <= 0x5A) || (0x61 <= b && b <= 0x7A) || b == 0x2A
        || b == 0x2D || b == 0x2E || b == 0x5F
}

/// The upper-case hex digit of a number below sixteen.
pub open spec fn hex_upper_digit(n: u8) -> char {
    if n < 10 {
        ((48 + n) as u8) as char
    } else {
        ((55 + n) as u8) as char
    }
}

/// How one byte is written in a url-encoded form: a safe byte as itself, a
/// space as `+`, any other byte as `%` and two upper-case hex digits.
pub open spec fn form_byte(b: u8) -> Seq<char> {
    if is_form_safe(b) {
        seq![b as char]
    } else if b == 0x20 {
        seq!['+']
    } else {
        seq!['%', hex_upper_digit(b / 16), hex_upper_digit(b % 16)]
    }
}

/// The url-encoded form of some bytes, byte by byte.
pub open spec fn form_bytes(bs: Seq<u8>) -> Seq<char>
    decreases bs.len(),
{
    if bs.len() == 0 {
        seq![]
    } else {
        form_bytes(bs.drop_last()) + form_byte(bs.last())
    }
}

/// The url-encoded form of a text: of its UTF-8 bytes.
pub open spec fn form_component(s: Seq<char>) -> Seq<char> {
    form_bytes(encode_utf8(s))
}

/// A name/value pair of a url-encoded form: `name=value`.
pub open spec fn form_pair(p: (Seq<char>, Seq<char>)) -> Seq<char> {
    form_component(p.0) + seq!['='] + form_component(p.1)
}

/// A url-encoded form: its pairs joined by `&`.
pub open spec fn form_text(pairs: Seq<(Seq<char>, Seq<char>)>) -> Seq<char>
    decreases pairs.len(),
{
    if pairs.len() == 0 {
        seq![]
    } else if pairs.len() == 1 {
        form_pair(pairs[0])
    } else {
        form_text(pairs.drop_last()) + seq!['&'] + form_pair(pairs.last())
    }
}

fn hex_upper(n: u8) -> (res: char)
    requires
        n < 16,
    ensures
        res == hex_upper_digit(n),
{
    if n < 10 {
        (48 + n) as char
    } else {
        (55 + n) as char
    }
}

fn push_form_byte(s: &mut String, b: u8)
    ensures
        final(s)@ == old(s)@ + form_byte(b),
{
    let ghost s0 = s@;
    if (0x30 <= b && b <= 0x39) || (0x41 <= b && b <= 0x5A) || (0x61 <= b && b <= 0x7A) || b == 0x2A
        || b == 0x2D || b == 0x2E || b == 0x5F {
        s.push(b as char);
        assert(s@ =~= s0 + seq![b as char]);
    } else if b == 0x20 {
        s.push('+');
        assert(s@ =~= s0 + seq!['+']);
    } else {
        s.push('%');
        s.push(hex_upper(b / 16));
        s.push(hex_upper(b % 16));
        assert(s@ =~= s0 + seq!['%', hex_upper_digit(b / 16), hex_upper_digit(b % 16)]);
    }
}

/// A text in url-encoded form (see `form_component`).
pub fn form_encode(t: &str) -> (res: String)
    ensures
        res@ == form_component(t@),
{
    let bytes = t.as_bytes();
    assert(bytes@ == encode_utf8(t@));
    let mut s = String::new();
    for i in 0..bytes.len()
        invariant
            bytes@ == encode_utf8(t@),
            s@ == form_bytes(bytes@.take(i as int)),
    {
        let ghost before = s@;
        push_form_byte(&mut s, bytes[i]);
        assert(bytes@.take(i + 1).drop_last() =~= bytes@.take(i as int));
        assert(bytes@.take(i + 1).last() == bytes@[i as int]);
    }
    assert(bytes@.take(bytes.len() as int) =~= bytes@);
    s
}

/// The body of a url-encoded form (see `form_text`).
pub fn form_body(pairs: &Vec<(String, String)>) -> (res: String)
    ensures
        res@ == form_text(pairs.deep_view()),
{
    let ghost pv = pairs.deep_view();
    let mut s = String::new();
    for i in 0..pairs.len()
        invariant
            pv == pairs.deep_view(),
            s@ == form_text(pv.take(i as int)),
    {
        let ghost before = s@;
        assert(pv.take(i + 1).drop_last() =~= pv.take(i as int));
        assert(pv.take(i + 1).last() == pv[i as int]);
        if i > 0 {
            s.push('&');
        }
        let k = form_encode(pairs[i].0.as_str());
        let v = form_encode(pairs[i].1.as_str());
        push_str(&mut s, k.as_str());
        s.push('=');
        push_str(&mut s, v.as_str());
        if i == 0 {
            assert(s@ =~= form_pair(pv[0]));
            assert(pv.take(1)[0] == pv[0]);
        } else {
            assert(s@ =~= before + seq!['&'] + form_pair(pv[i as int]));
        }
    }
    assert(pv.take(pairs.len() as int) =~= pv);
    s
}

/// How `percent_encoding` writes one byte under `NON_ALPHANUMERIC`: an ASCII
/// letter or digit as itself, any other byte as `%` and two upper-case hex
/// digits.
pub open spec fn percent_byte(b: u8) -> Seq<char> {
    if (0x30 <= b && b <= 0x39) || (0x41 <= b && b <= 0x5A) || (0x61 <= b && b <= 0x7A) {
        seq![b as char]
    } else {
        seq!['%', hex_upper_digit(b / 16), hex_upper_digit(b % 16)]
    }
}

/// Some bytes percent-encoded byte by byte (see `percent_byte`).
pub open spec fn percent_bytes(bs: Seq<u8>) -> Seq<char>
    decreases bs.len(),
{
    if bs.len() == 0 {
        seq![]
    } else {
        percent_bytes(bs.drop_last()) + percent_byte(bs.last())
    }
}

/// Whether a byte is a hex digit (`0-9`, `a-f`, `A-F`).
pub open spec fn is_hex_byte(b: u8) -> bool {
    (0x30 <= b && b <= 0x39) || (0x41 <= b && b <= 0x46) || (0x61 <= b && b <= 0x66)
}

/// The value of a hex digit byte.
pub open spec fn hex_byte_value(b: u8) -> int {
    if b <= 0x39 {
        b - 0x30
    } else if b <= 0x46 {
        b - 0x41 + 10
    } else {
        b - 0x61 + 10
    }
}

/// Bytes with each `%` that two hex digits follow replaced by the byte they
/// write; every other byte, a lone `%` too, kept.
pub open spec fn percent_decode_bytes(bs: Seq<u8>) -> Seq<u8>
    decreases bs.len(),
{
    if bs.len() == 0 {
        seq![]
    } else if bs[0] == 0x25 && bs.len() >= 3 && is_hex_byte(bs[1]) && is_hex_byte(bs[2]) {
        seq![(hex_byte_value(bs[1]) * 16 + hex_byte_value(bs[2])) as u8] + percent_decode_bytes(
            bs.skip(3),
        )
    } else {
        seq![bs[0]] + percent_decode_bytes(bs.skip(1))
    }
}

/// One field of a multipart form, with the form's boundary before it.
pub open spec fn multipart_part(p: (Seq<char>, Seq<char>)) -> Seq<char> {
    "--parallax-form-boundary\r\nContent-Disposition: form-data; name=\""@ + p.0 + "\"\r\n\r\n"@ + p.1
        + "\r\n"@
}

/// The fields of a multipart form, in order.
pub open spec fn multipart_parts(pairs: Seq<(Seq<char>, Seq<char>)>) -> Seq<char>
    decreases pairs.len(),
{
    if pairs.len() == 0 {
        seq![]
    } else {
        multipart_parts(pairs.drop_last()) + multipart_part(pairs.last())
    }
}

/// A `multipart/form-data` body with the boundary `parallax-form-boundary`:
/// each field as a part named after it, then the closing boundary.
pub open spec fn multipart_text(pairs: Seq<(Seq<char>, Seq<char>)>) -> Seq<char> {
    multipart_parts(pairs) + "--parallax-form-boundary--\r\n"@
}

/// The content type of the multipart bodies made here.
pub fn multipart_content_type() -> (res: &'static str)
    ensures
        res@ == "multipart/form-data; boundary=parallax-form-boundary"@,
{
    "multipart/form-data; boundary=parallax-form-boundary"
}

/// The body of a multipart form (see `multipart_text`).
pub fn multipart_body(pairs: &Vec<(String, String)>) -> (res: String)
    ensures
        res@ == multipart_text(pairs.deep_view()),
{
    let ghost pv = pairs.deep_view();
    let mut s = String::new();
    for i in 0..pairs.len()
        invariant
            pv == pairs.deep_view(),
            s@ == multipart_parts(pv.take(i as int)),
    {
        let ghost before = s@;
        assert(pv.take(i + 1).drop_last() =~= pv.take(i as int));
        assert(pv.take(i + 1).last() == pv[i as int]);
        let head = concat(
            "--parallax-form-boundary\r\nContent-Disposition: form-data; name=\"",
            pairs[i].0.as_str(),
        );
        push_str(&mut s, head.as_str());
        push_str(&mut s, "\"\r\n\r\n");
        push_str(&mut s, pairs[i].1.as_str());
        push_str(&mut s, "\r\n");
        assert(s@ =~= before + multipart_part(pv[i as int]));
    }
    assert(pv.take(pairs.len() as int) =~= pv);
    push_str(&mut s, "--parallax-form-boundary--\r\n");
    s
}

} // verus!
