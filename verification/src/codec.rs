//! Percent-encoding of Assuan string arguments and data lines.

use vstd::prelude::*;
use vstd::utf8::*;
use vstd::string::*;
use crate::text::{lemma_encode_utf8_concat, str_chars};

verus! {

/// The value of an ASCII hexadecimal digit (either case), if `b` is one.
pub open spec fn hex_digit_value(b: u8) -> Option<u8> {
    if 0x30 <= b <= 0x39 {
        Some((b - 0x30) as u8)
    } else if 0x61 <= b <= 0x66 {
        Some((b - 0x61 + 10) as u8)
    } else if 0x41 <= b <= 0x46 {
        Some((b - 0x41 + 10) as u8)
    } else {
        None
    }
}

/// True when `bytes` starts with a complete `%XX` escape.
pub open spec fn starts_with_escape(bytes: Seq<u8>) -> bool {
    &&& bytes.len() > 2
    &&& bytes[0] == 0x25
    &&& hex_digit_value(bytes[1]) is Some
    &&& hex_digit_value(bytes[2]) is Some
}

/// The byte that a complete `%XX` escape at the start of `bytes` stands for.
pub open spec fn escape_value(bytes: Seq<u8>) -> u8 {
    (hex_digit_value(bytes[1]).unwrap() * 16 + hex_digit_value(bytes[2]).unwrap()) as u8
}

/// Percent-decoding of a byte string: each complete `%XX` escape becomes the
/// byte it names, every other byte (a `+`, a lone `%`, a `%` followed by
/// fewer than two hex digits) stands for itself.
pub open spec fn percent_decoded(bytes: Seq<u8>) -> Seq<u8>
    decreases bytes.len(),
{
    if bytes.len() == 0 {
        Seq::empty()
    } else if starts_with_escape(bytes) {
        seq![escape_value(bytes)] + percent_decoded(bytes.skip(3))
    } else {
        seq![bytes[0]] + percent_decoded(bytes.skip(1))
    }
}

/// How one character is written by the encoder: `%`, CR and LF become
/// `%25`, `%0D` and `%0A`; every other character is kept as it is.
pub open spec fn escaped_char(c: char) -> Seq<char> {
    if c == '%' {
        seq!['%', '2', '5']
    } else if c == '\r' {
        seq!['%', '0', 'D']
    } else if c == '\n' {
        seq!['%', '0', 'A']
    } else {
        seq![c]
    }
}

/// Percent-encoding of a text, character by character.
pub open spec fn percent_encoded_text(s: Seq<char>) -> Seq<char>
    decreases s.len(),
{
    if s.len() == 0 {
        Seq::empty()
    } else {
        escaped_char(s[0]) + percent_encoded_text(s.skip(1))
    }
}

/// What `String::from_utf8_lossy` makes of a byte string.
pub uninterp spec fn utf8_lossy(bytes: Seq<u8>) -> Seq<char>;

/// Wraps `String::from_utf8_lossy` (followed by `Cow::into_owned`).
/// Its result is named `utf8_lossy` of the bytes; the one fact stated beside
/// the name is the documented one, that valid UTF-8 is decoded as it stands.
/// What replaces an invalid sequence is left unsaid.
#[verifier::external_body]
fn string_from_utf8_lossy(bytes: &[u8]) -> (res: String)
    ensures
        res@ == utf8_lossy(bytes@),
        valid_utf8(bytes@) ==> res@ == decode_utf8(bytes@),
{
    String::from_utf8_lossy(bytes).into_owned()
}

/// Wraps `String::push`: appends one character.
#[verifier::external_body]
pub(crate) fn push_char(s: &mut String, c: char)
    ensures
        final(s)@ == old(s)@.push(c),
{
    s.push(c)
}

/// The value of an ASCII hexadecimal digit.
fn hex_val(b: u8) -> (res: Option<u8>)
    ensures
        res == hex_digit_value(b),
{
    if 0x30u8 <= b && b <= 0x39u8 {
        Some(b - 0x30u8)
    } else if 0x61u8 <= b && b <= 0x66u8 {
        Some(b - 0x61u8 + 10u8)
    } else if 0x41u8 <= b && b <= 0x46u8 {
        Some(b - 0x41u8 + 10u8)
    } else {
        None
    }
}

/// Percent-decodes a byte string: each complete `%XX` sequence (hex digits of
/// either case) becomes one byte; everything else, `+` included, is copied.
pub fn percent_decode_bytes(bytes: &[u8]) -> (out: Vec<u8>)
    ensures
        out@ == percent_decoded(bytes@),
{
    let mut out: Vec<u8> = Vec::new();
    let mut i: usize = 0;
    let ghost all = bytes@;
    assert(all.skip(0) =~= all);
    while i < bytes.len()
        invariant
            all == bytes@,
            i <= bytes.len(),
            out@ + percent_decoded(all.skip(i as int)) == percent_decoded(all),
        decreases bytes.len() - i,
    {
        let ghost rest = all.skip(i as int);
        if bytes[i] == 0x25u8 && bytes.len() - i > 2 {
            let hi = bytes[i + 1];
            let lo = bytes[i + 2];
            match (hex_val(hi), hex_val(lo)) {
                (Some(h), Some(l)) => {
                    let v: u8 = (h << 4u8) | l;
                    assert(v == h * 16 + l) by (bit_vector)
                        requires
                            h < 16,
                            l < 16,
                            v == (h << 4u8) | l,
                    ;
                    assert(starts_with_escape(rest));
                    assert(rest.skip(3) =~= all.skip(i + 3));
                    out.push(v);
                    i += 3;
                    continue;
                },
                _ => {},
            }
        }
        assert(!starts_with_escape(rest));
        assert(rest.skip(1) =~= all.skip(i + 1));
        out.push(bytes[i]);
        i += 1;
    }
    assert(out@ + percent_decoded(all.skip(i as int)) == out@ + Seq::<u8>::empty());
    out
}

/// Percent-decodes an Assuan string argument. Only `%XX` sequences are
/// decoded; `+` is not a space. The decoded bytes are read as UTF-8, with
/// invalid sequences replaced rather than refused.
pub fn percent_decode(s: &str) -> (res: String)
    ensures
        res@ == utf8_lossy(percent_decoded(s.spec_bytes())),
        valid_utf8(percent_decoded(s.spec_bytes())) ==> res@ == decode_utf8(
            percent_decoded(s.spec_bytes()),
        ),
{
    let out = percent_decode_bytes(s.as_bytes());
    string_from_utf8_lossy(out.as_slice())
}

/// Percent-encodes a string for an Assuan data or status line. Mandatory
/// escapes: `%` -> `%25`, CR -> `%0D`, LF -> `%0A`; nothing else needs
/// escaping, so every other character is copied unchanged.
pub fn percent_encode(s: &str) -> (res: String)
    ensures
        res@ == percent_encoded_text(s@),
{
    let chars = str_chars(s);
    let ghost all = chars@;
    let mut out = String::new();
    let mut i: usize = 0;
    assert(all.skip(0) =~= all);
    while i < chars.len()
        invariant
            all == chars@,
            all == s@,
            i <= chars@.len(),
            out@ + percent_encoded_text(all.skip(i as int)) == percent_encoded_text(all),
        decreases chars.len() - i,
    {
        let ghost before = out@;
        let c = chars[i];
        assert(all.skip(i as int).skip(1) =~= all.skip(i + 1));
        if c == '%' {
            push_char(&mut out, '%');
            push_char(&mut out, '2');
            push_char(&mut out, '5');
        } else if c == '\r' {
            push_char(&mut out, '%');
            push_char(&mut out, '0');
            push_char(&mut out, 'D');
        } else if c == '\n' {
            push_char(&mut out, '%');
            push_char(&mut out, '0');
            push_char(&mut out, 'A');
        } else {
            push_char(&mut out, c);
        }
        assert(out@ =~= before + escaped_char(c));
        i += 1;
    }
    assert(out@ + percent_encoded_text(all.skip(i as int)) =~= out@);
    out
}

/// A byte string without `%` is copied by the decoder in front of whatever
/// follows it.
proof fn lemma_decode_passes_prefix(a: Seq<u8>, rest: Seq<u8>)
    requires
        forall|i: int| 0 <= i < a.len() ==> a[i] != 0x25u8,
    ensures
        percent_decoded(a + rest) == a + percent_decoded(rest),
    decreases a.len(),
{
    if a.len() > 0 {
        let t = a + rest;
        assert(t[0] == a[0]);
        assert(!starts_with_escape(t));
        let a1 = a.skip(1);
        assert(t.skip(1) =~= a1 + rest);
        lemma_decode_passes_prefix(a1, rest);
        assert(a =~= seq![a[0]] + a1);
    } else {
        assert(a + rest =~= rest);
    }
}

/// The UTF-8 encoding of a character other than `%` holds no `%` byte: a
/// one-byte encoding is the character's own code, and every byte of a longer
/// one has its high bit set.
proof fn lemma_scalar_has_no_percent(c: char)
    requires
        c != '%',
    ensures
        forall|i: int|
            0 <= i < encode_scalar(c as u32).len() ==> #[trigger] encode_scalar(c as u32)[i]
                != 0x25u8,
{
    let v = c as u32;
    let e = encode_scalar(v);
    if has_width_1_encoding(v) {
        assert(leading_byte_width_1(v) == v as u8) by (bit_vector)
            requires
                v <= 0x7F,
        ;
    } else {
        assert(forall|x: u8| #[trigger] (0x80u8 | x) >= 0x80u8) by (bit_vector);
        assert(forall|x: u8| #[trigger] (0xC0u8 | x) >= 0x80u8) by (bit_vector);
        assert(forall|x: u8| #[trigger] (0xE0u8 | x) >= 0x80u8) by (bit_vector);
        assert(forall|x: u8| #[trigger] (0xF0u8 | x) >= 0x80u8) by (bit_vector);
        assert forall|i: int| 0 <= i < e.len() implies e[i] >= 0x80u8 by {}
    }
}

/// Decoding the UTF-8 encoding of encoded text gives back the UTF-8
/// encoding of the text.
proof fn lemma_decode_encoded_bytes(s: Seq<char>)
    ensures
        percent_decoded(encode_utf8(percent_encoded_text(s))) == encode_utf8(s),
    decreases s.len(),
{
    if s.len() > 0 {
        let c = s[0];
        let rest = s.skip(1);
        let head = escaped_char(c);
        lemma_decode_encoded_bytes(rest);
        lemma_encode_utf8_concat(head, percent_encoded_text(rest));
        assert(s =~= seq![c] + rest);
        lemma_encode_utf8_concat(seq![c], rest);
        assert(seq![c].drop_first() =~= Seq::<char>::empty());
        assert(encode_utf8(Seq::<char>::empty()) =~= Seq::<u8>::empty());
        assert(seq![c][0] == c);
        assert(encode_utf8(seq![c]) =~= encode_scalar(c as u32));
        let tail = encode_utf8(percent_encoded_text(rest));
        if head.len() == 3 {
            assert(is_ascii_chars(head));
            is_ascii_chars_encode_utf8(head);
            let hb = encode_utf8(head);
            let t = hb + tail;
            assert(t[0] == head[0] as u8);
            assert(t[1] == head[1] as u8);
            assert(t[2] == head[2] as u8);
            assert(t[0] == 0x25u8);
            let v = c as u32;
            assert(has_width_1_encoding(v));
            assert(leading_byte_width_1(v) == v as u8) by (bit_vector)
                requires
                    v <= 0x7F,
            ;
            assert(encode_scalar(v) =~= seq![v as u8]);
            assert(starts_with_escape(t));
            assert(t.skip(3) =~= tail);
            assert(escape_value(t) == encode_scalar(c as u32)[0]);
            assert(encode_scalar(c as u32) =~= seq![escape_value(t)]);
        } else {
            lemma_scalar_has_no_percent(c);
            assert(encode_utf8(head) =~= encode_scalar(c as u32));
            lemma_decode_passes_prefix(encode_scalar(c as u32), tail);
        }
    }
}

/// Decoding undoes encoding for every text: the bytes that decoding the
/// encoded text yields are valid UTF-8 and decode to the text itself, so
/// `percent_decode(percent_encode(s)) == s` (`percent_decode` returns
/// exactly that decoding for valid UTF-8).
pub proof fn lemma_percent_roundtrip(s: Seq<char>)
    ensures
        ({
            let decoded = percent_decoded(encode_utf8(percent_encoded_text(s)));
            valid_utf8(decoded) && decode_utf8(decoded) == s
        }),
{
    lemma_decode_encoded_bytes(s);
    encode_utf8_valid_utf8(s);
    encode_utf8_decode_utf8(s);
}

/// The encoder never writes a raw CR or LF, so its output always fits on one
/// protocol line.
pub proof fn lemma_percent_encoded_single_line(s: Seq<char>)
    ensures
        forall|i: int|
            0 <= i < percent_encoded_text(s).len() ==> #[trigger] percent_encoded_text(s)[i] != '\r'
                && percent_encoded_text(s)[i] != '\n',
    decreases s.len(),
{
    if s.len() > 0 {
        lemma_percent_encoded_single_line(s.skip(1));
        let head = escaped_char(s[0]);
        let tail = percent_encoded_text(s.skip(1));
        assert forall|i: int| 0 <= i < percent_encoded_text(s).len() implies #[trigger] percent_encoded_text(s)[i]
            != '\r' && percent_encoded_text(s)[i] != '\n' by {
            if i >= head.len() {
                assert(percent_encoded_text(s)[i] == tail[i - head.len()]);
            }
        }
    }
}

/// Bytes without a `%` decode to themselves: only escapes are rewritten.
pub proof fn lemma_decode_without_escapes(bytes: Seq<u8>)
    requires
        !bytes.contains(0x25u8),
    ensures
        percent_decoded(bytes) == bytes,
    decreases bytes.len(),
{
    if bytes.len() > 0 {
        let rest = bytes.skip(1);
        assert(!rest.contains(0x25u8)) by {
            if rest.contains(0x25u8) {
                let j = choose|j: int| 0 <= j < rest.len() && rest[j] == 0x25u8;
                assert(bytes[j + 1] == 0x25u8);
            }
        }
        assert(bytes[0] != 0x25u8) by {
            assert(bytes[0] == bytes[0]);
            if bytes[0] == 0x25u8 {
                assert(bytes.contains(0x25u8));
            }
        }
        lemma_decode_without_escapes(rest);
        assert(bytes =~= seq![bytes[0]] + rest);
    }
}

/// The ASCII code of the lower-case hexadecimal digit for `n < 16`
/// (`0`-`9`, then `a`-`f`).
pub open spec fn lower_hex_digit(n: u8) -> u8 {
    if n < 10 {
        (0x30 + n) as u8
    } else {
        (0x61 + (n - 10)) as u8
    }
}

/// The ASCII code of the upper-case hexadecimal digit for `n < 16`
/// (`0`-`9`, then `A`-`F`).
pub open spec fn upper_hex_digit(n: u8) -> u8 {
    if n < 10 {
        (0x30 + n) as u8
    } else {
        (0x41 + (n - 10)) as u8
    }
}

/// Every byte can be written as a `%XX` escape with hex digits of either
/// case (even mixed): decoding `%` followed by the two digits of `b` gives
/// exactly `b`, and whatever follows the escape is decoded on its own.
pub proof fn lemma_hex_escapes_decode(b: u8, rest: Seq<u8>)
    ensures
        percent_decoded(seq![0x25u8, lower_hex_digit(b / 16), lower_hex_digit(b % 16)] + rest)
            == seq![b] + percent_decoded(rest),
        percent_decoded(seq![0x25u8, upper_hex_digit(b / 16), upper_hex_digit(b % 16)] + rest)
            == seq![b] + percent_decoded(rest),
        percent_decoded(seq![0x25u8, upper_hex_digit(b / 16), lower_hex_digit(b % 16)] + rest)
            == seq![b] + percent_decoded(rest),
        percent_decoded(seq![0x25u8, lower_hex_digit(b / 16), upper_hex_digit(b % 16)] + rest)
            == seq![b] + percent_decoded(rest),
{
    let hi = b / 16;
    let lo = b % 16;
    assert(hex_digit_value(lower_hex_digit(hi)) == Some(hi));
    assert(hex_digit_value(lower_hex_digit(lo)) == Some(lo));
    assert(hex_digit_value(upper_hex_digit(hi)) == Some(hi));
    assert(hex_digit_value(upper_hex_digit(lo)) == Some(lo));
    assert(hi * 16 + lo == b);
    let e1 = seq![0x25u8, lower_hex_digit(b / 16), lower_hex_digit(b % 16)] + rest;
    let e2 = seq![0x25u8, upper_hex_digit(b / 16), upper_hex_digit(b % 16)] + rest;
    let e3 = seq![0x25u8, upper_hex_digit(b / 16), lower_hex_digit(b % 16)] + rest;
    let e4 = seq![0x25u8, lower_hex_digit(b / 16), upper_hex_digit(b % 16)] + rest;
    assert(e1.skip(3) =~= rest);
    assert(e2.skip(3) =~= rest);
    assert(e3.skip(3) =~= rest);
    assert(e4.skip(3) =~= rest);
    assert(starts_with_escape(e1) && escape_value(e1) == b);
    assert(starts_with_escape(e2) && escape_value(e2) == b);
    assert(starts_with_escape(e3) && escape_value(e3) == b);
    assert(starts_with_escape(e4) && escape_value(e4) == b);
}

} // verus!
