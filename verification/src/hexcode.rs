//! Lower-case hexadecimal encoding of bytes, its decoding, and comparison of
//! byte strings in constant time.
use vstd::prelude::*;

use crate::dmarc::hex_digit;
use crate::error::AppError;
use crate::text::{push_char, string_of};
use vstd::string::StringSliceAdditionalSpecFns;
use vstd::utf8::{encode_utf8, valid_utf8};

verus! {

/// Two lower-case hexadecimal digits per byte, most significant first.
pub open spec fn hex_seq(bytes: Seq<u8>) -> Seq<char> {
    Seq::new(
        2 * bytes.len(),
        |i: int|
            if i % 2 == 0 {
                hex_digit((bytes[i / 2] / 16) as int)
            } else {
                hex_digit((bytes[i / 2] % 16) as int)
            },
    )
}

/// An ASCII hexadecimal digit, of either case.
pub open spec fn is_hex_byte(b: u8) -> bool {
    (48 <= b <= 57) || (97 <= b <= 102) || (65 <= b <= 70)
}

/// The value of an ASCII hexadecimal digit.
pub open spec fn hex_value(b: u8) -> int {
    if b <= 57 {
        b - 48
    } else if b >= 97 {
        b - 87
    } else {
        b - 55
    }
}

/// The byte that two characters of text stand for, as `u8::from_str_radix(_, 16)`
/// reads them: two hexadecimal digits, or `+` and one digit.
pub open spec fn pair_value(a: u8, b: u8) -> Option<u8> {
    if a == 43 {
        if is_hex_byte(b) {
            Some(hex_value(b) as u8)
        } else {
            None
        }
    } else if is_hex_byte(a) && is_hex_byte(b) {
        Some((16 * hex_value(a) + hex_value(b)) as u8)
    } else {
        None
    }
}

/// Names the message that `std::str::Utf8Error` displays for bytes that are not UTF-8.
pub uninterp spec fn utf8_error_text(bytes: Seq<u8>) -> Seq<char>;

/// The byte of a two-byte chunk, or the message of its error.
pub open spec fn chunk_value(chunk: Seq<u8>) -> Result<u8, Seq<char>> {
    if !valid_utf8(chunk) {
        Err(utf8_error_text(chunk))
    } else {
        match pair_value(chunk[0], chunk[1]) {
            Some(v) => Ok(v),
            None => Err("invalid digit found in string"@),
        }
    }
}

/// Decoding of an even number of bytes, two at a time, stopping at the first error.
pub open spec fn unhex_pairs(bytes: Seq<u8>) -> Result<Seq<u8>, Seq<char>>
    decreases bytes.len(),
{
    if bytes.len() < 2 {
        Ok(seq![])
    } else {
        match chunk_value(bytes.take(2)) {
            Err(e) => Err(e),
            Ok(v) => match unhex_pairs(bytes.skip(2)) {
                Ok(rest) => Ok(seq![v] + rest),
                Err(e) => Err(e),
            },
        }
    }
}

/// What decoding the UTF-8 bytes of a hexadecimal text gives: the bytes, or the
/// message of the first error.
pub open spec fn unhex_spec(bytes: Seq<u8>) -> Result<Seq<u8>, Seq<char>> {
    if bytes.len() % 2 != 0 {
        Err("invalid hex value"@)
    } else {
        unhex_pairs(bytes)
    }
}

/// Calls `std::str::from_utf8`; on failure, gives the error's message.
#[verifier::external_body]
pub(crate) fn utf8_decode(bytes: &[u8]) -> (r: Result<String, String>)
    ensures
        r is Ok <==> valid_utf8(bytes@),
        r matches Ok(s) ==> encode_utf8(s@) == bytes@,
        r matches Err(m) ==> m@ == utf8_error_text(bytes@),
{
    match std::str::from_utf8(bytes) {
        Ok(s) => Ok(s.to_string()),
        Err(e) => Err(e.to_string()),
    }
}

/// Appends two lower-case hexadecimal digits for `b`.
fn push_hex_pair(out: &mut String, b: u8)
    ensures
        final(out)@ == old(out)@ + seq![hex_digit((b / 16) as int), hex_digit((b % 16) as int)],
{
    let hi = b / 16;
    let lo = b % 16;
    let c1 = if hi < 10 {
        (48u8 + hi) as char
    } else {
        (87u8 + hi) as char
    };
    let c2 = if lo < 10 {
        (48u8 + lo) as char
    } else {
        (87u8 + lo) as char
    };
    push_char(out, c1);
    push_char(out, c2);
}

/// Lower-case hexadecimal text of `bytes`.
pub fn hex(bytes: &[u8]) -> (r: String)
    ensures
        r@ == hex_seq(bytes@),
{
    let mut out = String::new();
    let mut i: usize = 0;
    while i < bytes.len()
        invariant
            i <= bytes@.len(),
            out@ == hex_seq(bytes@.take(i as int)),
        decreases bytes.len() - i,
    {
        let ghost before = out@;
        push_hex_pair(&mut out, bytes[i]);
        assert(out@ =~= hex_seq(bytes@.take(i + 1))) by {
            assert forall|k: int| 0 <= k < 2 * i implies #[trigger] hex_seq(bytes@.take(i + 1))[k] == before[k] by {
                assert(bytes@.take(i + 1)[k / 2] == bytes@.take(i as int)[k / 2]);
            }
        }
        i = i + 1;
    }
    assert(bytes@.take(bytes@.len() as int) =~= bytes@);
    out
}

fn hex_value_of(b: u8) -> (r: Option<u8>)
    ensures
        r is Some <==> is_hex_byte(b),
        r matches Some(v) ==> v as int == hex_value(b) && v < 16,
{
    if 48 <= b && b <= 57 {
        Some(b - 48)
    } else if 97 <= b && b <= 102 {
        Some(b - 87)
    } else if 65 <= b && b <= 70 {
        Some(b - 55)
    } else {
        None
    }
}

/// The bytes that a hexadecimal text stands for, two digits per byte.
pub fn unhex(value: &str) -> (r: Result<Vec<u8>, AppError>)
    ensures
        r is Ok <==> unhex_spec(value.spec_bytes()) is Ok,
        r matches Ok(v) ==> unhex_spec(value.spec_bytes()) == Ok::<Seq<u8>, Seq<char>>(v@),
        r matches Err(e) ==> e matches AppError::Auth(m) && unhex_spec(value.spec_bytes()) == Err::<
            Seq<u8>,
            Seq<char>,
        >(m@),
{
    let bytes = value.as_bytes();
    let ghost b = bytes@;
    assert(b == value.spec_bytes());
    if bytes.len() % 2 != 0 {
        return Err(AppError::Auth(string_of("invalid hex value")));
    }
    let mut out: Vec<u8> = Vec::new();
    let mut i: usize = 0;
    assert(b.skip(0) =~= b);
    while i < bytes.len()
        invariant
            b == bytes@,
            b == value.spec_bytes(),
            b.len() % 2 == 0,
            i % 2 == 0,
            i <= b.len(),
            unhex_pairs(b) == match unhex_pairs(b.skip(i as int)) {
                Ok(rest) => Ok(out@ + rest),
                Err(e) => Err::<Seq<u8>, Seq<char>>(e),
            },
        decreases bytes.len() - i,
    {
        let chunk = &bytes[i..i + 2];
        let ghost rest = b.skip(i as int);
        assert(chunk@ =~= rest.take(2));
        assert(rest.skip(2) =~= b.skip(i + 2));
        match utf8_decode(chunk) {
            Err(m) => {
                assert(!valid_utf8(rest.take(2)));
                assert(unhex_pairs(rest) == Err::<Seq<u8>, Seq<char>>(m@));
                assert(unhex_pairs(b) == Err::<Seq<u8>, Seq<char>>(m@));
                assert(unhex_spec(value.spec_bytes()) == Err::<Seq<u8>, Seq<char>>(m@));
                return Err(AppError::Auth(m));
            },
            Ok(_) => {},
        }
        let x = chunk[0];
        let y = chunk[1];
        let v: u8 = if x == 43 {
            match hex_value_of(y) {
                Some(d) => d,
                None => {
                    return Err(AppError::Auth(string_of("invalid digit found in string")));
                },
            }
        } else {
            match (hex_value_of(x), hex_value_of(y)) {
                (Some(h), Some(l)) => h * 16 + l,
                _ => {
                    return Err(AppError::Auth(string_of("invalid digit found in string")));
                },
            }
        };
        assert(chunk_value(rest.take(2)) == Ok::<u8, Seq<char>>(v));
        let ghost old_out = out@;
        out.push(v);
        proof {
            match unhex_pairs(b.skip(i + 2)) {
                Ok(r2) => {
                    assert(old_out + (seq![v] + r2) =~= out@ + r2);
                },
                Err(_) => {},
            }
        }
        i = i + 2;
    }
    assert(b.skip(b.len() as int) =~= Seq::<u8>::empty());
    assert(out@ + Seq::<u8>::empty() =~= out@);
    Ok(out)
}

/// Equality of two byte strings, examining every byte pair whatever the contents.
pub fn constant_time_eq(left: &[u8], right: &[u8]) -> (r: bool)
    ensures
        r == (left@ == right@),
{
    if left.len() != right.len() {
        return false;
    }
    let mut diff: u8 = 0;
    let mut i: usize = 0;
    while i < left.len()
        invariant
            i <= left@.len(),
            left@.len() == right@.len(),
            (diff == 0) <==> (forall|k: int| 0 <= k < i ==> left@[k] == right@[k]),
        decreases left.len() - i,
    {
        let a = left[i];
        let b = right[i];
        let x = a ^ b;
        assert((x == 0) <==> (a == b)) by (bit_vector)
            requires
                x == a ^ b,
        ;
        let d = diff | x;
        assert((d == 0) <==> (diff == 0 && x == 0)) by (bit_vector)
            requires
                d == diff | x,
        ;
        diff = d;
        i = i + 1;
    }
    if diff == 0 {
        assert(left@ =~= right@);
    }
    diff == 0
}

// ---------------------------------------------------------------------------
// Laws
// ---------------------------------------------------------------------------

proof fn lemma_hex_digit_byte(d: int)
    requires
        0 <= d < 16,
    ensures
        is_hex_byte(hex_digit(d) as u8),
        hex_value(hex_digit(d) as u8) == d,
        (hex_digit(d) as u8) != 43,
        '\0' <= hex_digit(d) <= '\u{7f}',
{
    let c = hex_digit(d);
    if d < 10 {
        assert((48 + d) as char == c);
        vstd::utf8::char_u32_cast(c, (48 + d) as u32);
    } else {
        vstd::utf8::char_u32_cast(c, (87 + d) as u32);
    }
    assert(c as u8 == (if d < 10 { 48 + d } else { 87 + d }));
}

/// The text of `hex` consists of the digits `0`-`9` and `a`-`f`.
pub proof fn lemma_hex_seq_digits(bytes: Seq<u8>)
    ensures
        forall|i: int|
            0 <= i < hex_seq(bytes).len() ==> ('0' <= #[trigger] hex_seq(bytes)[i] <= '9') || ('a'
                <= hex_seq(bytes)[i] <= 'f'),
{
    assert forall|i: int| 0 <= i < hex_seq(bytes).len() implies ('0' <= #[trigger] hex_seq(bytes)[i]
        <= '9') || ('a' <= hex_seq(bytes)[i] <= 'f') by {
        let d = if i % 2 == 0 {
            (bytes[i / 2] / 16) as int
        } else {
            (bytes[i / 2] % 16) as int
        };
        let c = hex_digit(d);
        assert(hex_seq(bytes)[i] == c);
        vstd::utf8::char_u32_cast(c, c as u32);
        if d < 10 {
            assert((c as u32) as int == 48 + d);
        } else {
            assert((c as u32) as int == 87 + d);
        }
    }
}

/// Decoding the text of `hex` gives back the bytes it encoded.
pub proof fn lemma_unhex_of_hex(bytes: Seq<u8>)
    ensures
        unhex_spec(encode_utf8(hex_seq(bytes))) == Ok::<Seq<u8>, Seq<char>>(bytes),
    decreases bytes.len(),
{
    let text = hex_seq(bytes);
    assert forall|i: int| 0 <= i < text.len() implies '\0' <= #[trigger] text[i] <= '\u{7f}' by {
        if i % 2 == 0 {
            lemma_hex_digit_byte((bytes[i / 2] / 16) as int);
        } else {
            lemma_hex_digit_byte((bytes[i / 2] % 16) as int);
        }
    }
    vstd::utf8::is_ascii_chars_encode_utf8(text);
    lemma_unhex_pairs_of_hex(bytes);
}

proof fn lemma_unhex_pairs_of_hex(bytes: Seq<u8>)
    ensures
        unhex_pairs(encode_utf8(hex_seq(bytes))) == Ok::<Seq<u8>, Seq<char>>(bytes),
    decreases bytes.len(),
{
    let text = hex_seq(bytes);
    assert forall|i: int| 0 <= i < text.len() implies '\0' <= #[trigger] text[i] <= '\u{7f}' by {
        if i % 2 == 0 {
            lemma_hex_digit_byte((bytes[i / 2] / 16) as int);
        } else {
            lemma_hex_digit_byte((bytes[i / 2] % 16) as int);
        }
    }
    vstd::utf8::is_ascii_chars_encode_utf8(text);
    let enc = encode_utf8(text);
    if bytes.len() == 0 {
        assert(enc.len() == 0);
        assert(bytes =~= Seq::<u8>::empty());
    } else {
        let b0 = bytes[0];
        let hi = hex_digit((b0 / 16) as int);
        let lo = hex_digit((b0 % 16) as int);
        lemma_hex_digit_byte((b0 / 16) as int);
        lemma_hex_digit_byte((b0 % 16) as int);
        let tail = bytes.drop_first();
        let tail_text = hex_seq(tail);
        assert(text =~= seq![hi, lo] + tail_text);
        assert forall|i: int| 0 <= i < tail_text.len() implies '\0' <= #[trigger] tail_text[i] <= '\u{7f}' by {
            assert(tail_text[i] == text[i + 2]);
        }
        vstd::utf8::is_ascii_chars_encode_utf8(tail_text);
        vstd::utf8::is_ascii_chars_encode_utf8(seq![hi, lo]);
        assert(enc.take(2) =~= encode_utf8(seq![hi, lo]));
        assert(enc.skip(2) =~= encode_utf8(tail_text));
        vstd::utf8::encode_utf8_valid_utf8(seq![hi, lo]);
        assert(pair_value(hi as u8, lo as u8) == Some(b0)) by {
            assert(16 * ((b0 / 16) as int) + (b0 % 16) as int == b0);
        }
        let pair = seq![hi, lo];
        assert(enc.take(2)[0] == encode_utf8(pair)[0]);
        assert(enc.take(2)[1] == encode_utf8(pair)[1]);
        assert(pair[0] as u8 == encode_utf8(pair)[0]);
        assert(pair[1] as u8 == encode_utf8(pair)[1]);
        assert(valid_utf8(enc.take(2)));
        assert(chunk_value(enc.take(2)) == Ok::<u8, Seq<char>>(b0));
        lemma_unhex_pairs_of_hex(tail);
        assert(unhex_pairs(enc.skip(2)) == Ok::<Seq<u8>, Seq<char>>(tail));
        assert(enc.len() >= 2);
        assert(unhex_pairs(enc) == Ok::<Seq<u8>, Seq<char>>(seq![b0] + tail));
        assert(seq![b0] + tail =~= bytes);
    }
}

} // verus!
