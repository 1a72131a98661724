//! The small HTTP/1.1 client of the sign-on exchange: the request it writes,
//! and how it reads a response, chunked bodies included.
use vstd::prelude::*;

use crate::error::AppError;
use crate::hexcode::{utf8_decode, utf8_error_text};
use crate::scan::{parse_u16, parse_u16_seq, split_char, split_on};
use crate::text::{
    append, decimal_seq, eq_ignore_ascii_case, eq_ignore_ascii_case_seq, from_chars,
    is_white_space, is_white_space_char, push_char, push_decimal, string_of, to_chars, trim,
    trim_seq, views,
};
use crate::url::SimpleUrl;
use vstd::utf8::{decode_utf8, encode_utf8, valid_utf8};

verus! {

// ---------------------------------------------------------------------------
// Byte search
// ---------------------------------------------------------------------------

/// `p` occurs in `s` at `i`.
pub open spec fn bytes_at(s: Seq<u8>, p: Seq<u8>, i: int) -> bool {
    0 <= i && i + p.len() <= s.len() && s.subrange(i, i + p.len()) == p
}

/// `i` is the first position of `p` in `s`.
pub open spec fn is_first_bytes(s: Seq<u8>, p: Seq<u8>, i: int) -> bool {
    bytes_at(s, p, i) && forall|k: int| 0 <= k < i ==> !bytes_at(s, p, k)
}

/// The first position of `p` in `s`, as `windows(..).position(..)` finds it.
pub open spec fn first_bytes(s: Seq<u8>, p: Seq<u8>) -> Option<int> {
    if exists|i: int| is_first_bytes(s, p, i) {
        Some(choose|i: int| is_first_bytes(s, p, i))
    } else {
        None
    }
}

fn bytes_here(v: &[u8], p: &[u8], at: usize) -> (b: bool)
    requires
        at + p@.len() <= v@.len(),
    ensures
        b == bytes_at(v@, p@, at as int),
{
    let mut k: usize = 0;
    while k < p.len()
        invariant
            at + p@.len() <= v@.len(),
            v@.len() == v.len(),
            k <= p@.len(),
            forall|m: int| 0 <= m < k ==> v@[at + m] == p@[m],
        decreases p.len() - k,
    {
        if v[at + k] != p[k] {
            assert(v@.subrange(at as int, at + p@.len())[k as int] != p@[k as int]);
            return false;
        }
        k = k + 1;
    }
    assert(v@.subrange(at as int, at + p@.len()) =~= p@);
    true
}

/// The first position of a non-empty pattern `p` in `v`.
pub fn find_bytes(v: &[u8], p: &[u8]) -> (r: Option<usize>)
    requires
        p@.len() > 0,
    ensures
        match r {
            Some(i) => first_bytes(v@, p@) == Some(i as int),
            None => first_bytes(v@, p@) is None,
        },
{
    if p.len() > v.len() {
        assert forall|j: int| !is_first_bytes(v@, p@, j) by {}
        return None;
    }
    let last = v.len() - p.len();
    let mut i: usize = 0;
    while i <= last
        invariant
            0 < p@.len() <= v@.len(),
            last == v@.len() - p@.len(),
            last < usize::MAX,
            i <= last + 1,
            forall|k: int| 0 <= k < i ==> !bytes_at(v@, p@, k),
        decreases last + 1 - i,
    {
        if bytes_here(v, p, i) {
            assert(is_first_bytes(v@, p@, i as int));
            let ghost j = choose|j: int| is_first_bytes(v@, p@, j);
            assert(j == i as int) by {
                if j < i {
                    assert(!bytes_at(v@, p@, j));
                } else if j > i {
                    assert(!bytes_at(v@, p@, i as int));
                }
            }
            return Some(i);
        }
        i = i + 1;
    }
    assert forall|j: int| !is_first_bytes(v@, p@, j) by {
        if 0 <= j <= last {
            assert(!bytes_at(v@, p@, j));
        }
    }
    None
}

// ---------------------------------------------------------------------------
// Reading text
// ---------------------------------------------------------------------------

/// `s` without one trailing `c`, if it has one.
pub open spec fn strip_one(s: Seq<char>, c: char) -> Seq<char> {
    if s.len() > 0 && s.last() == c {
        s.drop_last()
    } else {
        s
    }
}

/// The lines of `s`, as `str::lines` gives them: split at `\n`, a `\r` just
/// before a `\n` dropped, and no empty line after a final `\n`.
pub open spec fn lines_of(s: Seq<char>) -> Seq<Seq<char>> {
    let pieces = split_on(s, '\n');
    let n = pieces.len() - 1;
    let ended = Seq::new(n as nat, |i: int| strip_one(pieces[i], '\r'));
    if pieces[n].len() == 0 {
        ended
    } else {
        ended.push(pieces[n])
    }
}

/// The words of `s`, as `str::split_whitespace` gives them.
pub open spec fn words_of(s: Seq<char>) -> Seq<Seq<char>>
    decreases s.len(),
{
    if s.len() == 0 {
        seq![]
    } else if is_white_space(s.last()) {
        words_of(s.drop_last())
    } else if s.len() >= 2 && !is_white_space(s[s.len() - 2]) {
        let w = words_of(s.drop_last());
        w.update(w.len() - 1, w.last().push(s.last()))
    } else {
        words_of(s.drop_last()).push(seq![s.last()])
    }
}

proof fn lemma_words_nonempty(s: Seq<char>)
    requires
        s.len() > 0,
        !is_white_space(s.last()),
    ensures
        words_of(s).len() > 0,
    decreases s.len(),
{
    if s.len() >= 2 && !is_white_space(s[s.len() - 2]) {
        assert(s.drop_last().last() == s[s.len() - 2]);
        lemma_words_nonempty(s.drop_last());
    }
}

/// The words of `s`.
pub fn split_words(s: &str) -> (words: Vec<String>)
    ensures
        views(words@) == words_of(s@),
{
    let v = to_chars(s);
    let mut words: Vec<String> = Vec::new();
    let mut cur = String::new();
    let mut i: usize = 0;
    assert(v@.take(0) =~= Seq::<char>::empty());
    while i < v.len()
        invariant
            i <= v@.len(),
            v@ == s@,
            cur@.len() > 0 ==> (i > 0 && !is_white_space(v@[i - 1])),
            (i > 0 && !is_white_space(v@[i - 1])) ==> cur@.len() > 0,
            if cur@.len() > 0 {
                views(words@).push(cur@) == words_of(v@.take(i as int))
            } else {
                views(words@) == words_of(v@.take(i as int))
            },
        decreases v.len() - i,
    {
        let c = v[i];
        let ghost prefix = v@.take(i + 1);
        assert(prefix.drop_last() =~= v@.take(i as int));
        assert(prefix.last() == c);
        let ghost before = views(words@);
        let ghost cur_before = cur@;
        if is_white_space_char(c) {
            if cur.as_str().unicode_len() > 0 {
                let w = cur;
                words.push(w);
                cur = String::new();
                assert(views(words@) =~= before.push(cur_before));
            }
        } else {
            if i > 0 {
                assert(prefix[prefix.len() - 2] == v@[i - 1]);
            }
            push_char(&mut cur, c);
            proof {
                if cur_before.len() > 0 {
                    assert(views(words@).push(cur@) =~= before.push(cur_before).update(
                        before.len() as int,
                        cur_before.push(c),
                    ));
                } else {
                    assert(cur_before =~= Seq::<char>::empty());
                    assert(cur@ =~= seq![c]);
                    assert(views(words@).push(cur@) =~= before.push(seq![c]));
                }
            }
        }
        i = i + 1;
    }
    assert(v@.take(v@.len() as int) =~= v@);
    if cur.as_str().unicode_len() > 0 {
        let ghost before = views(words@);
        words.push(cur);
        assert(views(words@) =~= before.push(cur@));
    }
    words
}

/// The lines of `s`.
pub fn split_lines(s: &str) -> (lines: Vec<String>)
    ensures
        views(lines@) == lines_of(s@),
{
    let pieces = split_char(s, '\n');
    let ghost p = views(pieces@);
    proof {
        crate::scan::lemma_split_nonempty(s@, '\n');
    }
    let n = pieces.len() - 1;
    let mut lines: Vec<String> = Vec::new();
    let mut i: usize = 0;
    while i < n
        invariant
            i <= n,
            n == pieces@.len() - 1,
            p == views(pieces@),
            views(lines@) == Seq::new(i as nat, |k: int| strip_one(p[k], '\r')),
        decreases n - i,
    {
        let v = to_chars(pieces[i].as_str());
        let line = if v.len() > 0 && v[v.len() - 1] == '\r' {
            from_chars(&v.as_slice()[0..v.len() - 1])
        } else {
            from_chars(v.as_slice())
        };
        assert(line@ =~= strip_one(p[i as int], '\r'));
        let ghost before = views(lines@);
        lines.push(line);
        assert(views(lines@) =~= before.push(line@));
        assert(views(lines@) =~= Seq::new((i + 1) as nat, |k: int| strip_one(p[k], '\r')));
        i = i + 1;
    }
    if pieces[n].as_str().unicode_len() > 0 {
        let ghost before = views(lines@);
        lines.push(pieces[n].clone());
        assert(views(lines@) =~= before.push(p[n as int]));
    }
    lines
}

// ---------------------------------------------------------------------------
// Hexadecimal sizes
// ---------------------------------------------------------------------------

/// The message of an empty number.
pub open spec fn empty_number_message() -> Seq<char> {
    "cannot parse integer from empty string"@
}

/// The message of a character that is not a digit.
pub open spec fn invalid_digit_message() -> Seq<char> {
    "invalid digit found in string"@
}

/// The message of a number too large for its type.
pub open spec fn too_large_message() -> Seq<char> {
    "number too large to fit in target type"@
}

/// The value of a hexadecimal digit of either case.
pub open spec fn hex_char_value(c: char) -> Option<int> {
    if '0' <= c <= '9' {
        Some((c as int) - 48)
    } else if 'a' <= c <= 'f' {
        Some((c as int) - 87)
    } else if 'A' <= c <= 'F' {
        Some((c as int) - 55)
    } else {
        None
    }
}

/// Reading hexadecimal digits onto `acc`, left to right: the first character
/// that is not a digit, or the first digit that takes the value past
/// `usize::MAX`, ends the reading with its error.
pub open spec fn hex_scan(digits: Seq<char>, acc: int) -> Result<int, Seq<char>>
    decreases digits.len(),
{
    if digits.len() == 0 {
        Ok(acc)
    } else {
        match hex_char_value(digits[0]) {
            None => Err(invalid_digit_message()),
            Some(d) => if acc * 16 + d > usize::MAX {
                Err(too_large_message())
            } else {
                hex_scan(digits.drop_first(), acc * 16 + d)
            },
        }
    }
}

/// What `usize::from_str_radix(s, 16)` gives, with the message of its error.
pub open spec fn parse_hex_usize_seq(s: Seq<char>) -> Result<int, Seq<char>> {
    if s.len() == 0 {
        Err(empty_number_message())
    } else if s.len() == 1 && (s[0] == '+' || s[0] == '-') {
        Err(invalid_digit_message())
    } else if s[0] == '+' {
        hex_scan(s.drop_first(), 0)
    } else {
        hex_scan(s, 0)
    }
}

/// Reads a hexadecimal size as `usize::from_str_radix(_, 16)` does.
pub fn parse_hex_usize(s: &str) -> (r: Result<usize, String>)
    ensures
        match r {
            Ok(n) => parse_hex_usize_seq(s@) == Ok::<int, Seq<char>>(n as int),
            Err(m) => parse_hex_usize_seq(s@) == Err::<int, Seq<char>>(m@),
        },
{
    let v = to_chars(s);
    if v.len() == 0 {
        return Err(string_of("cannot parse integer from empty string"));
    }
    if v.len() == 1 && (v[0] == '+' || v[0] == '-') {
        return Err(string_of("invalid digit found in string"));
    }
    let start: usize = if v[0] == '+' { 1 } else { 0 };
    let ghost digits = if s@[0] == '+' { s@.drop_first() } else { s@ };
    assert(digits =~= v@.skip(start as int));
    let mut acc: u128 = 0;
    let mut i: usize = start;
    while i < v.len()
        invariant
            start <= i <= v@.len(),
            digits == v@.skip(start as int),
            v@ == s@,
            parse_hex_usize_seq(s@) == hex_scan(digits, 0),
            acc <= usize::MAX,
            hex_scan(digits, 0) == hex_scan(v@.skip(i as int), acc as int),
        decreases v.len() - i,
    {
        let c = v[i];
        let ghost rest = v@.skip(i as int);
        assert(rest[0] == c);
        assert(rest.drop_first() =~= v@.skip(i + 1));
        let d: u128 = if '0' <= c && c <= '9' {
            ((c as u32) - 48) as u128
        } else if 'a' <= c && c <= 'f' {
            ((c as u32) - 87) as u128
        } else if 'A' <= c && c <= 'F' {
            ((c as u32) - 55) as u128
        } else {
            return Err(string_of("invalid digit found in string"));
        };
        let next = acc * 16 + d;
        if next > usize::MAX as u128 {
            return Err(string_of("number too large to fit in target type"));
        }
        acc = next;
        i = i + 1;
    }
    assert(v@.skip(v@.len() as int) =~= Seq::<char>::empty());
    Ok(acc as usize)
}

// ---------------------------------------------------------------------------
// Chunked bodies
// ---------------------------------------------------------------------------

/// Prepends `out` to what decoding the rest gives.
pub open spec fn after(out: Seq<u8>, r: Option<Result<Seq<u8>, Seq<char>>>) -> Option<
    Result<Seq<u8>, Seq<char>>,
> {
    match r {
        Some(Ok(t)) => Some(Ok(out + t)),
        other => other,
    }
}

/// The carriage return and line feed that end a chunk-size line.
pub open spec fn crlf() -> Seq<u8> {
    seq![13u8, 10u8]
}

/// The size of the chunk that a size line (with its extensions) announces.
pub open spec fn chunk_size_of(line: Seq<u8>) -> Result<int, Seq<char>> {
    if !valid_utf8(line) {
        Err(utf8_error_text(line))
    } else {
        parse_hex_usize_seq(trim_seq(split_on(decode_utf8(line), ';')[0]))
    }
}

/// What decoding a chunked body gives: its data, or the message of the first
/// error; `None` for a chunk size so large that the decoder panics.
pub open spec fn dechunk(body: Seq<u8>) -> Option<Result<Seq<u8>, Seq<char>>>
    decreases body.len(),
{
    match first_bytes(body, crlf()) {
        None => Some(Err("invalid chunked response"@)),
        Some(le) => {
            let rest = body.skip(le + 2);
            match chunk_size_of(body.take(le)) {
                Err(m) => Some(Err(m)),
                Ok(size) => if size == 0 {
                    Some(Ok(Seq::<u8>::empty()))
                } else if size >= usize::MAX - 1 {
                    None
                } else if rest.len() < size + 2 {
                    Some(Err("truncated chunked response"@))
                } else if 0 <= le && 0 <= size && le + 2 + size + 2 <= body.len() {
                    proof {
                        assert(rest.len() == body.len() - (le + 2));
                        assert(rest.skip(size + 2).len() == rest.len() - (size + 2));
                    }
                    after(rest.take(size), dechunk(rest.skip(size + 2)))
                } else {
                    None
                },
            }
        },
    }
}

proof fn lemma_first_bytes(s: Seq<u8>, p: Seq<u8>, i: int)
    requires
        first_bytes(s, p) == Some(i),
    ensures
        bytes_at(s, p, i),
{
}

/// Decodes a body sent with `Transfer-Encoding: chunked`, or gives `None`
/// for a chunk size so large that the size and its line end overflow.
pub fn dechunk_checked(body: &[u8]) -> (r: Option<Result<Vec<u8>, AppError>>)
    ensures
        match r {
            None => dechunk(body@) is None,
            Some(Ok(v)) => dechunk(body@) == Some(Ok::<Seq<u8>, Seq<char>>(v@)),
            Some(Err(e)) => e is Auth && dechunk(body@) == Some(Err::<Seq<u8>, Seq<char>>(e->Auth_0@)),
        },
{
    let crlf_bytes: Vec<u8> = vec![13u8, 10u8];
    assert(crlf_bytes@ =~= crlf());
    let mut out: Vec<u8> = Vec::new();
    let mut pos: usize = 0;
    assert(body@.skip(0) =~= body@);
    assert(Seq::<u8>::empty() + Seq::<u8>::empty() =~= Seq::<u8>::empty());
    loop
        invariant
            pos <= body@.len(),
            crlf_bytes@ == crlf(),
            dechunk(body@) == after(out@, dechunk(body@.skip(pos as int))),
        decreases body@.len() - pos,
    {
        let rest = &body[pos..body.len()];
        let ghost cur = body@.skip(pos as int);
        assert(rest@ =~= cur);
        let line_end = match find_bytes(rest, crlf_bytes.as_slice()) {
            Some(le) => le,
            None => {
                return Some(Err(AppError::Auth(string_of("invalid chunked response"))));
            },
        };
        proof {
            lemma_first_bytes(cur, crlf(), line_end as int);
        }
        let line = &rest[0..line_end];
        assert(line@ =~= cur.take(line_end as int));
        let text = match utf8_decode(line) {
            Ok(t) => t,
            Err(m) => {
                return Some(Err(AppError::Auth(m)));
            },
        };
        proof {
            vstd::utf8::encode_utf8_decode_utf8(text@);
            assert(decode_utf8(line@) == text@);
        }
        let fields = split_char(text.as_str(), ';');
        proof {
            crate::scan::lemma_split_nonempty(text@, ';');
        }
        let size_raw = trim(fields[0].as_str());
        let size = match parse_hex_usize(size_raw.as_str()) {
            Ok(n) => n,
            Err(m) => {
                return Some(Err(AppError::Auth(m)));
            },
        };
        let next = pos + line_end + 2;
        let ghost tail = cur.skip(line_end + 2);
        assert(body@.skip(next as int) =~= tail);
        if size == 0 {
            assert(out@ + Seq::<u8>::empty() =~= out@);
            return Some(Ok(out));
        }
        if size >= usize::MAX - 1 {
            return None;
        }
        if body.len() - next < size + 2 {
            return Some(Err(AppError::Auth(string_of("truncated chunked response"))));
        }
        let chunk = &body[next..next + size];
        assert(chunk@ =~= tail.take(size as int));
        let ghost old_out = out@;
        let mut k: usize = 0;
        while k < chunk.len()
            invariant
                k <= chunk@.len(),
                out@ == old_out + chunk@.take(k as int),
            decreases chunk.len() - k,
        {
            out.push(chunk[k]);
            assert(chunk@.take(k + 1) =~= chunk@.take(k as int).push(chunk@[k as int]));
            k = k + 1;
        }
        assert(chunk@.take(chunk@.len() as int) =~= chunk@);
        assert(body@.skip((next + size + 2) as int) =~= tail.skip(size + 2));
        proof {
            match dechunk(tail.skip(size + 2)) {
                Some(Ok(t2)) => {
                    assert(old_out + (chunk@ + t2) =~= out@ + t2);
                },
                _ => {},
            }
        }
        pos = next + size + 2;
    }
}

/// Decodes a body sent with `Transfer-Encoding: chunked`.
pub fn decode_chunked(body: &[u8]) -> (r: Result<Vec<u8>, AppError>)
    requires
        dechunk(body@) is Some,
    ensures
        match r {
            Ok(v) => dechunk(body@) == Some(Ok::<Seq<u8>, Seq<char>>(v@)),
            Err(e) => e is Auth && dechunk(body@) == Some(Err::<Seq<u8>, Seq<char>>(e->Auth_0@)),
        },
{
    match dechunk_checked(body) {
        Some(r) => r,
        None => Err(AppError::Auth(string_of("invalid chunked response"))),
    }
}

// ---------------------------------------------------------------------------
// Responses
// ---------------------------------------------------------------------------

/// A vector holding the bytes of `s`.
pub fn copy_bytes(s: &[u8]) -> (v: Vec<u8>)
    ensures
        v@ == s@,
{
    let mut v: Vec<u8> = Vec::new();
    let mut k: usize = 0;
    while k < s.len()
        invariant
            k <= s@.len(),
            v@ == s@.take(k as int),
        decreases s.len() - k,
    {
        v.push(s[k]);
        assert(s@.take(k + 1) =~= s@.take(k as int).push(s@[k as int]));
        k = k + 1;
    }
    assert(s@.take(s@.len() as int) =~= s@);
    v
}

/// Names the text that `String::from_utf8_lossy` makes of bytes.
pub uninterp spec fn utf8_lossy(bytes: Seq<u8>) -> Seq<char>;

/// Calls `String::from_utf8_lossy`, which leaves valid UTF-8 as it is.
#[verifier::external_body]
fn lossy_text(bytes: &[u8]) -> (r: String)
    ensures
        r@ == utf8_lossy(bytes@),
        valid_utf8(bytes@) ==> r@ == decode_utf8(bytes@),
{
    String::from_utf8_lossy(bytes).into_owned()
}

/// The blank line that ends the header of a response.
pub open spec fn header_terminator() -> Seq<u8> {
    seq![13u8, 10u8, 13u8, 10u8]
}

/// The status code of a status line: its second word as a number, else 500.
pub open spec fn status_of(lines: Seq<Seq<char>>) -> u16 {
    let status_line = if lines.len() > 0 {
        lines[0]
    } else {
        Seq::<char>::empty()
    };
    let words = words_of(status_line);
    if words.len() >= 2 {
        match parse_u16_seq(words[1]) {
            Some(s) => s,
            None => 500,
        }
    } else {
        500
    }
}

/// Some header line after the status line announces a chunked body.
pub open spec fn announces_chunked(lines: Seq<Seq<char>>) -> bool {
    exists|i: int|
        1 <= i < lines.len() && eq_ignore_ascii_case_seq(
            #[trigger] lines[i],
            "transfer-encoding: chunked"@,
        )
}

/// The text of a response head: its decoding when it is valid UTF-8, else
/// the lossy decoding.
pub open spec fn head_text(head: Seq<u8>) -> Seq<char> {
    if valid_utf8(head) {
        decode_utf8(head)
    } else {
        utf8_lossy(head)
    }
}

/// What reading a response gives: the body as text, or the message of the
/// error; `None` where the chunked decoder panics.
pub open spec fn response_text(response: Seq<u8>) -> Option<Result<Seq<char>, Seq<char>>> {
    match first_bytes(response, header_terminator()) {
        None => Some(Err("invalid HTTP response from OIDC provider"@)),
        Some(split) => {
            let lines = lines_of(head_text(response.take(split)));
            let status = status_of(lines);
            let body = response.skip(split + 4);
            if !(200 <= status < 300) {
                Some(Err("OIDC provider returned HTTP status "@ + decimal_seq(status as nat)))
            } else {
                let bytes = if announces_chunked(lines) {
                    dechunk(body)
                } else {
                    Some(Ok(body))
                };
                match bytes {
                    None => None,
                    Some(Err(m)) => Some(Err(m)),
                    Some(Ok(b)) => if valid_utf8(b) {
                        Some(Ok(decode_utf8(b)))
                    } else {
                        Some(Err(utf8_error_text(b)))
                    },
                }
            }
        },
    }
}

/// Reads the body of a response as text, failing on a status outside 200–299;
/// `None` for a chunked body with a chunk size so large that it overflows.
pub fn read_http_response(response: &[u8]) -> (r: Option<Result<String, AppError>>)
    ensures
        match r {
            None => response_text(response@) is None,
            Some(Ok(s)) => response_text(response@) == Some(Ok::<Seq<char>, Seq<char>>(s@)),
            Some(Err(e)) => e is Auth && response_text(response@) == Some(
                Err::<Seq<char>, Seq<char>>(e->Auth_0@),
            ),
        },
{
    let terminator: Vec<u8> = vec![13u8, 10u8, 13u8, 10u8];
    assert(terminator@ =~= header_terminator());
    let split = match find_bytes(response, terminator.as_slice()) {
        Some(s) => s,
        None => {
            return Some(Err(AppError::Auth(string_of("invalid HTTP response from OIDC provider"))));
        },
    };
    proof {
        lemma_first_bytes(response@, header_terminator(), split as int);
    }
    let head = &response[0..split];
    assert(head@ =~= response@.take(split as int));
    let header_raw = lossy_text(head);
    let lines = split_lines(header_raw.as_str());
    let ghost ls = views(lines@);
    let mut status: u16 = 500;
    if lines.len() > 0 {
        let words = split_words(lines[0].as_str());
        if words.len() >= 2 {
            assert(views(words@)[1] == words@[1]@);
            status = match parse_u16(words[1].as_str()) {
                Some(s) => s,
                None => 500,
            };
        }
    } else {
        proof {
            assert(words_of(Seq::<char>::empty()) =~= Seq::<Seq<char>>::empty());
        }
    }
    assert(status == status_of(ls));
    if !(200 <= status && status < 300) {
        let mut msg = string_of("OIDC provider returned HTTP status ");
        push_decimal(&mut msg, status as u64);
        return Some(Err(AppError::Auth(msg)));
    }
    let mut chunked = false;
    let mut i: usize = 1;
    while i < lines.len()
        invariant
            1 <= i <= lines@.len() || lines@.len() == 0,
            ls == views(lines@),
            chunked == exists|k: int|
                1 <= k < i && eq_ignore_ascii_case_seq(#[trigger] ls[k], "transfer-encoding: chunked"@),
        decreases lines.len() - i,
    {
        if eq_ignore_ascii_case(lines[i].as_str(), "transfer-encoding: chunked") {
            assert(ls[i as int] == lines@[i as int]@);
            chunked = true;
        }
        i = i + 1;
    }
    assert(chunked == announces_chunked(ls));
    assert(split + 4 <= response@.len());
    assert(response@.len() == response.len());
    let body = &response[split + 4..response.len()];
    assert(body@ =~= response@.skip(split + 4));
    let bytes: Vec<u8> = if chunked {
        match dechunk_checked(body) {
            Some(Ok(b)) => b,
            Some(Err(e)) => {
                return Some(Err(e));
            },
            None => {
                return None;
            },
        }
    } else {
        copy_bytes(body)
    };
    match utf8_decode(bytes.as_slice()) {
        Ok(s) => {
            proof {
                vstd::utf8::encode_utf8_decode_utf8(s@);
            }
            Some(Ok(s))
        },
        Err(m) => Some(Err(AppError::Auth(m))),
    }
}

/// Reads the body of a response as text, failing on a status outside 200–299.
pub fn parse_http_response(response: &[u8]) -> (r: Result<String, AppError>)
    requires
        response_text(response@) is Some,
    ensures
        match r {
            Ok(s) => response_text(response@) == Some(Ok::<Seq<char>, Seq<char>>(s@)),
            Err(e) => e is Auth && response_text(response@) == Some(
                Err::<Seq<char>, Seq<char>>(e->Auth_0@),
            ),
        },
{
    match read_http_response(response) {
        Some(r) => r,
        None => Err(AppError::Auth(string_of("invalid chunked response"))),
    }
}

// ---------------------------------------------------------------------------
// Requests
// ---------------------------------------------------------------------------

/// The head of a request: request line, fixed headers, the optional content
/// type and authorization, and the blank line.
pub open spec fn request_head_seq(
    method: Seq<char>,
    path_query: Seq<char>,
    host: Seq<char>,
    body_len: nat,
    content_type: Option<Seq<char>>,
    authorization: Option<Seq<char>>,
) -> Seq<char> {
    method + " "@ + path_query + " HTTP/1.1\r\nHost: "@ + host
        + "\r\nUser-Agent: dmarcontrol/0.1\r\nAccept: application/json\r\nConnection: close\r\nContent-Length: "@
        + decimal_seq(body_len) + "\r\n"@ + match content_type {
        Some(c) => "Content-Type: "@ + c + "\r\n"@,
        None => Seq::<char>::empty(),
    } + match authorization {
        Some(a) => "Authorization: "@ + a + "\r\n"@,
        None => Seq::<char>::empty(),
    } + "\r\n"@
}

/// The head of a request to `url` with a body of `body_len` bytes.
pub fn request_head(
    method: &str,
    url: &SimpleUrl,
    body_len: usize,
    content_type: Option<&str>,
    authorization: Option<&str>,
) -> (r: String)
    ensures
        r@ == request_head_seq(
            method@,
            url.path_query@,
            url.host@,
            body_len as nat,
            crate::oidc::opt_view(content_type),
            crate::oidc::opt_view(authorization),
        ),
{
    let mut r = string_of(method);
    append(&mut r, " ");
    append(&mut r, url.path_query.as_str());
    append(&mut r, " HTTP/1.1\r\nHost: ");
    append(&mut r, url.host.as_str());
    append(
        &mut r,
        "\r\nUser-Agent: dmarcontrol/0.1\r\nAccept: application/json\r\nConnection: close\r\nContent-Length: ",
    );
    push_decimal(&mut r, body_len as u64);
    append(&mut r, "\r\n");
    let ghost base = r@;
    match content_type {
        Some(c) => {
            append(&mut r, "Content-Type: ");
            append(&mut r, c);
            append(&mut r, "\r\n");
        },
        None => {},
    }
    let ghost with_type = r@;
    match authorization {
        Some(a) => {
            append(&mut r, "Authorization: ");
            append(&mut r, a);
            append(&mut r, "\r\n");
        },
        None => {},
    }
    append(&mut r, "\r\n");
    assert(r@ =~= request_head_seq(
        method@,
        url.path_query@,
        url.host@,
        body_len as nat,
        crate::oidc::opt_view(content_type),
        crate::oidc::opt_view(authorization),
    ));
    r
}

} // verus!
