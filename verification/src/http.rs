//! Reading the renderer's reply to a request: the status line, the headers
//! up to the blank line, a body of `Content-Length` bytes, and the verdict.

use vstd::prelude::*;

use crate::text::{
    chars_of, decimal, decimal_string, is_ws, parse_u16, parse_u16_chars, parse_usize,
    parse_usize_chars, push_str, string_from_chars, sub_chars, trim, trim_chars, trim_start,
};

verus! {

/// What decoding `b` as UTF-8 gives (`str::from_utf8`), none for invalid bytes.
pub uninterp spec fn utf8_text(b: Seq<u8>) -> Option<Seq<char>>;

/// What `String::from_utf8_lossy` gives for `b`.
pub uninterp spec fn utf8_lossy_text(b: Seq<u8>) -> Seq<char>;

/// UTF-8 decoding of a byte slice (wraps `std::str::from_utf8`).
#[verifier::external_body]
fn decode_utf8(b: &[u8]) -> (r: Option<String>)
    ensures
        match r {
            Some(s) => utf8_text(b@) == Some(s@),
            None => utf8_text(b@) is None,
        },
{
    std::str::from_utf8(b).ok().map(|s| s.to_owned())
}

/// Lossy UTF-8 decoding of a byte slice (wraps `String::from_utf8_lossy`).
#[verifier::external_body]
pub(crate) fn decode_utf8_lossy(b: &[u8]) -> (r: String)
    ensures
        r@ == utf8_lossy_text(b@),
{
    String::from_utf8_lossy(b).into_owned()
}

/// Why a reply is refused.
#[derive(Debug, PartialEq, Eq)]
pub enum MascotResponseError {
    ReadStatusLine,
    EmptyResponse,
    MissingStatusCode,
    InvalidStatusCode,
    ReadHeader,
    UnexpectedEof,
    InvalidContentLength,
    ReadBody,
    /// A status outside 200..300, with the trimmed body.
    Status { path: String, code: u16, body: String },
}

/// `MascotResponseError` with its texts as character sequences.
pub enum ResponseFailure {
    ReadStatusLine,
    EmptyResponse,
    MissingStatusCode,
    InvalidStatusCode,
    ReadHeader,
    UnexpectedEof,
    InvalidContentLength,
    ReadBody,
    Status(Seq<char>, u16, Seq<char>),
}

impl View for MascotResponseError {
    type V = ResponseFailure;

    open spec fn view(&self) -> ResponseFailure {
        match self {
            MascotResponseError::ReadStatusLine => ResponseFailure::ReadStatusLine,
            MascotResponseError::EmptyResponse => ResponseFailure::EmptyResponse,
            MascotResponseError::MissingStatusCode => ResponseFailure::MissingStatusCode,
            MascotResponseError::InvalidStatusCode => ResponseFailure::InvalidStatusCode,
            MascotResponseError::ReadHeader => ResponseFailure::ReadHeader,
            MascotResponseError::UnexpectedEof => ResponseFailure::UnexpectedEof,
            MascotResponseError::InvalidContentLength => ResponseFailure::InvalidContentLength,
            MascotResponseError::ReadBody => ResponseFailure::ReadBody,
            MascotResponseError::Status { path, code, body } => ResponseFailure::Status(path@, *code, body@),
        }
    }
}

/// The text the error is displayed with.
pub open spec fn failure_message(f: ResponseFailure) -> Seq<char> {
    match f {
        ResponseFailure::ReadStatusLine => "failed to read HTTP response status line"@,
        ResponseFailure::EmptyResponse => "empty HTTP response"@,
        ResponseFailure::MissingStatusCode => "missing HTTP status code"@,
        ResponseFailure::InvalidStatusCode => "invalid HTTP status code"@,
        ResponseFailure::ReadHeader => "failed to read HTTP response header"@,
        ResponseFailure::UnexpectedEof => "unexpected EOF while reading HTTP headers"@,
        ResponseFailure::InvalidContentLength => "invalid HTTP response Content-Length header"@,
        ResponseFailure::ReadBody => "failed to read HTTP response body"@,
        ResponseFailure::Status(path, code, body) => "mascot-render-server request "@ + path
            + " failed with HTTP "@ + decimal(code as nat) + ": "@ + body,
    }
}

impl MascotResponseError {
    /// The text the error is displayed with.
    pub fn message(&self) -> (m: String)
        ensures
            m@ == failure_message(self@),
    {
        match self {
            MascotResponseError::ReadStatusLine => "failed to read HTTP response status line".to_owned(),
            MascotResponseError::EmptyResponse => "empty HTTP response".to_owned(),
            MascotResponseError::MissingStatusCode => "missing HTTP status code".to_owned(),
            MascotResponseError::InvalidStatusCode => "invalid HTTP status code".to_owned(),
            MascotResponseError::ReadHeader => "failed to read HTTP response header".to_owned(),
            MascotResponseError::UnexpectedEof => "unexpected EOF while reading HTTP headers".to_owned(),
            MascotResponseError::InvalidContentLength => "invalid HTTP response Content-Length header".to_owned(),
            MascotResponseError::ReadBody => "failed to read HTTP response body".to_owned(),
            MascotResponseError::Status { path, code, body } => {
                let mut m = "mascot-render-server request ".to_owned();
                push_str(&mut m, path.as_str());
                push_str(&mut m, " failed with HTTP ");
                let d = decimal_string(*code as u64);
                push_str(&mut m, d.as_str());
                push_str(&mut m, ": ");
                push_str(&mut m, body.as_str());
                m
            },
        }
    }
}

/// End of the line that starts at `pos`: just after its `\n`, or the end.
pub open spec fn line_end(b: Seq<u8>, pos: int) -> int
    decreases b.len() - pos,
{
    if pos >= b.len() {
        b.len() as int
    } else if b[pos] == 10u8 {
        pos + 1
    } else {
        line_end(b, pos + 1)
    }
}

/// Length of the leading run of non-whitespace characters.
pub open spec fn word_len(s: Seq<char>) -> nat
    decreases s.len(),
{
    if s.len() == 0 || is_ws(s[0]) {
        0
    } else {
        1 + word_len(s.drop_first())
    }
}

/// The `n`-th whitespace-separated word of `s`, as `split_whitespace().nth(n)`.
pub open spec fn nth_word(s: Seq<char>, n: nat) -> Option<Seq<char>>
    decreases s.len(),
{
    let t = trim_start(s);
    if t.len() == 0 {
        None
    } else {
        let w = word_len(t);
        if n == 0 {
            Some(t.subrange(0, w as int))
        } else {
            proof {
                lemma_trim_start_suffix(s);
                lemma_word_len_bound(t);
            }
            nth_word(t.subrange(w as int, t.len() as int), (n - 1) as nat)
        }
    }
}

/// Position of the first `:`.
pub open spec fn first_colon(s: Seq<char>) -> Option<int>
    decreases s.len(),
{
    if s.len() == 0 {
        None
    } else {
        match first_colon(s.drop_last()) {
            Some(i) => Some(i),
            None => if s.last() == ':' {
                Some(s.len() - 1)
            } else {
                None
            },
        }
    }
}

/// `s` equals `content-length` ignoring ASCII case.
pub open spec fn is_content_length_name(s: Seq<char>) -> bool {
    let lo = "content-length"@;
    let up = "CONTENT-LENGTH"@;
    s.len() == lo.len() && forall|i: int| 0 <= i < s.len() ==> #[trigger] s[i] == lo[i] || s[i] == up[i]
}

/// Reads header lines from `pos` up to the blank line, keeping the last
/// `Content-Length`: the position after the blank line and the length.
pub open spec fn read_headers(b: Seq<u8>, pos: int, cl: usize) -> Result<(int, usize), ResponseFailure>
    decreases b.len() - pos,
{
    if pos < 0 || pos >= b.len() {
        Err(ResponseFailure::UnexpectedEof)
    } else {
        let e = line_end(b, pos);
        proof {
            lemma_line_end_bounds(b, pos);
        }
        match utf8_text(b.subrange(pos, e)) {
            None => Err(ResponseFailure::ReadHeader),
            Some(line) => if line == "\r\n"@ || line == "\n"@ {
                Ok((e, cl))
            } else {
                match first_colon(line) {
                    Some(c) => if is_content_length_name(trim(line.subrange(0, c))) {
                        match parse_usize(trim(line.subrange(c + 1, line.len() as int))) {
                            Some(v) => read_headers(b, e, v),
                            None => Err(ResponseFailure::InvalidContentLength),
                        }
                    } else {
                        read_headers(b, e, cl)
                    },
                    None => read_headers(b, e, cl),
                }
            },
        }
    }
}

pub proof fn lemma_line_end_bounds(b: Seq<u8>, pos: int)
    requires
        0 <= pos < b.len(),
    ensures
        pos < line_end(b, pos) <= b.len(),
    decreases b.len() - pos,
{
    if b[pos] != 10u8 {
        if pos + 1 < b.len() {
            lemma_line_end_bounds(b, pos + 1);
        } else {
            assert(line_end(b, pos + 1) == b.len());
        }
    }
}

/// The verdict once the headers were read with result `h`.
pub open spec fn after_headers(
    b: Seq<u8>,
    path: Seq<char>,
    code: u16,
    h: Result<(int, usize), ResponseFailure>,
) -> Result<(), ResponseFailure> {
    match h {
        Err(f) => Err(f),
        Ok((p, cl)) => if p + cl > b.len() {
            Err(ResponseFailure::ReadBody)
        } else if 200 <= code < 300 {
            Ok(())
        } else {
            Err(ResponseFailure::Status(path, code, trim(utf8_lossy_text(b.subrange(p, p + cl)))))
        },
    }
}

/// The verdict on the reply `b` to a request for `path`: the status line
/// must hold a status code as its second word, the headers must end with a
/// blank line and the body must have `Content-Length` bytes; a status in
/// 200..300 is success, any other is an error with the trimmed body.
pub open spec fn spec_read_mascot_response(b: Seq<u8>, path: Seq<char>) -> Result<(), ResponseFailure> {
    let e = line_end(b, 0);
    match utf8_text(b.subrange(0, e)) {
        None => Err(ResponseFailure::ReadStatusLine),
        Some(st) => if trim(st).len() == 0 {
            Err(ResponseFailure::EmptyResponse)
        } else {
            match nth_word(st, 1) {
                None => Err(ResponseFailure::MissingStatusCode),
                Some(tok) => match parse_u16(tok) {
                    None => Err(ResponseFailure::InvalidStatusCode),
                    Some(code) => after_headers(b, path, code, read_headers(b, e, 0)),
                },
            }
        },
    }
}

fn find_line_end(b: &[u8], pos: usize) -> (e: usize)
    requires
        pos <= b@.len(),
    ensures
        e as int == line_end(b@, pos as int),
        pos <= e <= b@.len(),
        pos < b@.len() ==> pos < e,
{
    let mut i = pos;
    while i < b.len() && b[i] != 10u8
        invariant
            pos <= i <= b@.len(),
            line_end(b@, pos as int) == line_end(b@, i as int),
        decreases b.len() - i,
    {
        i = i + 1;
    }
    if i < b.len() {
        i + 1
    } else {
        i
    }
}

pub proof fn lemma_word_len_bound(s: Seq<char>)
    ensures
        word_len(s) <= s.len(),
        forall|k: int| 0 <= k < word_len(s) ==> !is_ws(#[trigger] s[k]),
        word_len(s) < s.len() ==> is_ws(s[word_len(s) as int]),
    decreases s.len(),
{
    if s.len() > 0 && !is_ws(s[0]) {
        lemma_word_len_bound(s.drop_first());
        assert forall|k: int| 0 <= k < word_len(s) implies !is_ws(#[trigger] s[k]) by {
            if k > 0 {
                assert(s[k] == s.drop_first()[k - 1]);
            }
        }
        if word_len(s) < s.len() {
            assert(s[word_len(s) as int] == s.drop_first()[word_len(s.drop_first()) as int]);
        }
    }
}

pub proof fn lemma_trim_start_suffix(s: Seq<char>)
    ensures
        trim_start(s).len() <= s.len(),
        trim_start(s) == s.subrange(s.len() - trim_start(s).len(), s.len() as int),
        trim_start(s).len() > 0 ==> !is_ws(trim_start(s)[0]),
        forall|k: int| 0 <= k < s.len() - trim_start(s).len() ==> is_ws(#[trigger] s[k]),
    decreases s.len(),
{
    if s.len() > 0 && is_ws(s[0]) {
        lemma_trim_start_suffix(s.drop_first());
        let t = trim_start(s.drop_first());
        assert(s.drop_first().subrange(s.drop_first().len() - t.len(), s.drop_first().len() as int)
            =~= s.subrange(s.len() - t.len(), s.len() as int));
        assert forall|k: int| 0 <= k < s.len() - trim_start(s).len() implies is_ws(#[trigger] s[k]) by {
            if k > 0 {
                assert(s[k] == s.drop_first()[k - 1]);
            }
        }
    } else {
        assert(s.subrange(0, s.len() as int) =~= s);
    }
}

/// Start of the trimmed-start part of `s[from..]`.
fn skip_ws(s: &[char], from: usize) -> (i: usize)
    requires
        from <= s@.len(),
    ensures
        from <= i <= s@.len(),
        trim_start(s@.subrange(from as int, s@.len() as int)) == s@.subrange(i as int, s@.len() as int),
{
    let n = s.len();
    let mut i = from;
    assert(s@.subrange(from as int, n as int) =~= s@.subrange(from as int, n as int));
    while i < n && crate::text::is_whitespace(s[i])
        invariant
            from <= i <= n,
            n == s@.len(),
            trim_start(s@.subrange(from as int, n as int)) == trim_start(s@.subrange(i as int, n as int)),
        decreases n - i,
    {
        assert(s@.subrange(i as int, n as int).drop_first() =~= s@.subrange(i + 1, n as int));
        i = i + 1;
    }
    if i < n {
        assert(s@.subrange(i as int, n as int)[0] == s@[i as int]);
    }
    i
}

/// End of the word of `s` starting at `from`.
fn word_end(s: &[char], from: usize) -> (j: usize)
    requires
        from <= s@.len(),
    ensures
        from <= j <= s@.len(),
        j - from == word_len(s@.subrange(from as int, s@.len() as int)),
{
    let n = s.len();
    let mut j = from;
    while j < n && !crate::text::is_whitespace(s[j])
        invariant
            from <= j <= n,
            n == s@.len(),
            word_len(s@.subrange(from as int, n as int)) == (j - from) + word_len(s@.subrange(j as int, n as int)),
        decreases n - j,
    {
        assert(s@.subrange(j as int, n as int).drop_first() =~= s@.subrange(j + 1, n as int));
        assert(s@.subrange(j as int, n as int)[0] == s@[j as int]);
        j = j + 1;
    }
    if j < n {
        assert(s@.subrange(j as int, n as int)[0] == s@[j as int]);
    }
    j
}

/// The second whitespace-separated word of `s`, if any.
fn second_word(s: &[char]) -> (r: Option<Vec<char>>)
    ensures
        match r {
            Some(w) => nth_word(s@, 1) == Some(w@),
            None => nth_word(s@, 1) is None,
        },
{
    let n = s.len();
    let a = skip_ws(s, 0);
    assert(s@.subrange(0, n as int) =~= s@);
    if a == n {
        return None;
    }
    let b = word_end(s, a);
    proof {
        let t = s@.subrange(a as int, n as int);
        assert(trim_start(s@) == t);
        lemma_trim_start_suffix(s@);
        assert(t.len() > 0);
        assert(t[0] == s@[a as int]);
        assert(!is_ws(t[0]));
        assert(word_len(t) >= 1);
        assert(t.subrange(word_len(t) as int, t.len() as int) =~= s@.subrange(b as int, n as int));
        assert(nth_word(s@, 1) == nth_word(s@.subrange(b as int, n as int), 0));
    }
    let c = skip_ws(s, b);
    if c == n {
        proof {
            let u = s@.subrange(b as int, n as int);
            assert(trim_start(u) == s@.subrange(n as int, n as int));
            assert(trim_start(u).len() == 0);
            assert(nth_word(u, 0) is None);
        }
        return None;
    }
    let d = word_end(s, c);
    proof {
        let u = s@.subrange(b as int, n as int);
        let t2 = s@.subrange(c as int, n as int);
        assert(trim_start(u) == t2);
        assert(t2.len() > 0);
        assert(t2.subrange(0, (d - c) as int) =~= s@.subrange(c as int, d as int));
        assert(nth_word(u, 0) == Some(s@.subrange(c as int, d as int)));
    }
    Some(sub_chars(s, c, d))
}

/// Position of the first `:` in `s`.
fn find_colon(s: &[char]) -> (r: Option<usize>)
    ensures
        match r {
            Some(i) => first_colon(s@) == Some(i as int) && i < s.len(),
            None => first_colon(s@) is None,
        },
{
    let mut i: usize = 0;
    assert(s@.subrange(0, 0) =~= Seq::<char>::empty());
    while i < s.len()
        invariant
            i <= s@.len(),
            first_colon(s@.subrange(0, i as int)) is None,
        decreases s.len() - i,
    {
        assert(s@.subrange(0, i + 1).drop_last() =~= s@.subrange(0, i as int));
        if s[i] == ':' {
            assert(s@.subrange(0, i + 1).last() == ':');
            proof {
                lemma_first_colon_prefix(s@, i + 1);
            }
            return Some(i);
        }
        i = i + 1;
    }
    assert(s@.subrange(0, i as int) =~= s@);
    None
}

proof fn lemma_first_colon_prefix(s: Seq<char>, k: int)
    requires
        0 <= k <= s.len(),
        first_colon(s.subrange(0, k)) is Some,
    ensures
        first_colon(s) == first_colon(s.subrange(0, k)),
    decreases s.len(),
{
    if s.len() > k {
        assert(s.drop_last().subrange(0, k) =~= s.subrange(0, k));
        lemma_first_colon_prefix(s.drop_last(), k);
    } else {
        assert(s.subrange(0, k) =~= s);
    }
}

fn is_content_length(s: &[char]) -> (b: bool)
    ensures
        b == is_content_length_name(s@),
{
    let lo = chars_of("content-length");
    let up = chars_of("CONTENT-LENGTH");
    proof {
        reveal_strlit("content-length");
        reveal_strlit("CONTENT-LENGTH");
    }
    if s.len() != lo.len() {
        return false;
    }
    let mut i: usize = 0;
    while i < s.len()
        invariant
            i <= s@.len(),
            s@.len() == lo@.len(),
            lo@ == "content-length"@,
            up@ == "CONTENT-LENGTH"@,
            up@.len() == lo@.len(),
            forall|k: int| 0 <= k < i ==> #[trigger] s@[k] == lo@[k] || s@[k] == up@[k],
        decreases s.len() - i,
    {
        if s[i] != lo[i] && s[i] != up[i] {
            return false;
        }
        i = i + 1;
    }
    true
}

/// The verdict on the reply `b` to a request for `path` (see
/// `spec_read_mascot_response`).
pub fn read_mascot_response(b: &[u8], path: &str) -> (r: Result<(), MascotResponseError>)
    ensures
        match r {
            Ok(()) => spec_read_mascot_response(b@, path@) is Ok,
            Err(e) => spec_read_mascot_response(b@, path@) == Err::<(), ResponseFailure>(e@),
        },
{
    let n = b.len();
    let e = find_line_end(b, 0);
    let status = match decode_utf8(sub_slice(b, 0, e).as_slice()) {
        Some(s) => s,
        None => return Err(MascotResponseError::ReadStatusLine),
    };
    let sc = chars_of(status.as_str());
    let t = trim_chars(sc.as_slice());
    if t.len() == 0 {
        return Err(MascotResponseError::EmptyResponse);
    }
    let tok = match second_word(sc.as_slice()) {
        Some(w) => w,
        None => return Err(MascotResponseError::MissingStatusCode),
    };
    let code = match parse_u16_chars(tok.as_slice()) {
        Some(c) => c,
        None => return Err(MascotResponseError::InvalidStatusCode),
    };
    let mut pos = e;
    let mut cl: usize = 0;
    loop
        invariant_except_break
            spec_read_mascot_response(b@, path@) == after_headers(b@, path@, code, read_headers(b@, pos as int, cl)),
        invariant
            pos <= n,
            n == b@.len(),
        ensures
            pos <= n,
            n == b@.len(),
            spec_read_mascot_response(b@, path@) == after_headers(b@, path@, code, Ok::<(int, usize), ResponseFailure>((pos as int, cl))),
        decreases n - pos,
    {
        if pos >= n {
            return Err(MascotResponseError::UnexpectedEof);
        }
        let le = find_line_end(b, pos);
        let ghost p0 = pos as int;
        let ghost cl0 = cl;
        let line = match decode_utf8(sub_slice(b, pos, le).as_slice()) {
            Some(l) => l,
            None => return Err(MascotResponseError::ReadHeader),
        };
        let lc = chars_of(line.as_str());
        let crlf = chars_of("\r\n");
        let lf = chars_of("\n");
        proof {
            reveal_strlit("\r\n");
            reveal_strlit("\n");
        }
        if crate::text::chars_eq(lc.as_slice(), crlf.as_slice()) || crate::text::chars_eq(lc.as_slice(), lf.as_slice()) {
            pos = le;
            break;
        }
        match find_colon(lc.as_slice()) {
            Some(c) => {
                let name = sub_chars(lc.as_slice(), 0, c);
                let name_t = trim_chars(name.as_slice());
                if is_content_length(name_t.as_slice()) {
                    let value = sub_chars(lc.as_slice(), c + 1, lc.len());
                    let value_t = trim_chars(value.as_slice());
                    match parse_usize_chars(value_t.as_slice()) {
                        Some(v) => {
                            cl = v;
                        },
                        None => return Err(MascotResponseError::InvalidContentLength),
                    }
                }
            },
            None => {},
        }
        proof {
            let lv = utf8_text(b@.subrange(p0, le as int));
            assert(lv == Some(lc@));
            assert(lc@ != "\r\n"@ && lc@ != "\n"@);
            assert(line_end(b@, p0) == le);
            assert(read_headers(b@, p0, cl0) == read_headers(b@, le as int, cl));
        }
        pos = le;
    }
    if cl > n - pos {
        return Err(MascotResponseError::ReadBody);
    }
    if 200 <= code && code < 300 {
        return Ok(());
    }
    let body = decode_utf8_lossy(sub_slice(b, pos, pos + cl).as_slice());
    let bc = chars_of(body.as_str());
    let bt = trim_chars(bc.as_slice());
    Err(MascotResponseError::Status { path: path.to_owned(), code, body: string_from_chars(bt.as_slice()) })
}

/// The bytes `b[a..c]`.
fn sub_slice(b: &[u8], a: usize, c: usize) -> (r: Vec<u8>)
    requires
        a <= c <= b@.len(),
    ensures
        r@ == b@.subrange(a as int, c as int),
{
    let mut r: Vec<u8> = Vec::new();
    let mut k = a;
    while k < c
        invariant
            a <= k <= c,
            c <= b@.len(),
            r@ == b@.subrange(a as int, k as int),
        decreases c - k,
    {
        r.push(b[k]);
        k = k + 1;
        assert(r@ =~= b@.subrange(a as int, k as int));
    }
    r
}

} // verus!
