//! The request line: `<METHOD> <TARGET> <VERSION>`, split on whitespace.
use vstd::prelude::*;
use crate::bytes::{append, is_text, text};
use crate::resolve::views;

verus! {

/// The methods this server answers.
#[derive(Debug, Clone, Copy, PartialEq, Eq, Structural)]
pub enum Method {
    Get,
    Head,
}

/// A parsed request line. The protocol is always `HTTP/1.1`.
#[derive(Debug)]
pub struct Request {
    pub method: Method,
    /// The raw request target.
    pub target: Vec<u8>,
}

/// Why a request line is refused. Each of these ends the connection.
#[derive(Debug, Clone, Copy, PartialEq, Eq, Structural)]
pub enum RequestError {
    /// Fewer than three words on the line.
    MalformedRequest,
    /// The third word is not `HTTP/1.1`.
    UnsupportedProtocol,
    /// The method is neither `GET` nor `HEAD`; a 405 answer is still owed.
    MethodNotAllowed,
}

/// The length of the UTF-8 encoded whitespace character (Unicode
/// `White_Space`) that `s` starts with, or 0 where it starts with none.
/// One byte: U+0009 to U+000D and U+0020. Two bytes: U+0085 and U+00A0.
/// Three bytes: U+1680, U+2000 to U+200A, U+2028, U+2029, U+202F, U+205F and
/// U+3000.
pub open spec fn space_len(s: Seq<u8>) -> nat {
    if s.len() >= 1 && (s[0] == 32 || (9 <= s[0] && s[0] <= 13)) {
        1
    } else if s.len() >= 2 && s[0] == 0xC2 && (s[1] == 0x85 || s[1] == 0xA0) {
        2
    } else if s.len() >= 3 && ((s[0] == 0xE1 && s[1] == 0x9A && s[2] == 0x80) || (s[0] == 0xE2
        && s[1] == 0x80 && ((0x80 <= s[2] && s[2] <= 0x8A) || s[2] == 0xA8 || s[2] == 0xA9 || s[2]
        == 0xAF)) || (s[0] == 0xE2 && s[1] == 0x81 && s[2] == 0x9F) || (s[0] == 0xE3 && s[1] == 0x80
        && s[2] == 0x80)) {
        3
    } else {
        0
    }
}

/// The words of `rest`, the first of which starts with `cur`.
pub open spec fn words_from(cur: Seq<u8>, rest: Seq<u8>) -> Seq<Seq<u8>>
    decreases rest.len(),
{
    if rest.len() == 0 {
        if cur.len() == 0 {
            Seq::empty()
        } else {
            seq![cur]
        }
    } else if space_len(rest) > 0 {
        if cur.len() == 0 {
            words_from(Seq::empty(), rest.skip(space_len(rest) as int))
        } else {
            seq![cur] + words_from(Seq::empty(), rest.skip(space_len(rest) as int))
        }
    } else {
        words_from(cur.push(rest[0]), rest.drop_first())
    }
}

/// The words of `line`, in order: the maximal runs of bytes between
/// whitespace characters (a continuation byte of UTF-8 never starts one, so
/// on UTF-8 text these are the runs of non-whitespace characters).
pub open spec fn words(line: Seq<u8>) -> Seq<Seq<u8>> {
    words_from(Seq::empty(), line)
}

/// What a request line parses to: the method and the target, or the error.
pub open spec fn parse(line: Seq<u8>) -> Result<(Method, Seq<u8>), RequestError> {
    let w = words(line);
    if w.len() < 3 {
        Err(RequestError::MalformedRequest)
    } else if w[2] != text("HTTP/1.1") {
        Err(RequestError::UnsupportedProtocol)
    } else if w[0] == text("GET") {
        Ok((Method::Get, w[1]))
    } else if w[0] == text("HEAD") {
        Ok((Method::Head, w[1]))
    } else {
        Err(RequestError::MethodNotAllowed)
    }
}

/// The length of the whitespace character at `i` in `line`, or 0.
fn space_at(line: &[u8], i: usize) -> (r: usize)
    requires
        i < line@.len(),
    ensures
        r == space_len(line@.skip(i as int)),
        i + r <= line@.len(),
{
    let ghost s = line@.skip(i as int);
    let n = line.len();
    let b0 = line[i];
    assert(s[0] == b0);
    if b0 == 32 || (9 <= b0 && b0 <= 13) {
        return 1;
    }
    if n - i >= 2 {
        let b1 = line[i + 1];
        assert(s[1] == b1);
        if b0 == 0xC2 && (b1 == 0x85 || b1 == 0xA0) {
            return 2;
        }
        if n - i >= 3 {
            let b2 = line[i + 2];
            assert(s[2] == b2);
            if (b0 == 0xE1 && b1 == 0x9A && b2 == 0x80) || (b0 == 0xE2 && b1 == 0x80 && ((0x80
                <= b2 && b2 <= 0x8A) || b2 == 0xA8 || b2 == 0xA9 || b2 == 0xAF)) || (b0 == 0xE2
                && b1 == 0x81 && b2 == 0x9F) || (b0 == 0xE3 && b1 == 0x80 && b2 == 0x80) {
                return 3;
            }
        }
    }
    0
}

/// Splits `line` into its whitespace-separated words.
pub fn split_words(line: &[u8]) -> (r: Vec<Vec<u8>>)
    ensures
        views(r@) == words(line@),
{
    let n = line.len();
    let mut out: Vec<Vec<u8>> = Vec::new();
    let mut cur: Vec<u8> = Vec::new();
    let mut i: usize = 0;
    assert(line@.skip(0) =~= line@);
    while i < n
        invariant
            n == line@.len(),
            i <= n,
            views(out@) + words_from(cur@, line@.skip(i as int)) == words(line@),
        decreases n - i,
    {
        let ghost rest = line@.skip(i as int);
        let k = space_at(line, i);
        if k > 0 {
            assert(rest.skip(k as int) =~= line@.skip(i + k));
            if cur.len() == 0 {
                assert(cur@ =~= Seq::<u8>::empty());
            } else {
                let ghost before = views(out@);
                let ghost c = cur@;
                out.push(cur);
                cur = Vec::new();
                assert(views(out@) =~= before.push(c));
                assert(before + (seq![c] + words_from(Seq::empty(), rest.skip(k as int)))
                    =~= before.push(c) + words_from(Seq::empty(), rest.skip(k as int)));
            }
            i = i + k;
        } else {
            assert(rest[0] == line@[i as int]);
            assert(rest.drop_first() =~= line@.skip(i + 1));
            cur.push(line[i]);
            i = i + 1;
        }
    }
    assert(line@.skip(n as int) =~= Seq::<u8>::empty());
    if cur.len() != 0 {
        let ghost before = views(out@);
        let ghost c = cur@;
        out.push(cur);
        assert(views(out@) =~= before + seq![c]);
    } else {
        assert(views(out@) + Seq::<Seq<u8>>::empty() =~= views(out@));
    }
    out
}

/// Parses a request line (its line ending, if any, is whitespace).
pub fn parse_request_line(line: &[u8]) -> (r: Result<Request, RequestError>)
    ensures
        match r {
            Ok(req) => parse(line@) == Ok::<(Method, Seq<u8>), RequestError>(
                (req.method, req.target@),
            ),
            Err(e) => parse(line@) == Err::<(Method, Seq<u8>), RequestError>(e),
        },
{
    let w = split_words(line);
    if w.len() < 3 {
        return Err(RequestError::MalformedRequest);
    }
    assert(w@[2]@ == words(line@)[2]);
    assert(w@[1]@ == words(line@)[1]);
    assert(w@[0]@ == words(line@)[0]);
    if !is_text(w[2].as_slice(), "HTTP/1.1") {
        return Err(RequestError::UnsupportedProtocol);
    }
    let method = if is_text(w[0].as_slice(), "GET") {
        Method::Get
    } else if is_text(w[0].as_slice(), "HEAD") {
        Method::Head
    } else {
        return Err(RequestError::MethodNotAllowed);
    };
    let mut target: Vec<u8> = Vec::new();
    append(&mut target, w[1].as_slice());
    assert(target@ =~= w@[1]@);
    Ok(Request { method, target })
}

} // verus!
