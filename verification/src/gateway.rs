//! The HTTP gateway: reading the request line and headers, naming the tool a
//! request is for, and the status line and headers of the reply.
use vstd::prelude::*;
use crate::json::{json_slice_parse, parse_json_slice};
use crate::number::{decimal_digits, decimal_string, parse_usize, parse_usize_spec, is_digit,
    lemma_decimal_digits, lemma_decimal_roundtrip};
use crate::text::{all_white_space, ascii_lower, is_ascii_char, lemma_trim_ws_around, chars_of, concat, eq_str, text_lowercase, lower_case, range_eq, split_whitespace, starts_with,
    string_of, trim, trim_range, trim_start_char, trim_start_char_index, words};

verus! {

/// The method and target of the request line `line`: its first and second
/// words, `""` and `"/"` where it has fewer.
pub fn request_target(line: &str) -> (r: (String, String))
    ensures
        r.0@ == (if words(line@).len() > 0 {
            words(line@)[0]
        } else {
            Seq::<char>::empty()
        }),
        r.1@ == (if words(line@).len() > 1 {
            words(line@)[1]
        } else {
            "/"@
        }),
{
    let ws = split_whitespace(line);
    assert(ws@.len() == words(line@).len());
    let method = if ws.len() > 0 {
        assert(ws@[0]@ == words(line@)[0]);
        ws[0].clone()
    } else {
        String::new()
    };
    let target = if ws.len() > 1 {
        assert(ws@[1]@ == words(line@)[1]);
        ws[1].clone()
    } else {
        String::from_str("/")
    };
    (method, target)
}

/// What the gateway does with one attempt to read a header line.
#[derive(Debug, PartialEq, Eq, Structural)]
pub enum HeaderStep {
    /// The headers are over: the read failed or the blank line came.
    End,
    /// The stream gave nothing; reading goes on with nothing recorded.
    Idle,
    /// A header line, to be kept.
    Keep,
}

/// The step for a read that succeeded (`read_ok`) with `line`, or failed.
pub fn header_step(read_ok: bool, line: &str) -> (r: HeaderStep)
    ensures
        r == (if !read_ok || line@ == "\r\n"@ || line@ == "\n"@ {
            HeaderStep::End
        } else if line@.len() == 0 {
            HeaderStep::Idle
        } else {
            HeaderStep::Keep
        }),
{
    if !read_ok || is_header_end(line) {
        HeaderStep::End
    } else if line.unicode_len() == 0 {
        HeaderStep::Idle
    } else {
        HeaderStep::Keep
    }
}

/// Whether `line` is the empty line that ends the headers.
pub fn is_header_end(line: &str) -> (r: bool)
    ensures
        r == (line@ == "\r\n"@ || line@ == "\n"@),
{
    let c = chars_of(line);
    eq_str(c.as_slice(), "\r\n") || eq_str(c.as_slice(), "\n")
}

/// The length that the header line `line` announces, read case-insensitively
/// (through `text_lowercase`): `None` when it is no `Content-Length` header, 0 when
/// its value is not a number.
pub open spec fn header_length_value(line: Seq<char>) -> Option<nat> {
    let low = text_lowercase(line);
    let p = "content-length:"@;
    if starts_with(low, p) {
        match parse_usize_spec(trim(low.subrange(p.len() as int, low.len() as int))) {
            Some(v) => Some(v as nat),
            None => Some(0),
        }
    } else {
        None
    }
}

/// The body length that the headers `hs` announce: the last `Content-Length`
/// header decides, 0 without one.
pub open spec fn content_length_of(hs: Seq<Seq<char>>) -> nat
    decreases hs.len(),
{
    if hs.len() == 0 {
        0
    } else {
        match header_length_value(hs.last()) {
            Some(n) => n,
            None => content_length_of(hs.drop_last()),
        }
    }
}

/// A `Content-Length` header announces the length written in it, for every
/// length a `usize` holds, whatever the case of the header's name.
pub proof fn lemma_content_length_header(n: nat)
    requires
        n <= usize::MAX,
    ensures
        header_length_value("Content-Length: "@ + decimal_digits(n) + "\r\n"@) == Some(n),
        header_length_value("content-length:"@ + decimal_digits(n)) == Some(n),
{
    reveal_strlit("Content-Length: ");
    reveal_strlit("content-length: ");
    reveal_strlit("content-length:");
    reveal_strlit("\r\n");
    lemma_decimal_roundtrip(n);
    lemma_decimal_digits(n);
    let d = decimal_digits(n);
    assert(trim(d) == d) by {
        assert(is_digit(d[0]));
        assert(is_digit(d.last()));
    }
    assert(parse_usize_spec(d) == Some(n as int));
    let p = "content-length:"@;
    // The header as the gateway writes it.
    let line = "Content-Length: "@ + d + "\r\n"@;
    assert forall|i: int| 0 <= i < line.len() implies is_ascii_char(#[trigger] line[i]) by {
        if 16 <= i < 16 + d.len() {
            assert(line[i] == d[i - 16]);
            assert(is_digit(d[i - 16]));
        }
    }
    let low = line.map_values(|c: char| ascii_lower(c));
    let expected = "content-length: "@ + d + "\r\n"@;
    assert forall|i: int| 0 <= i < low.len() implies low[i] == expected[i] by {
        if 16 <= i < 16 + d.len() {
            assert(line[i] == d[i - 16]);
            assert(expected[i] == d[i - 16]);
            assert(is_digit(d[i - 16]));
        }
    }
    assert(low =~= expected);
    assert(text_lowercase(line) == expected);
    assert(expected.subrange(0, p.len() as int) =~= p);
    let rest = expected.subrange(p.len() as int, expected.len() as int);
    assert(rest =~= seq![' '] + d + seq!['\r', '\n']);
    assert(all_white_space(seq![' ']));
    assert(all_white_space(seq!['\r', '\n']));
    lemma_trim_ws_around(seq![' '], d, seq!['\r', '\n']);
    // The bare lower-case form.
    let bare = p + d;
    assert forall|i: int| 0 <= i < bare.len() implies is_ascii_char(#[trigger] bare[i]) by {
        if i >= 15 {
            assert(bare[i] == d[i - 15]);
            assert(is_digit(d[i - 15]));
        }
    }
    let low2 = bare.map_values(|c: char| ascii_lower(c));
    assert forall|i: int| 0 <= i < low2.len() implies low2[i] == bare[i] by {
        if i >= 15 {
            assert(bare[i] == d[i - 15]);
            assert(is_digit(d[i - 15]));
        }
    }
    assert(low2 =~= bare);
    assert(bare.subrange(0, p.len() as int) =~= p);
    assert(bare.subrange(p.len() as int, bare.len() as int) =~= d);
}

/// The length announced by one header line (see `header_length_value`).
pub fn header_content_length(line: &str) -> (r: Option<usize>)
    ensures
        match header_length_value(line@) {
            Some(n) => r == Some(n as usize),
            None => r is None,
        },
{
    let low = lower_case(line);
    let lc = chars_of(low.as_str());
    let p = chars_of("content-length:");
    let n = lc.len();
    let m = p.len();
    if n >= m && range_eq(lc.as_slice(), 0, m, p.as_slice()) {
        let (a, b) = trim_range(lc.as_slice(), m, n);
        match parse_usize(&lc.as_slice()[a..b]) {
            Some(v) => Some(v),
            None => Some(0),
        }
    } else {
        None
    }
}

/// The body length announced by the header lines `headers`.
pub fn content_length(headers: &Vec<String>) -> (r: usize)
    ensures
        r == content_length_of(headers@.map_values(|h: String| h@)),
{
    let ghost hs = headers@.map_values(|h: String| h@);
    let mut r: usize = 0;
    let mut i: usize = 0;
    while i < headers.len()
        invariant
            i <= headers@.len(),
            hs == headers@.map_values(|h: String| h@),
            r == content_length_of(hs.take(i as int)),
        decreases headers@.len() - i,
    {
        assert(hs.take(i + 1).drop_last() =~= hs.take(i as int));
        assert(hs.take(i + 1).last() == headers@[i as int]@);
        match header_content_length(headers[i].as_str()) {
            Some(n) => {
                r = n;
            },
            None => {},
        }
        i = i + 1;
    }
    assert(hs.take(headers@.len() as int) =~= hs);
    r
}

/// The name of the tool that the request target `target` addresses: the
/// target without its leading `/`s.
pub fn route_name(target: &str) -> (r: String)
    ensures
        r@ == trim_start_char(target@, '/'),
{
    let c = chars_of(target);
    assert(c@.subrange(0, c@.len() as int) =~= target@);
    let a = trim_start_char_index(c.as_slice(), 0, c.len(), '/');
    string_of(c.as_slice(), a, c.len())
}

/// The reason phrase the gateway sends with `status`.
pub open spec fn reason_of(status: u16) -> Seq<char> {
    if status == 200 {
        "OK"@
    } else if status == 400 {
        "Bad Request"@
    } else if status == 404 {
        "Not Found"@
    } else {
        "Internal Server Error"@
    }
}

/// The reason phrase the gateway sends with `status`.
pub fn status_reason(status: u16) -> (r: String)
    ensures
        r@ == reason_of(status),
{
    if status == 200 {
        String::from_str("OK")
    } else if status == 400 {
        String::from_str("Bad Request")
    } else if status == 404 {
        String::from_str("Not Found")
    } else {
        String::from_str("Internal Server Error")
    }
}

/// The status line and headers of a JSON reply with `status` and a body of
/// `body_len` bytes; the connection is closed after it.
pub fn response_head(status: u16, body_len: usize) -> (r: String)
    ensures
        r@ == "HTTP/1.1 "@ + decimal_digits(status as nat) + " "@ + reason_of(status)
            + "\r\nContent-Type: application/json\r\nContent-Length: "@ + decimal_digits(
            body_len as nat,
        ) + "\r\nConnection: close\r\n\r\n"@,
{
    let a = concat("HTTP/1.1 ", decimal_string(status as u64).as_str());
    let b = concat(a.as_str(), " ");
    let c = concat(b.as_str(), status_reason(status).as_str());
    let d = concat(c.as_str(), "\r\nContent-Type: application/json\r\nContent-Length: ");
    let e = concat(d.as_str(), decimal_string(body_len as u64).as_str());
    concat(e.as_str(), "\r\nConnection: close\r\n\r\n")
}

/// How a gateway request ended.
pub enum Reply {
    /// The tool ran; the reply carries its result.
    Done,
    /// The body was not JSON; the parser said this.
    BadBody(String),
    /// The tool refused its arguments (they failed its validation) with this message.
    InvalidArgs(String),
    /// The tool failed with this message.
    Failed(String),
    /// No tool has this name.
    UnknownTool(String),
}

/// The reply to a tool run that failed with `message`: a refusal of its
/// arguments (a validation failure) is answered with 400, any other failure
/// with 500.
pub fn failure_reply(refused_arguments: bool, message: String) -> (r: Reply)
    ensures
        refused_arguments ==> (r matches Reply::InvalidArgs(m) && m == message),
        !refused_arguments ==> (r matches Reply::Failed(m) && m == message),
{
    if refused_arguments {
        Reply::InvalidArgs(message)
    } else {
        Reply::Failed(message)
    }
}

/// The status of a reply: 200 for a result, 400 for a body that is no JSON or
/// arguments the tool refused, 404 for an unknown tool, 500 for a failed run.
pub fn reply_status(r: &Reply) -> (s: u16)
    ensures
        s == match r {
            Reply::Done => 200u16,
            Reply::BadBody(_) => 400u16,
            Reply::InvalidArgs(_) => 400u16,
            Reply::Failed(_) => 500u16,
            Reply::UnknownTool(_) => 404u16,
        },
{
    match r {
        Reply::Done => 200,
        Reply::BadBody(_) => 400,
        Reply::InvalidArgs(_) => 400,
        Reply::Failed(_) => 500,
        Reply::UnknownTool(_) => 404,
    }
}

/// The error text of a reply that is not a result.
pub fn reply_error(r: &Reply) -> (m: Option<String>)
    ensures
        match r {
            Reply::Done => m is None,
            Reply::BadBody(e) => m matches Some(x) && x@ == "body 非 JSON: "@ + e@,
            Reply::InvalidArgs(e) => m matches Some(x) && x@ == e@,
            Reply::Failed(e) => m matches Some(x) && x@ == e@,
            Reply::UnknownTool(n) => m matches Some(x) && x@ == "未知工具: "@ + n@,
        },
{
    match r {
        Reply::Done => None,
        Reply::BadBody(e) => Some(concat("body 非 JSON: ", e.as_str())),
        Reply::InvalidArgs(e) => Some(String::from_str(e.as_str())),
        Reply::Failed(e) => Some(String::from_str(e.as_str())),
        Reply::UnknownTool(n) => Some(concat("未知工具: ", n.as_str())),
    }
}

/// The arguments a request body carries: none for an empty body (the tool
/// then runs with an empty object), the JSON document otherwise; a body that
/// is no JSON document ends the request with `Reply::BadBody` and the parser's
/// message.
pub fn request_args(body: &[u8]) -> (r: Result<Option<serde_json::Value>, Reply>)
    ensures
        body@.len() == 0 ==> r matches Ok(None),
        body@.len() > 0 ==> match json_slice_parse(body@) {
            Ok(v) => r == Ok::<Option<serde_json::Value>, Reply>(Some(v)),
            Err(m) => r matches Err(Reply::BadBody(e)) && e@ == m,
        },
{
    if body.len() == 0 {
        return Ok(None);
    }
    match parse_json_slice(body) {
        Ok(v) => Ok(Some(v)),
        Err(m) => Err(Reply::BadBody(m)),
    }
}

} // verus!
