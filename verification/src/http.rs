//! HTTP/1.1 as it is spoken over the engine's control socket: how a request
//! is written and how a response is read.

use vstd::prelude::*;
use vstd::slice::slice_subrange;
use vstd::slice::slice_to_vec;
use vstd::utf8::decode_utf8;
use vstd::utf8::encode_utf8;
use vstd::utf8::valid_utf8;
use crate::text::ascii_lower;
use crate::text::ascii_lower_char;
use crate::text::chars_contain;
use crate::text::chars_of;
use crate::text::chars_start_with;
use crate::text::contains_text;
use crate::text::decimal_digits;
use crate::text::decimal_text;
use crate::text::has_prefix;
use crate::text::parse_number;
use crate::text::parse_number_spec;
use crate::text::parts_view;
use crate::text::push_char;
use crate::text::slice_chars;
use crate::text::split;
use crate::text::split_chars;
use crate::text::split_words;
use crate::text::trim_chars;
use crate::text::trimmed;
use crate::text::words;

verus! {

broadcast use vstd::seq::group_seq_axioms;

/// Whether a byte stands for itself in a path segment: a letter, a digit,
/// `-`, `_`, `.` or `~`.
pub open spec fn is_unreserved(b: u8) -> bool {
    ||| 0x41 <= b <= 0x5A
    ||| 0x61 <= b <= 0x7A
    ||| 0x30 <= b <= 0x39
    ||| b == 0x2D
    ||| b == 0x5F
    ||| b == 0x2E
    ||| b == 0x7E
}

/// The hexadecimal digit of a number below sixteen, in upper case.
pub open spec fn hex_digit(n: u8) -> char {
    if n < 10 {
        (0x30 + n) as char
    } else {
        (0x41 + n - 10) as u8 as char
    }
}

/// How one byte is written in a path segment.
pub open spec fn encoded_byte(b: u8) -> Seq<char> {
    if is_unreserved(b) {
        seq![b as char]
    } else {
        seq!['%', hex_digit(b / 16), hex_digit(b % 16)]
    }
}

/// How bytes are written in a path segment: each byte that is not unreserved
/// as a percent sign and two hexadecimal digits.
pub open spec fn percent_encoded(bytes: Seq<u8>) -> Seq<char>
    decreases bytes.len(),
{
    if bytes.len() == 0 {
        Seq::empty()
    } else {
        percent_encoded(bytes.drop_last()) + encoded_byte(bytes.last())
    }
}

/// Whether a character may stand in a path segment as it is: an unreserved
/// character, or a percent sign with its digits.
pub open spec fn is_segment_char(c: char) -> bool {
    ||| 'A' <= c <= 'Z'
    ||| 'a' <= c <= 'z'
    ||| '0' <= c <= '9'
    ||| c == '-'
    ||| c == '_'
    ||| c == '.'
    ||| c == '~'
    ||| c == '%'
}

/// Whatever the bytes, what is written of them in a path segment holds no
/// slash, no question mark, no space and nothing else that would end the
/// segment: each of its characters is unreserved or belongs to a
/// percent-encoded byte.
pub proof fn law_encoded_segment_is_safe(bytes: Seq<u8>)
    ensures
        forall|i: int|
            0 <= i < percent_encoded(bytes).len() ==> is_segment_char(
                #[trigger] percent_encoded(bytes)[i],
            ),
    decreases bytes.len(),
{
    if bytes.len() > 0 {
        law_encoded_segment_is_safe(bytes.drop_last());
        let front = percent_encoded(bytes.drop_last());
        let last = encoded_byte(bytes.last());
        let b = bytes.last();
        assert forall|k: int| 0 <= k < last.len() implies is_segment_char(#[trigger] last[k]) by {
            if is_unreserved(b) {
                assert(last[0] == b as char);
            } else {
                assert(b / 16 < 16 && b % 16 < 16);
            }
        }
        assert forall|i: int| 0 <= i < percent_encoded(bytes).len() implies is_segment_char(
            #[trigger] percent_encoded(bytes)[i],
        ) by {
            if i < front.len() {
                assert(percent_encoded(bytes)[i] == front[i]);
            } else {
                assert(percent_encoded(bytes)[i] == last[i - front.len()]);
            }
        }
    }
}

/// The hexadecimal digit of a number below sixteen, in upper case.
fn hex_char(n: u8) -> (r: char)
    requires
        n < 16,
    ensures
        r == hex_digit(n),
{
    if n < 10 {
        (0x30 + n) as char
    } else {
        (0x41 + n - 10) as char
    }
}

/// Writes a text as one segment of a path: its bytes in UTF-8, each byte that
/// is not unreserved percent-encoded.
pub fn encode_path_segment(input: &str) -> (r: String)
    ensures
        r@ == percent_encoded(encode_utf8(input@)),
{
    let bytes = input.as_bytes();
    let mut out = String::new();
    let mut i: usize = 0;
    assert(bytes@.subrange(0, 0) =~= Seq::empty());
    while i < bytes.len()
        invariant
            i <= bytes.len(),
            bytes@ == encode_utf8(input@),
            out@ == percent_encoded(bytes@.subrange(0, i as int)),
        decreases bytes.len() - i,
    {
        let ghost next = bytes@.subrange(0, i + 1);
        assert(next.drop_last() =~= bytes@.subrange(0, i as int));
        assert(next.last() == bytes@[i as int]);
        let ghost before = out@;
        let b = bytes[i];
        let plain = (0x41 <= b && b <= 0x5A) || (0x61 <= b && b <= 0x7A) || (0x30 <= b && b <= 0x39)
            || b == 0x2D || b == 0x5F || b == 0x2E || b == 0x7E;
        if plain {
            push_char(&mut out, b as char);
            assert(out@ =~= before + encoded_byte(b));
        } else {
            push_char(&mut out, '%');
            push_char(&mut out, hex_char(b / 16));
            push_char(&mut out, hex_char(b % 16));
            assert(out@ =~= before + encoded_byte(b));
        }
        i += 1;
    }
    assert(bytes@.subrange(0, bytes.len() as int) =~= bytes@);
    out
}

/// The path as it is written in the request line: with a slash at its start.
pub open spec fn absolute_path(path: Seq<char>) -> Seq<char> {
    if path.len() > 0 && path[0] == '/' {
        path
    } else {
        seq!['/'] + path
    }
}

/// The text of a request: the request line, the fixed headers, the
/// authorization with the controller's secret, and the body with its type and
/// its length in bytes, where there is one.
pub open spec fn request_text(
    method: Seq<char>,
    path: Seq<char>,
    body: Option<Seq<char>>,
    secret: Seq<char>,
) -> Seq<char> {
    method + " "@ + absolute_path(path) + " HTTP/1.1\r\n"@ + "Host: 127.0.0.1\r\n"@
        + "Accept: application/json\r\n"@ + "Connection: close\r\n"@ + "Authorization: Bearer "@
        + secret + "\r\n"@ + (match body {
        Some(b) => "Content-Type: application/json\r\n"@ + "Content-Length: "@ + decimal_digits(
            encode_utf8(b).len() as usize as nat,
        ) + "\r\n"@ + "\r\n"@ + b,
        None => "\r\n"@,
    })
}

/// Writes a request to the engine.
pub fn build_http_request(method: &str, path: &str, body: Option<&str>, secret: &str) -> (r: String)
    ensures
        r@ == request_text(
            method@,
            path@,
            match body {
                Some(b) => Some(b@),
                None => None,
            },
            secret@,
        ),
{
    let chars = chars_of(path);
    let mut req = method.to_owned();
    req.append(" ");
    if !(chars.len() > 0 && chars[0] == '/') {
        req.append("/");
        proof {
            reveal_strlit("/");
            assert("/"@ =~= seq!['/']);
        }
    }
    req.append(path);
    assert(req@ =~= method@ + " "@ + absolute_path(path@));
    req.append(" HTTP/1.1\r\n");
    req.append("Host: 127.0.0.1\r\n");
    req.append("Accept: application/json\r\n");
    req.append("Connection: close\r\n");
    req.append("Authorization: Bearer ");
    req.append(secret);
    req.append("\r\n");
    let ghost head = req@;
    match body {
        Some(b) => {
            req.append("Content-Type: application/json\r\n");
            req.append("Content-Length: ");
            req.append(decimal_text(b.len() as u64).as_str());
            req.append("\r\n");
            req.append("\r\n");
            req.append(b);
            assert(req@ =~= head + ("Content-Type: application/json\r\n"@ + "Content-Length: "@
                + decimal_digits(encode_utf8(b@).len() as usize as nat) + "\r\n"@ + "\r\n"@ + b@));
        },
        None => {
            req.append("\r\n");
        },
    }
    req
}

/// `String::from_utf8`: the text that bytes encode in UTF-8, where they
/// encode one.
#[verifier::external_body]
pub(crate) fn text_of_utf8(bytes: Vec<u8>) -> (r: Option<String>)
    ensures
        match r {
            Some(text) => valid_utf8(bytes@) && text@ == decode_utf8(bytes@),
            None => !valid_utf8(bytes@),
        },
{
    String::from_utf8(bytes).ok()
}

/// Why a response could not be read.
#[derive(Clone, Copy, PartialEq, Eq, Structural, Debug)]
pub enum ResponseError {
    /// The response ends before the blank line that closes its head.
    NoResponse,
    /// The head is not text.
    HeadNotText,
    /// A chunked body ends before its last chunk.
    ChunkTruncated,
    /// A line of a chunked body is not text.
    ChunkLineNotText,
    /// The size of a chunk is not a hexadecimal number.
    ChunkSizeInvalid,
    /// The body is shorter than the head announced.
    BodyTruncated,
    /// The body is not text.
    BodyNotText,
    /// The status line lacks the protocol's version.
    MissingVersion,
    /// The status line lacks the status code.
    MissingStatusCode,
    /// The status code is not a number.
    InvalidStatusCode,
}

/// The position after the line that begins at `from`: after its newline, or
/// the end of the bytes where no newline follows.
pub open spec fn line_end(raw: Seq<u8>, from: int) -> int
    decreases raw.len() - from,
{
    if from < 0 || from >= raw.len() {
        raw.len() as int
    } else if raw[from] == 0x0Au8 {
        from + 1
    } else {
        line_end(raw, from + 1)
    }
}

/// A line ends after its beginning and within the bytes.
pub proof fn lemma_line_end_bounds(raw: Seq<u8>, from: int)
    requires
        0 <= from <= raw.len(),
    ensures
        from <= line_end(raw, from) <= raw.len(),
        from < raw.len() ==> from < line_end(raw, from),
    decreases raw.len() - from,
{
    if from < raw.len() && raw[from] != 0x0Au8 {
        lemma_line_end_bounds(raw, from + 1);
    }
}

/// The position after the line that begins at `from`.
pub fn next_line(raw: &[u8], from: usize) -> (r: usize)
    requires
        from <= raw.len(),
    ensures
        r == line_end(raw@, from as int),
        from <= r <= raw.len(),
        from < raw.len() ==> from < r,
{
    let mut i: usize = from;
    while i < raw.len()
        invariant
            from <= i <= raw.len(),
            line_end(raw@, from as int) == line_end(raw@, i as int),
        decreases raw.len() - i,
    {
        if raw[i] == 0x0A {
            return i + 1;
        }
        i += 1;
    }
    i
}

/// The bytes from `from` up to `to`, where the two lie in the bytes in that
/// order, else no bytes.
pub open spec fn span(raw: Seq<u8>, from: int, to: int) -> Seq<u8> {
    if 0 <= from <= to <= raw.len() {
        raw.subrange(from, to)
    } else {
        Seq::empty()
    }
}

/// The position after the head of a response: after the first line, from
/// `from` on, that is a carriage return and a newline and nothing else.
pub open spec fn head_end(raw: Seq<u8>, from: int) -> Option<int>
    decreases raw.len() - from,
    via head_end_decreases
{
    if from < 0 || from >= raw.len() {
        None
    } else {
        let e = line_end(raw, from);
        if span(raw, from, e) == seq![0x0Du8, 0x0Au8] {
            Some(e)
        } else {
            head_end(raw, e)
        }
    }
}

#[via_fn]
proof fn head_end_decreases(raw: Seq<u8>, from: int) {
    if 0 <= from < raw.len() {
        lemma_line_end_bounds(raw, from);
    }
}

/// The position after the head of a response.
pub fn find_head_end(raw: &[u8]) -> (r: Option<usize>)
    ensures
        match r {
            Some(h) => head_end(raw@, 0) == Some(h as int) && h <= raw.len(),
            None => head_end(raw@, 0) is None,
        },
{
    let mut pos: usize = 0;
    while pos < raw.len()
        invariant
            pos <= raw.len(),
            head_end(raw@, 0) == head_end(raw@, pos as int),
        decreases raw.len() - pos,
    {
        let e = next_line(raw, pos);
        let ghost line = raw@.subrange(pos as int, e as int);
        if e - pos == 2 && raw[pos] == 0x0D && raw[pos + 1] == 0x0A {
            assert(line =~= seq![0x0Du8, 0x0Au8]);
            return Some(e);
        }
        assert(line != seq![0x0Du8, 0x0Au8]) by {
            if line == seq![0x0Du8, 0x0Au8] {
                assert(line.len() == 2);
                assert(line[0] == 0x0Du8 && line[1] == 0x0Au8);
            }
        }
        pos = e;
    }
    None
}

/// The line without a carriage return at its end.
pub open spec fn without_cr(line: Seq<char>) -> Seq<char> {
    if line.len() > 0 && line.last() == '\r' {
        line.drop_last()
    } else {
        line
    }
}

/// The lines of a text: what lies before each of its newlines, without the
/// carriage return that may precede the newline, and what follows the last
/// newline where something follows it.
pub open spec fn text_lines(s: Seq<char>) -> Seq<Seq<char>> {
    let parts = split(s, '\n');
    let ended = Seq::new((parts.len() - 1) as nat, |i: int| without_cr(parts[i]));
    if parts.len() > 0 && parts.last().len() > 0 {
        ended.push(parts.last())
    } else {
        ended
    }
}

/// The lines of a text.
pub fn lines_of(chars: &Vec<char>) -> (r: Vec<Vec<char>>)
    ensures
        parts_view(r@) == text_lines(chars@),
{
    let parts = split_chars(chars, '\n');
    let ghost all = parts_view(parts@);
    let ended = parts.len() - 1;
    let mut out: Vec<Vec<char>> = Vec::new();
    let mut i: usize = 0;
    while i < ended
        invariant
            i <= ended == parts.len() - 1,
            all == parts_view(parts@),
            out.len() == i,
            forall|j: int| 0 <= j < i ==> (#[trigger] out[j])@ == without_cr(all[j]),
        decreases ended - i,
    {
        let line = &parts[i];
        assert(all[i as int] == line@);
        let n = line.len();
        let cut = if n > 0 && line[n - 1] == '\r' {
            let c = slice_chars(line, 0, n - 1);
            assert(c@ =~= line@.drop_last());
            c
        } else {
            let c = slice_chars(line, 0, n);
            assert(c@ =~= line@);
            c
        };
        out.push(cut);
        i += 1;
    }
    let last = &parts[ended];
    assert(all[ended as int] == last@);
    if last.len() > 0 {
        let kept = slice_chars(last, 0, last.len());
        assert(kept@ =~= last@);
        out.push(kept);
    }
    assert(parts_view(out@) =~= text_lines(chars@));
    out
}

/// The text with its ASCII capitals in lower case.
pub open spec fn lower_text(s: Seq<char>) -> Seq<char> {
    Seq::new(s.len(), |i: int| ascii_lower(s[i]))
}

/// The characters with the ASCII capitals in lower case.
pub fn lower_chars(chars: &Vec<char>) -> (r: Vec<char>)
    ensures
        r@ == lower_text(chars@),
{
    let mut out: Vec<char> = Vec::new();
    let mut i: usize = 0;
    while i < chars.len()
        invariant
            i <= chars.len(),
            out.len() == i,
            forall|j: int| 0 <= j < i ==> out@[j] == ascii_lower(chars@[j]),
        decreases chars.len() - i,
    {
        out.push(ascii_lower_char(chars[i]));
        i += 1;
    }
    assert(out@ =~= lower_text(chars@));
    out
}

/// The largest body length that a head can announce.
pub open spec fn max_length() -> u64 {
    usize::MAX as u64
}

/// The body length that a header line announces, where it announces one: the
/// number after `content-length: `, in whatever case that is written.
pub open spec fn length_in_line(line: Seq<char>) -> Option<u64> {
    let lower = lower_text(line);
    if has_prefix(lower, "content-length: "@) {
        parse_number_spec(
            trimmed(lower.subrange("content-length: "@.len() as int, lower.len() as int)),
            10,
            max_length(),
        )
    } else {
        None
    }
}

/// The body length that a head announces: that of the last line that
/// announces one.
pub open spec fn announced_length(lines: Seq<Seq<char>>) -> Option<u64>
    decreases lines.len(),
{
    if lines.len() == 0 {
        None
    } else {
        match length_in_line(lines.last()) {
            Some(n) => Some(n),
            None => announced_length(lines.drop_last()),
        }
    }
}

/// The body length that a head announces is one that the machine can count.
pub proof fn lemma_announced_fits(lines: Seq<Seq<char>>)
    ensures
        announced_length(lines) matches Some(n) ==> n <= max_length(),
    decreases lines.len(),
{
    if lines.len() > 0 {
        lemma_announced_fits(lines.drop_last());
    }
}

/// Whether a head says that the body comes in chunks.
pub open spec fn says_chunked(lines: Seq<Seq<char>>) -> bool {
    exists|i: int|
        0 <= i < lines.len() && contains_text(
            lower_text(#[trigger] lines[i]),
            "transfer-encoding: chunked"@,
        )
}

/// The status code in a head, from the second word of its first line.
pub open spec fn status_of(lines: Seq<Seq<char>>) -> Result<u16, ResponseError> {
    if lines.len() == 0 || words(lines[0]).len() == 0 {
        Err(ResponseError::MissingVersion)
    } else if words(lines[0]).len() == 1 {
        Err(ResponseError::MissingStatusCode)
    } else {
        match parse_number_spec(words(lines[0])[1], 10, 65535) {
            Some(n) => Ok(n as u16),
            None => Err(ResponseError::InvalidStatusCode),
        }
    }
}

/// What a head says about the body and the status.
#[derive(Clone, Copy, Debug)]
pub struct ResponseHead {
    pub content_length: Option<usize>,
    pub chunked: bool,
    pub status: Result<u16, ResponseError>,
}

/// Reads the head of a response.
pub fn parse_response_head(head: &Vec<char>) -> (r: ResponseHead)
    ensures
        match announced_length(text_lines(head@)) {
            Some(n) => r.content_length == Some(n as usize),
            None => r.content_length is None,
        },
        r.chunked == says_chunked(text_lines(head@)),
        r.status == status_of(text_lines(head@)),
{
    let lines = lines_of(head);
    let ghost all = text_lines(head@);
    let prefix = chars_of("content-length: ");
    let marker = chars_of("transfer-encoding: chunked");
    let mut content_length: Option<usize> = None;
    let mut chunked = false;
    let mut i: usize = 0;
    assert(all.subrange(0, 0) =~= Seq::empty());
    while i < lines.len()
        invariant
            i <= lines.len(),
            all == parts_view(lines@),
            prefix@ == "content-length: "@,
            marker@ == "transfer-encoding: chunked"@,
            match announced_length(all.subrange(0, i as int)) {
                Some(n) => content_length == Some(n as usize),
                None => content_length is None,
            },
            chunked == says_chunked(all.subrange(0, i as int)),
        decreases lines.len() - i,
    {
        let ghost done = all.subrange(0, i as int);
        let ghost next = all.subrange(0, i + 1);
        assert(next.drop_last() =~= done);
        assert(next.last() == lines[i as int]@);
        let lower = lower_chars(&lines[i]);
        if chars_start_with(&lower, &prefix) {
            let rest = trim_chars(&slice_chars(&lower, prefix.len(), lower.len()));
            match parse_number(&rest, 10, usize::MAX as u64) {
                Some(n) => {
                    content_length = Some(n as usize);
                },
                None => {},
            }
        }
        let here = chars_contain(&lower, &marker);
        proof {
            if says_chunked(next) {
                let k = choose|k: int|
                    0 <= k < next.len() && contains_text(
                        lower_text(#[trigger] next[k]),
                        "transfer-encoding: chunked"@,
                    );
                if k < i {
                    assert(done[k] == next[k]);
                }
            }
            if says_chunked(done) {
                let k = choose|k: int|
                    0 <= k < done.len() && contains_text(
                        lower_text(#[trigger] done[k]),
                        "transfer-encoding: chunked"@,
                    );
                assert(next[k] == done[k]);
            }
            if here {
                assert(contains_text(lower_text(next[i as int]), "transfer-encoding: chunked"@));
            }
        }
        if here {
            chunked = true;
        }
        i += 1;
    }
    assert(all.subrange(0, lines.len() as int) =~= all);
    let status = if lines.len() == 0 {
        Err(ResponseError::MissingVersion)
    } else {
        let parts = split_words(&lines[0]);
        assert(parts_view(parts@) == words(all[0]));
        if parts.len() == 0 {
            Err(ResponseError::MissingVersion)
        } else if parts.len() == 1 {
            Err(ResponseError::MissingStatusCode)
        } else {
            assert(parts_view(parts@)[1] == parts[1]@);
            match parse_number(&parts[1], 10, 65535) {
                Some(n) => Ok(n as u16),
                None => Err(ResponseError::InvalidStatusCode),
            }
        }
    };
    ResponseHead { content_length, chunked, status }
}

/// The body that chunks encode, read from `from` on: each chunk is a line
/// with its size in hexadecimal, the chunk's bytes, and a line that closes
/// it; a chunk of size zero, with a line after it, ends the body. Blank
/// lines before a size are passed over.
pub open spec fn chunked_body(raw: Seq<u8>, from: int) -> Result<Seq<u8>, ResponseError>
    decreases raw.len() - from,
    via chunked_body_decreases
{
    if from < 0 || from >= raw.len() {
        Err(ResponseError::ChunkTruncated)
    } else {
        let e = line_end(raw, from);
        let line = span(raw, from, e);
        if !valid_utf8(line) {
            Err(ResponseError::ChunkLineNotText)
        } else if trimmed(decode_utf8(line)).len() == 0 {
            chunked_body(raw, e)
        } else {
            match parse_number_spec(trimmed(decode_utf8(line)), 16, max_length()) {
                None => Err(ResponseError::ChunkSizeInvalid),
                Some(size) => if size == 0 {
                    if valid_utf8(span(raw, e, line_end(raw, e))) {
                        Ok(Seq::empty())
                    } else {
                        Err(ResponseError::ChunkLineNotText)
                    }
                } else if e + size > raw.len() {
                    Err(ResponseError::ChunkTruncated)
                } else {
                    let close = line_end(raw, e + size);
                    if !valid_utf8(span(raw, e + size, close)) {
                        Err(ResponseError::ChunkLineNotText)
                    } else {
                        match chunked_body(raw, close) {
                            Ok(rest) => Ok(span(raw, e, e + size) + rest),
                            Err(err) => Err(err),
                        }
                    }
                },
            }
        }
    }
}

#[via_fn]
proof fn chunked_body_decreases(raw: Seq<u8>, from: int) {
    if 0 <= from < raw.len() {
        lemma_line_end_bounds(raw, from);
        let e = line_end(raw, from);
        let line = span(raw, from, e);
        if valid_utf8(line) {
            match parse_number_spec(trimmed(decode_utf8(line)), 16, max_length()) {
                Some(size) => {
                    if e + size <= raw.len() {
                        lemma_line_end_bounds(raw, e + size);
                    }
                },
                None => {},
            }
        }
    }
}

/// Whether the bytes from `from` to `to` are text, and the text's
/// characters where they are.
fn line_chars(raw: &[u8], from: usize, to: usize) -> (r: Option<Vec<char>>)
    requires
        from <= to <= raw.len(),
    ensures
        match r {
            Some(chars) => valid_utf8(raw@.subrange(from as int, to as int)) && chars@
                == decode_utf8(raw@.subrange(from as int, to as int)),
            None => !valid_utf8(raw@.subrange(from as int, to as int)),
        },
{
    match text_of_utf8(slice_to_vec(slice_subrange(raw, from, to))) {
        Some(text) => Some(chars_of(text.as_str())),
        None => None,
    }
}

/// Reads a chunked body from `from` on and puts its bytes at the end of
/// `out`.
pub fn read_chunked_body(raw: &[u8], from: usize, out: &mut Vec<u8>) -> (r: Result<(), ResponseError>)
    requires
        from <= raw.len(),
    ensures
        match chunked_body(raw@, from as int) {
            Ok(body) => r is Ok && final(out)@ == old(out)@ + body,
            Err(e) => r == Err::<(), ResponseError>(e),
        },
    decreases raw.len() - from,
{
    if from >= raw.len() {
        return Err(ResponseError::ChunkTruncated);
    }
    let e = next_line(raw, from);
    let Some(line) = line_chars(raw, from, e) else {
        return Err(ResponseError::ChunkLineNotText);
    };
    let size_text = trim_chars(&line);
    if size_text.len() == 0 {
        return read_chunked_body(raw, e, out);
    }
    let Some(size) = parse_number(&size_text, 16, usize::MAX as u64) else {
        return Err(ResponseError::ChunkSizeInvalid);
    };
    let size = size as usize;
    if size == 0 {
        let after = next_line(raw, e);
        if line_chars(raw, e, after).is_none() {
            return Err(ResponseError::ChunkLineNotText);
        }
        assert(out@ + Seq::<u8>::empty() =~= out@);
        return Ok(());
    }
    if size > raw.len() - e {
        return Err(ResponseError::ChunkTruncated);
    }
    let close = next_line(raw, e + size);
    if line_chars(raw, e + size, close).is_none() {
        return Err(ResponseError::ChunkLineNotText);
    }
    let ghost before = out@;
    let ghost data = raw@.subrange(e as int, e + size);
    let mut chunk = slice_to_vec(slice_subrange(raw, e, e + size));
    out.append(&mut chunk);
    assert(out@ == before + data);
    match read_chunked_body(raw, close, out) {
        Ok(()) => {
            proof {
                let rest = chunked_body(raw@, close as int)->Ok_0;
                assert((before + data) + rest =~= before + (data + rest));
            }
            Ok(())
        },
        Err(err) => Err(err),
    }
}

/// The bytes of the body of a response whose head ends at `h`: read from
/// chunks where the head says so, else as long as the head announces, else
/// all that follows the head.
pub open spec fn body_bytes(raw: Seq<u8>, h: int, lines: Seq<Seq<char>>) -> Result<
    Seq<u8>,
    ResponseError,
> {
    if says_chunked(lines) {
        chunked_body(raw, h)
    } else {
        match announced_length(lines) {
            Some(n) => if h + n <= raw.len() {
                Ok(span(raw, h, h + n))
            } else {
                Err(ResponseError::BodyTruncated)
            },
            None => Ok(span(raw, h, raw.len() as int)),
        }
    }
}

/// The status code and the body of a response. The head is read first, then
/// the body, then the status line, and the first of them that fails decides
/// the error.
pub open spec fn http_response(raw: Seq<u8>) -> Result<(u16, Seq<char>), ResponseError> {
    match head_end(raw, 0) {
        None => Err(ResponseError::NoResponse),
        Some(h) => if !valid_utf8(span(raw, 0, h)) {
            Err(ResponseError::HeadNotText)
        } else {
            let lines = text_lines(decode_utf8(span(raw, 0, h)));
            match body_bytes(raw, h, lines) {
                Err(e) => Err(e),
                Ok(bytes) => if !valid_utf8(bytes) {
                    Err(ResponseError::BodyNotText)
                } else {
                    match status_of(lines) {
                        Err(e) => Err(e),
                        Ok(code) => Ok((code, decode_utf8(bytes))),
                    }
                },
            }
        },
    }
}

/// Reads a response of the engine: its status code and its body as text.
pub fn parse_http_response(raw: &[u8]) -> (r: Result<(u16, String), ResponseError>)
    ensures
        match http_response(raw@) {
            Ok(pair) => r matches Ok(got) && got.0 == pair.0 && got.1@ == pair.1,
            Err(e) => r == Err::<(u16, String), ResponseError>(e),
        },
{
    let Some(h) = find_head_end(raw) else {
        return Err(ResponseError::NoResponse);
    };
    let Some(head_chars) = line_chars(raw, 0, h) else {
        return Err(ResponseError::HeadNotText);
    };
    let head = parse_response_head(&head_chars);
    let ghost lines = text_lines(head_chars@);
    proof {
        lemma_announced_fits(lines);
    }
    let body = if head.chunked {
        let mut out: Vec<u8> = Vec::new();
        match read_chunked_body(raw, h, &mut out) {
            Ok(()) => {
                assert(Seq::<u8>::empty() + chunked_body(raw@, h as int)->Ok_0 =~= chunked_body(
                    raw@,
                    h as int,
                )->Ok_0);
                assert(body_bytes(raw@, h as int, lines) == Ok::<Seq<u8>, ResponseError>(out@));
                out
            },
            Err(e) => {
                return Err(e);
            },
        }
    } else {
        match head.content_length {
            Some(n) => {
                if n > raw.len() - h {
                    return Err(ResponseError::BodyTruncated);
                }
                let out = slice_to_vec(slice_subrange(raw, h, h + n));
                assert(body_bytes(raw@, h as int, lines) == Ok::<Seq<u8>, ResponseError>(out@));
                out
            },
            None => {
                let out = slice_to_vec(slice_subrange(raw, h, raw.len()));
                assert(body_bytes(raw@, h as int, lines) == Ok::<Seq<u8>, ResponseError>(out@));
                out
            },
        }
    };
    let Some(text) = text_of_utf8(body) else {
        return Err(ResponseError::BodyNotText);
    };
    match head.status {
        Err(e) => Err(e),
        Ok(code) => Ok((code, text)),
    }
}

/// Whether a status code reports success.
pub open spec fn is_success(status: u16) -> bool {
    200 <= status < 300
}

} // verus!
