//! The response side of the codec: a whole byte stream read as status, headers and body.

use vstd::prelude::*;
use vstd::slice::slice_subrange;
use vstd::string::StringSliceAdditionalSpecFns;
use vstd::utf8::{decode_utf8, valid_utf8, decode_utf8_encode_utf8};
use crate::headers::Headers;
use crate::scan::{lemma_contains_has_first, split_once};
use crate::text::{cut_text, lemma_text_of_bytes, text_from_utf8};

verus! {

/// A response: the status code, the headers, and the body as text.
#[derive(Debug)]
pub struct Response {
    pub status: u16,
    pub headers: Headers,
    pub body: String,
}

/// Why a byte stream is no response.
#[derive(Debug, Clone, Copy, PartialEq, Eq, Structural)]
pub enum ParseError {
    /// The bytes are not valid UTF-8 text.
    InvalidText,
    /// No blank line parts the headers from the body.
    MissingBody,
    /// No line ending parts the status line from the headers.
    MissingHeaders,
    /// The status line has no second token.
    MalformedStatusLine,
    /// The second token of the status line is no number that fits sixteen bits.
    InvalidStatus,
    /// A header line lacks the colon and space between name and value.
    MalformedHeader,
}

/// What a response holds, as mathematical values.
pub struct ResponseView {
    pub status: u16,
    pub headers: Map<Seq<char>, Seq<char>>,
    pub body: Seq<char>,
}

/// A line ending: CR LF.
pub open spec fn crlf() -> Seq<u8> {
    seq![13u8, 10u8]
}

/// The blank line before the body: CR LF CR LF.
pub open spec fn blank_line() -> Seq<u8> {
    seq![13u8, 10u8, 13u8, 10u8]
}

/// What parts a header's name from its value: a colon and a space.
pub open spec fn field_separator() -> Seq<u8> {
    seq![58u8, 32u8]
}

/// One space.
pub open spec fn space() -> Seq<u8> {
    seq![32u8]
}

/// A byte of whitespace: space, tab, line feed, form feed or carriage return.
pub open spec fn is_whitespace(byte: u8) -> bool {
    byte == 32 || byte == 9 || byte == 10 || byte == 12 || byte == 13
}

/// Where the run of bytes that starts at `from` ends: the longest run of whitespace where
/// `blank` holds, and of other bytes where it does not.
pub open spec fn run_end(bytes: Seq<u8>, from: int, blank: bool) -> int
    decreases bytes.len() - from,
{
    if 0 <= from < bytes.len() && is_whitespace(bytes[from]) == blank {
        run_end(bytes, from + 1, blank)
    } else {
        from
    }
}

/// The second token of the status line, a token being a longest run of bytes that are no
/// whitespace.
pub open spec fn status_token(line: Seq<u8>) -> Option<Seq<u8>> {
    let first = run_end(line, 0, true);
    let gap = run_end(line, first, false);
    let second = run_end(line, gap, true);
    let end = run_end(line, second, false);
    if second < end {
        Some(line.subrange(second, end))
    } else {
        None
    }
}

/// Every byte of `digits` is a decimal digit.
pub open spec fn all_digits(digits: Seq<u8>) -> bool {
    forall|k: int| 0 <= k < digits.len() ==> 48 <= #[trigger] digits[k] <= 57
}

/// The number that decimal digits write.
pub open spec fn decimal_value(digits: Seq<u8>) -> nat
    decreases digits.len(),
{
    if digits.len() == 0 {
        0
    } else {
        decimal_value(digits.drop_last()) * 10 + (digits.last() - 48) as nat
    }
}

/// The digits of a number token: the token without one leading plus sign.
pub open spec fn unsigned_digits(token: Seq<u8>) -> Seq<u8> {
    if token.len() > 0 && token[0] == 43 {
        token.drop_first()
    } else {
        token
    }
}

/// The status code that a token writes: an optional plus sign, then one or more decimal
/// digits whose value fits sixteen bits.
pub open spec fn status_code(token: Seq<u8>) -> Option<u16> {
    let digits = unsigned_digits(token);
    if digits.len() > 0 && all_digits(digits) && decimal_value(digits) <= u16::MAX {
        Some(decimal_value(digits) as u16)
    } else {
        None
    }
}

/// The lines of a header block, which CR LF parts.
pub open spec fn lines_of(block: Seq<u8>) -> Seq<Seq<u8>>
    decreases block.len(),
{
    match split_once(block, crlf()) {
        None => seq![block],
        Some((line, rest)) => {
            proof {
                lemma_contains_has_first(block, crlf());
            }
            seq![line] + lines_of(rest)
        },
    }
}

/// Every line has a name and a value.
pub open spec fn all_fields(lines: Seq<Seq<u8>>) -> bool {
    forall|k: int| 0 <= k < lines.len() ==> (#[trigger] split_once(lines[k], field_separator()))
        is Some
}

/// The mapping that header lines stand for, a later line winning over an earlier one of the
/// same name.
pub open spec fn header_map(lines: Seq<Seq<u8>>) -> Map<Seq<char>, Seq<char>>
    decreases lines.len(),
{
    if lines.len() == 0 {
        Map::empty()
    } else {
        let field = split_once(lines.last(), field_separator()).unwrap();
        header_map(lines.drop_last()).insert(decode_utf8(field.0), decode_utf8(field.1))
    }
}

/// What a byte stream holds as a response, or why it holds none.
pub open spec fn parse_response(data: Seq<u8>) -> Result<ResponseView, ParseError> {
    if !valid_utf8(data) {
        Err(ParseError::InvalidText)
    } else {
        match split_once(data, blank_line()) {
            None => Err(ParseError::MissingBody),
            Some((head, body)) => match split_once(head, crlf()) {
                None => Err(ParseError::MissingHeaders),
                Some((status_line, block)) => match status_token(status_line) {
                    None => Err(ParseError::MalformedStatusLine),
                    Some(token) => match status_code(token) {
                        None => Err(ParseError::InvalidStatus),
                        Some(status) => if all_fields(lines_of(block)) {
                            Ok(
                                ResponseView {
                                    status,
                                    headers: header_map(lines_of(block)),
                                    body: decode_utf8(body),
                                },
                            )
                        } else {
                            Err(ParseError::MalformedHeader)
                        },
                    },
                },
            },
        }
    }
}

/// Appending digits never lowers the value.
proof fn lemma_decimal_value_grows(digits: Seq<u8>, k: int)
    requires
        all_digits(digits),
        0 <= k <= digits.len(),
    ensures
        decimal_value(digits.take(k)) <= decimal_value(digits),
    decreases digits.len() - k,
{
    if k < digits.len() {
        lemma_decimal_value_grows(digits, k + 1);
        let longer = digits.take(k + 1);
        assert(longer.drop_last() =~= digits.take(k));
        assert(longer.last() == digits[k]);
    } else {
        assert(digits.take(k) =~= digits);
    }
}

/// The status code that `token` writes.
fn read_status(token: &[u8]) -> (status: Option<u16>)
    ensures
        status == status_code(token@),
{
    let start: usize = if token.len() > 0 && token[0] == 43 {
        1
    } else {
        0
    };
    let ghost digits = unsigned_digits(token@);
    assert(digits =~= token@.subrange(start as int, token.len() as int));
    if start == token.len() {
        return None;
    }
    let mut value: u32 = 0;
    let mut at: usize = start;
    while at < token.len()
        invariant
            start <= at <= token.len(),
            digits == unsigned_digits(token@),
            digits == token@.subrange(start as int, token.len() as int),
            all_digits(digits.take(at - start)),
            value == decimal_value(digits.take(at - start)),
            value <= u16::MAX,
        decreases token.len() - at,
    {
        let byte = token[at];
        if byte < 48 || byte > 57 {
            assert(digits[at - start] == byte);
            return None;
        }
        let ghost longer = digits.take(at - start + 1);
        proof {
            assert(longer.drop_last() =~= digits.take(at - start));
            assert(longer.last() == byte);
            assert forall|k: int| 0 <= k < longer.len() implies 48 <= #[trigger] longer[k]
                <= 57 by {
                if k < at - start {
                    assert(digits.take(at - start)[k] == longer[k]);
                }
            }
        }
        let next: u32 = value * 10 + (byte - 48) as u32;
        if next > 65535 {
            proof {
                if all_digits(digits) {
                    lemma_decimal_value_grows(digits, at - start + 1);
                }
            }
            return None;
        }
        value = next;
        at = at + 1;
    }
    assert(digits.take(at - start) =~= digits);
    Some(value as u16)
}

/// Whether `byte` is whitespace.
fn whitespace(byte: u8) -> (blank: bool)
    ensures
        blank == is_whitespace(byte),
{
    byte == 32 || byte == 9 || byte == 10 || byte == 12 || byte == 13
}

/// Where the run that starts at `from` ends.
fn read_run(bytes: &[u8], from: usize, blank: bool) -> (end: usize)
    requires
        from <= bytes.len(),
    ensures
        end == run_end(bytes@, from as int, blank),
        from <= end <= bytes.len(),
{
    let mut at: usize = from;
    while at < bytes.len() && whitespace(bytes[at]) == blank
        invariant
            from <= at <= bytes.len(),
            run_end(bytes@, from as int, blank) == run_end(bytes@, at as int, blank),
        decreases bytes.len() - at,
    {
        at = at + 1;
    }
    at
}

/// The second token of the status line.
fn read_status_token<'a>(line: &'a [u8]) -> (token: Option<&'a [u8]>)
    ensures
        token is Some <==> status_token(line@) is Some,
        token matches Some(t) ==> status_token(line@) == Some(t@),
{
    let first = read_run(line, 0, true);
    let gap = read_run(line, first, false);
    let second = read_run(line, gap, true);
    let end = read_run(line, second, false);
    if second < end {
        Some(slice_subrange(line, second, end))
    } else {
        None
    }
}

/// Reading one more line into the mapping.
proof fn lemma_header_map_push(lines: Seq<Seq<u8>>, line: Seq<u8>)
    ensures
        header_map(lines.push(line)) == header_map(lines).insert(
            decode_utf8(split_once(line, field_separator()).unwrap().0),
            decode_utf8(split_once(line, field_separator()).unwrap().1),
        ),
{
    assert(lines.push(line).drop_last() =~= lines);
}

/// The headers that a header block holds, or `None` where a line of it has no name and value.
fn read_headers(block: &str) -> (headers: Option<Headers>)
    ensures
        headers is Some <==> all_fields(lines_of(block.spec_bytes())),
        headers matches Some(h) ==> h@ == header_map(lines_of(block.spec_bytes())),
{
    let crlf: [u8; 2] = [13, 10];
    let separator: [u8; 2] = [58, 32];
    assert(crlf@ =~= self::crlf());
    assert(separator@ =~= field_separator());
    let mut headers = Headers::new();
    let mut rest: &str = block;
    let ghost all = lines_of(block.spec_bytes());
    let ghost mut done: Seq<Seq<u8>> = Seq::empty();
    let mut open = true;
    while open
        invariant
            crlf@ == self::crlf(),
            separator@ == field_separator(),
            all == lines_of(block.spec_bytes()),
            open ==> all == done + lines_of(rest.spec_bytes()),
            !open ==> all == done,
            all_fields(done),
            headers@ == header_map(done),
        decreases rest.spec_bytes().len(), (if open { 1int } else { 0int }),
    {
        let ghost rest_bytes = rest.spec_bytes();
        let (line, tail) = match cut_text(rest, crlf.as_slice()) {
            Some((line, tail)) => {
                proof {
                    lemma_contains_has_first(rest_bytes, self::crlf());
                }
                (line, Some(tail))
            },
            None => (rest, None),
        };
        let ghost line_bytes = line.spec_bytes();
        assert(lines_of(rest_bytes)[0] == line_bytes);
        match cut_text(line, separator.as_slice()) {
            None => {
                assert(all[done.len() as int] == line_bytes);
                return None;
            },
            Some((name, value)) => {
                headers.insert(name, value);
                proof {
                    lemma_header_map_push(done, line_bytes);
                    lemma_text_of_bytes(name@, name.spec_bytes());
                    lemma_text_of_bytes(value@, value.spec_bytes());
                    assert forall|k: int| 0 <= k < done.push(line_bytes).len() implies (
                    #[trigger] split_once(done.push(line_bytes)[k], field_separator())) is Some by {
                        if k < done.len() {
                            assert(done.push(line_bytes)[k] == done[k]);
                        }
                    }
                }
            },
        }
        proof {
            match tail {
                Some(t) => {
                    assert(done.push(line_bytes) + lines_of(t.spec_bytes()) =~= done + lines_of(
                        rest_bytes,
                    ));
                },
                None => {
                    assert(done.push(line_bytes) =~= done + lines_of(rest_bytes));
                },
            }
            done = done.push(line_bytes);
        }
        match tail {
            Some(t) => {
                rest = t;
            },
            None => {
                open = false;
            },
        }
    }
    Some(headers)
}

impl View for Response {
    type V = ResponseView;

    open spec fn view(&self) -> ResponseView {
        ResponseView { status: self.status, headers: self.headers@, body: self.body@ }
    }
}

impl ParseError {
    /// What went wrong, in words.
    pub open spec fn text(self) -> Seq<char> {
        match self {
            ParseError::InvalidText => "response is not valid UTF-8 text"@,
            ParseError::MissingBody => "no separator between headers and body"@,
            ParseError::MissingHeaders => "no separator between status line and headers"@,
            ParseError::MalformedStatusLine => "malformed status line"@,
            ParseError::InvalidStatus => "non-numeric HTTP status"@,
            ParseError::MalformedHeader => "malformed header"@,
        }
    }

    /// What went wrong, in words.
    pub fn message(&self) -> (text: &'static str)
        ensures
            text@ == self.text(),
    {
        match self {
            ParseError::InvalidText => "response is not valid UTF-8 text",
            ParseError::MissingBody => "no separator between headers and body",
            ParseError::MissingHeaders => "no separator between status line and headers",
            ParseError::MalformedStatusLine => "malformed status line",
            ParseError::InvalidStatus => "non-numeric HTTP status",
            ParseError::MalformedHeader => "malformed header",
        }
    }
}

impl Response {
    /// Reads a whole byte stream as a response: the status line, the headers, a blank line,
    /// and as body every byte after it.
    pub fn parse(data: Vec<u8>) -> (parsed: Result<Response, ParseError>)
        ensures
            match parsed {
                Ok(response) => parse_response(data@) == Ok::<ResponseView, ParseError>(response@),
                Err(error) => parse_response(data@) == Err::<ResponseView, ParseError>(error),
            },
    {
        let ghost bytes = data@;
        let text = match text_from_utf8(data) {
            None => {
                return Err(ParseError::InvalidText);
            },
            Some(text) => text,
        };
        proof {
            decode_utf8_encode_utf8(bytes);
        }
        let blank: [u8; 4] = [13, 10, 13, 10];
        let crlf: [u8; 2] = [13, 10];
        assert(blank@ =~= blank_line());
        assert(crlf@ =~= self::crlf());
        let (head, body) = match cut_text(text.as_str(), blank.as_slice()) {
            None => {
                return Err(ParseError::MissingBody);
            },
            Some(parts) => parts,
        };
        let (status_line, block) = match cut_text(head, crlf.as_slice()) {
            None => {
                return Err(ParseError::MissingHeaders);
            },
            Some(parts) => parts,
        };
        let token = match read_status_token(status_line.as_bytes()) {
            None => {
                return Err(ParseError::MalformedStatusLine);
            },
            Some(token) => token,
        };
        let status = match read_status(token) {
            None => {
                return Err(ParseError::InvalidStatus);
            },
            Some(status) => status,
        };
        let headers = match read_headers(block) {
            None => {
                return Err(ParseError::MalformedHeader);
            },
            Some(headers) => headers,
        };
        proof {
            lemma_text_of_bytes(body@, body.spec_bytes());
        }
        Ok(Response { status, headers, body: body.to_owned() })
    }
}

} // verus!
