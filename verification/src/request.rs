//! The request side of the codec: a GET request and its wire bytes.

use vstd::prelude::*;
use vstd::string::StringExecFns;
use vstd::string::StrSliceExecFns;
use vstd::utf8::encode_utf8;
use crate::headers::{Headers, Line};

verus! {

/// A request. Only GET is spoken.
#[derive(Debug)]
pub enum Request {
    Get { path: String, headers: Headers },
}

/// One header line on the wire, without its line ending: the name, a colon, a space, the value.
pub open spec fn header_text(line: Line) -> Seq<char> {
    line.0 + ": "@ + line.1
}

/// The header lines joined by CR LF; nothing for no lines.
pub open spec fn headers_text(lines: Seq<Line>) -> Seq<char>
    decreases lines.len(),
{
    if lines.len() == 0 {
        Seq::empty()
    } else if lines.len() == 1 {
        header_text(lines[0])
    } else {
        headers_text(lines.drop_last()) + "\r\n"@ + header_text(lines.last())
    }
}

/// The text of a GET request: the request line, the header lines, a blank line, no body.
pub open spec fn request_text(path: Seq<char>, lines: Seq<Line>) -> Seq<char> {
    "GET "@ + path + " HTTP/1.1\r\n"@ + headers_text(lines) + "\r\n\r\n"@
}

impl Request {
    /// The path that the request asks for.
    pub open spec fn path(&self) -> Seq<char> {
        self->path@
    }

    /// The header lines of the request.
    pub open spec fn lines(&self) -> Seq<Line> {
        self->headers.lines()
    }

    /// A GET request for `path` that carries no header.
    pub fn get(path: &str) -> (request: Request)
        ensures
            request.path() == path@,
            request.lines() == Seq::<Line>::empty(),
    {
        Request::Get { path: path.to_owned(), headers: Headers::new() }
    }

    /// Sets the header `name` to `value`; a value that `name` already had is overwritten.
    pub fn add_header(&mut self, name: &str, value: &str)
        ensures
            final(self).path() == old(self).path(),
            final(self).lines() == crate::headers::put(old(self).lines(), name@, value@),
            final(self)->headers@ == old(self)->headers@.insert(name@, value@),
    {
        match self {
            Request::Get { headers, .. } => {
                headers.insert(name, value);
            },
        }
    }

    /// The wire bytes of the request.
    pub fn into_bytes(self) -> (bytes: Vec<u8>)
        ensures
            bytes@ == encode_utf8(request_text(self.path(), self.lines())),
    {
        match self {
            Request::Get { path, headers } => {
                let mut text = String::from_str("GET ");
                text.append(path.as_str());
                text.append(" HTTP/1.1\r\n");
                let count = headers.len();
                let mut index: usize = 0;
                let ghost opening = text@;
                while index < count
                    invariant
                        count == headers.lines().len(),
                        index <= count,
                        text@ == opening + headers_text(headers.lines().take(index as int)),
                    decreases count - index,
                {
                    let header = headers.entry(index);
                    if index > 0 {
                        text.append("\r\n");
                    }
                    text.append(header.name.as_str());
                    text.append(": ");
                    text.append(header.value.as_str());
                    proof {
                        let done = headers.lines().take(index as int + 1);
                        assert(done.drop_last() =~= headers.lines().take(index as int));
                        assert(done.last() == headers.lines()[index as int]);
                        assert(text@ =~= opening + headers_text(done));
                    }
                    index = index + 1;
                }
                assert(headers.lines().take(count as int) =~= headers.lines());
                text.append("\r\n\r\n");
                text.as_str().as_bytes_vec()
            },
        }
    }
}

} // verus!
