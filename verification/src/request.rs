use vstd::prelude::*;

use crate::errors::Error;
use crate::errors::RequestError;
use crate::headers::HeaderMap;
use crate::headers::has_key;
use crate::text::dec_seq;
use crate::text::usize_to_string;
use vstd::utf8::encode_utf8;

verus! {

// ---------------------------------------------------------------------------
// Pieces of the HTTP/1.1 wire format
// ---------------------------------------------------------------------------

/// The line terminator of the wire format.
pub open spec fn crlf() -> Seq<char> {
    seq!['\r', '\n']
}

/// A single space, the token separator of the request line.
pub open spec fn sp() -> Seq<char> {
    seq![' ']
}

/// The text between the path and the version in the request line.
pub open spec fn http_slash() -> Seq<char> {
    seq![' ', 'H', 'T', 'T', 'P', '/']
}

/// The prefix of the mandatory host line.
pub open spec fn host_prefix() -> Seq<char> {
    seq!['H', 'o', 's', 't', ':', ' ']
}

/// The separator between a header name and its value.
pub open spec fn colon_sp() -> Seq<char> {
    seq![':', ' ']
}

/// The name of the header that carries the body's byte length.
pub open spec fn content_length_key() -> Seq<char> {
    seq!['C', 'o', 'n', 't', 'e', 'n', 't', '-', 'L', 'e', 'n', 'g', 't', 'h']
}

/// One header line: name, colon and space, value, line terminator.
pub open spec fn header_line(k: Seq<char>, v: Seq<char>) -> Seq<char> {
    k + colon_sp() + v + crlf()
}

/// All header lines, in the order the entries stand in the mapping.
pub open spec fn header_lines_of(hs: Seq<(Seq<char>, Seq<char>)>) -> Seq<char>
    decreases hs.len(),
{
    if hs.len() == 0 {
        Seq::<char>::empty()
    } else {
        header_lines_of(hs.drop_last()) + header_line(hs.last().0, hs.last().1)
    }
}

// ---------------------------------------------------------------------------
// The request value
// ---------------------------------------------------------------------------

/// Construction of a fully resolved request from its parts.
pub trait ValidRequest: Sized {
    /// The request method.
    spec fn method_v(&self) -> Seq<char>;

    /// The request path.
    spec fn path_v(&self) -> Seq<char>;

    /// The header entries, in insertion order.
    spec fn headers_v(&self) -> Seq<(Seq<char>, Seq<char>)>;

    /// The request body.
    spec fn body_v(&self) -> Seq<char>;

    /// The host the request is addressed to.
    spec fn host_v(&self) -> Seq<char>;

    /// The port the request is addressed to.
    spec fn port_v(&self) -> u16;

    /// The HTTP version written into the request line.
    spec fn version_v(&self) -> Seq<char>;

    /// Assemble a request from its parts.
    fn new(
        method: String,
        path: String,
        headers: HeaderMap,
        body: String,
        host: String,
        port: u16,
        http_version: String,
    ) -> (r: Self)
        ensures
            r.method_v() == method@,
            r.path_v() == path@,
            r.headers_v() == headers@,
            r.body_v() == body@,
            r.host_v() == host@,
            r.port_v() == port,
            r.version_v() == http_version@,
    ;
}

/// The wire text carries an automatic `Content-Length` entry, holding the
/// body's byte length, exactly when the caller set none; a caller's own
/// value goes out untouched, and the stored headers never change.
pub proof fn lemma_content_length_injection(req: Request)
    ensures
        has_key(req.headers@, content_length_key()) ==> req.wire_headers() == req.headers@,
        !has_key(req.headers@, content_length_key()) ==> req.wire_headers() == req.headers@.push(
            (content_length_key(), dec_seq(req.body_len())),
        ),
{
}

/// An immutable, fully resolved description of an outbound HTTP message.
#[derive(Clone, Debug)]
pub struct Request {
    /// The method, such as `GET`.
    pub method: String,
    /// The path, always beginning with a slash.
    pub path: String,
    /// The headers, keys unique, in insertion order.
    pub headers: HeaderMap,
    /// The body text.
    pub body: String,
    /// The host, without a port.
    pub host: String,
    /// The port.
    pub port: u16,
    /// The HTTP version, such as `1.1`.
    pub http_version: String,
}

impl ValidRequest for Request {
    open spec fn method_v(&self) -> Seq<char> {
        self.method@
    }

    open spec fn path_v(&self) -> Seq<char> {
        self.path@
    }

    open spec fn headers_v(&self) -> Seq<(Seq<char>, Seq<char>)> {
        self.headers@
    }

    open spec fn body_v(&self) -> Seq<char> {
        self.body@
    }

    open spec fn host_v(&self) -> Seq<char> {
        self.host@
    }

    open spec fn port_v(&self) -> u16 {
        self.port
    }

    open spec fn version_v(&self) -> Seq<char> {
        self.http_version@
    }

    fn new(
        method: String,
        path: String,
        headers: HeaderMap,
        body: String,
        host: String,
        port: u16,
        http_version: String,
    ) -> (r: Self) {
        Request { method, path, headers, body, host, port, http_version }
    }
}

impl Request {
    /// The header mapping has unique keys.
    pub open spec fn wf(self) -> bool {
        self.headers.wf()
    }

    /// The byte length of the body, which is what the automatic
    /// `Content-Length` header states.
    pub open spec fn body_len(self) -> int {
        encode_utf8(self.body@).len() as usize as int
    }

    /// The headers that go on the wire: the stored ones, with a
    /// `Content-Length` entry appended when none was set by hand.
    pub open spec fn wire_headers(self) -> Seq<(Seq<char>, Seq<char>)> {
        if has_key(self.headers@, content_length_key()) {
            self.headers@
        } else {
            self.headers@.push((content_length_key(), dec_seq(self.body_len())))
        }
    }

    /// The full wire text of the request: request line, host line, header
    /// lines, blank line, body.
    pub open spec fn wire_view(self) -> Seq<char> {
        self.method@ + sp() + self.path@ + http_slash() + self.http_version@ + crlf()
            + host_prefix() + self.host@ + crlf() + header_lines_of(self.wire_headers()) + crlf()
            + self.body@
    }

    /// An independent copy with the same fields.
    pub fn duplicate(&self) -> (r: Self)
        ensures
            r.method@ == self.method@,
            r.path@ == self.path@,
            r.headers@ == self.headers@,
            r.body@ == self.body@,
            r.host@ == self.host@,
            r.port == self.port,
            r.http_version@ == self.http_version@,
    {
        Request {
            method: self.method.clone(),
            path: self.path.clone(),
            headers: self.headers.duplicate(),
            body: self.body.clone(),
            host: self.host.clone(),
            port: self.port,
            http_version: self.http_version.clone(),
        }
    }

    /// A transport failure for this request, with the message marked as a
    /// request error.
    pub fn fail(&self, message: &str) -> (r: RequestError)
        ensures
            r.spec_message() == "RequestError: "@ + message@,
    {
        let mut m = String::from_str("RequestError: ");
        m.append(message);
        RequestError::new(m)
    }

    /// Renders the request into its exact HTTP/1.1 wire text.  A
    /// `Content-Length` header with the body's byte length is written only
    /// when the caller did not set one; a caller's own value is respected.
    pub fn to_wire(&self) -> (r: String)
        requires
            self.wf(),
        ensures
            r@ == self.wire_view(),
    {
        let mut out = String::new();
        out.append(self.method.as_str());
        out.append(" ");
        out.append(self.path.as_str());
        out.append(" HTTP/");
        out.append(self.http_version.as_str());
        out.append("\r\n");
        out.append("Host: ");
        out.append(self.host.as_str());
        out.append("\r\n");
        proof {
            reveal_strlit(" ");
            reveal_strlit(" HTTP/");
            reveal_strlit("\r\n");
            reveal_strlit("Host: ");
            reveal_strlit(": ");
            reveal_strlit("Content-Length");
            assert(" "@ =~= sp());
            assert(" HTTP/"@ =~= http_slash());
            assert("\r\n"@ =~= crlf());
            assert("Host: "@ =~= host_prefix());
            assert(": "@ =~= colon_sp());
            assert("Content-Length"@ =~= content_length_key());
        }
        let mut hs = self.headers.duplicate();
        if !self.headers.contains_key("Content-Length") {
            let len_text = usize_to_string(self.body.as_str().len());
            hs.insert(String::from_str("Content-Length"), len_text);
        }
        proof {
            assert(hs@ == self.wire_headers());
        }
        let ghost base = out@;
        let m = hs.len();
        let mut i: usize = 0;
        while i < m
            invariant
                i <= m,
                m == hs@.len(),
                out@ == base + header_lines_of(hs@.subrange(0, i as int)),
            decreases m - i,
        {
            out.append(hs.key_at(i).as_str());
            out.append(": ");
            out.append(hs.value_at(i).as_str());
            out.append("\r\n");
            proof {
                reveal_strlit(": ");
                reveal_strlit("\r\n");
                assert(": "@ =~= colon_sp());
                assert("\r\n"@ =~= crlf());
                let pre = hs@.subrange(0, i as int);
                let cur = hs@.subrange(0, i + 1 as int);
                assert(cur.drop_last() =~= pre);
                assert(cur.last() == hs@[i as int]);
                assert(out@ =~= base + header_lines_of(cur));
            }
            i += 1;
        }
        proof {
            assert(hs@.subrange(0, m as int) =~= hs@);
        }
        out.append("\r\n");
        out.append(self.body.as_str());
        proof {
            reveal_strlit("\r\n");
            assert("\r\n"@ =~= crlf());
            assert(out@ =~= self.wire_view());
        }
        out
    }
}

} // verus!
