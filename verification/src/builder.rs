use vstd::prelude::*;

use crate::errors::BuilderError;
use crate::errors::Error;
use crate::headers::HeaderMap;
use crate::headers::lemma_upsert_wf;
use crate::headers::upsert;
use crate::request::Request;
use crate::request::ValidRequest;
use crate::text::all_digits;
use crate::text::begins_with;
use crate::text::dec_val;
use crate::text::find_str;
use crate::text::lemma_spec_find;
use crate::text::parse_u16;
use crate::text::spec_find;

verus! {

// ---------------------------------------------------------------------------
// Specification of URI resolution
// ---------------------------------------------------------------------------

/// The scheme prefix that a URI may carry, matched exactly.
pub open spec fn http_prefix() -> Seq<char> {
    seq!['h', 't', 't', 'p', ':', '/', '/']
}

/// `u` with one leading scheme prefix removed, when it carries one.
pub open spec fn strip_scheme(u: Seq<char>) -> Seq<char> {
    if crate::text::occurs_at(u, http_prefix(), 0) {
        u.subrange(7, u.len() as int)
    } else {
        u
    }
}

/// `p` as a path: unchanged when it already starts with a slash, else with
/// one slash put in front.
pub open spec fn with_slash(p: Seq<char>) -> Seq<char> {
    if p.len() >= 1 && p[0] == '/' {
        p
    } else {
        seq!['/'] + p
    }
}

/// `s` reads as a port: a nonempty run of digits naming a value that fits
/// in sixteen bits.
pub open spec fn is_port_text(s: Seq<char>) -> bool {
    s.len() >= 1 && all_digits(s) && dec_val(s) <= 65535
}

// ---------------------------------------------------------------------------
// The builder
// ---------------------------------------------------------------------------

/// The fluent interface of a request builder.
pub trait ValidBuilder: Sized {
    /// The builder's standing well-formedness: defaults resolved and header
    /// keys unique.
    spec fn inv(&self) -> bool;

    /// The host, when one was set.
    spec fn host_v(&self) -> Option<Seq<char>>;

    /// The port, when one stands (a fresh builder starts at 80).
    spec fn port_v(&self) -> Option<u16>;

    /// The HTTP version (a fresh builder starts at `1.1`).
    spec fn version_v(&self) -> Option<Seq<char>>;

    /// The method (a fresh builder starts at `GET`).
    spec fn method_v(&self) -> Option<Seq<char>>;

    /// The path, when one was set.
    spec fn path_v(&self) -> Option<Seq<char>>;

    /// The header entries, in insertion order.
    spec fn headers_v(&self) -> Seq<(Seq<char>, Seq<char>)>;

    /// The body, when one was set.
    spec fn body_v(&self) -> Option<Seq<char>>;

    /// Whether the last URI carried a port that does not parse; `build`
    /// then refuses.
    spec fn uri_err_v(&self) -> bool;

    /// A fresh builder: no host or path, port 80, version `1.1`, method
    /// `GET`, no body, and one seeded `Connection: close` header.
    fn new() -> (r: Self)
        ensures
            r.inv(),
            r.host_v() is None,
            r.port_v() == Some(80u16),
            r.version_v() == Some("1.1"@),
            r.method_v() == Some("GET"@),
            r.path_v() is None,
            r.headers_v() == seq![("Connection"@, "close"@)],
            r.body_v() is None,
            !r.uri_err_v(),
    ;

    /// Freezes the builder into an immutable request.  Fails, with a message
    /// naming the first missing piece, when no host, method or path stands,
    /// when the header mapping is empty, or when the last URI carried a bad
    /// port; otherwise every field of the request is resolved, with an empty
    /// body when none was set.
    fn build(&self) -> (r: Result<Request, BuilderError>)
        requires
            self.inv(),
        ensures
            ({
                let ok = self.host_v() is Some && self.method_v() is Some && self.path_v() is Some
                    && self.headers_v().len() > 0 && !self.uri_err_v();
                match r {
                    Ok(req) => {
                        &&& ok
                        &&& Some(req.host@) == self.host_v()
                        &&& Some(req.port) == self.port_v()
                        &&& Some(req.http_version@) == self.version_v()
                        &&& Some(req.method@) == self.method_v()
                        &&& Some(req.path@) == self.path_v()
                        &&& req.headers@ == self.headers_v()
                        &&& req.body@ == (match self.body_v() {
                            Some(b) => b,
                            None => Seq::<char>::empty(),
                        })
                        &&& req.wf()
                    },
                    Err(e) => {
                        &&& !ok
                        &&& e.spec_message() == (if self.host_v() is None {
                            "host is required"@
                        } else if self.method_v() is None {
                            "method is required"@
                        } else if self.path_v() is None {
                            "path is required"@
                        } else if self.headers_v().len() == 0 {
                            "headers are required"@
                        } else {
                            "invalid port in uri"@
                        })
                    },
                }
            }),
    ;

    /// Sets the host.
    fn host(&mut self, host: String)
        requires
            old(self).inv(),
        ensures
            final(self).inv(),
            final(self).host_v() == Some(host@),
            final(self).port_v() == old(self).port_v(),
            final(self).version_v() == old(self).version_v(),
            final(self).method_v() == old(self).method_v(),
            final(self).path_v() == old(self).path_v(),
            final(self).headers_v() == old(self).headers_v(),
            final(self).body_v() == old(self).body_v(),
            final(self).uri_err_v() == old(self).uri_err_v(),
    ;

    /// Sets the port.
    fn port(&mut self, port: u16)
        requires
            old(self).inv(),
        ensures
            final(self).inv(),
            final(self).port_v() == Some(port),
            final(self).host_v() == old(self).host_v(),
            final(self).version_v() == old(self).version_v(),
            final(self).method_v() == old(self).method_v(),
            final(self).path_v() == old(self).path_v(),
            final(self).headers_v() == old(self).headers_v(),
            final(self).body_v() == old(self).body_v(),
            final(self).uri_err_v() == old(self).uri_err_v(),
    ;

    /// Sets the HTTP version.
    fn http_version(&mut self, http_version: String)
        requires
            old(self).inv(),
        ensures
            final(self).inv(),
            final(self).version_v() == Some(http_version@),
            final(self).host_v() == old(self).host_v(),
            final(self).port_v() == old(self).port_v(),
            final(self).method_v() == old(self).method_v(),
            final(self).path_v() == old(self).path_v(),
            final(self).headers_v() == old(self).headers_v(),
            final(self).body_v() == old(self).body_v(),
            final(self).uri_err_v() == old(self).uri_err_v(),
    ;

    /// Sets the method.
    fn method(&mut self, method: String)
        requires
            old(self).inv(),
        ensures
            final(self).inv(),
            final(self).method_v() == Some(method@),
            final(self).host_v() == old(self).host_v(),
            final(self).port_v() == old(self).port_v(),
            final(self).version_v() == old(self).version_v(),
            final(self).path_v() == old(self).path_v(),
            final(self).headers_v() == old(self).headers_v(),
            final(self).body_v() == old(self).body_v(),
            final(self).uri_err_v() == old(self).uri_err_v(),
    ;

    /// Sets the path.
    fn path(&mut self, path: String)
        requires
            old(self).inv(),
        ensures
            final(self).inv(),
            final(self).path_v() == Some(path@),
            final(self).host_v() == old(self).host_v(),
            final(self).port_v() == old(self).port_v(),
            final(self).version_v() == old(self).version_v(),
            final(self).method_v() == old(self).method_v(),
            final(self).headers_v() == old(self).headers_v(),
            final(self).body_v() == old(self).body_v(),
            final(self).uri_err_v() == old(self).uri_err_v(),
    ;

    /// Writes one header: a repeated key keeps its place and takes the new
    /// value, a new key goes to the end.
    fn header(&mut self, key: String, value: String)
        requires
            old(self).inv(),
        ensures
            final(self).inv(),
            final(self).headers_v() == upsert(old(self).headers_v(), key@, value@),
            final(self).host_v() == old(self).host_v(),
            final(self).port_v() == old(self).port_v(),
            final(self).version_v() == old(self).version_v(),
            final(self).method_v() == old(self).method_v(),
            final(self).path_v() == old(self).path_v(),
            final(self).body_v() == old(self).body_v(),
            final(self).uri_err_v() == old(self).uri_err_v(),
    ;

    /// Sets the body.
    fn body(&mut self, body: String)
        requires
            old(self).inv(),
        ensures
            final(self).inv(),
            final(self).body_v() == Some(body@),
            final(self).host_v() == old(self).host_v(),
            final(self).port_v() == old(self).port_v(),
            final(self).version_v() == old(self).version_v(),
            final(self).method_v() == old(self).method_v(),
            final(self).path_v() == old(self).path_v(),
            final(self).headers_v() == old(self).headers_v(),
            final(self).uri_err_v() == old(self).uri_err_v(),
    ;

    /// Resolves a URI of the shape `http://host[/path[:port]]` into host,
    /// path and port.  One exact scheme prefix is stripped; the text splits
    /// at the first slash; a colon anywhere after the slash separates path
    /// from port; a path not starting with a slash gets one put in front.
    /// Method, version, headers and body stay untouched.  A port that does
    /// not read as a sixteen-bit number marks the builder, and `build` then
    /// refuses.
    fn uri(&mut self, uri: String)
        requires
            old(self).inv(),
        ensures
            final(self).inv(),
            final(self).method_v() == old(self).method_v(),
            final(self).version_v() == old(self).version_v(),
            final(self).headers_v() == old(self).headers_v(),
            final(self).body_v() == old(self).body_v(),
            ({
                let u = strip_scheme(uri@);
                match spec_find(u, seq!['/']) {
                    None => {
                        &&& final(self).host_v() == Some(u)
                        &&& final(self).path_v() == Some(seq!['/'])
                        &&& final(self).port_v() == old(self).port_v()
                        &&& !final(self).uri_err_v()
                    },
                    Some(i) => {
                        let host = u.subrange(0, i);
                        let rest = u.subrange(i + 1, u.len() as int);
                        &&& final(self).host_v() == Some(host)
                        &&& match spec_find(rest, seq![':']) {
                            None => {
                                &&& final(self).path_v() == Some(with_slash(rest))
                                &&& final(self).port_v() == old(self).port_v()
                                &&& !final(self).uri_err_v()
                            },
                            Some(j) => {
                                let ptext = rest.subrange(j + 1, rest.len() as int);
                                &&& final(self).path_v() == Some(
                                    with_slash(rest.subrange(0, j)),
                                )
                                &&& (if is_port_text(ptext) {
                                    final(self).port_v() == Some(dec_val(ptext) as u16)
                                        && !final(self).uri_err_v()
                                } else {
                                    final(self).port_v() == old(self).port_v()
                                        && final(self).uri_err_v()
                                })
                            },
                        }
                    },
                }
            }),
    ;
}

/// The mutable staging object that accumulates the pieces of a request.
#[derive(Clone, Debug)]
pub struct Builder {
    /// The host, such as `example.com`.
    pub host: Option<String>,
    /// The port, 80 until set otherwise.
    pub port: Option<u16>,
    /// The HTTP version, `1.1` until set otherwise.
    pub http_version: Option<String>,
    /// The method, `GET` until set otherwise.
    pub method: Option<String>,
    /// The path, such as `/post`.
    pub path: Option<String>,
    /// The headers, seeded with `Connection: close`.
    pub headers: HeaderMap,
    /// The body, empty at build time until set.
    pub body: Option<String>,
    /// Marks a URI whose port did not parse; `build` then refuses.
    pub uri_error: bool,
}

/// Turns `p` into a path with a leading slash.
fn ensure_slash(p: &str) -> (r: String)
    ensures
        r@ == with_slash(p@),
{
    proof {
        reveal_strlit("/");
        assert("/"@ =~= seq!['/']);
    }
    if p.unicode_len() >= 1 {
        if p.get_char(0) == '/' {
            return String::from_str(p);
        }
    }
    let mut r = String::from_str("/");
    r.append(p);
    proof {
        assert(r@ =~= with_slash(p@));
    }
    r
}

impl ValidBuilder for Builder {
    open spec fn inv(&self) -> bool {
        &&& self.port is Some
        &&& self.http_version is Some
        &&& self.headers.wf()
    }

    open spec fn host_v(&self) -> Option<Seq<char>> {
        match self.host {
            Some(h) => Some(h@),
            None => None,
        }
    }

    open spec fn port_v(&self) -> Option<u16> {
        self.port
    }

    open spec fn version_v(&self) -> Option<Seq<char>> {
        match self.http_version {
            Some(v) => Some(v@),
            None => None,
        }
    }

    open spec fn method_v(&self) -> Option<Seq<char>> {
        match self.method {
            Some(m) => Some(m@),
            None => None,
        }
    }

    open spec fn path_v(&self) -> Option<Seq<char>> {
        match self.path {
            Some(p) => Some(p@),
            None => None,
        }
    }

    open spec fn headers_v(&self) -> Seq<(Seq<char>, Seq<char>)> {
        self.headers@
    }

    open spec fn body_v(&self) -> Option<Seq<char>> {
        match self.body {
            Some(b) => Some(b@),
            None => None,
        }
    }

    open spec fn uri_err_v(&self) -> bool {
        self.uri_error
    }

    fn new() -> (r: Self) {
        let mut headers = HeaderMap::new();
        headers.insert(String::from_str("Connection"), String::from_str("close"));
        proof {
            assert(headers@ =~= seq![("Connection"@, "close"@)]);
        }
        Builder {
            host: None,
            port: Some(80),
            http_version: Some(String::from_str("1.1")),
            method: Some(String::from_str("GET")),
            path: None,
            headers,
            body: None,
            uri_error: false,
        }
    }

    fn build(&self) -> (r: Result<Request, BuilderError>) {
        let host = match &self.host {
            Some(h) => h.clone(),
            None => {
                return Err(BuilderError::new(String::from_str("host is required")));
            },
        };
        let method = match &self.method {
            Some(m) => m.clone(),
            None => {
                return Err(BuilderError::new(String::from_str("method is required")));
            },
        };
        let path = match &self.path {
            Some(p) => p.clone(),
            None => {
                return Err(BuilderError::new(String::from_str("path is required")));
            },
        };
        if self.headers.is_empty() {
            return Err(BuilderError::new(String::from_str("headers are required")));
        }
        if self.uri_error {
            return Err(BuilderError::new(String::from_str("invalid port in uri")));
        }
        let port = match &self.port {
            Some(p) => *p,
            None => 80,
        };
        let http_version = match &self.http_version {
            Some(v) => v.clone(),
            None => String::from_str("1.1"),
        };
        let body = match &self.body {
            Some(b) => b.clone(),
            None => String::new(),
        };
        Ok(Request::new(method, path, self.headers.duplicate(), body, host, port, http_version))
    }

    fn host(&mut self, host: String) {
        self.host = Some(host);
    }

    fn port(&mut self, port: u16) {
        self.port = Some(port);
    }

    fn http_version(&mut self, http_version: String) {
        self.http_version = Some(http_version);
    }

    fn method(&mut self, method: String) {
        self.method = Some(method);
    }

    fn path(&mut self, path: String) {
        self.path = Some(path);
    }

    fn header(&mut self, key: String, value: String) {
        proof {
            lemma_upsert_wf(self.headers@, key@, value@);
        }
        self.headers.insert(key, value);
    }

    fn body(&mut self, body: String) {
        self.body = Some(body);
    }

    fn uri(&mut self, uri: String) {
        proof {
            reveal_strlit("http://");
            assert("http://"@ =~= http_prefix());
            reveal_strlit("/");
            assert("/"@ =~= seq!['/']);
            reveal_strlit(":");
            assert(":"@ =~= seq![':']);
        }
        let ghost u0 = uri@;
        let has_scheme = begins_with(uri.as_str(), "http://");
        let stripped: String = if has_scheme {
            let n = uri.as_str().unicode_len();
            String::from_str(uri.as_str().substring_char(7, n))
        } else {
            uri
        };
        proof {
            assert(stripped@ == strip_scheme(u0));
        }
        let slash = find_str(stripped.as_str(), "/");
        proof {
            assert(stripped@ == strip_scheme(u0));
        }
        match slash {
            None => {
                self.path = Some(String::from_str("/"));
                self.uri_error = false;
                self.host = Some(stripped);
            },
            Some(i) => {
                proof {
                    lemma_spec_find(stripped@, seq!['/']);
                }
                let n = stripped.as_str().unicode_len();
                let host = stripped.as_str().substring_char(0, i).to_owned();
                let rest = stripped.as_str().substring_char(i + 1, n).to_owned();
                let colon = find_str(rest.as_str(), ":");
                match colon {
                    None => {
                        self.path = Some(ensure_slash(rest.as_str()));
                        self.uri_error = false;
                        self.host = Some(host);
                    },
                    Some(j) => {
                        proof {
                            lemma_spec_find(rest@, seq![':']);
                        }
                        let rn = rest.as_str().unicode_len();
                        let ppart = rest.as_str().substring_char(0, j);
                        let ptext = rest.as_str().substring_char(j + 1, rn);
                        match parse_u16(ptext) {
                            Some(p) => {
                                self.port = Some(p);
                                self.uri_error = false;
                            },
                            None => {
                                self.uri_error = true;
                            },
                        }
                        self.path = Some(ensure_slash(ppart));
                        self.host = Some(host);
                    },
                }
            },
        }
    }
}

} // verus!
