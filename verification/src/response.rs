use vstd::prelude::*;

use crate::errors::Error;
use crate::errors::ResponseError;
use crate::headers::HeaderMap;
use crate::headers::lemma_upsert_wf;
use crate::headers::upsert;
use crate::request::Request;
use crate::request::colon_sp;
use crate::request::crlf;
use crate::request::sp;
use crate::status_code::StatusCode;
use crate::status_code::status_of;
use crate::text::all_digits;
use crate::text::dec_val;
use crate::text::find_str;
use crate::text::lemma_spec_find;
use crate::text::lemma_split_len;
use crate::text::parse_u16;
use crate::text::spec_find;
use crate::text::spec_split;
use crate::text::split_str;

verus! {

// ---------------------------------------------------------------------------
// Specification of response decomposition
// ---------------------------------------------------------------------------

/// The blank line that separates the header block from the body.
pub open spec fn crlf2() -> Seq<char> {
    seq!['\r', '\n', '\r', '\n']
}

/// Position of the header/body separator in the raw text, if any.
pub open spec fn sep_of(raw: Seq<char>) -> Option<int> {
    spec_find(raw, crlf2())
}

/// The header block: everything before the separator.
pub open spec fn head_of(raw: Seq<char>) -> Seq<char>
    recommends
        sep_of(raw) is Some,
{
    raw.subrange(0, sep_of(raw)->0)
}

/// The body: everything after the separator.
pub open spec fn body_of(raw: Seq<char>) -> Seq<char>
    recommends
        sep_of(raw) is Some,
{
    raw.subrange(sep_of(raw)->0 + 4, raw.len() as int)
}

/// The lines of the header block; the first one is the status line.
pub open spec fn lines_of(raw: Seq<char>) -> Seq<Seq<char>> {
    spec_split(head_of(raw), crlf())
}

/// The status line of the raw text.
pub open spec fn status_line_of(raw: Seq<char>) -> Seq<char> {
    lines_of(raw)[0]
}

/// The second space-delimited token of a status line: the text between the
/// first space and the next space or the end.  `None` when the line holds
/// no space at all.
pub open spec fn status_token_of(line: Seq<char>) -> Option<Seq<char>> {
    match spec_find(line, sp()) {
        None => None,
        Some(j) => {
            let rest = line.subrange(j + 1, line.len() as int);
            match spec_find(rest, sp()) {
                None => Some(rest),
                Some(k) => Some(rest.subrange(0, k)),
            }
        },
    }
}

/// The status token of the raw text's status line.
pub open spec fn status_token_value(raw: Seq<char>) -> Seq<char>
    recommends
        status_token_of(status_line_of(raw)) is Some,
{
    status_token_of(status_line_of(raw))->0
}

/// The token reads as a numeric status code that fits in sixteen bits.
pub open spec fn is_code_text(tok: Seq<char>) -> bool {
    tok.len() >= 1 && all_digits(tok) && dec_val(tok) <= 65535
}

/// The numeric status code of the raw text.
pub open spec fn code_of_raw(raw: Seq<char>) -> u16
    recommends
        is_code_text(status_token_value(raw)),
{
    dec_val(status_token_value(raw)) as u16
}

/// A header line split at its first name/value separator.  `None` when the
/// line holds no such separator.
pub open spec fn header_split(line: Seq<char>) -> Option<(Seq<char>, Seq<char>)> {
    match spec_find(line, colon_sp()) {
        None => None,
        Some(j) => Some((line.subrange(0, j), line.subrange(j + 2, line.len() as int))),
    }
}

/// The header mapping built from the header lines in order; on a repeated
/// name the later line wins.
pub open spec fn parsed_headers(lines: Seq<Seq<char>>) -> Seq<(Seq<char>, Seq<char>)>
    decreases lines.len(),
{
    if lines.len() == 0 {
        Seq::<(Seq<char>, Seq<char>)>::empty()
    } else {
        let prev = parsed_headers(lines.drop_last());
        match header_split(lines.last()) {
            Some(kv) => upsert(prev, kv.0, kv.1),
            None => prev,
        }
    }
}

/// The raw text decomposes into a response: the separator stands somewhere,
/// the status line carries a second token, that token reads as a known
/// numeric status code, and every header line splits at a name/value
/// separator.
pub open spec fn parse_ok(raw: Seq<char>) -> bool {
    &&& sep_of(raw) is Some
    &&& status_token_of(status_line_of(raw)) is Some
    &&& is_code_text(status_token_value(raw))
    &&& status_of(code_of_raw(raw)) is Some
    &&& forall|q: int|
        0 <= q < lines_of(raw).drop_first().len() ==> header_split(
            #[trigger] lines_of(raw).drop_first()[q],
        ) is Some
}

// ---------------------------------------------------------------------------
// The response value
// ---------------------------------------------------------------------------

/// The stored-request side of resending: a resend performs a brand-new
/// exchange with an owned copy of the request that produced the response.
/// The exchange itself is transport work and stands outside the library.
pub trait ValidResponse: Sized {
    /// The stored request that produced this response.
    spec fn request_v(&self) -> Request;

    /// An independent copy of the stored request, which is exactly what a
    /// resend puts on the wire again.
    fn request_to_resend(&self) -> (r: Request)
        ensures
            r.method@ == self.request_v().method@,
            r.path@ == self.request_v().path@,
            r.headers@ == self.request_v().headers@,
            r.body@ == self.request_v().body@,
            r.host@ == self.request_v().host@,
            r.port == self.request_v().port,
            r.http_version@ == self.request_v().http_version@,
    ;
}

/// The parsed result of one exchange, with the request that produced it
/// kept for resending.
#[derive(Clone, Debug)]
pub struct Response {
    /// The enumerated status code of the status line.
    pub status_code: StatusCode,
    /// The full raw response text, unparsed.
    pub raw_response: String,
    /// The response headers; on a repeated name the later line won.
    pub headers: HeaderMap,
    /// The response body.
    pub body: String,
    /// An owned copy of the request that produced this response.
    pub request_used: Request,
}

impl ValidResponse for Response {
    open spec fn request_v(&self) -> Request {
        self.request_used
    }

    fn request_to_resend(&self) -> (r: Request) {
        self.request_used.duplicate()
    }
}

impl Response {
    /// The full raw response text, exactly as it came off the wire.
    pub fn raw_text(&self) -> (r: &str)
        ensures
            r@ == self.raw_response@,
    {
        self.raw_response.as_str()
    }

    /// Parses a raw response text into a structured response, keeping the
    /// given request as the one that produced it.  Fails, with a message
    /// naming the first malformed piece, exactly when the text does not
    /// decompose; never panics on any input.
    pub fn from_raw(raw: String, request: Request) -> (r: Result<Response, ResponseError>)
        ensures
            match r {
                Ok(resp) => {
                    &&& parse_ok(raw@)
                    &&& resp.raw_response@ == raw@
                    &&& resp.status_code == status_of(code_of_raw(raw@))->0
                    &&& resp.headers@ == parsed_headers(lines_of(raw@).drop_first())
                    &&& resp.headers.wf()
                    &&& resp.body@ == body_of(raw@)
                    &&& resp.request_used == request
                },
                Err(e) => {
                    &&& !parse_ok(raw@)
                    &&& e.spec_message() == (if sep_of(raw@) is None {
                        "malformed response: missing header/body separator"@
                    } else if status_token_of(status_line_of(raw@)) is None {
                        "malformed status line"@
                    } else if !is_code_text(status_token_value(raw@)) {
                        "invalid status code"@
                    } else if status_of(code_of_raw(raw@)) is None {
                        "unknown status code"@
                    } else {
                        "malformed header line"@
                    })
                },
            },
    {
        proof {
            reveal_strlit("\r\n\r\n");
            assert("\r\n\r\n"@ =~= crlf2());
            reveal_strlit("\r\n");
            assert("\r\n"@ =~= crlf());
            reveal_strlit(" ");
            assert(" "@ =~= sp());
        }
        let sep = find_str(raw.as_str(), "\r\n\r\n");
        let i = match sep {
            None => {
                return Err(
                    ResponseError::new(
                        String::from_str("malformed response: missing header/body separator"),
                    ),
                );
            },
            Some(i) => i,
        };
        proof {
            lemma_spec_find(raw@, crlf2());
        }
        let n = raw.as_str().unicode_len();
        let head = raw.as_str().substring_char(0, i);
        let body = raw.as_str().substring_char(i + 4, n).to_owned();
        let lines = split_str(head, "\r\n");
        proof {
            lemma_split_len(head@, crlf());
            assert(lines.deep_view() == lines_of(raw@));
            assert(lines.deep_view()[0] == lines@[0]@);
        }
        let sl = lines[0].as_str();
        let j = match find_str(sl, " ") {
            None => {
                return Err(ResponseError::new(String::from_str("malformed status line")));
            },
            Some(j) => j,
        };
        proof {
            lemma_spec_find(sl@, sp());
        }
        let sn = sl.unicode_len();
        let rest = sl.substring_char(j + 1, sn);
        let k = find_str(rest, " ");
        proof {
            lemma_spec_find(rest@, sp());
        }
        let tok = match k {
            None => rest,
            Some(k) => rest.substring_char(0, k),
        };
        proof {
            assert(Some(tok@) == status_token_of(status_line_of(raw@)));
        }
        let code = match parse_u16(tok) {
            None => {
                return Err(ResponseError::new(String::from_str("invalid status code")));
            },
            Some(c) => c,
        };
        let status = match StatusCode::from_u16(code) {
            None => {
                return Err(ResponseError::new(String::from_str("unknown status code")));
            },
            Some(s) => s,
        };
        proof {
            assert(code == code_of_raw(raw@));
            assert(status == status_of(code_of_raw(raw@))->0);
        }
        let mut hm = HeaderMap::new();
        let m = lines.len();
        let mut t: usize = 1;
        proof {
            assert(hm@ =~= parsed_headers(lines.deep_view().subrange(1, 1)));
        }
        while t < m
            invariant
                1 <= t <= m,
                m == lines@.len(),
                m == lines.deep_view().len(),
                lines.deep_view() == lines_of(raw@),
                sep_of(raw@) is Some,
                status_token_of(status_line_of(raw@)) is Some,
                is_code_text(status_token_value(raw@)),
                status_of(code_of_raw(raw@)) is Some,
                status == status_of(code_of_raw(raw@))->0,
                body@ == body_of(raw@),
                forall|q: int|
                    1 <= q < t ==> header_split(#[trigger] lines.deep_view()[q]) is Some,
                hm@ == parsed_headers(lines.deep_view().subrange(1, t as int)),
                hm.wf(),
            decreases m - t,
        {
            proof {
                reveal_strlit(": ");
                assert(": "@ =~= colon_sp());
                assert(lines.deep_view()[t as int] == lines@[t as int]@);
            }
            let ls = lines[t].as_str();
            let j2 = match find_str(ls, ": ") {
                None => {
                    proof {
                        assert(lines_of(raw@).drop_first()[t - 1] == lines.deep_view()[t as int]);
                        assert(!parse_ok(raw@));
                    }
                    return Err(ResponseError::new(String::from_str("malformed header line")));
                },
                Some(j2) => j2,
            };
            proof {
                lemma_spec_find(ls@, colon_sp());
            }
            let ln = ls.unicode_len();
            let key = ls.substring_char(0, j2).to_owned();
            let value = ls.substring_char(j2 + 2, ln).to_owned();
            proof {
                assert(header_split(lines.deep_view()[t as int]) == Some((key@, value@)));
                lemma_upsert_wf(hm@, key@, value@);
            }
            let ghost prev = hm@;
            hm.insert(key, value);
            proof {
                let dv = lines.deep_view();
                let cur = dv.subrange(1, t + 1 as int);
                assert(cur.drop_last() =~= dv.subrange(1, t as int));
                assert(cur.last() == dv[t as int]);
                assert(hm@ == parsed_headers(cur));
            }
            t += 1;
        }
        proof {
            let dv = lines.deep_view();
            assert(dv.subrange(1, m as int) =~= dv.drop_first());
            assert forall|q: int| 0 <= q < lines_of(raw@).drop_first().len() implies header_split(
                #[trigger] lines_of(raw@).drop_first()[q],
            ) is Some by {
                assert(lines_of(raw@).drop_first()[q] == dv[q + 1]);
            }
            assert(parse_ok(raw@));
        }
        Ok(
            Response {
                status_code: status,
                raw_response: raw,
                headers: hm,
                body,
                request_used: request,
            },
        )
    }
}

} // verus!
