//! The structure of an HTTP response: construction with
//! status-code-driven defaults, and serialization to wire text with
//! Content-Length framing.

use vstd::prelude::*;

verus! {

use crate::headers::Headers;
use crate::headers::SpecPair;
use vstd::string::StrSliceExecFns;
use vstd::string::StringExecFns;

/// The version string every response carries: `"HTTP/1.1"`.
pub open spec fn spec_default_version() -> Seq<char> {
    seq!['H', 'T', 'T', 'P', '/', '1', '.', '1']
}

/// The reason phrase for `status_code`, from the fixed table
/// {200 -> OK, 400 -> Bad Request, 404 -> Not Found,
/// 500 -> Internal Server Error}; every other code falls back to
/// `"Not Found"`.
pub open spec fn spec_status_text(status_code: Seq<char>) -> Seq<char> {
    if status_code == seq!['2', '0', '0'] {
        seq!['O', 'K']
    } else if status_code == seq!['4', '0', '0'] {
        seq!['B', 'a', 'd', ' ', 'R', 'e', 'q', 'u', 'e', 's', 't']
    } else if status_code == seq!['5', '0', '0'] {
        seq![
            'I', 'n', 't', 'e', 'r', 'n', 'a', 'l', ' ', 'S', 'e', 'r', 'v', 'e', 'r', ' ', 'E',
            'r', 'r', 'o', 'r',
        ]
    } else {
        seq!['N', 'o', 't', ' ', 'F', 'o', 'u', 'n', 'd']
    }
}

/// The single header entry supplied when the caller gives none:
/// `Content-Type: text/html`.
pub open spec fn spec_default_headers() -> Seq<SpecPair> {
    seq![
        (
            seq!['C', 'o', 'n', 't', 'e', 'n', 't', '-', 'T', 'y', 'p', 'e'],
            seq!['t', 'e', 'x', 't', '/', 'h', 't', 'm', 'l'],
        ),
    ]
}

/// The serialized header block: one `key:value\r\n` line per entry, in
/// insertion order.
pub open spec fn spec_header_block(pairs: Seq<SpecPair>) -> Seq<char>
    decreases pairs.len(),
{
    if pairs.len() == 0 {
        Seq::empty()
    } else {
        spec_header_block(pairs.drop_last()) + pairs.last().0 + seq![':'] + pairs.last().1
            + seq!['\r', '\n']
    }
}

/// A response value as the specification sees it.
pub struct ResponseModel {
    pub version: Seq<char>,
    pub status_code: Seq<char>,
    pub status_text: Seq<char>,
    pub headers: Option<Seq<SpecPair>>,
    pub body: Option<Seq<char>>,
}

/// The header entries a response serializes: its table, or none.
pub open spec fn spec_headers_of(v: ResponseModel) -> Seq<SpecPair> {
    match v.headers {
        Some(p) => p,
        None => Seq::empty(),
    }
}

/// The body text a response serializes: an absent body is the empty
/// string.
pub open spec fn spec_body_of(v: ResponseModel) -> Seq<char> {
    match v.body {
        Some(b) => b,
        None => Seq::empty(),
    }
}

/// The byte length of `body` in its UTF-8 encoding — what
/// Content-Length declares; for multi-byte characters this differs from
/// the character count.
pub open spec fn spec_body_byte_len(body: Seq<char>) -> nat {
    vstd::utf8::encode_utf8(body).len()
}

/// The label that precedes the Content-Length value on the wire.
pub open spec fn spec_content_length_label() -> Seq<char> {
    seq!['C', 'o', 'n', 't', 'e', 'n', 't', '-', 'L', 'e', 'n', 'g', 't', 'h', ':', ' ']
}

/// The status line: `version SP status_code SP status_text CRLF`.
pub open spec fn spec_status_line(v: ResponseModel) -> Seq<char> {
    v.version + seq![' '] + v.status_code + seq![' '] + v.status_text + seq!['\r', '\n']
}

/// The full wire text of a response: status line, header block, a
/// Content-Length header declaring the body's UTF-8 byte length, a
/// blank line, then the body.
pub open spec fn spec_serialize(v: ResponseModel) -> Seq<char> {
    spec_status_line(v) + spec_header_block(spec_headers_of(v)) + spec_content_length_label()
        + crate::text::spec_decimal(spec_body_byte_len(spec_body_of(v))) + seq!['\r', '\n', '\r', '\n']
        + spec_body_of(v)
}

/// The structure of an HTTP response. `status_text` is always derived
/// from `status_code` by `new`; `headers` and `body` are optional, and a
/// missing body serializes with `Content-Length: 0`.
#[derive(Debug, PartialEq, Clone)]
pub struct HttpResponse {
    pub version: String,
    pub status_code: String,
    pub status_text: String,
    pub headers: Option<Headers>,
    pub body: Option<String>,
}

impl View for HttpResponse {
    type V = ResponseModel;

    open spec fn view(&self) -> ResponseModel {
        ResponseModel {
            version: self.version@,
            status_code: self.status_code@,
            status_text: self.status_text@,
            headers: match self.headers {
                Some(h) => Some(h@),
                None => None,
            },
            body: match self.body {
                Some(b) => Some(b@),
                None => None,
            },
        }
    }
}

impl Default for HttpResponse {
    /// A `200 OK` response with no headers and no body.
    fn default() -> (r: HttpResponse)
        ensures
            r@.version == spec_default_version(),
            r@.status_code == seq!['2', '0', '0'],
            r@.status_text == seq!['O', 'K'],
            r@.headers is None,
            r@.body is None,
    {
        proof {
            reveal_strlit("HTTP/1.1");
            reveal_strlit("200");
            reveal_strlit("OK");
        }
        let r = HttpResponse {
            version: String::from_str("HTTP/1.1"),
            status_code: String::from_str("200"),
            status_text: String::from_str("OK"),
            headers: None,
            body: None,
        };
        proof {
            assert(r@.version =~= spec_default_version());
            assert(r@.status_code =~= seq!['2', '0', '0']);
            assert(r@.status_text =~= seq!['O', 'K']);
        }
        r
    }
}

impl HttpResponse {
    /// Builds a response: the version is fixed, the status code is kept
    /// as given, the reason phrase comes from the fixed status table,
    /// absent headers are replaced by the single default
    /// `Content-Type: text/html` entry (supplied headers are used
    /// as-is, never merged), and the body is stored as given.
    pub fn new(status_code: &str, headers: Option<Headers>, body: Option<String>) -> (r:
        HttpResponse)
        ensures
            r@.version == spec_default_version(),
            r@.status_code == status_code@,
            r@.status_text == spec_status_text(status_code@),
            r@.headers == match headers {
                Some(h) => Some(h@),
                None => Some(spec_default_headers()),
            },
            r@.body == match body {
                Some(b) => Some(b@),
                None => None::<Seq<char>>,
            },
    {
        proof {
            reveal_strlit("200");
            reveal_strlit("400");
            reveal_strlit("500");
            reveal_strlit("OK");
            reveal_strlit("Bad Request");
            reveal_strlit("Internal Server Error");
            reveal_strlit("Not Found");
            reveal_strlit("Content-Type");
            reveal_strlit("text/html");
            assert("200"@ =~= seq!['2', '0', '0']);
            assert("400"@ =~= seq!['4', '0', '0']);
            assert("500"@ =~= seq!['5', '0', '0']);
            assert("OK"@ =~= seq!['O', 'K']);
            assert("Bad Request"@ =~= seq!['B', 'a', 'd', ' ', 'R', 'e', 'q', 'u', 'e', 's', 't']);
            assert("Internal Server Error"@ =~= seq![
                'I', 'n', 't', 'e', 'r', 'n', 'a', 'l', ' ', 'S', 'e', 'r', 'v', 'e', 'r', ' ',
                'E', 'r', 'r', 'o', 'r',
            ]);
            assert("Not Found"@ =~= seq!['N', 'o', 't', ' ', 'F', 'o', 'u', 'n', 'd']);
            assert("Content-Type"@ =~= seq![
                'C', 'o', 'n', 't', 'e', 'n', 't', '-', 'T', 'y', 'p', 'e',
            ]);
            assert("text/html"@ =~= seq!['t', 'e', 'x', 't', '/', 'h', 't', 'm', 'l']);
        }
        let mut response = HttpResponse::default();
        if !crate::text::str_eq(status_code, "200") {
            response.status_code = String::from_str(status_code);
        }
        response.headers = match headers {
            Some(h) => Some(h),
            None => {
                let mut h = Headers::new();
                h.insert(String::from_str("Content-Type"), String::from_str("text/html"));
                proof {
                    assert(h@ =~= spec_default_headers());
                }
                Some(h)
            },
        };
        response.status_text = if crate::text::str_eq(response.status_code.as_str(), "200") {
            String::from_str("OK")
        } else if crate::text::str_eq(response.status_code.as_str(), "400") {
            String::from_str("Bad Request")
        } else if crate::text::str_eq(response.status_code.as_str(), "500") {
            String::from_str("Internal Server Error")
        } else {
            String::from_str("Not Found")
        };
        response.body = body;
        proof {
            assert(response@.status_code =~= status_code@);
            assert(response@.status_text =~= spec_status_text(status_code@));
        }
        response
    }

    /// The version string.
    pub fn version(&self) -> (r: &str)
        ensures
            r@ == self@.version,
    {
        self.version.as_str()
    }

    /// The status code string.
    pub fn status_code(&self) -> (r: &str)
        ensures
            r@ == self@.status_code,
    {
        self.status_code.as_str()
    }

    /// The reason phrase.
    pub fn status_text(&self) -> (r: &str)
        ensures
            r@ == self@.status_text,
    {
        self.status_text.as_str()
    }

    /// The serialized header block: one `key:value\r\n` line per entry,
    /// in insertion order; a response without a header table yields the
    /// empty block.
    pub fn headers(&self) -> (r: String)
        ensures
            r@ == spec_header_block(spec_headers_of(self@)),
    {
        proof {
            reveal_strlit(":");
            reveal_strlit("\r\n");
            assert(":"@ =~= seq![':']);
            assert("\r\n"@ =~= seq!['\r', '\n']);
        }
        let mut out = String::new();
        match &self.headers {
            Some(h) => {
                let n = h.len();
                let mut i: usize = 0;
                proof {
                    assert(h@.subrange(0, 0) =~= Seq::<SpecPair>::empty());
                }
                while i < n
                    invariant
                        i <= n,
                        n == h@.len(),
                        spec_headers_of(self@) == h@,
                        out@ == spec_header_block(h@.subrange(0, i as int)),
                    decreases n - i,
                {
                    let ghost prefix = h@.subrange(0, i as int);
                    out.append(h.key_at(i).as_str());
                    out.append(":");
                    out.append(h.value_at(i).as_str());
                    out.append("\r\n");
                    proof {
                        reveal_strlit(":");
                        reveal_strlit("\r\n");
                        assert(":"@ =~= seq![':']);
                        assert("\r\n"@ =~= seq!['\r', '\n']);
                        let next = h@.subrange(0, i + 1);
                        assert(next.drop_last() =~= prefix);
                        assert(next.last() == h@[i as int]);
                        assert(next.len() > 0);
                        assert(spec_header_block(next) == spec_header_block(prefix)
                            + h@[i as int].0 + seq![':'] + h@[i as int].1 + seq!['\r', '\n']);
                        assert(out@ == spec_header_block(prefix) + h@[i as int].0 + ":"@
                            + h@[i as int].1 + "\r\n"@);
                        assert(out@ == spec_header_block(next));
                    }
                    i += 1;
                }
                proof {
                    assert(h@.subrange(0, n as int) =~= h@);
                }
            },
            None => {
                proof {
                    assert(spec_headers_of(self@) =~= Seq::<SpecPair>::empty());
                }
            },
        }
        out
    }

    /// The body, or the empty string when none was supplied.
    pub fn body(&self) -> (r: &str)
        ensures
            r@ == match self@.body {
                Some(b) => b,
                None => Seq::<char>::empty(),
            },
    {
        match &self.body {
            Some(b) => b.as_str(),
            None => {
                proof {
                    reveal_strlit("");
                    assert(""@ =~= Seq::<char>::empty());
                }
                ""
            },
        }
    }

    /// Serializes the response to its wire text.
    pub fn serialize(&self) -> (r: String)
        ensures
            r@ == spec_serialize(self@),
    {
        broadcast use vstd::slice::group_slice_axioms;

        proof {
            reveal_strlit(" ");
            reveal_strlit("\r\n");
            reveal_strlit("Content-Length: ");
            reveal_strlit("\r\n\r\n");
            assert(" "@ =~= seq![' ']);
            assert("\r\n"@ =~= seq!['\r', '\n']);
            assert("Content-Length: "@ =~= spec_content_length_label());
            assert("\r\n\r\n"@ =~= seq!['\r', '\n', '\r', '\n']);
        }
        let mut out = String::new();
        out.append(self.version.as_str());
        out.append(" ");
        out.append(self.status_code.as_str());
        out.append(" ");
        out.append(self.status_text.as_str());
        out.append("\r\n");
        proof {
            assert(out@ =~= spec_status_line(self@));
        }
        let header_block = self.headers();
        out.append(header_block.as_str());
        out.append("Content-Length: ");
        let body_byte_len: usize = match &self.body {
            Some(b) => b.as_str().as_bytes().len(),
            None => 0,
        };
        proof {
            assert(vstd::utf8::encode_utf8(Seq::<char>::empty()) =~= Seq::<u8>::empty());
            assert(body_byte_len as nat == spec_body_byte_len(spec_body_of(self@)));
        }
        let num = crate::text::decimal_string(body_byte_len);
        out.append(num.as_str());
        out.append("\r\n\r\n");
        match &self.body {
            Some(b) => out.append(b.as_str()),
            None => {},
        }
        proof {
            assert(out@ =~= spec_serialize(self@));
        }
        out
    }
}

/// Serialization is a function of the response value alone: two
/// serializations of the same value are character-identical.
pub proof fn lemma_serialize_deterministic(v: ResponseModel, r1: Seq<char>, r2: Seq<char>)
    requires
        r1 == spec_serialize(v),
        r2 == spec_serialize(v),
    ensures
        r1 == r2,
{
}

/// The Content-Length a serialized response declares is the UTF-8 byte
/// length of its body — not the body's character count.
pub proof fn lemma_content_length_is_byte_length(v: ResponseModel)
    ensures
        spec_serialize(v) == spec_status_line(v) + spec_header_block(spec_headers_of(v))
            + spec_content_length_label() + crate::text::spec_decimal(
            vstd::utf8::encode_utf8(spec_body_of(v)).len(),
        ) + seq!['\r', '\n', '\r', '\n'] + spec_body_of(v),
{
}

/// The status table, read off as one law: each tabulated code maps to
/// its reason phrase, and every code outside the table falls back to
/// `"Not Found"`.
pub proof fn lemma_status_table(code: Seq<char>)
    ensures
        code == seq!['2', '0', '0'] ==> spec_status_text(code) == seq!['O', 'K'],
        code == seq!['4', '0', '0'] ==> spec_status_text(code) == seq![
            'B', 'a', 'd', ' ', 'R', 'e', 'q', 'u', 'e', 's', 't',
        ],
        code == seq!['4', '0', '4'] ==> spec_status_text(code) == seq![
            'N', 'o', 't', ' ', 'F', 'o', 'u', 'n', 'd',
        ],
        code == seq!['5', '0', '0'] ==> spec_status_text(code) == seq![
            'I', 'n', 't', 'e', 'r', 'n', 'a', 'l', ' ', 'S', 'e', 'r', 'v', 'e', 'r', ' ', 'E',
            'r', 'r', 'o', 'r',
        ],
        code != seq!['2', '0', '0'] && code != seq!['4', '0', '0'] && code != seq!['5', '0', '0']
            ==> spec_status_text(code) == seq!['N', 'o', 't', ' ', 'F', 'o', 'u', 'n', 'd'],
{
}

} // verus!
