//! The structure of an HTTP request and the parser that builds it
//! from raw request text.

use vstd::prelude::*;

verus! {

use crate::headers::Headers;
use crate::headers::SpecPair;
use vstd::string::StrSliceExecFns;
use vstd::string::StringExecFns;

/// The request method. `Uninitialized` is the sentinel produced when an
/// unrecognized token is parsed; callers must treat it as a parse-failure
/// indicator, never as a routable method.
#[derive(Debug, PartialEq, Eq, Structural, Clone, Copy)]
pub enum Method {
    Get,
    Post,
    Uninitialized,
}

/// What a method token means: `"GET"` and `"POST"` are recognized,
/// anything else maps to the `Uninitialized` sentinel.
pub open spec fn spec_method_of(s: Seq<char>) -> Method {
    if s == seq!['G', 'E', 'T'] {
        Method::Get
    } else if s == seq!['P', 'O', 'S', 'T'] {
        Method::Post
    } else {
        Method::Uninitialized
    }
}

impl<'a> From<&'a str> for Method {
    fn from(s: &'a str) -> (m: Method) {
        proof {
            reveal_strlit("GET");
            reveal_strlit("POST");
            assert("GET"@ =~= seq!['G', 'E', 'T']);
            assert("POST"@ =~= seq!['P', 'O', 'S', 'T']);
        }
        if crate::text::str_eq(s, "GET") {
            Method::Get
        } else if crate::text::str_eq(s, "POST") {
            Method::Post
        } else {
            Method::Uninitialized
        }
    }
}

impl<'a> vstd::std_specs::convert::FromSpecImpl<&'a str> for Method {
    open spec fn obeys_from_spec() -> bool {
        true
    }

    open spec fn from_spec(s: &'a str) -> Method {
        spec_method_of(s@)
    }
}

/// The protocol version. Only `"HTTP/1.1"` has a parsing path; `V2_0` and
/// `V3_0` are forward declarations with no textual form recognized here.
#[derive(Debug, PartialEq, Eq, Structural, Clone, Copy)]
pub enum Version {
    V1_1,
    V2_0,
    V3_0,
    Uninitialized,
}

/// What a version token means: only `"HTTP/1.1"` is recognized.
pub open spec fn spec_version_of(s: Seq<char>) -> Version {
    if s == seq!['H', 'T', 'T', 'P', '/', '1', '.', '1'] {
        Version::V1_1
    } else {
        Version::Uninitialized
    }
}

impl<'a> From<&'a str> for Version {
    fn from(s: &'a str) -> (v: Version) {
        proof {
            reveal_strlit("HTTP/1.1");
            assert("HTTP/1.1"@ =~= seq!['H', 'T', 'T', 'P', '/', '1', '.', '1']);
        }
        if crate::text::str_eq(s, "HTTP/1.1") {
            Version::V1_1
        } else {
            Version::Uninitialized
        }
    }
}

impl<'a> vstd::std_specs::convert::FromSpecImpl<&'a str> for Version {
    open spec fn obeys_from_spec() -> bool {
        true
    }

    open spec fn from_spec(s: &'a str) -> Version {
        spec_version_of(s@)
    }
}

/// Method conversion is exhaustive: `"GET"` and `"POST"` are the only
/// recognized tokens, and every other string — the empty string
/// included — maps to the `Uninitialized` sentinel.
pub proof fn lemma_method_conversion_exhaustive(s: Seq<char>)
    ensures
        spec_method_of(s) == Method::Get <==> s == seq!['G', 'E', 'T'],
        spec_method_of(s) == Method::Post <==> s == seq!['P', 'O', 'S', 'T'],
        s != seq!['G', 'E', 'T'] && s != seq!['P', 'O', 'S', 'T'] ==> spec_method_of(s)
            == Method::Uninitialized,
{
}

/// The request target, exactly as received: no normalization, no
/// query-string splitting, no percent-decoding.
#[derive(Debug, PartialEq, Eq, Clone)]
pub enum Resource {
    Path(String),
}

impl View for Resource {
    type V = Seq<char>;

    open spec fn view(&self) -> Seq<char> {
        match self {
            Resource::Path(s) => s@,
        }
    }
}

/// A request value as the specification sees it.
pub struct RequestModel {
    pub method: Method,
    pub version: Version,
    pub path: Seq<char>,
    pub headers: Seq<SpecPair>,
    pub body: Seq<char>,
}

/// The state the parser starts from: everything at its sentinel or
/// empty value, the version defaulting to `V1_1`.
pub open spec fn spec_init_request() -> RequestModel {
    RequestModel {
        method: Method::Uninitialized,
        version: Version::V1_1,
        path: Seq::empty(),
        headers: Seq::empty(),
        body: Seq::empty(),
    }
}

/// How one line changes the parse state. Lines are classified by
/// content, in this order: a line containing `"HTTP"` is the request
/// line and must split on whitespace into exactly three tokens (method,
/// target, version) — any other token count degrades method and version
/// to `Uninitialized` and clears the target; otherwise a line with a
/// colon is a header, split at its first colon, neither side trimmed;
/// otherwise an empty line is discarded; any remaining line is body
/// content, last one wins.
pub open spec fn spec_line_step(st: RequestModel, line: Seq<char>) -> RequestModel {
    if crate::text::spec_contains(line, seq!['H', 'T', 'T', 'P']) {
        let ts = crate::text::spec_tokens(line);
        if ts.len() == 3 {
            RequestModel {
                method: spec_method_of(ts[0]),
                version: spec_version_of(ts[2]),
                path: ts[1],
                ..st
            }
        } else {
            RequestModel {
                method: Method::Uninitialized,
                version: Version::Uninitialized,
                path: Seq::empty(),
                ..st
            }
        }
    } else if crate::text::spec_has_char(line, ':') {
        let ci = crate::text::spec_first_index(line, ':');
        RequestModel {
            headers: crate::headers::spec_insert(
                st.headers,
                line.subrange(0, ci),
                line.subrange(ci + 1, line.len() as int),
            ),
            ..st
        }
    } else if line.len() == 0 {
        st
    } else {
        RequestModel { body: line, ..st }
    }
}

/// The parse state after processing `lines` in order.
pub open spec fn spec_fold_lines(lines: Seq<Seq<char>>) -> RequestModel
    decreases lines.len(),
{
    if lines.len() == 0 {
        spec_init_request()
    } else {
        spec_line_step(spec_fold_lines(lines.drop_last()), lines.last())
    }
}

/// What parsing `raw` yields: the lines of `raw`, folded in order from
/// the initial state. Parsing never fails; unrecognized content only
/// degrades fields to their sentinels.
pub open spec fn spec_parse(raw: Seq<char>) -> RequestModel {
    spec_fold_lines(crate::text::spec_lines(raw))
}

/// The structure of an HTTP request.
#[derive(Debug, PartialEq, Clone)]
pub struct HttpRequest {
    pub method: Method,
    pub version: Version,
    pub resource: Resource,
    pub headers: Headers,
    pub msg_body: String,
}

impl View for HttpRequest {
    type V = RequestModel;

    open spec fn view(&self) -> RequestModel {
        RequestModel {
            method: self.method,
            version: self.version,
            path: self.resource@,
            headers: self.headers@,
            body: self.msg_body@,
        }
    }
}

impl HttpRequest {
    /// Parses raw request text into a request value.
    pub fn from(req: String) -> (r: HttpRequest)
        ensures
            r@ == spec_parse(req@),
            r.headers.wf(),
    {
        let lines = crate::text::split_lines(req.as_str());
        let ghost dv = lines.deep_view();
        let mut method = Method::Uninitialized;
        let mut version = Version::V1_1;
        let mut path = String::new();
        let mut headers = Headers::new();
        let mut body = String::new();
        let n = lines.len();
        proof {
            assert(dv.subrange(0, 0) =~= Seq::<Seq<char>>::empty());
        }
        let mut i: usize = 0;
        while i < n
            invariant
                n == lines@.len(),
                dv == lines.deep_view(),
                i <= n,
                headers.wf(),
                ({
                    let st = spec_fold_lines(dv.subrange(0, i as int));
                    method == st.method && version == st.version && path@ == st.path && headers@
                        == st.headers && body@ == st.body
                }),
            decreases n - i,
        {
            let ghost st = spec_fold_lines(dv.subrange(0, i as int));
            let ghost line_view = dv[i as int];
            let line: &String = &lines[i];
            proof {
                assert(line@ == line_view);
                reveal_strlit("HTTP");
                assert("HTTP"@ =~= seq!['H', 'T', 'T', 'P']);
            }
            if crate::text::contains_str(line.as_str(), "HTTP") {
                let ts = crate::text::split_tokens(line.as_str());
                if ts.len() == 3 {
                    proof {
                        assert(ts.deep_view()[0] == ts@[0]@);
                        assert(ts.deep_view()[1] == ts@[1]@);
                        assert(ts.deep_view()[2] == ts@[2]@);
                    }
                    method = Method::from(ts[0].as_str());
                    path = ts[1].clone();
                    version = Version::from(ts[2].as_str());
                } else {
                    method = Method::Uninitialized;
                    version = Version::Uninitialized;
                    path = String::new();
                }
            } else {
                match crate::text::find_char(line.as_str(), ':') {
                    Some(ci) => {
                        let len = line.as_str().unicode_len();
                        let key = line.as_str().substring_char(0, ci);
                        let value = line.as_str().substring_char(ci + 1, len);
                        headers.insert(String::from_str(key), String::from_str(value));
                    },
                    None => {
                        if line.as_str().unicode_len() == 0 {
                            // a blank line: the traditional header/body
                            // separator carries no content
                        } else {
                            body = line.clone();
                        }
                    },
                }
            }
            proof {
                let next = dv.subrange(0, i + 1);
                assert(next.drop_last() =~= dv.subrange(0, i as int));
                assert(next.last() == line_view);
                assert(next.len() > 0);
                assert(spec_fold_lines(next) == spec_line_step(st, line_view));
            }
            i += 1;
        }
        proof {
            assert(dv.subrange(0, n as int) =~= dv);
        }
        HttpRequest { method, version, resource: Resource::Path(path), headers, msg_body: body }
    }
}

} // verus!
