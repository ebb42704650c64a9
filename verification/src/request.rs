//! Partially specified requests, their merge, and their resolution into a
//! concrete sendable request.

use vstd::prelude::*;

use crate::headers::HeaderMap;
use crate::text::{str_eq, to_upper, upper_of};

verus! {

/// The verbs a resolved request can carry.
#[derive(Clone, Copy, Debug, PartialEq, Eq, Structural)]
pub enum HttpVerb {
    GET,
    HEAD,
    POST,
    PUT,
    DELETE,
    OPTIONS,
    PATCH,
}

/// The failures of parsing and resolution.
#[derive(Debug, Clone, PartialEq, Eq)]
pub enum RequestError {
    /// The fragment text does not parse as a document of the expected
    /// shape; carries the diagnostic message.
    TomlParserError { message: String },
    /// A mandatory field was still absent at resolution time; carries the
    /// field's name.
    BuildError { property_name: String },
    /// A fragment file could not be read.
    CouldNotReadFile,
}

/// A fully resolved, sendable request.
pub struct RequestMessage {
    pub method: HttpVerb,
    pub url: String,
    pub body: String,
    pub headers: HeaderMap,
}

/// A partially specified request: every field may be absent.
pub struct RequestMessageBuilder {
    pub method: Option<String>,
    pub host: Option<String>,
    pub path: Option<String>,
    pub body: Option<String>,
    pub headers: Option<HeaderMap>,
}

/// The mathematical content of a fragment.
pub struct FragmentView {
    pub method: Option<Seq<char>>,
    pub host: Option<Seq<char>>,
    pub path: Option<Seq<char>>,
    pub body: Option<Seq<char>>,
    pub headers: Option<Map<Seq<char>, Seq<char>>>,
}

/// The mathematical content of a resolved request.
pub struct RequestView {
    pub method: HttpVerb,
    pub url: Seq<char>,
    pub body: Seq<char>,
    pub headers: Map<Seq<char>, Seq<char>>,
}

pub open spec fn view_opt_string(o: Option<String>) -> Option<Seq<char>> {
    match o {
        Option::Some(s) => Option::Some(s@),
        Option::None => Option::None,
    }
}

impl View for RequestMessageBuilder {
    type V = FragmentView;

    open spec fn view(&self) -> FragmentView {
        FragmentView {
            method: view_opt_string(self.method),
            host: view_opt_string(self.host),
            path: view_opt_string(self.path),
            body: view_opt_string(self.body),
            headers: match self.headers {
                Option::Some(h) => Option::Some(h@),
                Option::None => Option::None,
            },
        }
    }
}

impl View for RequestMessage {
    type V = RequestView;

    open spec fn view(&self) -> RequestView {
        RequestView {
            method: self.method,
            url: self.url@,
            body: self.body@,
            headers: self.headers@,
        }
    }
}

/// The builder's internal invariant: a held header mapping is well formed.
pub open spec fn builder_wf(b: RequestMessageBuilder) -> bool {
    match b.headers {
        Option::Some(h) => h.wf(),
        Option::None => true,
    }
}

/// A fragment's header mapping, an empty mapping where it is absent.
pub open spec fn headers_or_empty(f: FragmentView) -> Map<Seq<char>, Seq<char>> {
    match f.headers {
        Option::Some(m) => m,
        Option::None => Map::empty(),
    }
}

/// Last-wins choice between two optional scalars.
pub open spec fn pick_scalar(base: Option<Seq<char>>, over: Option<Seq<char>>) -> Option<
    Seq<char>,
> {
    if over is Some {
        over
    } else {
        base
    }
}

/// The merge of two fragments: scalars are last-wins, header mappings are
/// united with the override winning on shared keys, and the merged fragment
/// always holds a header mapping.
pub open spec fn merge_spec(base: FragmentView, over: FragmentView) -> FragmentView {
    FragmentView {
        method: pick_scalar(base.method, over.method),
        host: pick_scalar(base.host, over.host),
        path: pick_scalar(base.path, over.path),
        body: pick_scalar(base.body, over.body),
        headers: Option::Some(
            headers_or_empty(base).union_prefer_right(headers_or_empty(over)),
        ),
    }
}

/// The verb an already upper-cased method text denotes; any text other
/// than the seven verb names falls back to HEAD.
pub open spec fn verb_of_folded(u: Seq<char>) -> HttpVerb {
    if u == "GET"@ {
        HttpVerb::GET
    } else if u == "HEAD"@ {
        HttpVerb::HEAD
    } else if u == "POST"@ {
        HttpVerb::POST
    } else if u == "PUT"@ {
        HttpVerb::PUT
    } else if u == "DELETE"@ {
        HttpVerb::DELETE
    } else if u == "OPTIONS"@ {
        HttpVerb::OPTIONS
    } else if u == "PATCH"@ {
        HttpVerb::PATCH
    } else {
        HttpVerb::HEAD
    }
}

/// The verb a method text denotes: its Unicode upper-case form matched
/// against the seven known verbs; any other text falls back to HEAD.
pub open spec fn verb_of(s: Seq<char>) -> HttpVerb {
    verb_of_folded(upper_of(s))
}

/// What resolving a fragment yields: the first missing mandatory field, in
/// the order host, path, method, or else the request it denotes.
pub open spec fn resolve_spec(f: FragmentView) -> Result<RequestView, Seq<char>> {
    if f.host is None {
        Result::Err("host"@)
    } else if f.path is None {
        Result::Err("path"@)
    } else if f.method is None {
        Result::Err("method"@)
    } else {
        Result::Ok(
            RequestView {
                method: verb_of(f.method.unwrap()),
                url: f.host.unwrap() + f.path.unwrap(),
                body: match f.body {
                    Option::Some(b) => b,
                    Option::None => Seq::empty(),
                },
                headers: headers_or_empty(f),
            },
        )
    }
}

fn clone_opt_string(o: &Option<String>) -> (r: Option<String>)
    ensures
        r == *o,
{
    match o {
        Option::Some(s) => Option::Some(s.clone()),
        Option::None => Option::None,
    }
}

/// Decides which verb an already upper-cased method text denotes.
pub fn verb_from_folded(folded: &str) -> (v: HttpVerb)
    ensures
        v == verb_of_folded(folded@),
{
    if str_eq(folded, "GET") {
        HttpVerb::GET
    } else if str_eq(folded, "HEAD") {
        HttpVerb::HEAD
    } else if str_eq(folded, "POST") {
        HttpVerb::POST
    } else if str_eq(folded, "PUT") {
        HttpVerb::PUT
    } else if str_eq(folded, "DELETE") {
        HttpVerb::DELETE
    } else if str_eq(folded, "OPTIONS") {
        HttpVerb::OPTIONS
    } else if str_eq(folded, "PATCH") {
        HttpVerb::PATCH
    } else {
        HttpVerb::HEAD
    }
}

/// Decides which verb a method text denotes.
pub fn parse_method(candidate: &str) -> (v: HttpVerb)
    ensures
        v == verb_of(candidate@),
{
    let folded = to_upper(candidate);
    verb_from_folded(folded.as_str())
}

impl RequestMessageBuilder {
    /// A fragment with every field absent.
    pub fn new_empty() -> (r: RequestMessageBuilder)
        ensures
            r@ == (FragmentView {
                method: Option::None,
                host: Option::None,
                path: Option::None,
                body: Option::None,
                headers: Option::None,
            }),
            builder_wf(r),
    {
        RequestMessageBuilder {
            method: Option::None,
            host: Option::None,
            path: Option::None,
            body: Option::None,
            headers: Option::None,
        }
    }

    /// Merges `self` (the base) with `new_message` (the override): pure,
    /// last-wins per scalar, additive on headers with the override winning.
    pub fn merge_with(&self, new_message: &RequestMessageBuilder) -> (r: RequestMessageBuilder)
        requires
            builder_wf(*self),
            builder_wf(*new_message),
        ensures
            r@ == merge_spec(self@, new_message@),
            builder_wf(r),
    {
        let method = match &new_message.method {
            Option::Some(_) => clone_opt_string(&new_message.method),
            Option::None => clone_opt_string(&self.method),
        };
        let host = match &new_message.host {
            Option::Some(_) => clone_opt_string(&new_message.host),
            Option::None => clone_opt_string(&self.host),
        };
        let path = match &new_message.path {
            Option::Some(_) => clone_opt_string(&new_message.path),
            Option::None => clone_opt_string(&self.path),
        };
        let body = match &new_message.body {
            Option::Some(_) => clone_opt_string(&new_message.body),
            Option::None => clone_opt_string(&self.body),
        };
        let base_headers = match &self.headers {
            Option::Some(h) => h.duplicate(),
            Option::None => HeaderMap::new(),
        };
        let over_headers = match &new_message.headers {
            Option::Some(h) => h.duplicate(),
            Option::None => HeaderMap::new(),
        };
        let merged = base_headers.overridden_by(&over_headers);
        RequestMessageBuilder { method, host, path, body, headers: Option::Some(merged) }
    }

    /// Resolves the fragment into a sendable request. Fails with
    /// `BuildError` naming the first mandatory field that is still absent,
    /// in the order host, path, method.
    pub fn to_message(&self) -> (r: Result<RequestMessage, RequestError>)
        requires
            builder_wf(*self),
        ensures
            match resolve_spec(self@) {
                Result::Ok(rv) => r matches Result::Ok(m) && m@ == rv && m.headers.wf(),
                Result::Err(name) => r matches Result::Err(RequestError::BuildError {
                    property_name,
                }) && property_name@ == name,
            },
    {
        let host = match &self.host {
            Option::Some(x) => x,
            Option::None => {
                return Result::Err(
                    RequestError::BuildError { property_name: String::from_str("host") },
                );
            },
        };
        let path = match &self.path {
            Option::Some(x) => x,
            Option::None => {
                return Result::Err(
                    RequestError::BuildError { property_name: String::from_str("path") },
                );
            },
        };
        let method_candidate = match &self.method {
            Option::Some(x) => x,
            Option::None => {
                return Result::Err(
                    RequestError::BuildError { property_name: String::from_str("method") },
                );
            },
        };
        let body = match &self.body {
            Option::Some(s) => s.clone(),
            Option::None => String::new(),
        };
        let headers = match &self.headers {
            Option::Some(h) => h.duplicate(),
            Option::None => HeaderMap::new(),
        };
        let mut url = host.clone();
        url.append(path.as_str());
        Result::Ok(
            RequestMessage { method: parse_method(method_candidate.as_str()), url, body, headers },
        )
    }
}

impl Default for RequestMessageBuilder {
    /// The empty fragment.
    fn default() -> (r: Self)
        ensures
            r@ == (FragmentView {
                method: Option::None,
                host: Option::None,
                path: Option::None,
                body: Option::None,
                headers: Option::None,
            }),
            builder_wf(r),
    {
        RequestMessageBuilder::new_empty()
    }
}

/// Folding fragments pairwise is associative: merging a chain left to
/// right or right to left denotes the same fragment.
pub proof fn lemma_merge_associative(a: FragmentView, b: FragmentView, c: FragmentView)
    ensures
        merge_spec(merge_spec(a, b), c) == merge_spec(a, merge_spec(b, c)),
{
    assert(headers_or_empty(merge_spec(a, b)).union_prefer_right(headers_or_empty(c))
        =~= headers_or_empty(a).union_prefer_right(
        headers_or_empty(b).union_prefer_right(headers_or_empty(c)),
    ));
}

/// Every key of either fragment's headers survives a merge, and on a key
/// both fragments hold, the merged value is the override's.
pub proof fn lemma_merge_header_precedence(base: FragmentView, over: FragmentView)
    ensures
        forall|k: Seq<char>|
            #[trigger] headers_or_empty(merge_spec(base, over)).contains_key(k) <==> (
            headers_or_empty(base).contains_key(k) || headers_or_empty(over).contains_key(k)),
        forall|k: Seq<char>|
            headers_or_empty(over).contains_key(k) ==> #[trigger] headers_or_empty(
                merge_spec(base, over),
            )[k] == headers_or_empty(over)[k],
        forall|k: Seq<char>|
            headers_or_empty(base).contains_key(k) && !headers_or_empty(over).contains_key(k)
                ==> #[trigger] headers_or_empty(merge_spec(base, over))[k] == headers_or_empty(
                base,
            )[k],
{
}

/// Merging with an empty override fragment keeps every scalar of the base
/// and keeps the base's header mapping (an absent one becomes empty).
pub proof fn lemma_merge_empty_override(base: FragmentView, over: FragmentView)
    requires
        over.method is None,
        over.host is None,
        over.path is None,
        over.body is None,
        over.headers is None || over.headers == Option::Some(Map::<Seq<char>, Seq<char>>::empty()),
    ensures
        merge_spec(base, over).method == base.method,
        merge_spec(base, over).host == base.host,
        merge_spec(base, over).path == base.path,
        merge_spec(base, over).body == base.body,
        merge_spec(base, over).headers == Option::Some(headers_or_empty(base)),
{
    assert(headers_or_empty(base).union_prefer_right(headers_or_empty(over)) =~= headers_or_empty(
        base,
    ));
}

} // verus!
