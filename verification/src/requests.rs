//! The requests that a runtime makes of the runtime API.
use vstd::prelude::*;
use vstd::string::*;
use crate::message::{ApiRequest, HttpError, RequestView};
use crate::uri::{
    lemma_scan, lemma_scan_is, path_and_query, path_char, path_chars, query_char, query_chars, scan,
    InvalidUri, PathAndQuery, Uri, UriView,
};

verus! {

/// The path of the next event.
pub open spec fn next_event_path() -> Seq<char> {
    "/2018-06-01/runtime/invocation/next"@
}

/// The path of the response to an invocation, before it is read.
pub open spec fn response_path(id: Seq<char>) -> Seq<char> {
    "2018-06-01/runtime/invocation/"@ + id + "/response"@
}

/// The path of the error of an invocation, before it is read.
pub open spec fn error_path(id: Seq<char>) -> Seq<char> {
    "2018-06-01/runtime/invocation/"@ + id + "/error"@
}

/// A request for what is at `path`.
pub open spec fn get_request(path: Seq<char>) -> RequestView<()> {
    RequestView { method: "GET"@, uri: UriView::relative(path), body: () }
}

/// A request that hands `body` in at `path`.
pub open spec fn post_request(path: Seq<char>, body: Seq<u8>) -> RequestView<Seq<u8>> {
    RequestView { method: "POST"@, uri: UriView::relative(path), body }
}

proof fn lemma_next_event_path()
    ensures
        path_and_query(next_event_path()) == Some(next_event_path()),
{
    reveal_strlit("/2018-06-01/runtime/invocation/next");
    let s = next_event_path();
    lemma_scan_is(s, 0, true, s.len() as int);
    assert(s.take(s.len() as int) =~= s);
}

/// Represents a request that retrieves an invocation event. The response body contains
/// the payload from the invocation, which is a JSON document that contains event data
/// from the function trigger. The response headers contain additional data about the invocation.
#[derive(Debug, PartialEq)]
pub struct NextEventRequest {
    path_and_query: PathAndQuery,
}

impl Clone for NextEventRequest {
    fn clone(&self) -> (copy: NextEventRequest)
        ensures
            copy == *self,
    {
        NextEventRequest { path_and_query: self.path_and_query.clone() }
    }
}

impl NextEventRequest {
    /// The path and query that is asked for.
    pub closed spec fn path(&self) -> Seq<char> {
        self.path_and_query@
    }

    /// Constructs a new `NextEventRequest`.
    pub fn new() -> (req: NextEventRequest)
        ensures
            req.path() == next_event_path(),
            req.path() == "/2018-06-01/runtime/invocation/next"@,
    {
        proof {
            lemma_next_event_path();
        }
        NextEventRequest {
            path_and_query: PathAndQuery::from_static("/2018-06-01/runtime/invocation/next"),
        }
    }

    /// The request to send.
    pub fn try_into(self) -> (built: Result<ApiRequest<()>, HttpError>)
        ensures
            built matches Ok(req) && req@ == get_request(self.path()),
            built matches Ok(req) && req@.method == "GET"@ && req@.uri.scheme is None
                && req@.uri.authority is None && req@.uri.path_and_query == Some(self.path()),
    {
        let uri = match Uri::relative(&self.path_and_query) {
            Ok(uri) => uri,
            Err(e) => return Err(HttpError { message: e.message }),
        };
        ApiRequest::build("GET", uri, ())
    }
}

/// A request that returns a successful response to Lambda.
#[derive(Debug, PartialEq)]
pub struct InvocationRequest {
    path_and_query: PathAndQuery,
    response: Vec<u8>,
}

impl InvocationRequest {
    /// The path and query that the response is handed in at.
    pub closed spec fn path(&self) -> Seq<char> {
        self.path_and_query@
    }

    /// The response.
    pub closed spec fn response(&self) -> Seq<u8> {
        self.response@
    }

    /// Fallibly constructs an `InvocationRequest`.
    pub fn from_components(request_id: String, response: Vec<u8>) -> (made: Result<
        InvocationRequest,
        InvalidUri,
    >)
        ensures
            match made {
                Ok(req) => path_and_query(response_path(request_id@)) == Some(req.path())
                    && req.response() == response@,
                Err(e) => path_and_query(response_path(request_id@)) is None && e@
                    == "invalid uri character"@,
            },
            made matches Ok(req) ==> path_and_query(
                "2018-06-01/runtime/invocation/"@ + request_id@ + "/response"@,
            ) == Some(req.path()),
    {
        let path = join("2018-06-01/runtime/invocation/", request_id.as_str(), "/response");
        match PathAndQuery::from_shared(path) {
            Ok(path_and_query) => Ok(InvocationRequest { path_and_query, response }),
            Err(e) => Err(e),
        }
    }

    /// The request to send.
    pub fn try_into(self) -> (built: Result<ApiRequest<Vec<u8>>, HttpError>)
        ensures
            built matches Ok(req) && req@ == post_request(self.path(), self.response()),
            built matches Ok(req) && req@.method == "POST"@ && req@.uri.scheme is None
                && req@.uri.authority is None && req@.uri.path_and_query == Some(self.path())
                && req@.body == self.response(),
    {
        let uri = match Uri::relative(&self.path_and_query) {
            Ok(uri) => uri,
            Err(e) => return Err(HttpError { message: e.message }),
        };
        ApiRequest::build("POST", uri, self.response)
    }
}

/// A request that returns the error of an invocation to Lambda.
#[derive(Debug, PartialEq)]
pub struct InvocationErrRequest {
    path_and_query: PathAndQuery,
    response: Vec<u8>,
}

impl InvocationErrRequest {
    /// The path and query that the error is handed in at.
    pub closed spec fn path(&self) -> Seq<char> {
        self.path_and_query@
    }

    /// The error, as it is sent.
    pub closed spec fn response(&self) -> Seq<u8> {
        self.response@
    }

    /// Fallibly constructs an `InvocationErrRequest`.
    pub fn from_components(request_id: String, response: Vec<u8>) -> (made: Result<
        InvocationErrRequest,
        InvalidUri,
    >)
        ensures
            match made {
                Ok(req) => path_and_query(error_path(request_id@)) == Some(req.path())
                    && req.response() == response@,
                Err(e) => path_and_query(error_path(request_id@)) is None && e@
                    == "invalid uri character"@,
            },
            made matches Ok(req) ==> path_and_query(
                "2018-06-01/runtime/invocation/"@ + request_id@ + "/error"@,
            ) == Some(req.path()),
    {
        let path = join("2018-06-01/runtime/invocation/", request_id.as_str(), "/error");
        match PathAndQuery::from_shared(path) {
            Ok(path_and_query) => Ok(InvocationErrRequest { path_and_query, response }),
            Err(e) => Err(e),
        }
    }

    /// The request to send.
    pub fn try_into(self) -> (built: Result<ApiRequest<Vec<u8>>, HttpError>)
        ensures
            built matches Ok(req) && req@ == post_request(self.path(), self.response()),
            built matches Ok(req) && req@.method == "POST"@ && req@.uri.scheme is None
                && req@.uri.authority is None && req@.uri.path_and_query == Some(self.path())
                && req@.body == self.response(),
    {
        let uri = match Uri::relative(&self.path_and_query) {
            Ok(uri) => uri,
            Err(e) => return Err(HttpError { message: e.message }),
        };
        ApiRequest::build("POST", uri, self.response)
    }
}

/// The three texts, one after the other.
pub(crate) fn join(first: &str, second: &str, third: &str) -> (joined: String)
    ensures
        joined@ == first@ + second@ + third@,
{
    first.to_owned().concat(second).concat(third)
}

/// `id` holds neither the start of a query nor that of a fragment.
pub open spec fn one_segment(id: Seq<char>) -> bool {
    forall|i: int| 0 <= i < id.len() ==> #[trigger] id[i] != '?' && id[i] != '#'
}

/// Around an identifier that starts neither a query nor a fragment, a path is read if and only if
/// the path may hold every character of the identifier, and is then read as it stands.
pub proof fn lemma_path_around(before: Seq<char>, id: Seq<char>, after: Seq<char>)
    requires
        one_segment(id),
        one_segment(before),
        one_segment(after),
        path_chars(before, 0, before.len() as int),
        path_chars(after, 0, after.len() as int),
        before.len() > 0,
    ensures
        path_and_query(before + id + after) == if path_chars(id, 0, id.len() as int) {
            Some(before + id + after)
        } else {
            None
        },
{
    let s = before + id + after;
    let n = before.len() as int;
    assert forall|i: int| 0 <= i < s.len() implies s[i] != '#' && s[i] != '?' by {
        if i < n {
            assert(s[i] == before[i]);
        } else if i < n + id.len() {
            assert(s[i] == id[i - n]);
        } else {
            assert(s[i] == after[i - n - id.len()]);
        }
    }
    lemma_scan_is(s, 0, true, s.len() as int);
    assert(s.take(s.len() as int) =~= s);
    if path_chars(id, 0, id.len() as int) {
        assert forall|i: int| 0 <= i < s.len() implies path_char(#[trigger] s[i]) by {
            if i < n {
                assert(s[i] == before[i]);
            } else if i < n + id.len() {
                assert(s[i] == id[i - n]);
            } else {
                assert(s[i] == after[i - n - id.len()]);
            }
        }
    } else {
        let i = choose|i: int| 0 <= i < id.len() && !path_char(#[trigger] id[i]);
        assert(s[n + i] == id[i]);
    }
}

/// An invocation whose identifier is one segment of a path is answered at the paths that hold
/// this very identifier. It is refused if and only if a path may not hold the identifier.
pub proof fn law_answered_at_its_identifier(id: Seq<char>)
    requires
        one_segment(id),
    ensures
        path_chars(id, 0, id.len() as int) ==> path_and_query(response_path(id)) == Some(
            response_path(id),
        ) && path_and_query(error_path(id)) == Some(error_path(id)),
        !path_chars(id, 0, id.len() as int) ==> path_and_query(response_path(id)) is None
            && path_and_query(error_path(id)) is None,
{
    reveal_strlit("2018-06-01/runtime/invocation/");
    reveal_strlit("/response");
    reveal_strlit("/error");
    lemma_path_around("2018-06-01/runtime/invocation/"@, id, "/response"@);
    lemma_path_around("2018-06-01/runtime/invocation/"@, id, "/error"@);
}

/// The next event is asked for with a GET at the one path that the runtime API has for it.
pub proof fn law_next_event_is_asked_for_at_its_path(
    req: NextEventRequest,
    built: Result<ApiRequest<()>, HttpError>,
)
    requires
        call_ensures(NextEventRequest::new, (), req),
        call_ensures(NextEventRequest::try_into, (req,), built),
    ensures
        built matches Ok(req) && req.method@ == "GET"@ && req.uri.scheme is None
            && req.uri.authority is None && (req.uri.path_and_query matches Some(p) && p@
            == "/2018-06-01/runtime/invocation/next"@),
{
}

/// The response of an invocation is handed in with a POST, at a path that holds the version of the
/// API, the identifier of the invocation and `/response`, with the bytes that were given. It is refused
/// if and only if no such path can be read.
pub proof fn law_response_is_posted_to_its_path(
    id: String,
    response: Vec<u8>,
    made: Result<InvocationRequest, InvalidUri>,
    built: Result<ApiRequest<Vec<u8>>, HttpError>,
)
    requires
        call_ensures(InvocationRequest::from_components, (id, response), made),
        made matches Ok(req) ==> call_ensures(InvocationRequest::try_into, (req,), built),
    ensures
        match path_and_query("2018-06-01/runtime/invocation/"@ + id@ + "/response"@) {
            None => made matches Err(e) && e.message@ == "invalid uri character"@,
            Some(path) => {
                &&& made is Ok
                &&& built matches Ok(req) && req.method@ == "POST"@ && req.uri.scheme is None
                    && req.uri.authority is None && (req.uri.path_and_query matches Some(p) && p@
                    == path) && req.body@ == response@
            },
        },
        one_segment(id@) && path_chars(id@, 0, id@.len() as int) ==> (built matches Ok(req) && (
        req.uri.path_and_query matches Some(p) && p@ == "2018-06-01/runtime/invocation/"@ + id@
            + "/response"@)),
{
    if one_segment(id@) && path_chars(id@, 0, id@.len() as int) {
        reveal_strlit("2018-06-01/runtime/invocation/");
        reveal_strlit("/response");
        lemma_path_around("2018-06-01/runtime/invocation/"@, id@, "/response"@);
    }
}

/// The error of an invocation is handed in with a POST, at a path that holds the version of the
/// API, the identifier of the invocation and `/error`, with the bytes that were given. It is refused
/// if and only if no such path can be read.
pub proof fn law_error_is_posted_to_its_path(
    id: String,
    response: Vec<u8>,
    made: Result<InvocationErrRequest, InvalidUri>,
    built: Result<ApiRequest<Vec<u8>>, HttpError>,
)
    requires
        call_ensures(InvocationErrRequest::from_components, (id, response), made),
        made matches Ok(req) ==> call_ensures(InvocationErrRequest::try_into, (req,), built),
    ensures
        match path_and_query("2018-06-01/runtime/invocation/"@ + id@ + "/error"@) {
            None => made matches Err(e) && e.message@ == "invalid uri character"@,
            Some(path) => {
                &&& made is Ok
                &&& built matches Ok(req) && req.method@ == "POST"@ && req.uri.scheme is None
                    && req.uri.authority is None && (req.uri.path_and_query matches Some(p) && p@
                    == path) && req.body@ == response@
            },
        },
        one_segment(id@) && path_chars(id@, 0, id@.len() as int) ==> (built matches Ok(req) && (
        req.uri.path_and_query matches Some(p) && p@ == "2018-06-01/runtime/invocation/"@ + id@
            + "/error"@)),
{
    if one_segment(id@) && path_chars(id@, 0, id@.len() as int) {
        reveal_strlit("2018-06-01/runtime/invocation/");
        reveal_strlit("/error");
        lemma_path_around("2018-06-01/runtime/invocation/"@, id@, "/error"@);
    }
}

/// What stands behind a text makes no difference to what its characters are.
proof fn lemma_same_chars(s: Seq<char>, end: Seq<char>, from: int, to: int)
    requires
        0 <= from <= to <= s.len(),
    ensures
        path_chars(s + end, from, to) <==> path_chars(s, from, to),
        query_chars(s + end, from, to) <==> query_chars(s, from, to),
{
    let t = s + end;
    assert forall|i: int| from <= i < to implies #[trigger] t[i] == s[i] by {}
    if path_chars(t, from, to) {
        assert forall|i: int| from <= i < to implies path_char(#[trigger] s[i]) by {
            assert(path_char(t[i]));
        }
    }
    if query_chars(t, from, to) {
        assert forall|i: int| from <= i < to implies query_char(#[trigger] s[i]) by {
            assert(query_char(t[i]));
        }
    }
}

/// What a path may hold, at the end of a text, makes no difference to whether it is read.
pub proof fn lemma_plain_end(s: Seq<char>, end: Seq<char>)
    requires
        path_chars(end, 0, end.len() as int),
    ensures
        path_and_query(s + end) is Some <==> path_and_query(s) is Some,
{
    let t = s + end;
    let p = scan(s, 0, true);
    lemma_scan(s, 0, true);
    assert forall|i: int| s.len() <= i < t.len() implies path_char(#[trigger] t[i]) by {
        assert(t[i] == end[i - s.len()]);
    }
    if p < s.len() {
        lemma_scan_is(t, 0, true, p);
        assert(path_chars(t, 0, p) <==> path_chars(s, 0, p)) by {
            lemma_same_chars(s, end, 0, p);
        }
        if s[p] == '?' {
            let q = scan(s, p + 1, false);
            lemma_scan(s, p + 1, false);
            lemma_same_chars(s, end, p + 1, q);
            if q < s.len() {
                lemma_scan_is(t, p + 1, false, q);
            } else {
                lemma_scan_is(t, p + 1, false, t.len() as int);
            }
        }
    } else {
        lemma_scan_is(t, 0, true, t.len() as int);
        lemma_same_chars(s, end, 0, p);
    }
}

/// Both requests that answer an invocation can be made for the same identifiers.
pub proof fn law_either_answer_can_be_made(id: Seq<char>)
    ensures
        path_and_query(response_path(id)) is Some <==> path_and_query(error_path(id)) is Some,
{
    reveal_strlit("/response");
    reveal_strlit("/error");
    lemma_plain_end("2018-06-01/runtime/invocation/"@ + id, "/response"@);
    lemma_plain_end("2018-06-01/runtime/invocation/"@ + id, "/error"@);
}

/// Different invocations are answered at different paths, and no response goes where an error
/// goes.
pub proof fn law_paths_are_distinct(id: Seq<char>, other: Seq<char>)
    ensures
        response_path(id) == response_path(other) ==> id == other,
        error_path(id) == error_path(other) ==> id == other,
        response_path(id) != error_path(other),
{
    reveal_strlit("2018-06-01/runtime/invocation/");
    reveal_strlit("/response");
    reveal_strlit("/error");
    lemma_around_is_injective("2018-06-01/runtime/invocation/"@, id, other, "/response"@);
    lemma_around_is_injective("2018-06-01/runtime/invocation/"@, id, other, "/error"@);
    assert(response_path(id).last() == 'e');
    assert(error_path(other).last() == 'r');
}

/// What stands between two texts is determined by the whole.
pub proof fn lemma_around_is_injective(
    before: Seq<char>,
    id: Seq<char>,
    other: Seq<char>,
    after: Seq<char>,
)
    ensures
        before + id + after == before + other + after ==> id == other,
{
    let n = before.len() as int;
    let s = before + id + after;
    let t = before + other + after;
    if s == t {
        assert(s.len() == n + id.len() + after.len());
        assert(t.len() == n + other.len() + after.len());
        assert(s.subrange(n, n + id.len()) =~= id);
        assert(t.subrange(n, n + other.len()) =~= other);
    }
}

} // verus!
