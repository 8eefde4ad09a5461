//! Requests to the runtime API and responses from it, as plain values.
use vstd::prelude::*;
use crate::uri::{path_and_query, Uri, UriView};

verus! {

/// A request with a body of type `B`. It has no headers.
#[derive(Debug)]
pub struct ApiRequest<B> {
    /// The method, such as `GET`.
    pub method: String,
    /// The target.
    pub uri: Uri,
    /// The body.
    pub body: B,
}

/// What a request says.
pub struct RequestView<B> {
    pub method: Seq<char>,
    pub uri: UriView,
    pub body: B,
}

impl<B: View> View for ApiRequest<B> {
    type V = RequestView<B::V>;

    open spec fn view(&self) -> RequestView<B::V> {
        RequestView { method: self.method@, uri: self.uri@, body: self.body@ }
    }
}

/// A response.
#[derive(Debug, PartialEq, Eq)]
pub struct ApiResponse {
    /// The status code.
    pub status: u16,
    /// The headers, each with its value.
    pub headers: Vec<(String, Vec<u8>)>,
    /// The body.
    pub body: Vec<u8>,
}

/// What a response says.
pub struct ResponseView {
    pub status: u16,
    pub headers: Seq<(Seq<char>, Seq<u8>)>,
    pub body: Seq<u8>,
}

impl View for ApiResponse {
    type V = ResponseView;

    open spec fn view(&self) -> ResponseView {
        ResponseView { status: self.status, headers: headers(self.headers@), body: self.body@ }
    }
}

/// The names and the values of headers.
pub open spec fn headers(list: Seq<(String, Vec<u8>)>) -> Seq<(Seq<char>, Seq<u8>)> {
    list.map_values(|h: (String, Vec<u8>)| (h.0@, h.1@))
}

/// A request or a response that could not be built.
#[derive(Debug, PartialEq, Eq)]
pub struct HttpError {
    /// What is wrong with it.
    pub message: String,
}

/// A method that requests here are made with.
pub open spec fn known_method(method: Seq<char>) -> bool {
    method == "GET"@ || method == "POST"@
}

impl<B: View> ApiRequest<B> {
    /// A request for a URI that holds a path and query only.
    pub(crate) fn build(method: &str, uri: Uri, body: B) -> (built: Result<
        ApiRequest<B>,
        HttpError,
    >)
        requires
            known_method(method@),
            uri@.well_formed(),
            uri@.path_and_query matches Some(p) && uri@ == UriView::relative(p),
        ensures
            built matches Ok(req) && req@ == (RequestView {
                method: method@,
                uri: uri@,
                body: body@,
            }),
    {
        match uri.path_and_query {
            Some(path) => build_http_request(method, path.as_str(), body),
            None => vstd::pervasive::unreached(),
        }
    }
}

impl ApiResponse {
    /// A response that carries a body and nothing else.
    pub fn with_body(body: Vec<u8>) -> (built: Result<ApiResponse, HttpError>)
        ensures
            built matches Ok(res) && res@ == (ResponseView {
                status: 200,
                headers: seq![],
                body: body@,
            }),
    {
        let built = build_http_response(body);
        assert(headers(built->Ok_0.headers@) =~= seq![]);
        built
    }
}

/// A response that is made of a body has this body, the status 200 and no headers.
pub proof fn law_response_is_its_body(body: Vec<u8>, built: Result<ApiResponse, HttpError>)
    requires
        call_ensures(ApiResponse::with_body, (body,), built),
    ensures
        built matches Ok(res) && res.status == 200 && res.headers@.len() == 0 && res.body@ == body@,
{
    let res = built->Ok_0;
    assert(res@.headers.len() == res.headers@.len());
}

/// Calls `http::request::Builder::body`, which fails only where a method or a URI was refused
/// before, and puts together the method, the URI and the body that it was given.
#[verifier::external_body]
fn build_http_request<B>(method: &str, path: &str, body: B) -> (built: Result<
    ApiRequest<B>,
    HttpError,
>)
    requires
        known_method(method@),
        path_and_query(path@) == Some(path@),
    ensures
        match built {
            Ok(req) => req.method@ == method@ && req.uri@ == UriView::relative(path@) && req.body
                == body,
            Err(_) => false,
        },
{
    let uri = http::Uri::builder().path_and_query(path).build().unwrap();
    match http::Request::builder().method(method).uri(uri).body(body) {
        Ok(built) => {
            let (head, body) = built.into_parts();
            let uri = Uri {
                scheme: head.uri.scheme_part().map(|s| s.as_str().to_owned()),
                authority: head.uri.authority_part().map(|a| a.as_str().to_owned()),
                path_and_query: head.uri.path_and_query().map(|p| p.as_str().to_owned()),
            };
            Ok(ApiRequest { method: head.method.as_str().to_owned(), uri, body })
        },
        Err(e) => Err(HttpError { message: e.to_string() }),
    }
}

/// Calls `http::response::Builder::body`, which fails only where a part was refused before. The
/// status is 200 and there are no headers unless others are set.
#[verifier::external_body]
fn build_http_response(body: Vec<u8>) -> (built: Result<ApiResponse, HttpError>)
    ensures
        match built {
            Ok(res) => res.status == 200 && res.headers@.len() == 0 && res.body@ == body@,
            Err(_) => false,
        },
{
    match http::Response::builder().body(bytes::Bytes::from(body)) {
        Ok(built) => {
            let (head, body) = built.into_parts();
            let headers = head.headers.iter();
            let headers = headers.map(|(k, v)| (k.as_str().to_owned(), v.as_bytes().to_vec()));
            let headers = headers.collect();
            Ok(ApiResponse { status: head.status.as_u16(), headers, body: body.to_vec() })
        },
        Err(e) => Err(HttpError { message: e.to_string() }),
    }
}

} // verus!
