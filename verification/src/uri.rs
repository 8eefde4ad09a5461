//! Uniform resource identifiers, as the `http` crate reads and builds them.
//!
//! The values of the `http` crate are held here by their text. What the crate accepts as a path
//! and query is stated outright; what it makes of a whole URI, or accepts as an authority, has a
//! name.
use vstd::prelude::*;
use vstd::utf8::encode_utf8;

verus! {

/// A character that the path of a URI may hold as it stands.
pub open spec fn path_char(c: char) -> bool {
    ||| c == '!'
    ||| '$' <= c <= ';'
    ||| c == '='
    ||| '@' <= c <= '_'
    ||| 'a' <= c <= 'z'
    ||| c == '|'
    ||| c == '~'
}

/// A character that the query of a URI may hold as it stands.
pub open spec fn query_char(c: char) -> bool {
    ||| c == '!'
    ||| '$' <= c <= ';'
    ||| c == '='
    ||| '?' <= c <= '~'
}

/// The first position of `s`, from `from` on, at which a fragment starts or, where `query` is
/// set, a query; the length of `s` where there is none.
pub open spec fn scan(s: Seq<char>, from: int, query: bool) -> int
    decreases s.len() - from,
{
    if from >= s.len() || s[from] == '#' || (query && s[from] == '?') {
        from
    } else {
        scan(s, from + 1, query)
    }
}

/// The text of a path and query, where an empty one stands for the root.
pub open spec fn or_root(s: Seq<char>) -> Seq<char> {
    if s.len() == 0 {
        seq!['/']
    } else {
        s
    }
}

/// The characters of `s` from `from` up to `to` may all stand in a path.
pub open spec fn path_chars(s: Seq<char>, from: int, to: int) -> bool {
    forall|i: int| from <= i < to ==> path_char(#[trigger] s[i])
}

/// The characters of `s` from `from` up to `to` may all stand in a query.
pub open spec fn query_chars(s: Seq<char>, from: int, to: int) -> bool {
    forall|i: int| from <= i < to ==> query_char(#[trigger] s[i])
}

/// What `s` denotes as a path and query: the text before the fragment, if every character of it
/// may stand where it stands.
///
/// The position of the query is kept in 16 bits, of which the largest value means that there is
/// no query: what follows a `?` at such a position is taken as it is.
pub open spec fn path_and_query(s: Seq<char>) -> Option<Seq<char>> {
    let p = scan(s, 0, true);
    if !path_chars(s, 0, p) {
        None
    } else if p >= s.len() || s[p] == '#' {
        Some(or_root(s.take(p)))
    } else if p % 0x1_0000 == 0xffff {
        Some(s)
    } else {
        let q = scan(s, p + 1, false);
        if query_chars(s, p + 1, q) {
            Some(s.take(q))
        } else {
            None
        }
    }
}

/// What `scan` finds is the first such position.
pub proof fn lemma_scan(s: Seq<char>, from: int, query: bool)
    requires
        0 <= from <= s.len(),
    ensures
        from <= scan(s, from, query) <= s.len(),
        forall|i: int|
            from <= i < scan(s, from, query) ==> #[trigger] s[i] != '#' && !(query && s[i] == '?'),
        scan(s, from, query) < s.len() ==> s[scan(s, from, query)] == '#' || (query && s[scan(
            s,
            from,
            query,
        )] == '?'),
    decreases s.len() - from,
{
    if from >= s.len() || s[from] == '#' || (query && s[from] == '?') {
    } else {
        lemma_scan(s, from + 1, query);
    }
}

/// A position with nothing to find before it, and something at it or nothing left, is what
/// `scan` finds.
pub proof fn lemma_scan_is(s: Seq<char>, from: int, query: bool, at: int)
    requires
        0 <= from <= at <= s.len(),
        forall|i: int| from <= i < at ==> #[trigger] s[i] != '#' && !(query && s[i] == '?'),
        at < s.len() ==> s[at] == '#' || (query && s[at] == '?'),
    ensures
        scan(s, from, query) == at,
    decreases at - from,
{
    if from < at {
        assert(s[from] != '#');
        lemma_scan_is(s, from + 1, query, at);
    }
}

/// Reading back the text of a path and query gives the same path and query.
pub proof fn law_path_and_query_is_stable(s: Seq<char>)
    ensures
        path_and_query(s) matches Some(t) ==> t.len() > 0 && path_and_query(t) == Some(t),
{
    let p = scan(s, 0, true);
    lemma_scan(s, 0, true);
    if path_and_query(s) is Some {
        let t = path_and_query(s)->0;
        if p >= s.len() || s[p] == '#' {
            if p == 0 {
                lemma_scan_is(t, 0, true, 1);
            } else {
                assert forall|i: int| 0 <= i < t.len() implies t[i] == s[i] by {}
                lemma_scan_is(t, 0, true, t.len() as int);
            }
            assert(t.take(t.len() as int) =~= t);
        } else if p % 0x1_0000 == 0xffff {
        } else {
            let q = scan(s, p + 1, false);
            lemma_scan(s, p + 1, false);
            assert forall|i: int| 0 <= i < t.len() implies t[i] == s[i] by {}
            lemma_scan_is(t, 0, true, p);
            lemma_scan_is(t, p + 1, false, t.len() as int);
            assert(t.take(t.len() as int) =~= t);
        }
    }
}

/// A path is read as it stands where every character is one that a path may hold, and not at all
/// where another one stands before any query or fragment. No text stands for the root.
pub proof fn law_path_is_read_as_it_stands(s: Seq<char>)
    ensures
        s.len() == 0 ==> path_and_query(s) == Some(seq!['/']),
        s.len() > 0 && (forall|i: int|
            0 <= i < s.len() ==> (#[trigger] s[i] == '!' || '$' <= s[i] <= ';' || s[i] == '='
                || '@' <= s[i] <= '_' || 'a' <= s[i] <= 'z' || s[i] == '|' || s[i] == '~'))
            ==> path_and_query(s) == Some(s),
        forall|i: int|
            0 <= i < s.len() && !(#[trigger] s[i] == '!' || '$' <= s[i] <= ';' || s[i] == '='
                || '@' <= s[i] <= '_' || 'a' <= s[i] <= 'z' || s[i] == '|' || s[i] == '~' || s[i]
                == '?' || s[i] == '#') && (forall|k: int|
                0 <= k < i ==> #[trigger] s[k] != '?' && s[k] != '#') ==> path_and_query(s)
                is None,
{
    lemma_scan(s, 0, true);
    let p = scan(s, 0, true);
    if s.len() == 0 {
        assert(s.take(0) =~= s);
    }
    if s.len() > 0 && (forall|i: int|
        0 <= i < s.len() ==> (#[trigger] s[i] == '!' || '$' <= s[i] <= ';' || s[i] == '=' || '@'
            <= s[i] <= '_' || 'a' <= s[i] <= 'z' || s[i] == '|' || s[i] == '~')) {
        lemma_scan_is(s, 0, true, s.len() as int);
        assert(s.take(s.len() as int) =~= s);
    }
    assert forall|i: int|
        0 <= i < s.len() && !(#[trigger] s[i] == '!' || '$' <= s[i] <= ';' || s[i] == '=' || '@'
            <= s[i] <= '_' || 'a' <= s[i] <= 'z' || s[i] == '|' || s[i] == '~' || s[i] == '?'
            || s[i] == '#') && (forall|k: int|
            0 <= k < i ==> #[trigger] s[k] != '?' && s[k] != '#') implies path_and_query(
        s,
    ) is None by {
        assert(i < p) by {
            if p <= i && p < s.len() {
                assert(s[p] == '?' || s[p] == '#');
            }
        }
        assert(!path_char(s[i]));
    }
}

/// A fragment is left out: what stands before it is read as if it stood alone.
pub proof fn law_fragment_is_left_out(path: Seq<char>, fragment: Seq<char>)
    requires
        forall|i: int| 0 <= i < path.len() ==> #[trigger] path[i] != '?' && path[i] != '#',
    ensures
        path_and_query(path + seq!['#'] + fragment) == path_and_query(path),
{
    let s = path + seq!['#'] + fragment;
    let n = path.len() as int;
    assert forall|i: int| 0 <= i < n implies #[trigger] s[i] == path[i] by {}
    assert(s[n] == '#');
    lemma_scan_is(s, 0, true, n);
    lemma_scan_is(path, 0, true, n);
    assert(s.take(n) =~= path);
    assert(path.take(n) =~= path);
    assert(path_chars(s, 0, n) <==> path_chars(path, 0, n)) by {
        if path_chars(s, 0, n) {
            assert forall|i: int| 0 <= i < n implies path_char(#[trigger] path[i]) by {
                assert(path_char(s[i]));
            }
        }
    }
}

/// A query is read as it stands where every character of the path is one that a path may hold,
/// and every one of the query one that a query may hold; a fragment behind it is left out.
pub proof fn law_query_is_read_as_it_stands(
    path: Seq<char>,
    query: Seq<char>,
    fragment: Seq<char>,
)
    requires
        forall|i: int| 0 <= i < path.len() ==> #[trigger] path[i] != '?' && path[i] != '#',
        forall|i: int| 0 <= i < query.len() ==> #[trigger] query[i] != '#',
        path.len() % 65536 != 65535,
    ensures
        ({
            let whole = path + seq!['?'] + query;
            let plain = forall|i: int|
                0 <= i < path.len() ==> (#[trigger] path[i] == '!' || '$' <= path[i] <= ';'
                    || path[i] == '=' || '@' <= path[i] <= '_' || 'a' <= path[i] <= 'z'
                    || path[i] == '|' || path[i] == '~');
            let asked = forall|i: int|
                0 <= i < query.len() ==> (#[trigger] query[i] == '!' || '$' <= query[i] <= ';'
                    || query[i] == '=' || '?' <= query[i] <= '~');
            &&& path_and_query(whole) == if plain && asked {
                Some(whole)
            } else {
                None
            }
            &&& path_and_query(whole + seq!['#'] + fragment) == path_and_query(whole)
        }),
{
    let whole = path + seq!['?'] + query;
    let more = whole + seq!['#'] + fragment;
    assert(whole.take(whole.len() as int) =~= whole);
    assert(more.take(whole.len() as int) =~= whole);
    lemma_query_read(path, query, whole);
    lemma_query_read(path, query, more);
}

proof fn lemma_query_read(path: Seq<char>, query: Seq<char>, s: Seq<char>)
    requires
        forall|i: int| 0 <= i < path.len() ==> #[trigger] path[i] != '?' && path[i] != '#',
        forall|i: int| 0 <= i < query.len() ==> #[trigger] query[i] != '#',
        path.len() % 65536 != 65535,
        s.len() >= path.len() + 1 + query.len(),
        s.take((path.len() + 1 + query.len()) as int) == path + seq!['?'] + query,
        s.len() > path.len() + 1 + query.len() ==> s[(path.len() + 1 + query.len()) as int] == '#',
    ensures
        path_and_query(s) == if path_chars(path, 0, path.len() as int) && query_chars(
            query,
            0,
            query.len() as int,
        ) {
            Some(path + seq!['?'] + query)
        } else {
            None
        },
{
    let whole = path + seq!['?'] + query;
    let n = path.len() as int;
    let m = whole.len() as int;
    assert forall|i: int| 0 <= i < m implies #[trigger] s[i] == whole[i] by {
        assert(s.take(m)[i] == s[i]);
    }
    assert(s[n] == '?') by {
        assert(whole[n] == '?');
    }
    assert forall|i: int| n < i < m implies #[trigger] s[i] == query[i - n - 1] by {
        assert(whole[i] == query[i - n - 1]);
    }
    assert forall|i: int| 0 <= i < n implies #[trigger] s[i] == path[i] by {
        assert(whole[i] == path[i]);
    }
    lemma_scan_is(s, 0, true, n);
    lemma_scan_is(s, n + 1, false, m);
    assert(path_chars(s, 0, n) <==> path_chars(path, 0, n)) by {
        if path_chars(s, 0, n) {
            assert forall|i: int| 0 <= i < n implies path_char(#[trigger] path[i]) by {
                assert(path_char(s[i]));
            }
        }
    }
    assert(query_chars(s, n + 1, m) <==> query_chars(query, 0, query.len() as int)) by {
        if query_chars(s, n + 1, m) {
            assert forall|i: int| 0 <= i < query.len() implies query_char(#[trigger] query[i]) by {
                assert(query_char(s[n + 1 + i]));
            }
        }
    }
}

/// What is read as a path and query is the text of the path and query, and is refused where there
/// is none.
pub proof fn law_path_and_query_is_what_was_read(
    path: String,
    read: Result<PathAndQuery, InvalidUri>,
)
    requires
        call_ensures(PathAndQuery::from_shared, (path,), read),
    ensures
        path@.len() > 0 && (forall|i: int|
            0 <= i < path@.len() ==> (#[trigger] path@[i] == '!' || '$' <= path@[i] <= ';'
                || path@[i] == '=' || '@' <= path@[i] <= '_' || 'a' <= path@[i] <= 'z' || path@[i]
                == '|' || path@[i] == '~')) ==> (read matches Ok(p) && p@ == path@),
        read matches Err(e) ==> e.message@ == "invalid uri character"@,
        read is Ok <==> path_and_query(path@) is Some,
{
    law_path_is_read_as_it_stands(path@);
}

/// A text that starts with `/` is read as a URI that has a path and query only.
pub proof fn law_path_is_read_as_a_uri(text: &str, read: Result<Uri, InvalidUri>)
    requires
        call_ensures(Uri::parse, (text,), read),
        text@.len() > 0,
        text@[0] == '/',
    ensures
        encode_utf8(text@).len() > 65534 ==> (read matches Err(e) && e.message@
            == "uri too long"@),
        encode_utf8(text@).len() <= 65534 ==> match path_and_query(text@) {
            None => read matches Err(e) && e.message@ == "invalid uri character"@,
            Some(path) => read matches Ok(uri) && uri.scheme is None && uri.authority is None && (
            uri.path_and_query matches Some(p) && p@ == path),
        },
{
}

/// The longest URI, in bytes, that is read from text.
pub const MAX_URI_LEN: usize = 65534;

/// What a text that starts with `/` denotes as a URI: the path and query, or the message of the
/// error.
pub open spec fn origin_form(s: Seq<char>) -> Result<Seq<char>, Seq<char>> {
    if encode_utf8(s).len() > MAX_URI_LEN {
        Err("uri too long"@)
    } else {
        match path_and_query(s) {
            Some(t) => Ok(t),
            None => Err("invalid uri character"@),
        }
    }
}

/// A text that is the scheme of a URI.
pub open spec fn scheme_text(s: Seq<char>) -> bool {
    &&& s.len() <= 64
    &&& forall|i: int| 0 <= i < s.len() ==> scheme_char(#[trigger] s[i])
}

/// A character that the scheme of a URI may hold.
pub open spec fn scheme_char(c: char) -> bool {
    ||| c == '+'
    ||| c == '-'
    ||| c == '.'
    ||| '0' <= c <= '9'
    ||| 'A' <= c <= 'Z'
    ||| 'a' <= c <= 'z'
    ||| c == '~'
}

/// The message of the error with which a text that is no scheme is refused.
pub open spec fn scheme_fault(s: Seq<char>) -> Seq<char> {
    if encode_utf8(s).len() > 64 {
        "scheme too long"@
    } else {
        "invalid scheme"@
    }
}

/// What `http::uri::Authority` makes of a text, such as a host and a port: the text of the
/// authority, or the message of the error.
pub uninterp spec fn http_authority(s: Seq<char>) -> Result<Seq<char>, Seq<char>>;

/// A text that is the authority of a URI.
pub open spec fn authority_text(s: Seq<char>) -> bool {
    http_authority(s) is Ok
}

/// What `http::Uri` makes of a text: the parts of the URI, or the message of the error.
pub uninterp spec fn http_uri(s: Seq<char>) -> Result<UriView, Seq<char>>;

/// The texts of the parts of a URI.
pub struct UriView {
    pub scheme: Option<Seq<char>>,
    pub authority: Option<Seq<char>>,
    pub path_and_query: Option<Seq<char>>,
}

impl UriView {
    /// The URI that holds a path and query only.
    pub open spec fn relative(path_and_query: Seq<char>) -> UriView {
        UriView { scheme: None, authority: None, path_and_query: Some(path_and_query) }
    }

    /// The URI of a path and query at an origin.
    pub open spec fn absolute(
        scheme: Seq<char>,
        authority: Seq<char>,
        path_and_query: Seq<char>,
    ) -> UriView {
        UriView {
            scheme: Some(scheme),
            authority: Some(authority),
            path_and_query: Some(path_and_query),
        }
    }

    /// Each part is what it should be, and a scheme comes with both others.
    pub open spec fn well_formed(self) -> bool {
        &&& self.scheme matches Some(s) ==> scheme_text(s) && self.authority is Some
            && self.path_and_query is Some
        &&& self.authority matches Some(a) ==> authority_text(a)
        &&& self.path_and_query matches Some(p) ==> path_and_query(p) == Some(p)
    }
}

/// A URI, held as the texts of its parts.
#[derive(Debug)]
pub struct Uri {
    /// The scheme, such as `http`.
    pub scheme: Option<String>,
    /// The authority, such as a host and a port.
    pub authority: Option<String>,
    /// The path and, after a `?`, the query.
    pub path_and_query: Option<String>,
}

impl View for Uri {
    type V = UriView;

    open spec fn view(&self) -> UriView {
        UriView {
            scheme: text(self.scheme),
            authority: text(self.authority),
            path_and_query: text(self.path_and_query),
        }
    }
}

/// The characters of a text, where there is one.
pub open spec fn text(s: Option<String>) -> Option<Seq<char>> {
    match s {
        Some(s) => Some(s@),
        None => None,
    }
}

/// A text that is not the URI, or the part of a URI, that it should be.
#[derive(Debug, PartialEq, Eq)]
pub struct InvalidUri {
    /// What is wrong with the text.
    pub message: String,
}

impl View for InvalidUri {
    type V = Seq<char>;

    open spec fn view(&self) -> Seq<char> {
        self.message@
    }
}

/// A URI that was read, or the message of the error.
pub open spec fn read_uri(read: Result<Uri, InvalidUri>) -> Result<UriView, Seq<char>> {
    match read {
        Ok(uri) => Ok(uri@),
        Err(e) => Err(e@),
    }
}

/// A text that was read, or the message of the error.
pub open spec fn read_text(read: Result<String, InvalidUri>) -> Result<Seq<char>, Seq<char>> {
    match read {
        Ok(text) => Ok(text@),
        Err(e) => Err(e@),
    }
}

/// Reads a scheme, such as `http`.
pub fn parse_scheme(text: &str) -> (read: Result<String, InvalidUri>)
    ensures
        match read {
            Ok(scheme) => scheme_text(text@) && scheme@ == text@,
            Err(e) => !scheme_text(text@) && e@ == scheme_fault(text@),
        },
{
    parse_http_scheme(text)
}

/// Reads an authority, such as `localhost:8000`.
pub fn parse_authority(text: &str) -> (read: Result<String, InvalidUri>)
    ensures
        read_text(read) == http_authority(text@),
        read matches Ok(authority) ==> authority@ == text@,
{
    parse_http_authority(text)
}

/// A path and query, held as its text.
#[derive(Debug, PartialEq, Eq)]
pub struct PathAndQuery {
    text: String,
}

impl Clone for PathAndQuery {
    fn clone(&self) -> (copy: PathAndQuery)
        ensures
            copy == *self,
    {
        proof {
            use_type_invariant(self);
        }
        PathAndQuery { text: self.text.clone() }
    }
}

impl View for PathAndQuery {
    type V = Seq<char>;

    closed spec fn view(&self) -> Seq<char> {
        self.text@
    }
}

impl PathAndQuery {
    /// The text is that of a path and query.
    #[verifier::type_invariant]
    spec fn well_formed(self) -> bool {
        path_and_query(self.text@) == Some(self.text@)
    }

    /// Reads a path and query. What follows a `#` is left out.
    pub fn from_shared(path: String) -> (read: Result<PathAndQuery, InvalidUri>)
        ensures
            match read {
                Ok(p) => path_and_query(path@) == Some(p@),
                Err(e) => path_and_query(path@) is None && e@ == "invalid uri character"@,
            },
    {
        proof {
            law_path_and_query_is_stable(path@);
        }
        match http_path_and_query(path) {
            Ok(text) => Ok(PathAndQuery { text }),
            Err(message) => Err(InvalidUri { message }),
        }
    }

    /// Reads a path and query that is known to be one.
    pub fn from_static(path: &'static str) -> (read: PathAndQuery)
        requires
            path_and_query(path@) is Some,
        ensures
            path_and_query(path@) == Some(read@),
    {
        proof {
            law_path_and_query_is_stable(path@);
        }
        PathAndQuery { text: http_static_path_and_query(path) }
    }

    /// The text of the path and query.
    pub fn as_str(&self) -> (text: &str)
        ensures
            text@ == self@,
            path_and_query(self@) == Some(self@),
    {
        proof {
            use_type_invariant(self);
        }
        self.text.as_str()
    }
}

impl Uri {
    /// Reads a URI.
    pub fn parse(text: &str) -> (read: Result<Uri, InvalidUri>)
        ensures
            read_uri(read) == http_uri(text@),
            text@.len() > 0 && text@[0] == '/' ==> read_uri(read) == relative_uri(
                origin_form(text@),
            ),
            read matches Ok(uri) ==> uri@.well_formed(),
    {
        parse_http_uri(text)
    }

    /// The URI that holds a path and query only.
    pub(crate) fn relative(path: &PathAndQuery) -> (built: Result<Uri, InvalidUri>)
        ensures
            built matches Ok(uri) && uri@ == UriView::relative(path@) && uri@.well_formed(),
    {
        build_relative_uri(path.as_str())
    }

    /// The URI of a path and query at an origin.
    pub(crate) fn absolute(scheme: &str, authority: &str, path: &PathAndQuery) -> (built: Uri)
        requires
            scheme_text(scheme@),
            authority_text(authority@),
        ensures
            built@ == UriView::absolute(scheme@, authority@, path@),
            built@.well_formed(),
    {
        build_absolute_uri(scheme, authority, path.as_str())
    }
}

/// The URI that holds a path and query only, where there is one.
pub open spec fn relative_uri(path: Result<Seq<char>, Seq<char>>) -> Result<UriView, Seq<char>> {
    match path {
        Ok(p) => Ok(UriView::relative(p)),
        Err(m) => Err(m),
    }
}

/// Calls `http::uri::PathAndQuery::from_shared`, which looks at each byte of the path, then of
/// the query, up to a `#`, and keeps what comes before it. The text is read back with `as_str`,
/// which gives `/` for an empty one.
#[verifier::external_body]
fn http_path_and_query(path: String) -> (read: Result<String, String>)
    ensures
        match read {
            Ok(text) => path_and_query(path@) == Some(text@),
            Err(message) => path_and_query(path@) is None && message@
                == "invalid uri character"@,
        },
{
    match http::uri::PathAndQuery::from_shared(bytes::Bytes::from(path)) {
        Ok(read) => Ok(read.as_str().to_owned()),
        Err(e) => Err(e.to_string()),
    }
}

/// Calls `http::uri::PathAndQuery::from_static`, which reads a path and query as `from_shared`
/// does and panics where that fails.
#[verifier::external_body]
fn http_static_path_and_query(path: &'static str) -> (text: String)
    requires
        path_and_query(path@) is Some,
    ensures
        path_and_query(path@) == Some(text@),
{
    http::uri::PathAndQuery::from_static(path).as_str().to_owned()
}

/// Calls `str::parse` for `http::uri::Scheme`, which takes up to 64 bytes, each of which a scheme
/// may hold.
#[verifier::external_body]
fn parse_http_scheme(text: &str) -> (read: Result<String, InvalidUri>)
    ensures
        match read {
            Ok(scheme) => scheme_text(text@) && scheme@ == text@,
            Err(e) => !scheme_text(text@) && e@ == scheme_fault(text@),
        },
{
    match text.parse::<http::uri::Scheme>() {
        Ok(scheme) => Ok(scheme.as_str().to_owned()),
        Err(e) => Err(InvalidUri { message: e.to_string() }),
    }
}

/// Calls `str::parse` for `http::uri::Authority`. Its result is named; an authority keeps the text
/// that it was read from.
#[verifier::external_body]
fn parse_http_authority(text: &str) -> (read: Result<String, InvalidUri>)
    ensures
        read_text(read) == http_authority(text@),
        read matches Ok(authority) ==> authority@ == text@,
{
    match text.parse::<http::uri::Authority>() {
        Ok(authority) => Ok(authority.as_str().to_owned()),
        Err(e) => Err(InvalidUri { message: e.to_string() }),
    }
}

/// Calls `str::parse` for `http::Uri`. Its result is named; of a text that starts with `/` it is
/// stated: the whole text is read as a path and query, once its length is known to be in bounds.
/// A scheme or an authority that is found is one that the crate accepts on its own.
#[verifier::external_body]
fn parse_http_uri(text: &str) -> (read: Result<Uri, InvalidUri>)
    ensures
        read_uri(read) == http_uri(text@),
        text@.len() > 0 && text@[0] == '/' ==> read_uri(read) == relative_uri(origin_form(text@)),
        read matches Ok(uri) ==> uri@.well_formed(),
{
    match text.parse::<http::Uri>() {
        Ok(uri) => Ok(Uri {
            scheme: uri.scheme_part().map(|s| s.as_str().to_owned()),
            authority: uri.authority_part().map(|a| a.as_str().to_owned()),
            path_and_query: uri.path_and_query().map(|p| p.as_str().to_owned()),
        }),
        Err(e) => Err(InvalidUri { message: e.to_string() }),
    }
}

/// Calls `http::uri::Builder::build` with a path and query alone, which always fit together.
#[verifier::external_body]
fn build_relative_uri(path: &str) -> (built: Result<Uri, InvalidUri>)
    requires
        path_and_query(path@) == Some(path@),
    ensures
        read_uri(built) == relative_uri(Ok(path@)),
{
    match http::Uri::builder().path_and_query(path).build() {
        Ok(uri) => Ok(Uri {
            scheme: uri.scheme_part().map(|s| s.as_str().to_owned()),
            authority: uri.authority_part().map(|a| a.as_str().to_owned()),
            path_and_query: uri.path_and_query().map(|p| p.as_str().to_owned()),
        }),
        Err(e) => Err(InvalidUri { message: e.to_string() }),
    }
}

/// Calls `http::uri::Builder::build` with all three parts, which always fit together.
#[verifier::external_body]
fn build_absolute_uri(scheme: &str, authority: &str, path: &str) -> (built: Uri)
    requires
        scheme_text(scheme@),
        authority_text(authority@),
        path_and_query(path@) == Some(path@),
    ensures
        built@ == UriView::absolute(scheme@, authority@, path@),
{
    let mut parts = http::Uri::builder();
    let uri = parts.scheme(scheme).authority(authority).path_and_query(path).build().unwrap();
    Uri {
        scheme: uri.scheme_part().map(|s| s.as_str().to_owned()),
        authority: uri.authority_part().map(|a| a.as_str().to_owned()),
        path_and_query: uri.path_and_query().map(|p| p.as_str().to_owned()),
    }
}

} // verus!
