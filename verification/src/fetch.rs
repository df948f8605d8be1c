//! Describing a request to the backend: method, headers, mode and URL, put
//! together with a builder. The request itself is sent by the browser.
use vstd::prelude::*;

use crate::text::chars_of;

verus! {

/// The CORS mode of a request.
#[derive(Debug, Clone, Copy, PartialEq, Eq)]
pub enum RequestMode {
    SameOrigin,
    NoCors,
    Cors,
    Navigate,
}

/// A request as a value: method, headers (name and value, in order), mode, URL.
pub struct RequestView {
    pub method: Seq<char>,
    pub headers: Seq<(Seq<char>, Seq<char>)>,
    pub mode: RequestMode,
    pub url: Seq<char>,
}

/// The headers as values.
pub open spec fn headers_view(h: Seq<(String, String)>) -> Seq<(Seq<char>, Seq<char>)> {
    h.map_values(|p: (String, String)| (p.0@, p.1@))
}

/// The header every JSON request carries.
pub open spec fn json_headers_view() -> Seq<(Seq<char>, Seq<char>)> {
    seq![("Content-Type"@, "application/json;charset=UTF-8"@)]
}

/// The headers of a JSON request: `Content-Type: application/json;charset=UTF-8`.
pub fn json_headers() -> (h: Vec<(String, String)>)
    ensures
        headers_view(h@) == json_headers_view(),
{
    proof {
        reveal_strlit("Content-Type");
        reveal_strlit("application/json;charset=UTF-8");
    }
    let mut h: Vec<(String, String)> = Vec::new();
    h.push((String::from_str("Content-Type"), String::from_str("application/json;charset=UTF-8")));
    assert(headers_view(h@) =~= json_headers_view());
    h
}

/// The request a builder starts from.
pub open spec fn default_request() -> RequestView {
    RequestView {
        method: "POST"@,
        headers: json_headers_view(),
        mode: RequestMode::Cors,
        url: "http://127.0.0.1:8000/"@,
    }
}

/// `url` with one more query parameter: after `?` when it has no query yet,
/// after `&` when it has one.
pub open spec fn with_query_param(url: Seq<char>, key: Seq<char>, value: Seq<char>) -> Seq<char> {
    url + seq![if url.contains('?') { '&' } else { '?' }] + key + seq!['='] + value
}

/// One call of a builder's setter, with its argument as a value.
pub enum SetterCall {
    Method(Seq<char>),
    Headers(Seq<(Seq<char>, Seq<char>)>),
    Mode(RequestMode),
    Url(Seq<char>),
}

/// The request after one setter call: the call's own field takes its
/// argument, the others stay.
pub open spec fn apply_setter(r: RequestView, c: SetterCall) -> RequestView {
    match c {
        SetterCall::Method(m) => RequestView { method: m, ..r },
        SetterCall::Headers(h) => RequestView { headers: h, ..r },
        SetterCall::Mode(m) => RequestView { mode: m, ..r },
        SetterCall::Url(u) => RequestView { url: u, ..r },
    }
}

/// The request after a chain of setter calls, made in order.
pub open spec fn apply_setters(r: RequestView, calls: Seq<SetterCall>) -> RequestView
    decreases calls.len(),
{
    if calls.len() == 0 {
        r
    } else {
        apply_setter(apply_setters(r, calls.drop_last()), calls.last())
    }
}

/// The argument of the last `set_method` call of the chain, or `d`.
pub open spec fn last_method(calls: Seq<SetterCall>, d: Seq<char>) -> Seq<char>
    decreases calls.len(),
{
    if calls.len() == 0 {
        d
    } else {
        match calls.last() {
            SetterCall::Method(m) => m,
            _ => last_method(calls.drop_last(), d),
        }
    }
}

/// The argument of the last `set_headers` call of the chain, or `d`.
pub open spec fn last_headers(calls: Seq<SetterCall>, d: Seq<(Seq<char>, Seq<char>)>) -> Seq<
    (Seq<char>, Seq<char>),
>
    decreases calls.len(),
{
    if calls.len() == 0 {
        d
    } else {
        match calls.last() {
            SetterCall::Headers(h) => h,
            _ => last_headers(calls.drop_last(), d),
        }
    }
}

/// The argument of the last `set_mode` call of the chain, or `d`.
pub open spec fn last_mode(calls: Seq<SetterCall>, d: RequestMode) -> RequestMode
    decreases calls.len(),
{
    if calls.len() == 0 {
        d
    } else {
        match calls.last() {
            SetterCall::Mode(m) => m,
            _ => last_mode(calls.drop_last(), d),
        }
    }
}

/// The argument of the last `set_url` call of the chain, or `d`.
pub open spec fn last_url(calls: Seq<SetterCall>, d: Seq<char>) -> Seq<char>
    decreases calls.len(),
{
    if calls.len() == 0 {
        d
    } else {
        match calls.last() {
            SetterCall::Url(u) => u,
            _ => last_url(calls.drop_last(), d),
        }
    }
}

proof fn lemma_setters_from(start: RequestView, calls: Seq<SetterCall>)
    ensures
        apply_setters(start, calls) == (RequestView {
            method: last_method(calls, start.method),
            headers: last_headers(calls, start.headers),
            mode: last_mode(calls, start.mode),
            url: last_url(calls, start.url),
        }),
    decreases calls.len(),
{
    if calls.len() > 0 {
        lemma_setters_from(start, calls.drop_last());
    }
}

/// A request built by `Fetcher::init()` and any chain of `set_method`,
/// `set_headers`, `set_mode` and `set_url` calls has, for each of its four
/// fields, the argument of the last call of that field's setter, and the
/// builder's default where that setter was never called.
pub proof fn lemma_built_request(calls: Seq<SetterCall>)
    ensures
        apply_setters(default_request(), calls) == (RequestView {
            method: last_method(calls, default_request().method),
            headers: last_headers(calls, default_request().headers),
            mode: last_mode(calls, default_request().mode),
            url: last_url(calls, default_request().url),
        }),
{
    lemma_setters_from(default_request(), calls);
}

/// A request being put together.
pub struct FetchBuilder {
    method: String,
    headers: Vec<(String, String)>,
    mode: RequestMode,
    url: String,
}

impl View for FetchBuilder {
    type V = RequestView;

    closed spec fn view(&self) -> RequestView {
        RequestView {
            method: self.method@,
            headers: headers_view(self.headers@),
            mode: self.mode,
            url: self.url@,
        }
    }
}

impl Default for FetchBuilder {
    /// A JSON `POST` in CORS mode to the local backend.
    fn default() -> (b: Self)
        ensures
            b@ == default_request(),
    {
        proof {
            reveal_strlit("POST");
            reveal_strlit("http://127.0.0.1:8000/");
        }
        FetchBuilder {
            method: String::from_str("POST"),
            headers: json_headers(),
            mode: RequestMode::Cors,
            url: String::from_str("http://127.0.0.1:8000/"),
        }
    }
}

impl FetchBuilder {
    /// Sets the method.
    pub fn set_method(self, method: &str) -> (b: Self)
        ensures
            b@ == (RequestView { method: method@, ..self@ }),
            b@ == apply_setter(self@, SetterCall::Method(method@)),
    {
        FetchBuilder { method: method.to_owned(), ..self }
    }

    /// Sets the headers.
    pub fn set_headers(self, headers: Vec<(String, String)>) -> (b: Self)
        ensures
            b@ == (RequestView { headers: headers_view(headers@), ..self@ }),
            b@ == apply_setter(self@, SetterCall::Headers(headers_view(headers@))),
    {
        FetchBuilder { headers, ..self }
    }

    /// Sets the mode.
    pub fn set_mode(self, mode: RequestMode) -> (b: Self)
        ensures
            b@ == (RequestView { mode, ..self@ }),
            b@ == apply_setter(self@, SetterCall::Mode(mode)),
    {
        FetchBuilder { mode, ..self }
    }

    /// Sets the URL.
    pub fn set_url(self, url: String) -> (b: Self)
        ensures
            b@ == (RequestView { url: url@, ..self@ }),
            b@ == apply_setter(self@, SetterCall::Url(url@)),
    {
        FetchBuilder { url, ..self }
    }

    /// Adds a query parameter `key=value` to the URL.
    pub fn add_query_param(self, key: &str, value: &str) -> (b: Self)
        ensures
            b@ == (RequestView { url: with_query_param(self@.url, key@, value@), ..self@ }),
    {
        let chars = chars_of(self.url.as_str());
        let mut has_query = false;
        let mut i: usize = 0;
        while i < chars.len()
            invariant
                i <= chars.len(),
                has_query <==> (exists|k: int| 0 <= k < i && #[trigger] chars@[k] == '?'),
            decreases chars.len() - i,
        {
            if chars[i] == '?' {
                has_query = true;
            }
            i = i + 1;
        }
        assert(has_query <==> chars@.contains('?'));
        proof {
            reveal_strlit("&");
            reveal_strlit("?");
            reveal_strlit("=");
        }
        let mut url = self.url;
        if has_query {
            url.append("&");
        } else {
            url.append("?");
        }
        url.append(key);
        url.append("=");
        url.append(value);
        let b = FetchBuilder { url, ..self };
        assert(b@.url =~= with_query_param(self@.url, key@, value@));
        b
    }

    /// The request as described.
    pub fn build(self) -> (f: Fetcher)
        ensures
            f@ == self@,
    {
        Fetcher { method: self.method, headers: self.headers, mode: self.mode, url: self.url }
    }
}

/// A request ready to be sent.
pub struct Fetcher {
    method: String,
    headers: Vec<(String, String)>,
    mode: RequestMode,
    url: String,
}

impl View for Fetcher {
    type V = RequestView;

    closed spec fn view(&self) -> RequestView {
        RequestView {
            method: self.method@,
            headers: headers_view(self.headers@),
            mode: self.mode,
            url: self.url@,
        }
    }
}

impl Fetcher {
    /// A builder for a new request, starting from the defaults.
    pub fn init() -> (b: FetchBuilder)
        ensures
            b@ == default_request(),
    {
        FetchBuilder::default()
    }

    /// The method.
    pub fn method(&self) -> (m: &String)
        ensures
            m@ == self@.method,
    {
        &self.method
    }

    /// The headers, in order.
    pub fn headers(&self) -> (h: &Vec<(String, String)>)
        ensures
            headers_view(h@) == self@.headers,
    {
        &self.headers
    }

    /// The mode.
    pub fn mode(&self) -> (m: RequestMode)
        ensures
            m == self@.mode,
    {
        self.mode
    }

    /// The URL.
    pub fn url(&self) -> (u: &String)
        ensures
            u@ == self@.url,
    {
        &self.url
    }
}

} // verus!
