//! Clients that fetch what a document refers to: their requests, and clients that
//! stand in front of others.

use crate::text::{concat, lower};
use vstd::multiset::Multiset;
use vstd::prelude::*;

verus! {

/// Which redirections a client follows.
#[derive(Debug, Clone, Copy, PartialEq, Eq, Hash, Structural)]
pub enum RedirectPolicy {
    NoFollow,
    FollowLimit(u32),
    FollowAll,
}

impl Default for RedirectPolicy {
    fn default() -> (r: RedirectPolicy)
        ensures
            r == RedirectPolicy::NoFollow,
    {
        RedirectPolicy::NoFollow
    }
}

/// Whether redirections are followed.
pub struct FollowRedirects(pub bool);

/// How a request is made.
#[derive(Debug, Clone, Copy, PartialEq, Eq, Structural)]
pub enum Method {
    Get,
    Post,
}

/// A request.
pub struct HttpRequest {
    pub method: Method,
    pub uri: String,
    pub headers: Vec<(String, String)>,
    pub redirects: Option<RedirectPolicy>,
    pub body: Vec<u8>,
}

/// A request with its texts taken by view.
#[verifier::ext_equal]
pub struct RequestView {
    pub method: Method,
    pub uri: Seq<char>,
    pub headers: Seq<(Seq<char>, Seq<char>)>,
    pub redirects: Option<RedirectPolicy>,
    pub body: Seq<u8>,
}

/// Headers by view.
pub open spec fn header_views(headers: Seq<(String, String)>) -> Seq<(Seq<char>, Seq<char>)> {
    headers.map_values(|h: (String, String)| (h.0@, h.1@))
}

impl View for HttpRequest {
    type V = RequestView;

    open spec fn view(&self) -> RequestView {
        RequestView {
            method: self.method,
            uri: self.uri@,
            headers: header_views(self.headers@),
            redirects: self.redirects,
            body: self.body@,
        }
    }
}

/// A response.
pub struct HttpResponse {
    pub status: u16,
    pub body: Vec<u8>,
}

/// Why there is no response.
#[derive(Debug)]
pub enum HttpError {
    /// The address is none, and why.
    InvalidUri(String),
    /// A header is none, and why.
    InvalidHeader(String),
    /// The client sends nothing.
    Blocked,
    /// The client does not know this kind of request.
    NotImplemented,
    /// Nothing came back from an address.
    DownloadFailed(String),
}

/// An error with its texts taken by view.
#[verifier::ext_equal]
pub enum ErrorView {
    InvalidUri(Seq<char>),
    InvalidHeader(Seq<char>),
    Blocked,
    NotImplemented,
    DownloadFailed(Seq<char>),
}

impl View for HttpError {
    type V = ErrorView;

    open spec fn view(&self) -> ErrorView {
        match self {
            HttpError::InvalidUri(text) => ErrorView::InvalidUri(text@),
            HttpError::InvalidHeader(text) => ErrorView::InvalidHeader(text@),
            HttpError::Blocked => ErrorView::Blocked,
            HttpError::NotImplemented => ErrorView::NotImplemented,
            HttpError::DownloadFailed(url) => ErrorView::DownloadFailed(url@),
        }
    }
}

impl HttpError {
    /// The error in words.
    pub fn message(&self) -> (r: String)
        ensures
            r@ == (match self@ {
                ErrorView::InvalidUri(text) => text,
                ErrorView::InvalidHeader(text) => text,
                ErrorView::Blocked => "BlockedHttpClient disallowed request"@,
                ErrorView::NotImplemented => "not implemented in stub"@,
                ErrorView::DownloadFailed(url) => "libcurl failed to download image from: "@ + url,
            }),
    {
        match self {
            HttpError::InvalidUri(text) => text.clone(),
            HttpError::InvalidHeader(text) => text.clone(),
            HttpError::Blocked => "BlockedHttpClient disallowed request".to_owned(),
            HttpError::NotImplemented => "not implemented in stub".to_owned(),
            HttpError::DownloadFailed(url) => concat(
                "libcurl failed to download image from: ",
                url.as_str(),
            ),
        }
    }
}

/// The text of the address that a text stands for, or why it is none.
pub uninterp spec fn uri_of(text: Seq<char>) -> Result<Seq<char>, Seq<char>>;

/// The text of the absolute address that a text stands for; `None` where it is
/// none.
pub uninterp spec fn url_of(text: Seq<char>) -> Option<Seq<char>>;

/// A text that may be missing, by view.
pub open spec fn text_view(text: Option<String>) -> Option<Seq<char>> {
    match text {
        Some(t) => Some(t@),
        None => None,
    }
}

/// A text, or why there is none, by view.
pub open spec fn parsed_view(parsed: Result<String, String>) -> Result<Seq<char>, Seq<char>> {
    match parsed {
        Ok(text) => Ok(text@),
        Err(text) => Err(text@),
    }
}

/// `http::Uri` reads an address from a text, and writes it again, or tells why it is
/// none; all depend on the text alone. Which texts it takes, how it writes them and
/// what it tells is not said here.
#[verifier::external_body]
fn parse_uri(text: &str) -> (r: Result<String, String>)
    ensures
        parsed_view(r) == uri_of(text@),
{
    text.parse::<http::Uri>().map(|uri| uri.to_string()).map_err(|e| e.to_string())
}

/// `url::Url` reads an absolute address from a text, and writes it again; both
/// depend on the text alone. Which texts it takes, and how it writes them, is not
/// said here.
#[verifier::external_body]
fn parse_url(text: &str) -> (r: Option<String>)
    ensures
        text_view(r) == url_of(text@),
{
    text.parse::<url::Url>().ok().map(|url| url.as_str().to_owned())
}

/// Whether a character can stand in the name of a header.
pub open spec fn is_name_char(c: char) -> bool {
    ||| 'a' <= c && c <= 'z'
    ||| 'A' <= c && c <= 'Z'
    ||| '0' <= c && c <= '9'
    ||| c == '!' || c == '#' || c == '$' || c == '%' || c == '&' || c == '\'' || c == '*'
    ||| c == '+' || c == '-' || c == '.' || c == '^' || c == '_' || c == '`' || c == '|' || c == '~'
}

/// Whether a text is the name of a header.
pub open spec fn is_header_name(s: Seq<char>) -> bool {
    1 <= s.len() <= 65535 && forall|i: int| 0 <= i < s.len() ==> is_name_char(#[trigger] s[i])
}

/// Whether a character can stand in the value of a header.
pub open spec fn is_value_char(c: char) -> bool {
    c == '\t' || (c >= ' ' && c != '\x7f')
}

/// Whether a text is the value of a header.
pub open spec fn is_header_value(s: Seq<char>) -> bool {
    forall|i: int| 0 <= i < s.len() ==> is_value_char(#[trigger] s[i])
}

/// `http::HeaderName` reads the name of a header from a text, and writes it in lower
/// case. It takes the names that are not empty, not longer than 65535 bytes, and made
/// of letters, digits and some marks of ASCII; of any other it tells that it is none.
#[verifier::external_body]
fn parse_header_name(text: &str) -> (r: Result<String, String>)
    ensures
        parsed_view(r) == (if is_header_name(text@) {
            Ok::<Seq<char>, Seq<char>>(lower(text@))
        } else {
            Err("invalid HTTP header name"@)
        }),
{
    http::HeaderName::try_from(text).map(|name| name.as_str().to_owned()).map_err(
        |e| e.to_string(),
    )
}

/// `http::HeaderValue` reads the value of a header from a text. It takes every text
/// without control characters other than tabs; of any other it tells why not.
#[verifier::external_body]
fn header_value_error(text: &str) -> (r: Option<String>)
    ensures
        text_view(r) == (if is_header_value(text@) {
            None::<Seq<char>>
        } else {
            Some("failed to parse header value"@)
        }),
{
    http::HeaderValue::try_from(text).err().map(|e| e.to_string())
}

/// A table of headers, of the `http` crate.
#[verifier::external_type_specification]
#[verifier::external_body]
#[verifier::reject_recursive_types(T)]
pub struct ExHeaderMap<T>(http::HeaderMap<T>);

/// The value of a header, of the `http` crate.
#[verifier::external_type_specification]
#[verifier::external_body]
pub struct ExHeaderValue(http::HeaderValue);

/// The headers that a table holds, as names in lower case and values.
pub uninterp spec fn table_headers(table: http::HeaderMap<http::HeaderValue>) -> Multiset<
    (Seq<char>, Seq<char>),
>;

/// How many headers a table takes at least, whatever their names.
pub const HEADER_ROOM: usize = 6554;

/// `http::HeaderMap::new` makes a table without headers.
#[verifier::external_body]
fn new_table() -> (r: http::HeaderMap<http::HeaderValue>)
    ensures
        table_headers(r) == Multiset::<(Seq<char>, Seq<char>)>::empty(),
{
    http::HeaderMap::new()
}

/// `http::HeaderMap::try_append` puts a header into a table, beside those of the same
/// name, or refuses it and leaves the table as it is. It refuses none while the table
/// holds fewer than `HEADER_ROOM`. Whether it refuses one after that depends on how many
/// names there are and on how they hash, which is not said here.
#[verifier::external_body]
fn table_append(table: &mut http::HeaderMap<http::HeaderValue>, name: &str, value: &str) -> (r:
    Option<String>)
    requires
        is_header_name(name@),
        is_header_value(value@),
    ensures
        table_headers(*old(table)).len() < HEADER_ROOM ==> r is None,
        r is None ==> table_headers(*final(table)) == table_headers(*old(table)).insert(
            (lower(name@), value@),
        ),
        r is Some ==> table_headers(*final(table)) == table_headers(*old(table)),
        r matches Some(text) ==> text@ == "max size reached"@,
{
    let name = http::HeaderName::try_from(name).unwrap();
    let value = http::HeaderValue::try_from(value).unwrap();
    table.try_append(name, value).err().map(|e| e.to_string())
}

/// A request that is put together: what it is so far, or what was wrong first.
pub struct Builder {
    inner: Result<HttpRequest, HttpError>,
    /// The headers of the request so far.
    table: http::HeaderMap<http::HeaderValue>,
}

/// A request, or what is wrong with it, by view.
pub open spec fn request_view(inner: Result<HttpRequest, HttpError>) -> Result<
    RequestView,
    ErrorView,
> {
    match inner {
        Ok(request) => Ok(request@),
        Err(e) => Err(e@),
    }
}

impl View for Builder {
    type V = Result<RequestView, ErrorView>;

    closed spec fn view(&self) -> Result<RequestView, ErrorView> {
        request_view(self.inner)
    }
}

/// A request that is put together, with an address.
pub open spec fn with_uri(
    so_far: Result<RequestView, ErrorView>,
    parsed: Result<Seq<char>, Seq<char>>,
) -> Result<RequestView, ErrorView> {
    match so_far {
        Ok(request) => match parsed {
            Ok(uri) => Ok(RequestView { uri, ..request }),
            Err(text) => Err(ErrorView::InvalidUri(text)),
        },
        Err(e) => Err(e),
    }
}

/// A request that is put together, with one more header.
pub open spec fn with_header(
    so_far: Result<RequestView, ErrorView>,
    name: Seq<char>,
    value: Seq<char>,
) -> Result<RequestView, ErrorView> {
    match so_far {
        Ok(request) => if !is_header_name(name) {
            Err(ErrorView::InvalidHeader("invalid HTTP header name"@))
        } else if !is_header_value(value) {
            Err(ErrorView::InvalidHeader("failed to parse header value"@))
        } else {
            Ok(RequestView { headers: request.headers.push((lower(name), value)), ..request })
        },
        Err(e) => Err(e),
    }
}

/// Whether a request has so many headers that it may take no more.
pub open spec fn is_full(so_far: Result<RequestView, ErrorView>) -> bool {
    so_far is Ok && so_far->Ok_0.headers.len() >= HEADER_ROOM
}

impl Builder {
    /// The table holds as many headers as the request.
    #[verifier::type_invariant]
    closed spec fn wf(self) -> bool {
        self.inner is Ok ==> table_headers(self.table).len() == self.inner->Ok_0.headers@.len()
    }

    /// A request for the root, without anything else.
    pub fn new() -> (r: Builder)
        ensures
            r@ == Ok::<RequestView, ErrorView>(
                (RequestView {
                    method: Method::Get,
                    uri: "/"@,
                    headers: Seq::empty(),
                    redirects: None,
                    body: Seq::empty(),
                }),
            ),
    {
        let request = HttpRequest {
            method: Method::Get,
            uri: "/".to_owned(),
            headers: Vec::new(),
            redirects: None,
            body: Vec::new(),
        };
        assert(header_views(request.headers@) =~= Seq::empty());
        Builder { inner: Ok(request), table: new_table() }
    }

    /// The request for an address. A text that is none makes it invalid.
    pub fn uri(self, uri: &str) -> (r: Builder)
        ensures
            r@ == with_uri(self@, uri_of(uri@)),
    {
        self.with_parsed(parse_uri(uri))
    }

    /// The request for an address that was read from a text.
    pub fn with_parsed(self, parsed: Result<String, String>) -> (r: Builder)
        ensures
            r@ == with_uri(self@, parsed_view(parsed)),
    {
        proof {
            use_type_invariant(&self);
        }
        let Builder { inner, table } = self;
        match inner {
            Ok(request) => match parsed {
                Ok(text) => {
                    let mut request = request;
                    request.uri = text;
                    Builder { inner: Ok(request), table }
                },
                Err(text) => Builder { inner: Err(HttpError::InvalidUri(text)), table },
            },
            Err(e) => Builder { inner: Err(e), table },
        }
    }

    /// The request in another way.
    pub fn method(self, method: Method) -> (r: Builder)
        ensures
            r@ == (match self@ {
                Ok(request) => Ok(RequestView { method, ..request }),
                Err(e) => Err(e),
            }),
    {
        proof {
            use_type_invariant(&self);
        }
        let Builder { inner, table } = self;
        match inner {
            Ok(request) => {
                let mut request = request;
                request.method = method;
                Builder { inner: Ok(request), table }
            },
            Err(e) => Builder { inner: Err(e), table },
        }
    }

    /// The request with one more header, whose name is written in lower case. A text
    /// that is no name or no value makes it invalid, and so may a header after very many
    /// others.
    pub fn header(self, name: &str, value: &str) -> (r: Builder)
        ensures
            !is_full(self@) || with_header(self@, name@, value@) is Err ==> r@ == with_header(
                self@,
                name@,
                value@,
            ),
            r@ == with_header(self@, name@, value@) || r@ == Err::<RequestView, ErrorView>(
                ErrorView::InvalidHeader("max size reached"@),
            ),
    {
        proof {
            use_type_invariant(&self);
        }
        let Builder { inner, table } = self;
        let mut table = table;
        let mut request = match inner {
            Ok(request) => request,
            Err(e) => return Builder { inner: Err(e), table },
        };
        let lowered: String = match parse_header_name(name) {
            Ok(lowered) => lowered,
            Err(text) => return Builder { inner: Err(HttpError::InvalidHeader(text)), table },
        };
        if let Some(text) = header_value_error(value) {
            return Builder { inner: Err(HttpError::InvalidHeader(text)), table };
        }
        if let Some(text) = table_append(&mut table, name, value) {
            return Builder { inner: Err(HttpError::InvalidHeader(text)), table };
        }
        let ghost before = request.headers@;
        let ghost written = lowered@;
        request.headers.push((lowered, value.to_owned()));
        assert(header_views(request.headers@) =~= header_views(before).push((written, value@)));
        Builder { inner: Ok(request), table }
    }

    /// The request with its body, or what was wrong first.
    pub fn body(self, body: Vec<u8>) -> (r: Result<HttpRequest, HttpError>)
        ensures
            request_view(r) == (match self@ {
                Ok(request) => Ok(RequestView { body: body@, ..request }),
                Err(e) => Err(e),
            }),
    {
        match self.inner {
            Ok(request) => {
                let mut request = request;
                request.body = body;
                Ok(request)
            },
            Err(e) => Err(e),
        }
    }
}

/// What can be told of a request besides what the protocol knows.
pub trait HttpRequestExt: Sized {
    /// Whether `after` is the request with a policy for redirections.
    spec fn following(self, follow: RedirectPolicy, after: Self) -> bool;

    /// Tells which redirections are followed.
    fn follow_redirects(self, follow: RedirectPolicy) -> (r: Self)
        ensures
            self.following(follow, r),
    ;
}

impl HttpRequestExt for Builder {
    open spec fn following(self, follow: RedirectPolicy, after: Builder) -> bool {
        after@ == match self@ {
            Ok(request) => Ok(RequestView { redirects: Some(follow), ..request }),
            Err(e) => Err(e),
        }
    }

    fn follow_redirects(self, follow: RedirectPolicy) -> (r: Builder) {
        proof {
            use_type_invariant(&self);
        }
        let Builder { inner, table } = self;
        match inner {
            Ok(request) => {
                let mut request = request;
                request.redirects = Some(follow);
                let r = Builder { inner: Ok(request), table };
                assert(self.following(follow, r));
                r
            },
            Err(e) => Builder { inner: Err(e), table },
        }
    }
}

/// The request that fetches what an address refers to.
pub open spec fn get_request(uri: Seq<char>, body: Seq<u8>, follow: bool) -> RequestView {
    RequestView {
        method: Method::Get,
        uri,
        headers: Seq::empty(),
        redirects: Some(
            if follow {
                RedirectPolicy::FollowAll
            } else {
                RedirectPolicy::NoFollow
            },
        ),
        body,
    }
}

/// The request that sends a text in JSON to an address.
pub open spec fn json_request(uri: Seq<char>, body: Seq<u8>) -> RequestView {
    RequestView {
        method: Method::Post,
        uri,
        headers: seq![("content-type"@, "application/json"@)],
        redirects: None,
        body,
    }
}

/// Makes the request that fetches what an address refers to.
pub fn build_get(uri: &str, body: Vec<u8>, follow_redirects: bool) -> (r: Result<HttpRequest, HttpError>)
    ensures
        request_view(r) == (match uri_of(uri@) {
            Ok(text) => Ok(get_request(text, body@, follow_redirects)),
            Err(text) => Err(ErrorView::InvalidUri(text)),
        }),
{
    let policy: RedirectPolicy = if follow_redirects {
        RedirectPolicy::FollowAll
    } else {
        RedirectPolicy::NoFollow
    };
    Builder::new().uri(uri).follow_redirects(policy).body(body)
}

/// Makes the request that sends a text in JSON to an address.
pub fn build_post_json(uri: &str, body: Vec<u8>) -> (r: Result<HttpRequest, HttpError>)
    ensures
        request_view(r) == (match uri_of(uri@) {
            Ok(text) => Ok(json_request(text, body@)),
            Err(text) => Err(ErrorView::InvalidUri(text)),
        }),
{
    proof {
        reveal_strlit("Content-Type");
        reveal_strlit("content-type");
        reveal_strlit("application/json");
        assert(lower("Content-Type"@) =~= "content-type"@);
        assert(is_header_name("Content-Type"@));
        assert(is_header_value("application/json"@));
        assert(Seq::<(Seq<char>, Seq<char>)>::empty().push(
            ("content-type"@, "application/json"@),
        ) =~= seq![("content-type"@, "application/json"@)]);
    }
    Builder::new().uri(uri).method(Method::Post).header("Content-Type", "application/json").body(
        body,
    )
}

/// A client.
pub trait HttpClient: Sized {
    /// Whether the client may answer a request in this way.
    spec fn answers(&self, request: RequestView, reply: Result<HttpResponse, HttpError>) -> bool;

    /// The way in which the client answers forms.
    spec fn answers_form(
        &self,
        url: Seq<char>,
        form: Seq<u8>,
        reply: Result<HttpResponse, HttpError>,
    ) -> bool;

    /// What the client calls itself to servers.
    spec fn agent(&self) -> Option<Seq<char>>;

    /// The address of the proxy that the client goes through.
    spec fn proxy_address(&self) -> Option<Seq<char>>;

    /// A name for the kind of the client.
    spec fn kind(&self) -> Seq<char>;

    /// A name for the kind of the client.
    fn kind_name(&self) -> (r: &'static str)
        ensures
            r@ == self.kind(),
    ;

    /// What the client calls itself to servers.
    fn user_agent(&self) -> (r: Option<String>)
        ensures
            text_view(r) == self.agent(),
    ;

    /// The address of the proxy that the client goes through.
    fn proxy(&self) -> (r: Option<String>)
        ensures
            text_view(r) == self.proxy_address(),
    ;

    /// Sends a request.
    fn send(&self, request: HttpRequest) -> (r: Result<HttpResponse, HttpError>)
        ensures
            self.answers(request@, r),
    ;

    /// Sends a form.
    fn send_multipart_form(&self, url: &str, form: Vec<u8>) -> (r: Result<HttpResponse, HttpError>)
        ensures
            self.answers_form(url@, form@, r),
    ;

    /// Fetches what an address refers to.
    fn get(&self, uri: &str, body: Vec<u8>, follow_redirects: bool) -> (r: Result<
        HttpResponse,
        HttpError,
    >)
        ensures
            match uri_of(uri@) {
                Ok(text) => self.answers(get_request(text, body@, follow_redirects), r),
                Err(text) => is_error(r, ErrorView::InvalidUri(text)),
            },
    {
        match build_get(uri, body, follow_redirects) {
            Ok(request) => self.send(request),
            Err(e) => Err(e),
        }
    }

    /// Sends a text in JSON to an address.
    fn post_json(&self, uri: &str, body: Vec<u8>) -> (r: Result<HttpResponse, HttpError>)
        ensures
            match uri_of(uri@) {
                Ok(text) => self.answers(json_request(text, body@), r),
                Err(text) => is_error(r, ErrorView::InvalidUri(text)),
            },
    {
        match build_post_json(uri, body) {
            Ok(request) => self.send(request),
            Err(e) => Err(e),
        }
    }
}

/// A reply that says that there is none.
pub open spec fn is_error(reply: Result<HttpResponse, HttpError>, error: ErrorView) -> bool {
    reply is Err && reply->Err_0@ == error
}

/// A client that sends nothing.
pub struct BlockedHttpClient;

impl BlockedHttpClient {
    /// A client that sends nothing.
    pub fn new() -> (r: BlockedHttpClient)
        ensures
            r == BlockedHttpClient,
    {
        BlockedHttpClient
    }
}

impl HttpClient for BlockedHttpClient {
    open spec fn answers(&self, request: RequestView, reply: Result<HttpResponse, HttpError>) -> bool {
        is_error(reply, ErrorView::Blocked)
    }

    open spec fn answers_form(
        &self,
        url: Seq<char>,
        form: Seq<u8>,
        reply: Result<HttpResponse, HttpError>,
    ) -> bool {
        is_error(reply, ErrorView::NotImplemented)
    }

    open spec fn agent(&self) -> Option<Seq<char>> {
        None
    }

    open spec fn proxy_address(&self) -> Option<Seq<char>> {
        None
    }

    open spec fn kind(&self) -> Seq<char> {
        "BlockedHttpClient"@
    }

    fn kind_name(&self) -> (r: &'static str) {
        "BlockedHttpClient"
    }

    fn user_agent(&self) -> (r: Option<String>) {
        None
    }

    fn proxy(&self) -> (r: Option<String>) {
        None
    }

    fn send(&self, request: HttpRequest) -> (r: Result<HttpResponse, HttpError>) {
        Err(HttpError::Blocked)
    }

    fn send_multipart_form(&self, url: &str, form: Vec<u8>) -> (r: Result<HttpResponse, HttpError>) {
        Err(HttpError::NotImplemented)
    }
}

/// A client behind a proxy.
pub struct HttpClientWithProxy<C> {
    pub client: C,
    pub proxy: Option<String>,
}

impl<C: HttpClient> HttpClientWithProxy<C> {
    /// A client behind the proxy at an address; a text that is none is no proxy.
    pub fn new(client: C, proxy_url: Option<String>) -> (r: HttpClientWithProxy<C>)
        ensures
            r.client == client,
            text_view(r.proxy) == (match proxy_url {
                Some(text) => url_of(text@),
                None => None,
            }),
    {
        let proxy: Option<String> = match proxy_url {
            Some(text) => parse_url(text.as_str()),
            None => None,
        };
        HttpClientWithProxy::new_url(client, proxy)
    }

    /// A client behind the proxy at an address that was read already.
    pub fn new_url(client: C, proxy_url: Option<String>) -> (r: HttpClientWithProxy<C>)
        ensures
            r.client == client,
            r.proxy == proxy_url,
    {
        HttpClientWithProxy { client, proxy: proxy_url }
    }
}

fn copy_text(text: &Option<String>) -> (r: Option<String>)
    ensures
        text_view(r) == text_view(*text),
{
    match text {
        Some(t) => Some(t.clone()),
        None => None,
    }
}

impl<C: HttpClient> HttpClient for HttpClientWithProxy<C> {
    open spec fn answers(&self, request: RequestView, reply: Result<HttpResponse, HttpError>) -> bool {
        self.client.answers(request, reply)
    }

    open spec fn answers_form(
        &self,
        url: Seq<char>,
        form: Seq<u8>,
        reply: Result<HttpResponse, HttpError>,
    ) -> bool {
        self.client.answers_form(url, form, reply)
    }

    open spec fn agent(&self) -> Option<Seq<char>> {
        self.client.agent()
    }

    open spec fn proxy_address(&self) -> Option<Seq<char>> {
        text_view(self.proxy)
    }

    open spec fn kind(&self) -> Seq<char> {
        self.client.kind()
    }

    fn kind_name(&self) -> (r: &'static str) {
        self.client.kind_name()
    }

    fn user_agent(&self) -> (r: Option<String>) {
        self.client.user_agent()
    }

    fn proxy(&self) -> (r: Option<String>) {
        copy_text(&self.proxy)
    }

    fn send(&self, request: HttpRequest) -> (r: Result<HttpResponse, HttpError>) {
        self.client.send(request)
    }

    fn send_multipart_form(&self, url: &str, form: Vec<u8>) -> (r: Result<HttpResponse, HttpError>) {
        self.client.send_multipart_form(url, form)
    }
}

/// A client for the addresses below another one.
pub struct HttpClientWithUrl<C> {
    pub base_url: String,
    pub client: HttpClientWithProxy<C>,
}

impl<C: HttpClient> HttpClientWithUrl<C> {
    /// A client for the addresses below `base_url`, behind a proxy.
    pub fn new(client: C, base_url: String, proxy_url: Option<String>) -> (r: HttpClientWithUrl<C>)
        ensures
            r.base_url@ == base_url@,
            r.client.client == client,
            text_view(r.client.proxy) == (match proxy_url {
                Some(text) => url_of(text@),
                None => None,
            }),
    {
        HttpClientWithUrl { base_url, client: HttpClientWithProxy::new(client, proxy_url) }
    }

    /// A client for the addresses below `base_url`, behind a proxy whose address
    /// was read already.
    pub fn new_url(client: C, base_url: String, proxy_url: Option<String>) -> (r: HttpClientWithUrl<
        C,
    >)
        ensures
            r.base_url@ == base_url@,
            r.client.client == client,
            r.client.proxy == proxy_url,
    {
        HttpClientWithUrl { base_url, client: HttpClientWithProxy::new_url(client, proxy_url) }
    }

    /// The address that others stand below.
    pub fn base_url(&self) -> (r: String)
        ensures
            r@ == self.base_url@,
    {
        self.base_url.clone()
    }

    /// Sets the address that others stand below.
    pub fn set_base_url(&mut self, base_url: String)
        ensures
            final(self).base_url@ == base_url@,
            final(self).client == old(self).client,
    {
        self.base_url = base_url;
    }

    /// The address below the base for a path.
    pub fn build_url(&self, path: &str) -> (r: String)
        ensures
            r@ == self.base_url@ + path@,
    {
        concat(self.base_url.as_str(), path)
    }
}

impl<C: HttpClient> HttpClient for HttpClientWithUrl<C> {
    open spec fn answers(&self, request: RequestView, reply: Result<HttpResponse, HttpError>) -> bool {
        self.client.answers(request, reply)
    }

    open spec fn answers_form(
        &self,
        url: Seq<char>,
        form: Seq<u8>,
        reply: Result<HttpResponse, HttpError>,
    ) -> bool {
        self.client.answers_form(url, form, reply)
    }

    open spec fn agent(&self) -> Option<Seq<char>> {
        self.client.agent()
    }

    open spec fn proxy_address(&self) -> Option<Seq<char>> {
        self.client.proxy_address()
    }

    open spec fn kind(&self) -> Seq<char> {
        self.client.kind()
    }

    fn kind_name(&self) -> (r: &'static str) {
        self.client.kind_name()
    }

    fn user_agent(&self) -> (r: Option<String>) {
        self.client.user_agent()
    }

    fn proxy(&self) -> (r: Option<String>) {
        self.client.proxy()
    }

    fn send(&self, request: HttpRequest) -> (r: Result<HttpResponse, HttpError>) {
        self.client.send(request)
    }

    fn send_multipart_form(&self, url: &str, form: Vec<u8>) -> (r: Result<HttpResponse, HttpError>) {
        self.client.send_multipart_form(url, form)
    }
}

/// A client that tests stand in for.
pub struct FakeHttpClient;

/// A client in front of another one answers every request as that one does: it
/// adds where requests go through, and nothing to what comes back.
pub proof fn law_clients_in_front_pass_requests_on<C: HttpClient>(
    client: HttpClientWithUrl<C>,
    request: RequestView,
    reply: Result<HttpResponse, HttpError>,
)
    ensures
        client.answers(request, reply) <==> client.client.client.answers(request, reply),
        client.agent() == client.client.client.agent(),
        client.proxy_address() == text_view(client.client.proxy),
{
}

/// However a client that sends nothing is wrapped, no request gets through it.
pub proof fn law_blocked_client_stays_blocked(
    client: HttpClientWithUrl<BlockedHttpClient>,
    request: RequestView,
    reply: Result<HttpResponse, HttpError>,
)
    requires
        client.answers(request, reply),
    ensures
        is_error(reply, ErrorView::Blocked),
{
}

/// A request that is put together keeps each of its parts until that part is given anew; a
/// part that is wrong is told, and what is given after it does not count.
pub proof fn law_first_fault_of_a_request_stays(
    e: ErrorView,
    parsed: Result<Seq<char>, Seq<char>>,
    name: Seq<char>,
    value: Seq<char>,
)
    ensures
        with_uri(Err(e), parsed) == Err::<RequestView, ErrorView>(e),
        with_header(Err(e), name, value) == Err::<RequestView, ErrorView>(e),
{
}

/// An address takes the place of the one before it, and nothing else of the request; a text
/// that is none is told with what the parser says.
pub proof fn law_address_of_a_request(request: RequestView, uri: Seq<char>, fault: Seq<char>)
    ensures
        with_uri(Ok(request), Ok(uri)) == Ok::<RequestView, ErrorView>(
            (RequestView { uri, ..request }),
        ),
        with_uri(Ok(request), Err(fault)) == Err::<RequestView, ErrorView>(
            ErrorView::InvalidUri(fault),
        ),
{
}

/// A header stands behind those before it, its name in lower case and its value as it is; a
/// name with a space or without a character is none, nor is a value with a line break.
pub proof fn law_header_of_a_request(request: RequestView, name: Seq<char>, value: Seq<char>, i: int)
    requires
        0 <= i,
    ensures
        is_header_name(name) && is_header_value(value) ==> with_header(Ok(request), name, value)
            == Ok::<RequestView, ErrorView>(
            (RequestView { headers: request.headers.push((lower(name), value)), ..request }),
        ),
        name.len() == 0 ==> with_header(Ok(request), name, value) is Err,
        i < name.len() && (name[i] == ' ' || name[i] == ':' || name[i] == '\n' || name[i] as u32
            >= 0x80) ==> with_header(Ok(request), name, value) is Err,
        i < value.len() && (value[i] == '\n' || value[i] == '\r' || value[i] == '\0')
            ==> with_header(Ok(request), name, value) is Err,
        !is_header_name(name) ==> with_header(Ok(request), name, value) == Err::<
            RequestView,
            ErrorView,
        >(ErrorView::InvalidHeader("invalid HTTP header name"@)),
{
    if i < name.len() && (name[i] == ' ' || name[i] == ':' || name[i] == '\n' || name[i] as u32
        >= 0x80) {
        lemma_no_name_char(name[i]);
        assert(!is_header_name(name));
    }
    if i < value.len() && (value[i] == '\n' || value[i] == '\r' || value[i] == '\0') {
        assert(!is_value_char(value[i]));
    }
}

proof fn lemma_no_name_char(c: char)
    requires
        c == ' ' || c == ':' || c == '\n' || c as u32 >= 0x80,
    ensures
        !is_name_char(c),
{
}

/// A plain name and a plain value make a header.
pub proof fn law_plain_headers_are_taken(name: Seq<char>, value: Seq<char>)
    requires
        1 <= name.len() <= 65535,
        forall|i: int|
            0 <= i < name.len() ==> ('a' <= #[trigger] name[i] && name[i] <= 'z') || ('A' <= name[i]
                && name[i] <= 'Z') || ('0' <= name[i] && name[i] <= '9') || name[i] == '-',
        forall|i: int|
            0 <= i < value.len() ==> ' ' <= #[trigger] value[i] && value[i] <= '~',
    ensures
        is_header_name(name),
        is_header_value(value),
{
}

/// What is fetched is asked for without headers, with the address and the body that are given;
/// redirections are followed where that is asked for. What is sent is sent as JSON.
pub proof fn law_requests_ask_for_what_is_given(uri: Seq<char>, body: Seq<u8>, follow: bool)
    ensures
        ({
            let get = get_request(uri, body, follow);
            &&& get.method == Method::Get && get.uri == uri && get.body == body
            &&& get.headers.len() == 0
            &&& follow ==> get.redirects == Some(RedirectPolicy::FollowAll)
            &&& !follow ==> get.redirects == Some(RedirectPolicy::NoFollow)
        }),
        ({
            let post = json_request(uri, body);
            &&& post.method == Method::Post && post.uri == uri && post.body == body
            &&& post.headers.len() == 1 && post.headers[0].0 == "content-type"@
                && post.headers[0].1 == "application/json"@
            &&& post.redirects is None
        }),
{
}

} // verus!
