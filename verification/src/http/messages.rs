//! HTTP requests and responses of the monitoring page (GET only).
use crate::text::{
    chars_eq, chars_of, contains_char, decimal, digits_value, is_digits, lemma_decimal_reads_back, lines, lines_of, push_bytes, push_decimal,
    push_str_bytes, remove_cr, seqs_of, split_whitespace, string_from_chars,
    string_from_utf8_lossy, strip_prefix, strip_prefix_chars, tokens, utf8_lossy, without_cr,
};
use crate::traits::WriteBytes;
use vstd::prelude::*;
use vstd::slice::slice_subrange;
use vstd::utf8::{decode_utf8, encode_utf8, valid_utf8};

verus! {

/// The only method served.
pub const GET_METHOD: &'static str = "GET";
/// Largest number of bytes of a request that are read.
pub const REQUEST_BUFFER_SIZE: usize = 1024;

/// Message of the error for a request without a request line.
pub const MSG_BAD_FORMAT: &'static str = "Request tiene formato incorrecto";
/// Message of the error for a request line without a method.
pub const MSG_NO_METHOD: &'static str = "No se pudo obtener método";
/// Message of the error for a method other than GET.
pub const MSG_ONLY_GET: &'static str = "Solo se soporta el método GET";
/// Message of the error for a request line without a URI.
pub const MSG_NO_URI: &'static str = "No se pudo obtener URI";
/// Start of the message of the error for an unknown URI.
pub const MSG_INVALID_URI: &'static str = "URI invalida: ";
/// Message of the error for a request line without a version.
pub const MSG_NO_VERSION: &'static str = "No se pudo obtener versión HTTP";
/// Start of the message of the error for a version other than HTTP/1.1.
pub const MSG_VERSION_NOT_SUPPORTED: &'static str = "Http version not supported: ";

/// Error of a request that cannot be served.
#[derive(Debug)]
pub struct HttpError {
    msg: String,
}

impl HttpError {
    /// The message of the error.
    pub closed spec fn message(&self) -> Seq<char> {
        self.msg@
    }

    /// The message of the error.
    pub fn msg(&self) -> (m: &str)
        ensures
            m@ == self.message(),
    {
        self.msg.as_str()
    }
}

/// Result of the HTTP operations.
pub type HttpResult<T> = Result<T, HttpError>;

/// HTTP version.
#[derive(Debug, Clone, Copy, PartialEq, Eq, Structural)]
pub enum HttpVersion {
    V1_0,
    V1_1,
    V2,
}

/// Status code of a response.
pub enum HttpStatusCode {
    /// 200
    OK,
    /// 404
    NotFound,
    /// 500
    InternalServerError,
    /// Any code, with its reason phrase.
    Other(u16, String),
}

/// Resource asked for by a request.
pub enum Request {
    Index,
    Data,
    Favicon,
    Css(String),
    Image(String),
}

/// Resource asked for by a request, as text.
pub enum RequestTarget {
    Index,
    Data,
    Favicon,
    Css(Seq<char>),
    Image(Seq<char>),
}

impl View for Request {
    type V = RequestTarget;

    open spec fn view(&self) -> RequestTarget {
        match self {
            Request::Index => RequestTarget::Index,
            Request::Data => RequestTarget::Data,
            Request::Favicon => RequestTarget::Favicon,
            Request::Css(f) => RequestTarget::Css(f@),
            Request::Image(f) => RequestTarget::Image(f@),
        }
    }
}

/// Resource named by a request URI: `/`, `/data`, `/favicon.ico`,
/// `/resources/css/<file>` and `/resources/image/<file>` are known.
pub open spec fn parse_uri(uri: Seq<char>) -> Option<RequestTarget> {
    if !uri.contains('/') {
        None
    } else if uri == "/"@ {
        Some(RequestTarget::Index)
    } else if uri == "/data"@ {
        Some(RequestTarget::Data)
    } else if uri == "/favicon.ico"@ {
        Some(RequestTarget::Favicon)
    } else if strip_prefix(uri, "/resources/css/"@) is Some {
        Some(RequestTarget::Css(strip_prefix(uri, "/resources/css/"@)->0))
    } else if strip_prefix(uri, "/resources/image/"@) is Some {
        Some(RequestTarget::Image(strip_prefix(uri, "/resources/image/"@)->0))
    } else {
        None
    }
}

/// The URIs of the page name what they serve: `/` the index, `/data` the
/// data, `/favicon.ico` the icon, `/resources/css/f` the stylesheet `f`,
/// and `/resources/image/f` the image `f`, for every file name `f`.
pub proof fn lemma_uri_targets(f: Seq<char>)
    ensures
        parse_uri("/"@) == Some(RequestTarget::Index),
        parse_uri("/data"@) == Some(RequestTarget::Data),
        parse_uri("/favicon.ico"@) == Some(RequestTarget::Favicon),
        parse_uri("/resources/css/"@ + f) == Some(RequestTarget::Css(f)),
        parse_uri("/resources/image/"@ + f) == Some(RequestTarget::Image(f)),
{
    reveal_strlit("/");
    reveal_strlit("/data");
    reveal_strlit("/favicon.ico");
    reveal_strlit("/resources/css/");
    reveal_strlit("/resources/image/");
    assert("/"@[0] == '/');
    assert("/data"@[0] == '/');
    assert("/favicon.ico"@[0] == '/');
    let css = "/resources/css/"@ + f;
    let image = "/resources/image/"@ + f;
    assert(css[0] == '/');
    assert(image[0] == '/');
    assert(css.take(15) =~= "/resources/css/"@);
    assert(css.skip(15) =~= f);
    assert(image.take(17) =~= "/resources/image/"@);
    assert(image.skip(17) =~= f);
    assert(image[11] == 'i');
    assert(image.take(15)[11] != "/resources/css/"@[11]);
}

/// Header lines: the lines before the first empty one.
pub open spec fn header_lines(ls: Seq<Seq<char>>) -> Seq<Seq<char>>
    decreases ls.len(),
{
    if ls.len() == 0 || ls[0].len() == 0 {
        seq![]
    } else {
        seq![ls[0]] + header_lines(ls.drop_first())
    }
}

/// Body lines: the lines after the first empty one.
pub open spec fn body_lines(ls: Seq<Seq<char>>) -> Seq<Seq<char>>
    decreases ls.len(),
{
    if ls.len() == 0 {
        seq![]
    } else if ls[0].len() == 0 {
        ls.drop_first()
    } else {
        body_lines(ls.drop_first())
    }
}

/// A request that can be served: its resource, header lines and body lines.
pub struct RequestParts {
    pub request: RequestTarget,
    pub headers: Seq<Seq<char>>,
    pub body: Seq<Seq<char>>,
}

/// What a request whose text is `text` (carriage returns already
/// removed) is: its parts, or the message of the error.
pub open spec fn parse_request_text(text: Seq<char>) -> Result<RequestParts, Seq<char>> {
    let ls = lines(text);
    if ls.len() == 0 {
        Err(MSG_BAD_FORMAT@)
    } else {
        let toks = tokens(ls[0]);
        if toks.len() < 1 {
            Err(MSG_NO_METHOD@)
        } else if toks[0] != GET_METHOD@ {
            Err(MSG_ONLY_GET@)
        } else if toks.len() < 2 {
            Err(MSG_NO_URI@)
        } else if parse_uri(toks[1]) is None {
            Err(MSG_INVALID_URI@ + toks[1])
        } else if toks.len() < 3 {
            Err(MSG_NO_VERSION@)
        } else if toks[2] != "HTTP/1.1"@ {
            Err(MSG_VERSION_NOT_SUPPORTED@ + toks[2])
        } else {
            Ok(
                RequestParts {
                    request: parse_uri(toks[1])->0,
                    headers: header_lines(ls.drop_first()),
                    body: body_lines(ls.drop_first()),
                },
            )
        }
    }
}

/// The bytes of `stream` that are read for a request: its first
/// [`REQUEST_BUFFER_SIZE`].
pub open spec fn request_bytes(stream: Seq<u8>) -> Seq<u8> {
    if stream.len() < REQUEST_BUFFER_SIZE {
        stream
    } else {
        stream.take(REQUEST_BUFFER_SIZE as int)
    }
}

/// Text of the request held by `stream`: its [`request_bytes`], decoded as
/// `String::from_utf8_lossy` does, without carriage returns.
pub open spec fn request_text(stream: Seq<u8>) -> Seq<char> {
    without_cr(utf8_lossy(request_bytes(stream)))
}

/// Whether `r` is what parsing the request text `text` gives (see
/// [`parse_request_text`]): the request it describes, over HTTP/1.1, or
/// the error met first.
pub open spec fn parsed_as(r: &HttpResult<HttpRequest>, text: Seq<char>) -> bool {
    match parse_request_text(text) {
        Ok(parts) => r matches Ok(req) && req.spec_request() == parts.request && req.spec_version()
            == HttpVersion::V1_1 && req.spec_headers() == parts.headers && req.spec_body() == parts.body,
        Err(msg) => r matches Err(e) && e.message() == msg,
    }
}

/// A GET request.
pub struct HttpRequest {
    request: Request,
    version: HttpVersion,
    headers: Vec<String>,
    body: Vec<String>,
}

/// A response.
pub struct HttpResponse {
    version: HttpVersion,
    code: HttpStatusCode,
    headers: Option<Vec<u8>>,
    body: Option<Vec<u8>>,
}

fn error(msg: &str) -> (e: HttpError)
    ensures
        e.message() == msg@,
{
    HttpError { msg: String::from_str(msg) }
}

fn error_with(msg: &str, detail: &[char]) -> (e: HttpError)
    ensures
        e.message() == msg@ + detail@,
{
    let mut s = String::from_str(msg);
    let d = string_from_chars(detail);
    s.append(d.as_str());
    HttpError { msg: s }
}

fn strings_of(v: &Vec<Vec<char>>, from: usize, to: usize) -> (out: Vec<String>)
    requires
        from <= to <= v@.len(),
    ensures
        out@.map_values(|s: String| s@) == seqs_of(v@).subrange(from as int, to as int),
{
    let mut out: Vec<String> = Vec::new();
    let mut k: usize = from;
    while k < to
        invariant
            from <= k <= to,
            to <= v@.len(),
            out@.map_values(|s: String| s@) == seqs_of(v@).subrange(from as int, k as int),
        decreases to - k,
    {
        let s = string_from_chars(v[k].as_slice());
        proof {
            assert(out@.push(s).map_values(|s: String| s@) == out@.map_values(|s: String| s@).push(s@));
            assert(seqs_of(v@).subrange(from as int, k + 1) == seqs_of(v@).subrange(from as int, k as int).push(v@[k as int]@));
        }
        out.push(s);
        k = k + 1;
    }
    out
}

proof fn lemma_header_body_split(ls: Seq<Seq<char>>, k: int)
    requires
        0 <= k <= ls.len(),
        forall|j: int| 0 <= j < k ==> ls[j].len() > 0,
    ensures
        header_lines(ls) == ls.take(k) + header_lines(ls.skip(k)),
        body_lines(ls) == body_lines(ls.skip(k)),
    decreases k,
{
    if k > 0 {
        lemma_header_body_split(ls.drop_first(), k - 1);
        assert(ls.drop_first().skip(k - 1) == ls.skip(k));
        assert(ls.take(k) == seq![ls[0]] + ls.drop_first().take(k - 1));
    } else {
        assert(ls.skip(0) == ls);
    }
}

impl Request {
    /// The resource named by `request_uri` (see [`parse_uri`]).
    pub fn from_uri(request_uri: &[char]) -> (r: HttpResult<Request>)
        ensures
            match parse_uri(request_uri@) {
                Some(t) => r matches Ok(req) && req@ == t,
                None => r matches Err(e) && e.message() == MSG_INVALID_URI@ + request_uri@,
            },
    {
        if !contains_char(request_uri, '/') {
            Err(error_with(MSG_INVALID_URI, request_uri))
        } else if chars_eq(request_uri, "/") {
            Ok(Request::Index)
        } else if chars_eq(request_uri, "/data") {
            Ok(Request::Data)
        } else if chars_eq(request_uri, "/favicon.ico") {
            Ok(Request::Favicon)
        } else if let Some(stripped) = strip_prefix_chars(request_uri, "/resources/css/") {
            Ok(Request::Css(string_from_chars(stripped.as_slice())))
        } else if let Some(stripped) = strip_prefix_chars(request_uri, "/resources/image/") {
            Ok(Request::Image(string_from_chars(stripped.as_slice())))
        } else {
            Err(error_with(MSG_INVALID_URI, request_uri))
        }
    }
}

impl HttpRequest {
    /// The resource asked for.
    pub closed spec fn spec_request(&self) -> RequestTarget {
        self.request@
    }

    /// The version of the request.
    pub closed spec fn spec_version(&self) -> HttpVersion {
        self.version
    }

    /// The header lines.
    pub closed spec fn spec_headers(&self) -> Seq<Seq<char>> {
        self.headers@.map_values(|s: String| s@)
    }

    /// The body lines.
    pub closed spec fn spec_body(&self) -> Seq<Seq<char>> {
        self.body@.map_values(|s: String| s@)
    }

    /// Reads a request from the bytes of `stream`, of which at most
    /// [`REQUEST_BUFFER_SIZE`] are read and decoded as UTF-8 (an invalid
    /// sequence reads as U+FFFD), then parsed as
    /// [`HttpRequest::from_text`] says.
    pub fn read_from(stream: &[u8]) -> (r: HttpResult<HttpRequest>)
        ensures
            parsed_as(&r, request_text(stream@)),
            valid_utf8(request_bytes(stream@)) ==> parsed_as(&r, without_cr(decode_utf8(request_bytes(stream@)))),
    {
        let n = if stream.len() < REQUEST_BUFFER_SIZE {
            stream.len()
        } else {
            REQUEST_BUFFER_SIZE
        };
        let decoded = string_from_utf8_lossy(slice_subrange(stream, 0, n));
        proof {
            assert(stream@.subrange(0, n as int) == request_bytes(stream@));
        }
        Self::from_text(decoded.as_str())
    }

    /// Parses the request whose text is `text`, carriage returns aside.
    ///
    /// Only GET is served, the version must be HTTP/1.1, and the URI must
    /// be one that [`parse_uri`] knows. The lines after the request line
    /// and before the first empty line are the headers; the lines after
    /// it are the body.
    pub fn from_text(text: &str) -> (r: HttpResult<HttpRequest>)
        ensures
            parsed_as(&r, without_cr(text@)),
    {
        let chars = chars_of(text);
        let tmp = remove_cr(chars.as_slice());
        let ls = lines_of(tmp.as_slice());
        let ghost text = tmp@;
        let ghost lsv = seqs_of(ls@);
        if ls.len() == 0 {
            return Err(error(MSG_BAD_FORMAT));
        }
        let request_line = split_whitespace(ls[0].as_slice());
        proof {
            assert(lsv[0] == ls@[0]@);
        }
        if request_line.len() < 1 {
            return Err(error(MSG_NO_METHOD));
        }
        match Self::validate_method(request_line[0].as_slice()) {
            Ok(()) => {},
            Err(e) => return Err(e),
        }
        if request_line.len() < 2 {
            return Err(error(MSG_NO_URI));
        }
        let request = match Request::from_uri(request_line[1].as_slice()) {
            Ok(req) => req,
            Err(e) => return Err(e),
        };
        if request_line.len() < 3 {
            return Err(error(MSG_NO_VERSION));
        }
        let version = match Self::parse_http_version(request_line[2].as_slice()) {
            Ok(v) => v,
            Err(e) => return Err(e),
        };
        let (headers, k) = Self::parse_headers(&ls);
        let body = Self::parse_body(&ls, k);
        Ok(HttpRequest { request, version, headers, body })
    }

    /// Only GET is served.
    fn validate_method(method: &[char]) -> (r: HttpResult<()>)
        ensures
            method@ == GET_METHOD@ ==> r is Ok,
            method@ != GET_METHOD@ ==> (r matches Err(e) && e.message() == MSG_ONLY_GET@),
    {
        if !chars_eq(method, GET_METHOD) {
            return Err(error(MSG_ONLY_GET));
        }
        Ok(())
    }

    /// The header lines: those after the request line (the first of `ls`)
    /// and before the first empty line. Also returns the index of that
    /// empty line, or the number of lines when there is none.
    fn parse_headers(ls: &Vec<Vec<char>>) -> (r: (Vec<String>, usize))
        requires
            ls@.len() >= 1,
        ensures
            1 <= r.1 <= ls@.len(),
            r.0@.map_values(|s: String| s@) == header_lines(seqs_of(ls@).drop_first()),
            body_lines(seqs_of(ls@).drop_first()) == if r.1 < ls@.len() {
                seqs_of(ls@).subrange(r.1 + 1, ls@.len() as int)
            } else {
                Seq::<Seq<char>>::empty()
            },
    {
        let ghost lsv = seqs_of(ls@);
        let mut k: usize = 1;
        while k < ls.len() && ls[k].len() > 0
            invariant
                1 <= k <= ls@.len(),
                lsv == seqs_of(ls@),
                forall|j: int| 1 <= j < k ==> lsv[j].len() > 0,
            decreases ls@.len() - k,
        {
            k = k + 1;
        }
        let headers = strings_of(ls, 1, k);
        proof {
            let rest = lsv.drop_first();
            lemma_header_body_split(rest, k - 1);
            assert(rest.take(k - 1) == lsv.subrange(1, k as int));
            if k < ls@.len() {
                assert(rest.skip(k - 1)[0] == lsv[k as int]);
                assert(rest.skip(k - 1).drop_first() == lsv.subrange(k + 1, lsv.len() as int));
                assert(header_lines(rest.skip(k - 1)) == Seq::<Seq<char>>::empty());
            } else {
                assert(rest.skip(k - 1) == Seq::<Seq<char>>::empty());
            }
            assert(rest.take(k - 1) + Seq::<Seq<char>>::empty() == rest.take(k - 1));
        }
        (headers, k)
    }

    /// The body lines: those after the empty line at `after_headers`, if
    /// any (see [`HttpRequest::parse_headers`]).
    fn parse_body(ls: &Vec<Vec<char>>, after_headers: usize) -> (b: Vec<String>)
        requires
            1 <= after_headers <= ls@.len(),
        ensures
            b@.map_values(|s: String| s@) == if after_headers < ls@.len() {
                seqs_of(ls@).subrange(after_headers + 1, ls@.len() as int)
            } else {
                Seq::<Seq<char>>::empty()
            },
    {
        if after_headers < ls.len() {
            strings_of(ls, after_headers + 1, ls.len())
        } else {
            let b: Vec<String> = Vec::new();
            proof {
                assert(b@.map_values(|s: String| s@) == Seq::<Seq<char>>::empty());
            }
            b
        }
    }

    fn parse_http_version(http_version: &[char]) -> (r: HttpResult<HttpVersion>)
        ensures
            http_version@ == "HTTP/1.1"@ ==> r == Ok::<HttpVersion, HttpError>(HttpVersion::V1_1),
            http_version@ != "HTTP/1.1"@ ==> (r matches Err(e) && e.message()
                == MSG_VERSION_NOT_SUPPORTED@ + http_version@),
    {
        if chars_eq(http_version, "HTTP/1.1") {
            Ok(HttpVersion::V1_1)
        } else {
            Err(error_with(MSG_VERSION_NOT_SUPPORTED, http_version))
        }
    }

    /// The resource asked for.
    pub fn request(&self) -> (r: &Request)
        ensures
            r@ == self.spec_request(),
    {
        &self.request
    }

    /// The version of the request.
    pub fn version(&self) -> (v: &HttpVersion)
        ensures
            *v == self.spec_version(),
    {
        &self.version
    }

    /// The header lines.
    pub fn headers(&self) -> (h: &Vec<String>)
        ensures
            h@.map_values(|s: String| s@) == self.spec_headers(),
    {
        &self.headers
    }

    /// The body lines.
    pub fn body(&self) -> (b: &Vec<String>)
        ensures
            b@.map_values(|s: String| s@) == self.spec_body(),
    {
        &self.body
    }
}


/// Number of a status code.
pub open spec fn status_number(code: &HttpStatusCode) -> u16 {
    match code {
        HttpStatusCode::OK => 200,
        HttpStatusCode::NotFound => 404,
        HttpStatusCode::InternalServerError => 500,
        HttpStatusCode::Other(n, _) => *n,
    }
}

/// Reason phrase of a status code.
pub open spec fn reason_text(code: &HttpStatusCode) -> Seq<char> {
    match code {
        HttpStatusCode::OK => "200 OK"@,
        HttpStatusCode::NotFound => "Not Found"@,
        HttpStatusCode::InternalServerError => "Internal Server Error"@,
        HttpStatusCode::Other(_, reason) => reason@,
    }
}

/// Text of a version; HTTP/2 has none.
pub open spec fn version_text(version: HttpVersion) -> Seq<char> {
    match version {
        HttpVersion::V1_0 => "HTTP/1.0"@,
        HttpVersion::V1_1 => "HTTP/1.1"@,
        HttpVersion::V2 => seq![],
    }
}

impl HttpStatusCode {
    /// The reason phrase of the code.
    pub fn reason_phrase(&self) -> (r: &str)
        ensures
            r@ == reason_text(self),
    {
        match self {
            HttpStatusCode::OK => "200 OK",
            HttpStatusCode::NotFound => "Not Found",
            HttpStatusCode::InternalServerError => "Internal Server Error",
            HttpStatusCode::Other(_, reason_phrase) => reason_phrase.as_str(),
        }
    }

    /// The number of the code.
    pub fn number(&self) -> (n: u16)
        ensures
            n == status_number(self),
    {
        match self {
            HttpStatusCode::OK => 200,
            HttpStatusCode::NotFound => 404,
            HttpStatusCode::InternalServerError => 500,
            HttpStatusCode::Other(n, _) => *n,
        }
    }
}

impl HttpVersion {
    /// The text of the version. HTTP/2 has none.
    pub fn text(self) -> (t: &'static str)
        requires
            self != HttpVersion::V2,
        ensures
            t@ == version_text(self),
    {
        match self {
            HttpVersion::V1_0 => "HTTP/1.0",
            _ => "HTTP/1.1",
        }
    }

    /// The version written `version`: "HTTP/1.0", "HTTP/1.1" or "HTTP/2".
    pub fn parse(version: &[char]) -> (r: Option<HttpVersion>)
        ensures
            version@ == "HTTP/1.0"@ ==> r == Some(HttpVersion::V1_0),
            version@ != "HTTP/1.0"@ && version@ == "HTTP/1.1"@ ==> r == Some(HttpVersion::V1_1),
            version@ != "HTTP/1.0"@ && version@ != "HTTP/1.1"@ && version@ == "HTTP/2"@ ==> r
                == Some(HttpVersion::V2),
            version@ != "HTTP/1.0"@ && version@ != "HTTP/1.1"@ && version@ != "HTTP/2"@ ==> r is None,
    {
        if chars_eq(version, "HTTP/1.0") {
            Some(HttpVersion::V1_0)
        } else if chars_eq(version, "HTTP/1.1") {
            Some(HttpVersion::V1_1)
        } else if chars_eq(version, "HTTP/2") {
            Some(HttpVersion::V2)
        } else {
            None
        }
    }
}

/// Bytes of an optional part of a response.
pub open spec fn part_bytes(part: Option<Vec<u8>>) -> Seq<u8> {
    match part {
        Some(b) => b@,
        None => seq![],
    }
}

/// Bytes that a response sends: status line (version, reason phrase,
/// code), `Content-Length`, the headers, an empty line, then the body.
pub open spec fn response_bytes(
    version: HttpVersion,
    code: &HttpStatusCode,
    headers: Seq<u8>,
    body: Seq<u8>,
) -> Seq<u8> {
    encode_utf8(version_text(version)) + encode_utf8(" "@) + encode_utf8(reason_text(code))
        + encode_utf8(" "@) + decimal(status_number(code) as nat) + encode_utf8(
        "\r\nContent-Length: "@,
    ) + decimal(body.len()) + encode_utf8("\r\n"@) + headers + encode_utf8("\r\n"@) + body
}

/// The number after `Content-Length: ` in the bytes of a response reads
/// back, as decimal digits, to the length of its body, whatever that
/// length.
pub proof fn lemma_content_length_reads_back(
    version: HttpVersion,
    code: &HttpStatusCode,
    headers: Seq<u8>,
    body: Seq<u8>,
)
    ensures
        exists|pre: Seq<u8>, digits: Seq<u8>|
            #![trigger pre + encode_utf8("\r\nContent-Length: "@), digits_value(digits)]
            response_bytes(version, code, headers, body) == pre + encode_utf8("\r\nContent-Length: "@) + digits
                + encode_utf8("\r\n"@) + headers + encode_utf8("\r\n"@) + body && is_digits(digits)
                && digits_value(digits) == body.len(),
{
    let pre = encode_utf8(version_text(version)) + encode_utf8(" "@) + encode_utf8(reason_text(code)) + encode_utf8(" "@)
        + decimal(status_number(code) as nat);
    let digits = decimal(body.len() as nat);
    lemma_decimal_reads_back(body.len());
    assert(response_bytes(version, code, headers, body) =~= pre + encode_utf8("\r\nContent-Length: "@) + digits
        + encode_utf8("\r\n"@) + headers + encode_utf8("\r\n"@) + body);
    assert(digits_value(digits) == body.len());
}

impl HttpResponse {
    /// The version of the response.
    pub closed spec fn spec_version(&self) -> HttpVersion {
        self.version
    }

    /// The status code.
    pub closed spec fn spec_code(&self) -> &HttpStatusCode {
        &self.code
    }

    /// The header bytes.
    pub closed spec fn spec_headers(&self) -> Seq<u8> {
        part_bytes(self.headers)
    }

    /// The body bytes.
    pub closed spec fn spec_body(&self) -> Seq<u8> {
        part_bytes(self.body)
    }

    /// A response with the given status, version, header bytes and body.
    pub fn new(
        code: HttpStatusCode,
        version: HttpVersion,
        headers: Option<Vec<u8>>,
        body: Option<Vec<u8>>,
    ) -> (r: HttpResponse)
        ensures
            r.spec_version() == version,
            *r.spec_code() == code,
            r.spec_headers() == part_bytes(headers),
            r.spec_body() == part_bytes(body),
    {
        HttpResponse { version, code, headers, body }
    }

    /// Length of the body; zero when there is none.
    pub fn body_len(&self) -> (n: usize)
        ensures
            n == self.spec_body().len(),
    {
        if let Some(body) = &self.body {
            body.len()
        } else {
            0
        }
    }

    /// The bytes that the response sends.
    pub fn encode(&self) -> (v: Vec<u8>)
        requires
            self.spec_version() != HttpVersion::V2,
        ensures
            v@ == response_bytes(
                self.spec_version(),
                self.spec_code(),
                self.spec_headers(),
                self.spec_body(),
            ),
    {
        let mut v: Vec<u8> = Vec::new();
        push_str_bytes(&mut v, self.version.text());
        push_str_bytes(&mut v, " ");
        push_str_bytes(&mut v, self.code.reason_phrase());
        push_str_bytes(&mut v, " ");
        push_decimal(&mut v, self.code.number() as u64);
        push_str_bytes(&mut v, "\r\nContent-Length: ");
        push_decimal(&mut v, self.body_len() as u64);
        push_str_bytes(&mut v, "\r\n");
        match &self.headers {
            Some(h) => push_bytes(&mut v, h.as_slice()),
            None => {},
        }
        push_str_bytes(&mut v, "\r\n");
        match &self.body {
            Some(b) => push_bytes(&mut v, b.as_slice()),
            None => {},
        }
        proof {
            assert(v@ == response_bytes(
                self.spec_version(),
                self.spec_code(),
                self.spec_headers(),
                self.spec_body(),
            ));
        }
        v
    }
}

impl HttpResponse {
    /// Sends the response (the bytes of [`HttpResponse::encode`]) through
    /// `stream`, then flushes it. Fails with the message of the stream's
    /// error when writing or flushing fails.
    pub fn send_to<W: WriteBytes>(&self, stream: &mut W) -> (r: HttpResult<()>)
        requires
            self.spec_version() != HttpVersion::V2,
        ensures
            r is Ok ==> exists|mid: W|
                #[trigger] mid.wrote_after(
                    old(stream),
                    response_bytes(self.spec_version(), self.spec_code(), self.spec_headers(), self.spec_body()),
                ) && final(stream).flushed_from(&mid),
            old(stream).write_succeeds() && (forall|mid: W|
                #[trigger] mid.wrote_after(
                    old(stream),
                    response_bytes(self.spec_version(), self.spec_code(), self.spec_headers(), self.spec_body()),
                ) ==> mid.flush_succeeds()) ==> r is Ok,
            old(stream).write_fails() ==> r is Err,
            (forall|mid: W|
                #[trigger] mid.wrote_after(
                    old(stream),
                    response_bytes(self.spec_version(), self.spec_code(), self.spec_headers(), self.spec_body()),
                ) ==> mid.flush_fails()) ==> r is Err,
    {
        let bytes = self.encode();
        match stream.write_all(bytes.as_slice()) {
            Ok(()) => {},
            Err(e) => return Err(error(e.msg())),
        }
        let ghost mid = *stream;
        match stream.flush() {
            Ok(()) => {},
            Err(e) => return Err(error(e.msg())),
        }
        proof {
            assert(mid.wrote_after(
                old(stream),
                response_bytes(self.spec_version(), self.spec_code(), self.spec_headers(), self.spec_body()),
            ));
        }
        Ok(())
    }
}

/// Where the page finds what a request asks for.
pub enum Resource {
    /// A file, sent with a content type.
    File { path: String, content_type: &'static str },
    /// The last data received from the broker.
    Data,
}

/// Directory of the page files.
pub const PAGE_DIR: &'static str = "page/";

/// Resource that serves `request`: `page/index.html`, the latest data,
/// `page/favicon.ico`, or a file under `page/resources/css/` or
/// `page/resources/image/`.
pub open spec fn resource_target(request: RequestTarget) -> Option<(Seq<char>, Seq<char>)> {
    match request {
        RequestTarget::Index => Some(("page/index.html"@, "text/html"@)),
        RequestTarget::Data => None,
        RequestTarget::Favicon => Some(("page/favicon.ico"@, "image/x-icon"@)),
        RequestTarget::Css(f) => Some(("page/resources/css/"@ + f, "text/css"@)),
        RequestTarget::Image(f) => Some(("page/resources/image/"@ + f, "image/png"@)),
    }
}

/// Where each request of the page is served from: the index and the
/// icon from their files, a stylesheet named `f` from
/// `page/resources/css/f` as `text/css`, an image named `f` from
/// `page/resources/image/f` as `image/png`, and the data from memory.
pub proof fn lemma_resource_paths(f: Seq<char>)
    ensures
        resource_target(RequestTarget::Css(f)) == Some(("page/resources/css/"@ + f, "text/css"@)),
        resource_target(RequestTarget::Image(f)) == Some(("page/resources/image/"@ + f, "image/png"@)),
        resource_target(RequestTarget::Index) == Some(("page/index.html"@, "text/html"@)),
        resource_target(RequestTarget::Favicon) == Some(("page/favicon.ico"@, "image/x-icon"@)),
        resource_target(RequestTarget::Data) is None,
{
}

/// The resource that serves `request` (see [`resource_target`]).
pub fn resource_for(request: &Request) -> (r: Resource)
    ensures
        match resource_target(request@) {
            Some((path, content_type)) => r matches Resource::File { path: p, content_type: t }
                && p@ == path && t@ == content_type,
            None => r is Data,
        },
        request@ matches RequestTarget::Css(f) ==> (r matches Resource::File { path: p, content_type: t } && p@
            == "page/resources/css/"@ + f && t@ == "text/css"@),
        request@ matches RequestTarget::Image(f) ==> (r matches Resource::File { path: p, content_type: t } && p@
            == "page/resources/image/"@ + f && t@ == "image/png"@),
        request@ is Index ==> (r matches Resource::File { path: p, content_type: t } && p@ == "page/index.html"@ && t@
            == "text/html"@),
        request@ is Favicon ==> (r matches Resource::File { path: p, content_type: t } && p@ == "page/favicon.ico"@ && t@
            == "image/x-icon"@),
        request@ is Data ==> r is Data,
{
    match request {
        Request::Index => Resource::File {
            path: String::from_str("page/index.html"),
            content_type: "text/html",
        },
        Request::Data => Resource::Data,
        Request::Favicon => Resource::File {
            path: String::from_str("page/favicon.ico"),
            content_type: "image/x-icon",
        },
        Request::Css(f) => {
            let mut path = String::from_str("page/resources/css/");
            path.append(f.as_str());
            Resource::File { path, content_type: "text/css" }
        },
        Request::Image(f) => {
            let mut path = String::from_str("page/resources/image/");
            path.append(f.as_str());
            Resource::File { path, content_type: "image/png" }
        },
    }
}

/// Header bytes sent with what serves `request`: a content type and a
/// cache lifetime for a file, none for the data.
pub open spec fn served_headers(request: RequestTarget) -> Seq<u8> {
    match resource_target(request) {
        Some((_, content_type)) => encode_utf8(
            "Content-Type: "@ + content_type + "\r\nCache-Control: max-age=3600\r\n"@,
        ),
        None => seq![],
    }
}

/// The response that serves `request` with `body`, the bytes of what it
/// asks for (see [`resource_for`]): 200 OK over HTTP/1.1, with the
/// headers of [`served_headers`].
pub fn response_for(request: &Request, body: Vec<u8>) -> (r: HttpResponse)
    ensures
        r.spec_version() == HttpVersion::V1_1,
        *r.spec_code() == HttpStatusCode::OK,
        r.spec_headers() == served_headers(request@),
        r.spec_body() == body@,
{
    let headers = match resource_for(request) {
        Resource::File { path: _, content_type } => {
            let h = content_headers(content_type);
            let mut v: Vec<u8> = Vec::new();
            push_str_bytes(&mut v, h.as_str());
            proof {
                assert(Seq::<u8>::empty() + encode_utf8(h@) == encode_utf8(h@));
            }
            Some(v)
        },
        Resource::Data => None,
    };
    HttpResponse::new(HttpStatusCode::OK, HttpVersion::V1_1, headers, Some(body))
}

/// Header lines sent with a file of type `content_type`.
pub fn content_headers(content_type: &str) -> (h: String)
    ensures
        h@ == "Content-Type: "@ + content_type@ + "\r\nCache-Control: max-age=3600\r\n"@,
{
    let mut h = String::from_str("Content-Type: ");
    h.append(content_type);
    h.append("\r\nCache-Control: max-age=3600\r\n");
    h
}

} // verus!
