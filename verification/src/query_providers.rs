//! The targets of the probes, and what their answers amount to.
use vstd::prelude::*;

use crate::errors::QueryError;
use crate::metrics::{MetricData, MetricResult};
use crate::text::same_text;
use crate::time::Duration;
use crate::url_length::can_be_counted;

verus! {

/// A URL that was parsed: its scheme, and the whole of it in its standard form.
#[derive(Debug)]
pub struct ParsedUrl {
    pub scheme: String,
    pub text: String,
}

/// Why a text is no target for a probe.
#[derive(Debug, Clone, Copy, PartialEq, Eq, Structural)]
pub enum UrlError {
    /// The text is no URL.
    Invalid,
    /// There is no way to probe URLs of this scheme.
    UnsupportedScheme,
}

#[verifier::external_type_specification]
#[verifier::external_body]
pub struct ExUrlParseError(url::ParseError);

/// What `url::Url::parse` makes of `text`: the scheme and the serialization of the URL, or
/// nothing if it reports an error.
pub uninterp spec fn url_parse(text: Seq<char>) -> Option<(Seq<char>, Seq<char>)>;

/// Calls `url::Url::parse`, and reads the result by `scheme` and `as_str`. Claimed of it: the
/// result depends on the text alone, and the serialization of a URL starts with its scheme and a
/// colon. Texts on which one of its counters overflows are left out.
#[verifier::external_body]
fn parse_url(text: &str) -> (parsed: Result<ParsedUrl, url::ParseError>)
    requires
        crate::url_length::is_countable(text@),
    ensures
        match parsed {
            Ok(url) => {
                &&& url_parse(text@) == Some((url.scheme@, url.text@))
                &&& url.scheme@.push(':').is_prefix_of(url.text@)
            },
            Err(_) => url_parse(text@) is None,
        },
{
    let url = url::Url::parse(text)?;
    Ok(ParsedUrl { scheme: url.scheme().to_string(), text: url.as_str().to_string() })
}

/// Whether URLs of this scheme can be probed.
pub open spec fn is_http(scheme: Seq<char>) -> bool {
    scheme == "http"@ || scheme == "https"@
}

/// The URL that a text stands for: its scheme and its serialization. A text that the parser cannot
/// count stands for none.
pub open spec fn url_of(text: Seq<char>) -> Option<(Seq<char>, Seq<char>)> {
    if crate::url_length::is_countable(text) {
        url_parse(text)
    } else {
        None
    }
}

/// The target that a text stands for, given the URL that it stands for.
pub open spec fn target_of(parsed: Option<(Seq<char>, Seq<char>)>) -> Result<Seq<char>, UrlError> {
    match parsed {
        None => Err(UrlError::Invalid),
        Some((scheme, text)) => if is_http(scheme) {
            Ok(text)
        } else {
            Err(UrlError::UnsupportedScheme)
        },
    }
}

/// A target that is probed by HTTP.
#[derive(Debug, PartialEq, Eq, Hash)]
pub struct HttpStruct {
    pub query_url: String,
}

impl Clone for HttpStruct {
    fn clone(&self) -> (copy: HttpStruct)
        ensures
            copy == *self,
    {
        HttpStruct { query_url: self.query_url.clone() }
    }
}

impl HttpStruct {
    /// The target at a URL that was parsed.
    pub fn from_parsed(url: ParsedUrl) -> (target: Result<HttpStruct, UrlError>)
        ensures
            match target {
                Ok(target) => target_of(Some((url.scheme@, url.text@))) == Ok::<_, UrlError>(
                    target.query_url@,
                ),
                Err(e) => target_of(Some((url.scheme@, url.text@))) == Err::<Seq<char>, _>(e),
            },
    {
        if same_text(url.scheme.as_str(), "http") || same_text(url.scheme.as_str(), "https") {
            Ok(HttpStruct { query_url: url.text })
        } else {
            Err(UrlError::UnsupportedScheme)
        }
    }

    /// The target that the text of a URL stands for. The URL of a target is in its standard form,
    /// and starts with its scheme.
    pub fn from_text(text: &str) -> (target: Result<HttpStruct, UrlError>)
        ensures
            match target {
                Ok(target) => {
                    &&& target_of(url_of(text@)) == Ok::<_, UrlError>(target.query_url@)
                    &&& exists|scheme: Seq<char>| #[trigger]
                        is_http(scheme) && scheme.push(':').is_prefix_of(target.query_url@)
                },
                Err(e) => target_of(url_of(text@)) == Err::<Seq<char>, _>(e),
            },
    {
        if !can_be_counted(text) {
            return Err(UrlError::Invalid);
        }
        match parse_url(text) {
            Ok(url) => HttpStruct::from_parsed(url),
            Err(_) => Err(UrlError::Invalid),
        }
    }
}

/// The request that a probe sends.
#[derive(Debug)]
pub struct HttpRequest {
    pub method: String,
    pub uri: String,
    pub headers: Vec<(String, String)>,
}

#[verifier::external_type_specification]
#[verifier::external_body]
pub struct ExInvalidUri(http::uri::InvalidUri);

/// What `http::Uri::from_str` makes of `text`, written out again by the `Display` of the URI, or
/// nothing if it reports an error.
pub uninterp spec fn uri_parse(text: Seq<char>) -> Option<Seq<char>>;

/// Calls `http::Uri::from_str`, and writes the URI out by its `Display`. Claimed of it: the result
/// depends on the text alone.
#[verifier::external_body]
fn parse_uri(text: &str) -> (uri: Result<String, http::uri::InvalidUri>)
    ensures
        match uri {
            Ok(uri) => uri_parse(text@) == Some(uri@),
            Err(_) => uri_parse(text@) is None,
        },
{
    let uri = text.parse::<http::Uri>()?;
    Ok(uri.to_string())
}

#[verifier::external_type_specification]
#[verifier::external_body]
pub struct ExHttpError(http::Error);

/// A character in lower case: only the letters from `A` to `Z` change.
pub open spec fn lower_char(c: char) -> char {
    if 'A' <= c <= 'Z' {
        (c as int + 32) as char
    } else {
        c
    }
}

/// A text in lower case.
pub open spec fn lower(text: Seq<char>) -> Seq<char> {
    Seq::new(text.len(), |i: int| lower_char(text[i]))
}

/// A short name of letters, digits and hyphens, and a value of visible characters.
pub open spec fn is_plain_header(name: Seq<char>, value: Seq<char>) -> bool {
    &&& 1 <= name.len() <= 64
    &&& forall|i: int|
        0 <= i < name.len() ==> 'a' <= #[trigger] name[i] <= 'z' || 'A' <= name[i] <= 'Z' || '0'
            <= name[i] <= '9' || name[i] == '-'
    &&& forall|i: int| 0 <= i < value.len() ==> ' ' <= #[trigger] value[i] <= '~'
}

/// Calls `http::Request::get`, then `header` and `body` of the builder, and reads the request by
/// `method`, `uri` and `headers`. Claimed of it: the method is `GET`, the URI is what
/// `http::Uri::from_str` makes of `uri`, there is one header, whose name is put in lower case, and
/// the request is built if `uri` is a URI and the header is a plain one.
#[verifier::external_body]
fn build_get(uri: &str, name: &str, value: &str) -> (request: Result<HttpRequest, http::Error>)
    ensures
        match request {
            Ok(request) => {
                &&& request.method@ == "GET"@
                &&& uri_parse(uri@) == Some(request.uri@)
                &&& request.headers@.len() == 1
                &&& request.headers@[0].0@ == lower(name@)
                &&& request.headers@[0].1@ == value@
            },
            Err(_) => uri_parse(uri@) is None || !is_plain_header(name@, value@),
        },
{
    let request = http::Request::get(uri).header(name, value).body(())?;
    let headers = request.headers().iter();
    Ok(
        HttpRequest {
            method: request.method().to_string(),
            uri: request.uri().to_string(),
            headers: headers.map(
                |(k, v)| (k.to_string(), String::from_utf8_lossy(v.as_bytes()).to_string()),
            ).collect(),
        },
    )
}

/// The header by which a probe says who is asking is a plain one.
proof fn lemma_user_agent()
    ensures
        is_plain_header("User-Agent"@, "monitoring/availcheck"@),
        lower("User-Agent"@) == "user-agent"@,
{
    reveal_strlit("User-Agent");
    reveal_strlit("user-agent");
    reveal_strlit("monitoring/availcheck");
    assert(lower("User-Agent"@) =~= "user-agent"@);
}

impl HttpStruct {
    /// The request that probes this target: it gets the target, and says who is asking.
    pub fn request(&self) -> (request: Result<HttpRequest, QueryError>)
        ensures
            match request {
                Ok(request) => {
                    &&& uri_parse(self.query_url@) == Some(request.uri@)
                    &&& request.method@ == "GET"@
                    &&& request.headers@.len() == 1
                    &&& request.headers@[0].0@ == "user-agent"@
                    &&& request.headers@[0].1@ == "monitoring/availcheck"@
                },
                Err(e) => {
                    &&& uri_parse(self.query_url@) is None
                    &&& e == QueryError::InvalidURI
                },
            },
    {
        match parse_uri(self.query_url.as_str()) {
            Ok(_) => {
                proof {
                    lemma_user_agent();
                }
                match build_get(self.query_url.as_str(), "User-Agent", "monitoring/availcheck") {
                    Ok(request) => Ok(request),
                    Err(_) => Err(QueryError::HTTP),
                }
            },
            Err(_) => Err(QueryError::InvalidURI),
        }
    }
}

/// The number of bytes that the body of an answer had so far.
#[derive(Debug, Clone, Copy, PartialEq, Eq, Structural)]
pub struct BodySize {
    pub bytes: usize,
}

impl BodySize {
    /// Nothing has arrived yet.
    pub fn new() -> (size: BodySize)
        ensures
            size.bytes == 0,
    {
        BodySize { bytes: 0 }
    }

    /// A further chunk of the body, `len` bytes long, has arrived.
    pub fn add_chunk(&mut self, len: usize)
        requires
            old(self).bytes + len <= usize::MAX,
        ensures
            final(self).bytes == old(self).bytes + len,
    {
        self.bytes += len;
    }

    /// The size of the whole body.
    pub fn total(&self) -> (total: u64)
        ensures
            total == self.bytes,
    {
        self.bytes as u64
    }
}

/// The head of an answer.
#[derive(Debug, Clone, Copy, PartialEq, Eq, Structural)]
pub struct HttpResponse {
    pub status: u16,
}

/// The measurements of an answer and the size of its body; how long it took is not known yet.
pub open spec fn data_of(response: HttpResponse, size: u64) -> MetricData {
    MetricData {
        status_code: Some(response.status),
        response_time: None,
        response_size: Some(size),
    }
}

impl From<(HttpResponse, u64)> for MetricData {
    fn from(val: (HttpResponse, u64)) -> (data: MetricData) {
        MetricData {
            status_code: Some(val.0.status),
            response_time: None,
            response_size: Some(val.1),
        }
    }
}

impl vstd::std_specs::convert::FromSpecImpl<(HttpResponse, u64)> for MetricData {
    open spec fn obeys_from_spec() -> bool {
        true
    }

    open spec fn from_spec(val: (HttpResponse, u64)) -> MetricData {
        data_of(val.0, val.1)
    }
}

/// The outcome of a probe, given what the HTTP client reported.
pub open spec fn result_of(val: Result<(HttpResponse, u64), QueryError>) -> MetricResult {
    match val {
        Ok((response, size)) => MetricResult::Success(data_of(response, size)),
        Err(QueryError::Timeout) => MetricResult::Timeout,
        Err(_) => MetricResult::Error,
    }
}

impl From<Result<(HttpResponse, u64), QueryError>> for MetricResult {
    fn from(val: Result<(HttpResponse, u64), QueryError>) -> (result: MetricResult) {
        match val {
            Ok(res) => MetricResult::Success(MetricData::from(res)),
            Err(QueryError::Timeout) => MetricResult::Timeout,
            _ => MetricResult::Error,
        }
    }
}

impl vstd::std_specs::convert::FromSpecImpl<Result<(HttpResponse, u64), QueryError>> for MetricResult {
    open spec fn obeys_from_spec() -> bool {
        true
    }

    open spec fn from_spec(val: Result<(HttpResponse, u64), QueryError>) -> MetricResult {
        result_of(val)
    }
}

/// The outcome `result` of a probe, once it is known that it took `stop`.
pub open spec fn timed(result: MetricResult, stop: Duration) -> MetricResult {
    match result {
        MetricResult::Success(data) => MetricResult::Success(
            MetricData { response_time: Some(stop), ..data },
        ),
        _ => result,
    }
}

/// The outcome of a probe that took `stop`, given what the HTTP client reported.
pub fn query_result(output: Result<(HttpResponse, u64), QueryError>, stop: Duration) -> (result:
    MetricResult)
    ensures
        result == timed(result_of(output), stop),
{
    MetricResult::from(output).map_success(
        |x: &mut MetricData|
            ensures *final(x) == (MetricData { response_time: Some(stop), ..*old(x) })
            { x.response_time = Some(stop); },
    )
}

/// The outcome of a probe that had to end in time: `None` stands for one that did not.
pub fn or_timeout(output: Option<MetricResult>) -> (result: MetricResult)
    ensures
        result == match output {
            Some(result) => result,
            None => MetricResult::Timeout,
        },
{
    output.unwrap_or(MetricResult::Timeout)
}

/// A probe that got an answer reports its status code, the time that it took and the size of its
/// body. The status code does not matter otherwise: such a probe is a success.
pub proof fn law_answer_is_measured(response: HttpResponse, size: u64, stop: Duration)
    ensures
        timed(result_of(Ok((response, size))), stop) == MetricResult::Success(
            MetricData {
                status_code: Some(response.status),
                response_time: Some(stop),
                response_size: Some(size),
            },
        ),
{
}

/// A probe that failed is a timeout if it took too long, and an error in every other case; how long
/// it took makes no difference.
pub proof fn law_failure_is_classified(error: QueryError, stop: Duration)
    ensures
        timed(result_of(Err(error)), stop) == if error is Timeout {
            MetricResult::Timeout
        } else {
            MetricResult::Error
        },
{
}

/// A text is a target if and only if the parser makes a URL of it whose scheme is `http` or `https`,
/// and the target is what the parser writes for that URL. Every text of at most 2147483647
/// characters is handed to the parser.
pub proof fn law_only_http_is_probed(text: Seq<char>)
    ensures
        target_of(url_of(text)) matches Ok(target) ==> exists|scheme: Seq<char>|
            {
                &&& #[trigger] scheme.len() >= 4
                &&& url_parse(text) == Some((scheme, target))
                &&& scheme == "http"@ || scheme == "https"@
            },
        target_of(url_of(text)) == Err::<Seq<char>, _>(UrlError::UnsupportedScheme) ==> {
            &&& url_parse(text) matches Some((scheme, _))
            &&& scheme != "http"@
            &&& scheme != "https"@
        },
        text.len() <= 0x7fff_ffff ==> match url_parse(text) {
            Some((scheme, written)) => if scheme == "http"@ || scheme == "https"@ {
                target_of(url_of(text)) == Ok::<_, UrlError>(written)
            } else {
                target_of(url_of(text)) == Err::<Seq<char>, _>(UrlError::UnsupportedScheme)
            },
            None => target_of(url_of(text)) == Err::<Seq<char>, _>(UrlError::Invalid),
        },
{
    reveal_strlit("http");
    reveal_strlit("https");
    if text.len() <= 0x7fff_ffff {
        crate::url_length::law_short_texts_are_counted(text);
    }
    if let Some((scheme, written)) = url_parse(text) {
        if is_http(scheme) {
            assert(scheme.len() >= 4);
        }
    }
}

/// What the HTTP client reports is kept as it is: the status and the size of an answer, and of a
/// failure whether it took too long.
pub proof fn law_client_report_is_kept(
    val: Result<(HttpResponse, u64), QueryError>,
    response: HttpResponse,
    size: u64,
)
    ensures
        data_of(response, size).status_code == Some(response.status),
        data_of(response, size).response_size == Some(size),
        data_of(response, size).response_time is None,
        val == Ok::<_, QueryError>((response, size)) ==> result_of(val) == MetricResult::Success(
            data_of(response, size),
        ),
        val is Err ==> (result_of(val) is Timeout <==> val->Err_0 is Timeout),
        val is Err ==> (result_of(val) is Error <==> !(val->Err_0 is Timeout)),
        <MetricData as vstd::std_specs::convert::FromSpec<(HttpResponse, u64)>>::from_spec(
            (response, size),
        ) == data_of(response, size),
        <MetricResult as vstd::std_specs::convert::FromSpec<
            Result<(HttpResponse, u64), QueryError>,
        >>::from_spec(val) == result_of(val),
{
}

/// Timing a result adds the time that it took to a success, and changes nothing else.
pub proof fn law_timing_adds_the_time(result: MetricResult, stop: Duration)
    ensures
        match result {
            MetricResult::Success(data) => timed(result, stop) == MetricResult::Success(
                MetricData {
                    status_code: data.status_code,
                    response_time: Some(stop),
                    response_size: data.response_size,
                },
            ),
            _ => timed(result, stop) == result,
        },
{
}

/// The scheme of a URL decides whether it is a target, and nothing else does.
pub proof fn law_scheme_decides(scheme: Seq<char>, written: Seq<char>)
    ensures
        target_of(None) == Err::<Seq<char>, _>(UrlError::Invalid),
        scheme == "http"@ || scheme == "https"@ ==> target_of(Some((scheme, written))) == Ok::<
            _,
            UrlError,
        >(written),
        scheme != "http"@ && scheme != "https"@ ==> target_of(Some((scheme, written))) == Err::<
            Seq<char>,
            _,
        >(UrlError::UnsupportedScheme),
{
}

} // verus!
