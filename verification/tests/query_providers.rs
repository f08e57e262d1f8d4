use availcheck::errors::{DnsError, QueryError};
use availcheck::metrics::{MetricData, MetricResult};
use availcheck::query_providers::{
    or_timeout, query_result, BodySize, HttpResponse, HttpStruct, ParsedUrl, UrlError,
};
use availcheck::time::Duration;
use availcheck::url_length::{can_be_counted, count_in, UrlCounts};

#[test]
fn a_target_is_put_into_standard_form() {
    let target = HttpStruct::from_text("HTTPS://EXAMPLE.com/a/../b").unwrap();
    assert_eq!(target.query_url, "https://example.com/b");
}

#[test]
fn only_http_and_https_are_targets() {
    assert!(HttpStruct::from_text("http://example.com").is_ok());
    assert!(HttpStruct::from_text("https://example.com").is_ok());
    assert_eq!(
        HttpStruct::from_text("ws://example.com").unwrap_err(),
        UrlError::UnsupportedScheme
    );
    assert_eq!(HttpStruct::from_text("").unwrap_err(), UrlError::Invalid);
    assert_eq!(HttpStruct::from_text("http://").unwrap_err(), UrlError::Invalid);
}

#[test]
fn the_scheme_decides_on_a_parsed_url() {
    let parsed = |scheme: &str| ParsedUrl {
        scheme: scheme.to_string(),
        text: format!("{}://x/", scheme),
    };
    assert_eq!(HttpStruct::from_parsed(parsed("http")).unwrap().query_url, "http://x/");
    assert_eq!(HttpStruct::from_parsed(parsed("https")).unwrap().query_url, "https://x/");
    assert_eq!(
        HttpStruct::from_parsed(parsed("HTTP")).unwrap_err(),
        UrlError::UnsupportedScheme
    );
}

#[test]
fn the_request_of_a_probe() {
    let target = HttpStruct { query_url: "http://example.com/x?y=1#part".to_string() };
    let request = target.request().unwrap();
    assert_eq!(request.method, "GET");
    assert_eq!(request.uri, "http://example.com/x?y=1");
    assert_eq!(
        request.headers,
        vec![("user-agent".to_string(), "monitoring/availcheck".to_string())]
    );
}

#[test]
fn a_target_that_is_no_uri_cannot_be_requested() {
    let target = HttpStruct { query_url: "http://exa mple.com/".to_string() };
    assert_eq!(target.request().unwrap_err(), QueryError::InvalidURI);
}

#[test]
fn a_copy_of_a_target_is_equal_to_it() {
    let target = HttpStruct { query_url: "http://example.com/".to_string() };
    assert_eq!(target.clone(), target);
}

#[test]
fn chunks_add_up() {
    let mut size = BodySize::new();
    assert_eq!(size.total(), 0);
    size.add_chunk(1000);
    size.add_chunk(0);
    size.add_chunk(24);
    assert_eq!(size.total(), 1024);
}

#[test]
fn an_answer_is_measured() {
    let result =
        query_result(Ok((HttpResponse { status: 503 }, 7)), Duration { nanos: 1_500_000 });
    assert_eq!(
        result,
        MetricResult::Success(MetricData {
            status_code: Some(503),
            response_time: Some(Duration { nanos: 1_500_000 }),
            response_size: Some(7),
        })
    );
}

#[test]
fn measurements_before_the_time_is_known() {
    assert_eq!(
        MetricData::from((HttpResponse { status: 204 }, 0)),
        MetricData { status_code: Some(204), response_time: None, response_size: Some(0) }
    );
}

#[test]
fn failures_are_classified() {
    let stop = Duration::from_secs(1);
    assert_eq!(query_result(Err(QueryError::Timeout), stop), MetricResult::Timeout);
    assert_eq!(query_result(Err(QueryError::Hyper), stop), MetricResult::Error);
    assert_eq!(query_result(Err(QueryError::InvalidURI), stop), MetricResult::Error);
    assert_eq!(query_result(Err(QueryError::HTTP), stop), MetricResult::Error);
    assert_eq!(
        query_result(Err(QueryError::Dns(DnsError::DnsResolution)), stop),
        MetricResult::Error
    );
}

#[test]
fn a_probe_that_does_not_end_is_a_timeout() {
    assert_eq!(or_timeout(None), MetricResult::Timeout);
    assert_eq!(or_timeout(Some(MetricResult::Error)), MetricResult::Error);
}

#[test]
fn only_a_success_is_mapped() {
    let data = MetricData { status_code: None, response_time: None, response_size: None };
    let set = |x: &mut MetricData| x.status_code = Some(200);
    assert_eq!(
        MetricResult::Success(data).map_success(set),
        MetricResult::Success(MetricData { status_code: Some(200), ..data })
    );
    assert_eq!(MetricResult::Timeout.map_success(set), MetricResult::Timeout);
    assert_eq!(MetricResult::Error.map_success(set), MetricResult::Error);
}

#[test]
fn errors_are_described() {
    assert_eq!(DnsError::DnsResolution.message(), "DNS resolution failed");
    assert_eq!(
        DnsError::NoDNSEntry("example.com".to_string()).message(),
        "No DNS entry for that domain"
    );
    assert_eq!(
        DnsError::Send(Box::new(Err(DnsError::Recv))).message(),
        "sending on a channel failed"
    );
    assert_eq!(DnsError::Recv.message(), "receiving a oneshot message failed");
    assert_eq!(DnsError::SendQuery.message(), "sending the DNS query failed");
    assert_eq!(QueryError::from(DnsError::Recv), QueryError::Dns(DnsError::Recv));
    assert_eq!(QueryError::Dns(DnsError::Recv).message(), "DNS error");
    assert_eq!(QueryError::Timeout.message(), "something timed out");
    assert_eq!(QueryError::Hyper.message(), "Hyper error");
    assert_eq!(QueryError::InvalidURI.message(), "Invalid URI");
    assert_eq!(QueryError::HTTP.message(), "HTTP error");
}

#[test]
fn long_hosts_are_refused() {
    for length in vec![1_000, 3_900, 32_799, 70_000] {
        let text = format!("http://{}\u{20000}", "a".repeat(length));
        assert_eq!(HttpStruct::from_text(&text).unwrap_err(), UrlError::Invalid);
    }
}

#[test]
fn a_host_is_written_in_ascii() {
    let target = HttpStruct::from_text("http://b\u{fc}cher.example/").unwrap();
    assert_eq!(target.query_url, "http://xn--bcher-kva.example/");
}

#[test]
fn a_long_path_is_no_trouble() {
    let text = format!("http://example.com/{}", "a".repeat(100_000));
    assert_eq!(HttpStruct::from_text(&text).unwrap().query_url, text);
}

fn counts(scheme: usize, slashes: usize, authority: usize) -> UrlCounts {
    UrlCounts { scheme, slashes, authority }
}

#[test]
fn what_the_parser_counts() {
    assert_eq!(count_in("http://user@example.com:80/path?query#part"), counts(4, 2, 19));
    assert_eq!(count_in("HTTPS:example.com"), counts(5, 0, 11));
    assert_eq!(count_in("ws:/\\//host\\path"), counts(2, 4, 4));
    assert_eq!(count_in("  http:\t//ho\nst  "), counts(4, 2, 4));
    assert_eq!(count_in("foo://ho\\st/path"), counts(3, 0, 5));
    assert_eq!(count_in("foo:///path"), counts(3, 0, 0));
    assert_eq!(count_in("mailto:someone@example.com"), counts(6, 0, 0));
    assert_eq!(count_in("file://host/path"), counts(4, 0, 0));
    assert_eq!(count_in("no scheme"), counts(9, 0, 0));
    assert_eq!(count_in(""), counts(0, 0, 0));
}

#[test]
fn paths_and_queries_are_not_counted() {
    let long = "a".repeat(100_000);
    assert_eq!(count_in(&format!("http://host/{}", long)), counts(4, 2, 4));
    assert_eq!(count_in(&format!("http://host?{}", long)), counts(4, 2, 4));
    assert_eq!(count_in(&format!("http://host#{}", long)), counts(4, 2, 4));
    assert!(can_be_counted(&format!("http://{}", long)));
}
