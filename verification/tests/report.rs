use availcheck::config::Website;
use availcheck::metrics::{MetricData, MetricResult};
use availcheck::query_providers::HttpStruct;
use availcheck::report::{add_metrics_to_string, gen_metrics};
use availcheck::text::{push_decimal, same_text};
use availcheck::time::{Duration, Instant};

fn site(name: &str) -> Website {
    Website {
        name: name.to_string(),
        url: HttpStruct { query_url: "http://example.com/".to_string() },
        check_time_seconds: 15,
    }
}

fn success(code: u16, nanos: u128, size: u64) -> MetricResult {
    MetricResult::Success(MetricData {
        status_code: Some(code),
        response_time: Some(Duration { nanos }),
        response_size: Some(size),
    })
}

#[test]
fn an_empty_report() {
    assert_eq!(gen_metrics(&vec![]), "");
}

#[test]
fn a_report_on_every_kind_of_result() {
    let values = vec![
        (site("up"), success(200, 12_999_999, 18_446_744_073_709_551_615)),
        (site("slow"), MetricResult::Timeout),
        (site("down"), MetricResult::Error),
    ];
    let expected = [
        "availcheck_errors{website=\"up\"} 0\n",
        "availcheck_errors{website=\"slow\"} 0\n",
        "availcheck_errors{website=\"down\"} 1\n",
        "availcheck_timeouts{website=\"up\"} 0\n",
        "availcheck_timeouts{website=\"slow\"} 1\n",
        "availcheck_timeouts{website=\"down\"} 0\n",
        "availcheck_status_code{website=\"up\"} 200\n",
        "availcheck_response_time_ms{website=\"up\"} 12\n",
        "availcheck_response_size{website=\"up\"} 18446744073709551615\n",
    ];
    assert_eq!(gen_metrics(&values), expected.concat());
}

#[test]
fn measurements_that_are_missing_are_not_reported() {
    let data = MetricData { status_code: None, response_time: None, response_size: None };
    assert_eq!(
        gen_metrics(&vec![(site("x"), MetricResult::Success(data))]),
        "availcheck_errors{website=\"x\"} 0\navailcheck_timeouts{website=\"x\"} 0\n"
    );
}

#[test]
fn lines_are_added_behind_the_text() {
    let values = vec![(site("a"), MetricResult::Error), (site("b"), MetricResult::Timeout)];
    let mut text = "# start\n".to_string();
    add_metrics_to_string(&values, &mut text, "seen", |result| match result {
        MetricResult::Timeout => Some(7),
        _ => None,
    });
    assert_eq!(text, "# start\navailcheck_seen{website=\"b\"} 7\n");
}

#[test]
fn numbers_are_written_in_decimal() {
    let numbers: Vec<u128> = vec![0, 7, 10, 105, 9666, u64::MAX as u128, u128::MAX];
    for n in numbers {
        let mut text = "n=".to_string();
        push_decimal(&mut text, n);
        assert_eq!(text, format!("n={}", n));
    }
}

#[test]
fn texts_are_compared() {
    assert!(same_text("abc", "abc"));
    assert!(!same_text("abc", "abd"));
    assert!(!same_text("abc", "ab"));
    assert!(same_text("", ""));
}

#[test]
fn spans_of_time() {
    assert_eq!(Duration::from_secs(2).nanos, 2_000_000_000);
    assert_eq!(Duration::from_secs(u64::MAX).nanos, u64::MAX as u128 * 1_000_000_000);
    assert_eq!(Duration { nanos: 1_999_999 }.as_millis(), 1);
    let start = Instant { nanos: 10 };
    assert_eq!(start.elapsed(Instant { nanos: 25 }).nanos, 15);
    assert_eq!(start.elapsed(Instant { nanos: 10 }).nanos, 0);
    assert_eq!(start.elapsed(Instant { nanos: 3 }).nanos, 0);
}
