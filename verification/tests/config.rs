use availcheck::config::{
    build_config, default_addr, default_checktime, default_dns_refresh_time, default_port,
    default_tracing_enabled, get_duplicates, load_config, position, read_websites, same_websites,
    ConfigError, GlobalConfig, RawWebsite, SerializedConfig, Website,
};
use availcheck::net::IpAddr;
use availcheck::query_providers::{HttpStruct, UrlError};

fn raw(name: &str, url: &str) -> RawWebsite {
    RawWebsite { name: name.to_string(), url: url.to_string(), check_time_seconds: 15 }
}

fn site(name: &str) -> Website {
    Website {
        name: name.to_string(),
        url: HttpStruct { query_url: format!("https://{}.example/", name) },
        check_time_seconds: 15,
    }
}

fn file(websites: Vec<RawWebsite>) -> SerializedConfig {
    SerializedConfig { websites, global: GlobalConfig::default() }
}

#[test]
fn defaults_of_the_settings() {
    assert_eq!(default_checktime(), 15);
    assert_eq!(default_port(), 9666);
    assert_eq!(default_dns_refresh_time(), 120);
    assert!(!default_tracing_enabled());
    assert_eq!(default_addr(), IpAddr::V4(0));
    assert_eq!(
        GlobalConfig::default(),
        GlobalConfig {
            listen_port: 9666,
            listen_addr: IpAddr::V4(0),
            enable_tracing: false,
            dns_refresh_time_seconds: 120,
        }
    );
}

#[test]
fn a_file_with_two_websites_is_accepted() {
    let config = load_config(file(vec![
        raw("one", "HTTP://Example.COM:80"),
        raw("two", "https://example.org/a b?q=1#top"),
    ]))
    .unwrap();
    assert_eq!(config.websites.len(), 2);
    assert_eq!(config.websites[0].name, "one");
    assert_eq!(config.websites[0].url.query_url, "http://example.com/");
    assert_eq!(config.websites[1].url.query_url, "https://example.org/a%20b?q=1#top");
    assert_eq!(config.websites[1].check_time_seconds, 15);
    assert_eq!(config.global, GlobalConfig::default());
}

#[test]
fn a_file_without_websites_is_accepted() {
    assert!(load_config(file(vec![])).unwrap().websites.is_empty());
}

#[test]
fn names_that_occur_twice_are_reported_once() {
    let error = load_config(file(vec![
        raw("b", "http://example.com"),
        raw("a", "http://example.com"),
        raw("b", "http://example.org"),
        raw("c", "http://example.com"),
        raw("b", "http://example.net"),
        raw("a", "http://example.org"),
    ]))
    .unwrap_err();
    match error {
        ConfigError::DuplicateNames(mut names) => {
            names.sort();
            assert_eq!(names, vec!["a".to_string(), "b".to_string()]);
        }
        _ => panic!("another error"),
    }
}

#[test]
fn two_websites_may_have_the_same_url() {
    let websites = vec![raw("a", "http://example.com"), raw("b", "http://example.com")];
    assert!(load_config(file(websites)).is_ok());
}

#[test]
fn names_differ_by_case() {
    let websites = vec![raw("a", "http://example.com"), raw("A", "http://example.com")];
    assert!(load_config(file(websites)).is_ok());
}

#[test]
fn a_url_of_another_scheme_is_refused() {
    let error = load_config(file(vec![raw("a", "ftp://example.com/")])).unwrap_err();
    assert_eq!(error, ConfigError::Url(UrlError::UnsupportedScheme));
}

#[test]
fn a_text_that_is_no_url_is_refused() {
    let error = load_config(file(vec![raw("a", "example.com")])).unwrap_err();
    assert_eq!(error, ConfigError::Url(UrlError::Invalid));
}

#[test]
fn the_first_bad_url_is_reported() {
    let websites = vec![raw("a", "http://example.com"), raw("b", "mailto:x@y"), raw("c", "::")];
    assert_eq!(read_websites(&websites).unwrap_err(), UrlError::UnsupportedScheme);
}

#[test]
fn a_bad_url_comes_before_duplicate_names() {
    let websites = vec![raw("a", "http://example.com"), raw("a", "nothing")];
    assert_eq!(load_config(file(websites)).unwrap_err(), ConfigError::Url(UrlError::Invalid));
}

#[test]
fn duplicates_of_a_sorted_list() {
    let a = "a".to_string();
    let b = "b".to_string();
    let c = "c".to_string();
    assert_eq!(get_duplicates(&vec![&a, &a, &a, &b, &c, &c]), vec!["a", "c"]);
    assert!(get_duplicates(&vec![&a, &b, &c]).is_empty());
    assert!(get_duplicates(&vec![&a]).is_empty());
    assert!(get_duplicates(&vec![]).is_empty());
}

#[test]
fn duplicates_of_an_unsorted_list_are_not_found() {
    let a = "a".to_string();
    let b = "b".to_string();
    assert!(get_duplicates(&vec![&a, &b, &a]).is_empty());
}

#[test]
fn websites_are_equal_by_name() {
    let mut other = site("a");
    other.url.query_url = "http://elsewhere.example/".to_string();
    other.check_time_seconds = 99;
    assert!(site("a") == other);
    assert!(site("a") != site("b"));
    assert_eq!(position(&vec![site("b"), site("a")], &other), Some(1));
    assert_eq!(position(&vec![site("b")], &other), None);
}

#[test]
fn the_order_of_websites_does_not_matter() {
    assert!(same_websites(&vec![site("a"), site("b")], &vec![site("b"), site("a")]));
    assert!(!same_websites(&vec![site("a"), site("b")], &vec![site("a")]));
    assert!(!same_websites(&vec![site("a")], &vec![site("a"), site("b")]));
    let x = build_config(vec![site("a"), site("b")], GlobalConfig::default()).unwrap();
    let y = build_config(vec![site("b"), site("a")], GlobalConfig::default()).unwrap();
    assert!(x == y);
    let mut global = GlobalConfig::default();
    global.enable_tracing = true;
    let z = build_config(vec![site("a"), site("b")], global).unwrap();
    assert!(x != z);
}

#[test]
fn the_time_limit_of_a_probe() {
    assert_eq!(site("a").time_limit().as_millis(), 15_000);
}

#[test]
fn the_order_in_a_file_does_not_matter() {
    let duplicates = |names: Vec<&str>| {
        let websites = names.iter().map(|name| raw(name, "http://example.com")).collect();
        match load_config(file(websites)) {
            Err(ConfigError::DuplicateNames(mut names)) => {
                names.sort();
                names
            }
            _ => vec![],
        }
    };
    assert_eq!(duplicates(vec!["a", "b", "a", "c", "b"]), vec!["a", "b"]);
    assert_eq!(duplicates(vec!["b", "b", "a", "a", "c"]), vec!["a", "b"]);
    assert!(duplicates(vec!["c", "a", "b"]).is_empty());
}
