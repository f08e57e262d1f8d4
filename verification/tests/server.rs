use availcheck::config::{build_config, Config, GlobalConfig, Website};
use availcheck::errors::ServerError;
use availcheck::metrics::{MetricData, MetricResult};
use availcheck::net::{IpAddr, SocketAddr};
use availcheck::query_providers::HttpStruct;
use availcheck::server::{
    respond, route, App, HttpReply, QueriersServer, Route, ServerReload, WebServerState,
};
use availcheck::time::Duration;

fn site(name: &str) -> Website {
    Website {
        name: name.to_string(),
        url: HttpStruct { query_url: format!("http://{}.example/", name) },
        check_time_seconds: 15,
    }
}

fn names(websites: &Vec<Website>) -> Vec<&str> {
    websites.iter().map(|website| website.name.as_str()).collect()
}

fn config(websites: Vec<Website>, global: GlobalConfig) -> Config {
    build_config(websites, global).unwrap()
}

fn success(code: u16) -> MetricResult {
    MetricResult::Success(MetricData {
        status_code: Some(code),
        response_time: Some(Duration { nanos: 3_000_000 }),
        response_size: Some(42),
    })
}

fn prober(list: Vec<Website>) -> QueriersServer {
    let mut prober = QueriersServer::new();
    let _ = prober.take_reload(&list);
    prober
}

#[test]
fn the_first_list_is_probed() {
    let mut prober = QueriersServer::new();
    assert!(prober.queriers.is_empty() && prober.values.is_empty());
    let plan = prober.take_reload(&vec![site("a"), site("b")]);
    assert_eq!(names(&plan.added), vec!["a", "b"]);
    assert!(plan.deleted.is_empty());
    assert_eq!(names(&prober.queriers), vec!["a", "b"]);
    assert!(prober.old_values.is_empty());
}

#[test]
fn a_reload_starts_and_drops_probes() {
    let mut prober = prober(vec![site("a"), site("b"), site("c")]);
    let mut changed = site("b");
    changed.check_time_seconds = 99;
    let plan = prober.take_reload(&vec![site("d"), changed.clone()]);
    assert_eq!(names(&plan.added), vec!["d"]);
    assert_eq!(names(&plan.deleted), vec!["a", "c"]);
    assert_eq!(names(&prober.queriers), vec!["b", "d"]);
    assert_eq!(prober.queriers[0].check_time_seconds, 15);
    let again = prober.take_reload(&vec![site("d"), changed]);
    assert!(again.added.is_empty() && again.deleted.is_empty());
}

#[test]
fn an_empty_list_drops_all_probes() {
    let mut prober = prober(vec![site("a")]);
    let plan = prober.take_reload(&vec![]);
    assert_eq!(names(&plan.deleted), vec!["a"]);
    assert!(prober.queriers.is_empty());
}

#[test]
fn results_replace_earlier_ones() {
    let mut prober = prober(vec![site("a"), site("b")]);
    assert_eq!(prober.take_result(site("a"), Some(success(200))).name, "a");
    let _ = prober.take_result(site("b"), Some(MetricResult::Error));
    let _ = prober.take_result(site("a"), None);
    assert_eq!(prober.values.len(), 2);
    assert_eq!(prober.values[0].0.name, "a");
    assert_eq!(prober.values[0].1, MetricResult::Timeout);
    assert_eq!(prober.values[1].1, MetricResult::Error);
    assert_eq!(prober.old_values.len(), 2);
    assert_eq!(prober.old_values[0].1, MetricResult::Timeout);
}

#[test]
fn a_website_with_a_result_is_probed_again() {
    let mut prober = prober(vec![site("a")]);
    let _ = prober.take_result(site("a"), None);
    assert_eq!(names(&prober.queriers), vec!["a"]);
    let _ = prober.take_result(site("b"), None);
    assert_eq!(names(&prober.queriers), vec!["a", "b"]);
}

#[test]
fn results_survive_a_reload() {
    let mut prober = prober(vec![site("a")]);
    let _ = prober.take_result(site("a"), Some(success(200)));
    let _ = prober.take_reload(&vec![site("b")]);
    assert_eq!(prober.values.len(), 1);
    assert_eq!(prober.old_values[0].1, success(200));
}

#[test]
fn requests_are_routed() {
    assert_eq!(route("GET", "/metrics"), Route::Metrics);
    assert_eq!(route("POST", "/server-reload"), Route::Reload);
    assert_eq!(route("GET", "/server-reload"), Route::Hint);
    assert_eq!(route("POST", "/metrics"), Route::Hint);
    assert_eq!(route("get", "/metrics"), Route::Hint);
    assert_eq!(route("GET", "/metrics/"), Route::Hint);
    assert_eq!(route("GET", "/"), Route::Hint);
}

#[test]
fn a_result_is_served() {
    let mut prober = prober(vec![site("a")]);
    let _ = prober.take_result(site("a"), Some(success(301)));
    let state = WebServerState { values: prober.old_values };
    let reply = state.reply(route("GET", "/metrics"), Ok(()));
    assert_eq!(reply.status, 200);
    assert_eq!(
        reply.body,
        [
            "availcheck_errors{website=\"a\"} 0\n",
            "availcheck_timeouts{website=\"a\"} 0\n",
            "availcheck_status_code{website=\"a\"} 301\n",
            "availcheck_response_time_ms{website=\"a\"} 3\n",
            "availcheck_response_size{website=\"a\"} 42\n",
        ]
        .concat()
    );
    assert_eq!(state.get_results().unwrap(), reply.body);
}

#[test]
fn reload_requests_are_answered() {
    let state = WebServerState { values: vec![] };
    assert_eq!(
        state.reply(Route::Reload, Ok(())),
        HttpReply {
            status: 200,
            body: "Server reloading requested, check the server logs".to_string(),
        }
    );
    assert_eq!(
        state.reply(Route::Reload, Err(ServerReload)),
        HttpReply { status: 500, body: "sending a reload message failed".to_string() }
    );
    assert_eq!(
        WebServerState::ask_config_reloading(Err(ServerReload)),
        Err(ServerError::ReloadMessage)
    );
}

#[test]
fn other_requests_get_a_hint() {
    let state = WebServerState { values: vec![] };
    assert_eq!(
        state.reply(Route::Hint, Ok(())),
        HttpReply { status: 200, body: "Get metrics at /metrics".to_string() }
    );
}

#[test]
fn an_error_is_an_internal_one() {
    assert_eq!(
        respond(Err(ServerError::IO)),
        HttpReply { status: 500, body: "IO error".to_string() }
    );
    assert_eq!(
        respond(Ok("fine".to_string())),
        HttpReply { status: 200, body: "fine".to_string() }
    );
}

#[test]
fn the_services_of_a_new_app() {
    let (app, plan) = App::new(config(vec![site("a")], GlobalConfig::default()));
    assert_eq!(plan.web_server, Some(SocketAddr { ip: IpAddr::V4(0), port: 9666 }));
    assert_eq!(plan.dns_refresh, Duration::from_secs(120));
    assert_eq!(app.conf, GlobalConfig::default());
    assert_eq!(names(&app.websites_list), vec!["a"]);
}

#[test]
fn a_configuration_that_cannot_be_loaded_changes_nothing() {
    let (mut app, _) = App::new(config(vec![site("a")], GlobalConfig::default()));
    assert_eq!(app.load_new_config(None), None);
    assert_eq!(names(&app.websites_list), vec!["a"]);
}

#[test]
fn an_equal_configuration_changes_nothing() {
    let (mut app, _) =
        App::new(config(vec![site("a"), site("b")], GlobalConfig::default()));
    let mut changed = site("a");
    changed.check_time_seconds = 99;
    let same = config(vec![site("b"), changed], GlobalConfig::default());
    assert_eq!(app.load_new_config(Some(same)), None);
    assert_eq!(names(&app.websites_list), vec!["a", "b"]);
    assert_eq!(app.websites_list[0].check_time_seconds, 15);
}

#[test]
fn new_websites_keep_the_web_server() {
    let (mut app, _) = App::new(config(vec![site("a")], GlobalConfig::default()));
    let plan = app
        .load_new_config(Some(config(vec![site("b")], GlobalConfig::default())))
        .unwrap();
    assert_eq!(plan.web_server, None);
    assert_eq!(plan.dns_refresh, Duration::from_secs(120));
    assert_eq!(names(&app.websites_list), vec!["b"]);
    let again = config(vec![site("b")], GlobalConfig::default());
    assert_eq!(app.load_new_config(Some(again)), None);
}

#[test]
fn a_new_endpoint_restarts_the_web_server() {
    let (mut app, _) = App::new(config(vec![site("a")], GlobalConfig::default()));
    let mut global = GlobalConfig::default();
    global.listen_port = 80;
    let plan = app.load_new_config(Some(config(vec![site("a")], global))).unwrap();
    assert_eq!(plan.web_server, Some(SocketAddr { ip: IpAddr::V4(0), port: 80 }));
    global.listen_addr = IpAddr::V4(0x7f00_0001);
    let plan = app.load_new_config(Some(config(vec![site("a")], global))).unwrap();
    assert_eq!(plan.web_server, Some(SocketAddr { ip: IpAddr::V4(0x7f00_0001), port: 80 }));
    assert_eq!(app.conf, global);
}

#[test]
fn a_new_refresh_time_restarts_no_web_server() {
    let (mut app, _) = App::new(config(vec![site("a")], GlobalConfig::default()));
    let mut global = GlobalConfig::default();
    global.dns_refresh_time_seconds = 5;
    let plan = app.load_new_config(Some(config(vec![site("a")], global))).unwrap();
    assert_eq!(plan.web_server, None);
    assert_eq!(plan.dns_refresh, Duration::from_secs(5));
}
