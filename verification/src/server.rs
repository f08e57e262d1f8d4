//! The services: probing the websites, answering over HTTP, and reloading the configuration.
use vstd::prelude::*;

use crate::config::{position, same_websites, Config, GlobalConfig, Website};
use crate::errors::ServerError;
use crate::metrics::MetricResult;
use crate::net::SocketAddr;
use crate::query_providers::or_timeout;
use crate::report::gen_metrics;
use crate::text::same_text;
use crate::time::Duration;

verus! {

/// The request to reload the configuration.
#[derive(Debug, PartialEq, Eq)]
pub struct ServerReload;

/// The names of the websites that results are there for, in their order.
pub open spec fn value_names(values: Seq<(Website, MetricResult)>) -> Seq<Seq<char>> {
    Seq::new(values.len(), |i: int| values[i].0.name@)
}

/// The last result of each website, by its name.
pub open spec fn results(values: Seq<(Website, MetricResult)>) -> Map<Seq<char>, MetricResult> {
    Map::new(
        |name: Seq<char>| value_names(values).contains(name),
        |name: Seq<char>| values[value_names(values).index_of(name)].1,
    )
}

/// The results once `result` has come in for `website`: it takes the place of an earlier result
/// under that name, or else stands behind the others.
pub open spec fn store(
    values: Seq<(Website, MetricResult)>,
    website: Website,
    result: MetricResult,
) -> Seq<(Website, MetricResult)> {
    if value_names(values).contains(website.name@) {
        let place = value_names(values).index_of(website.name@);
        values.update(place, (values[place].0, result))
    } else {
        values.push((website, result))
    }
}

/// A copy of some results.
fn copy_values(values: &Vec<(Website, MetricResult)>) -> (copy: Vec<(Website, MetricResult)>)
    ensures
        copy@ == values@,
{
    let mut copy: Vec<(Website, MetricResult)> = Vec::new();
    let mut i: usize = 0;
    while i < values.len()
        invariant
            i <= values.len(),
            copy@ == values@.take(i as int),
        decreases values.len() - i,
    {
        copy.push((values[i].0.clone(), values[i].1));
        assert(values@.take(i + 1) =~= values@.take(i as int).push(values@[i as int]));
        i += 1;
    }
    assert(values@.take(i as int) =~= values@);
    copy
}

/// The place of the result for the website `website`, if there is one.
fn value_position(values: &Vec<(Website, MetricResult)>, website: &Website) -> (place: Option<usize>)
    ensures
        match place {
            Some(i) => {
                &&& i < values@.len()
                &&& value_names(values@)[i as int] == website.name@
            },
            None => !value_names(values@).contains(website.name@),
        },
{
    let mut i: usize = 0;
    while i < values.len()
        invariant
            i <= values.len(),
            forall|j: int| 0 <= j < i ==> #[trigger] value_names(values@)[j] != website.name@,
        decreases values.len() - i,
    {
        if values[i].0 == *website {
            return Some(i);
        }
        i += 1;
    }
    None
}

/// The prober: the websites that are being probed, the last result of each website that was ever
/// probed, and the results as they are shown to the outside.
pub struct QueriersServer {
    pub queriers: Vec<Website>,
    pub values: Vec<(Website, MetricResult)>,
    pub old_values: Vec<(Website, MetricResult)>,
}

/// The probes to start and to drop after the configuration was reloaded.
#[derive(Debug)]
pub struct ReloadPlan {
    pub added: Vec<Website>,
    pub deleted: Vec<Website>,
}

/// The websites of `list` whose names do not occur in `known`.
pub open spec fn unknown_in(list: Seq<Website>, known: Seq<Website>) -> Seq<Website> {
    list.filter(|website: Website| !crate::config::names(known).contains(website.name@))
}

/// The websites of `list` whose names occur in `known`.
pub open spec fn known_in(list: Seq<Website>, known: Seq<Website>) -> Seq<Website> {
    list.filter(|website: Website| crate::config::names(known).contains(website.name@))
}

/// Splits a list of websites into those whose names do not occur in `known`, and the others.
fn split_known(list: &Vec<Website>, known: &Vec<Website>) -> (split: (Vec<Website>, Vec<Website>))
    ensures
        split.0@ == unknown_in(list@, known@),
        split.1@ == known_in(list@, known@),
{
    let mut unknown: Vec<Website> = Vec::new();
    let mut rest: Vec<Website> = Vec::new();
    let mut i: usize = 0;
    reveal(Seq::filter);
    while i < list.len()
        invariant
            i <= list.len(),
            unknown@ == unknown_in(list@.take(i as int), known@),
            rest@ == known_in(list@.take(i as int), known@),
        decreases list.len() - i,
    {
        reveal(Seq::filter);
        assert(list@.take(i + 1).drop_last() =~= list@.take(i as int));
        match position(known, &list[i]) {
            Some(place) => {
                assert(crate::config::names(known@)[place as int] == list@[i as int].name@);
                rest.push(list[i].clone());
            },
            None => {
                unknown.push(list[i].clone());
            },
        }
        i += 1;
    }
    assert(list@.take(i as int) =~= list@);
    (unknown, rest)
}

impl QueriersServer {
    /// No website is probed twice, no website has two results, and all results are shown.
    pub open spec fn wf(&self) -> bool {
        &&& crate::config::names(self.queriers@).no_duplicates()
        &&& value_names(self.values@).no_duplicates()
        &&& self.old_values@ == self.values@
    }

    /// A prober that has nothing to do yet.
    pub fn new() -> (server: QueriersServer)
        ensures
            server.wf(),
            server.queriers@ == Seq::<Website>::empty(),
            server.values@ == Seq::<(Website, MetricResult)>::empty(),
            server.old_values@ == Seq::<(Website, MetricResult)>::empty(),
    {
        QueriersServer { queriers: Vec::new(), values: Vec::new(), old_values: Vec::new() }
    }

    /// Takes in the result of probing `website`, where `None` stands for a probe that did not end
    /// in time. It replaces the earlier result of that website, is shown at once, and the website
    /// is probed again.
    pub fn take_result(&mut self, website: Website, outcome: Option<MetricResult>) -> (again: Website)
        requires
            old(self).wf(),
        ensures
            final(self).wf(),
            again == website,
            final(self).queriers@ == if crate::config::names(old(self).queriers@).contains(
                website.name@,
            ) {
                old(self).queriers@
            } else {
                old(self).queriers@.push(website)
            },
            ({
                let result = match outcome {
                    Some(result) => result,
                    None => MetricResult::Timeout,
                };
                &&& final(self).values@ == store(old(self).values@, website, result)
                &&& results(final(self).values@) == results(old(self).values@).insert(
                    website.name@,
                    result,
                )
            }),
            final(self).old_values@ == final(self).values@,
    {
        let result = or_timeout(outcome);
        let ghost before = self.values@;
        match value_position(&self.values, &website) {
            Some(i) => {
                let key = self.values[i].0.clone();
                self.values.set(i, (key, result));
                proof {
                    lemma_stored(before, key, i as int, result);
                    assert(value_names(before).contains(website.name@));
                    assert(value_names(before).index_of(website.name@) == i);
                }
            },
            None => {
                self.values.push((website.clone(), result));
                proof {
                    lemma_stored(before, website, before.len() as int, result);
                }
            },
        }
        self.old_values = copy_values(&self.values);
        match position(&self.queriers, &website) {
            Some(i) => {
                assert(crate::config::names(self.queriers@)[i as int] == website.name@);
            },
            None => {
                let ghost probed = crate::config::names(self.queriers@);
                self.queriers.push(website.clone());
                assert(crate::config::names(self.queriers@) =~= probed.push(website.name@));
            },
        }
        website
    }

    /// Takes in a new list of websites: those that are not probed yet are to be probed from now
    /// on, and those that are gone are dropped. A website that is probed already stays as it is,
    /// whatever else the list says of it. Results are kept.
    pub fn take_reload(&mut self, websites_list: &Vec<Website>) -> (plan: ReloadPlan)
        requires
            old(self).wf(),
            crate::config::names(websites_list@).no_duplicates(),
        ensures
            final(self).wf(),
            plan.added@ == unknown_in(websites_list@, old(self).queriers@),
            plan.deleted@ == unknown_in(old(self).queriers@, websites_list@),
            final(self).queriers@ == known_in(old(self).queriers@, websites_list@) + plan.added@,
            crate::config::same_names(final(self).queriers@, websites_list@),
            final(self).values == old(self).values,
            final(self).old_values@ == final(self).values@,
    {
        let (added, _) = split_known(websites_list, &self.queriers);
        let (deleted, mut queriers) = split_known(&self.queriers, websites_list);
        let mut i: usize = 0;
        let ghost kept = queriers@;
        while i < added.len()
            invariant
                i <= added.len(),
                queriers@ == kept + added@.take(i as int),
            decreases added.len() - i,
        {
            queriers.push(added[i].clone());
            assert(added@.take(i + 1) =~= added@.take(i as int).push(added@[i as int]));
            i += 1;
        }
        assert(added@.take(i as int) =~= added@);
        proof {
            lemma_reloaded(self.queriers@, websites_list@);
        }
        self.queriers = queriers;
        self.old_values = copy_values(&self.values);
        ReloadPlan { added, deleted }
    }
}

/// The result of a website is the one that stands beside it.
proof fn lemma_result_at(values: Seq<(Website, MetricResult)>, i: int)
    requires
        value_names(values).no_duplicates(),
        0 <= i < values.len(),
    ensures
        results(values).contains_key(values[i].0.name@),
        results(values)[values[i].0.name@] == values[i].1,
{
    let name = values[i].0.name@;
    assert(value_names(values)[i] == name);
    assert(value_names(values).contains(name));
    let j = value_names(values).index_of(name);
    assert(0 <= j < values.len() && value_names(values)[j] == name);
}

/// Putting `result` at the place `i` of the results, or behind them, stores it under the name of
/// the website there.
proof fn lemma_stored(
    before: Seq<(Website, MetricResult)>,
    website: Website,
    i: int,
    result: MetricResult,
)
    requires
        value_names(before).no_duplicates(),
        0 <= i <= before.len(),
        i < before.len() ==> before[i].0 == website,
        i == before.len() ==> !value_names(before).contains(website.name@),
    ensures
        ({
            let after = if i < before.len() {
                before.update(i, (website, result))
            } else {
                before.push((website, result))
            };
            &&& value_names(after).no_duplicates()
            &&& results(after) == results(before).insert(website.name@, result)
        }),
{
    let after = if i < before.len() {
        before.update(i, (website, result))
    } else {
        before.push((website, result))
    };
    if i < before.len() {
        assert(value_names(after) =~= value_names(before));
    } else {
        assert(value_names(after) =~= value_names(before).push(website.name@));
        assert forall|j: int, k: int|
            0 <= j < after.len() && 0 <= k < after.len() && j != k implies value_names(after)[j]
            != value_names(after)[k] by {
            if j == i || k == i {
                let other = if j == i {
                    k
                } else {
                    j
                };
                assert(value_names(before)[other] == value_names(after)[other]);
                assert(value_names(before).contains(value_names(after)[other]));
            }
        }
    }
    let expected = results(before).insert(website.name@, result);
    assert forall|name: Seq<char>| results(after).contains_key(name) implies {
        &&& #[trigger] expected.contains_key(name)
        &&& results(after)[name] == expected[name]
    } by {
        let j = value_names(after).index_of(name);
        assert(0 <= j < after.len() && value_names(after)[j] == name);
        lemma_result_at(after, j);
        if j != i {
            assert(before[j] == after[j]);
            lemma_result_at(before, j);
            assert(value_names(after)[i] == website.name@);
        }
    }
    assert forall|name: Seq<char>| #[trigger] expected.contains_key(name) implies results(
        after,
    ).contains_key(name) by {
        if name == website.name@ {
            assert(value_names(after)[i] == name);
        } else {
            let j = value_names(before).index_of(name);
            assert(0 <= j < before.len() && value_names(before)[j] == name);
            assert(value_names(after)[j] == name);
        }
    }
    assert(results(after) =~= expected);
}

/// The names that are left of a list when it is filtered.
proof fn lemma_filtered_names(list: Seq<Website>, keep: spec_fn(Website) -> bool)
    ensures
        crate::config::names(list).no_duplicates() ==> crate::config::names(
            list.filter(keep),
        ).no_duplicates(),
        forall|name: Seq<char>| #[trigger]
            crate::config::names(list.filter(keep)).contains(name) <==> exists|i: int|
                0 <= i < list.len() && keep(list[i]) && #[trigger] crate::config::names(list)[i]
                    == name,
    decreases list.len(),
{
    reveal(Seq::filter);
    if list.len() > 0 {
        let rest = list.drop_last();
        lemma_filtered_names(rest, keep);
        let left = crate::config::names(list.filter(keep));
        let left_of_rest = crate::config::names(rest.filter(keep));
        let all = crate::config::names(list);
        let all_of_rest = crate::config::names(rest);
        assert(all_of_rest =~= all.drop_last());
        let last = list.last();
        if keep(last) {
            assert(left =~= left_of_rest.push(last.name@));
        }
        assert forall|name: Seq<char>| #[trigger] left.contains(name) <==> exists|i: int|
            0 <= i < list.len() && keep(list[i]) && #[trigger] all[i] == name by {
            if left.contains(name) {
                let k = choose|k: int| 0 <= k < left.len() && left[k] == name;
                if keep(last) && k == left.len() - 1 {
                    assert(all[list.len() - 1] == name);
                } else {
                    assert(left_of_rest[k] == name);
                    assert(left_of_rest.contains(name));
                    let i = choose|i: int|
                        0 <= i < rest.len() && keep(rest[i]) && #[trigger] all_of_rest[i] == name;
                    assert(all[i] == name);
                }
            }
            if exists|i: int| 0 <= i < list.len() && keep(list[i]) && #[trigger] all[i] == name {
                let i = choose|i: int|
                    0 <= i < list.len() && keep(list[i]) && #[trigger] all[i] == name;
                if i < rest.len() {
                    assert(rest[i] == list[i]);
                    assert(all_of_rest[i] == name);
                    assert(left_of_rest.contains(name));
                    let k = choose|k: int| 0 <= k < left_of_rest.len() && left_of_rest[k] == name;
                    assert(left[k] == name);
                } else {
                    assert(left[left.len() - 1] == name);
                }
            }
        }
        if all.no_duplicates() {
            assert(all_of_rest.no_duplicates()) by {
                assert forall|i: int, j: int|
                    0 <= i < rest.len() && 0 <= j < rest.len() && i != j implies all_of_rest[i]
                    != all_of_rest[j] by {
                    assert(all[i] != all[j]);
                }
            }
            if keep(last) {
                assert(!left_of_rest.contains(last.name@)) by {
                    if left_of_rest.contains(last.name@) {
                        let i = choose|i: int|
                            0 <= i < rest.len() && keep(rest[i]) && #[trigger] all_of_rest[i]
                                == last.name@;
                        assert(all[i] == all[list.len() - 1]);
                    }
                }
                assert forall|i: int, j: int|
                    0 <= i < left.len() && 0 <= j < left.len() && i != j implies left[i]
                    != left[j] by {
                    if i < left_of_rest.len() {
                        assert(left_of_rest.contains(left_of_rest[i]));
                    }
                    if j < left_of_rest.len() {
                        assert(left_of_rest.contains(left_of_rest[j]));
                    }
                }
            }
        }
    }
}

/// What is probed after a reload: every website of the list once, and nothing else.
proof fn lemma_reloaded(queriers: Seq<Website>, list: Seq<Website>)
    requires
        crate::config::names(queriers).no_duplicates(),
        crate::config::names(list).no_duplicates(),
    ensures
        ({
            let after = known_in(queriers, list) + unknown_in(list, queriers);
            &&& crate::config::names(after).no_duplicates()
            &&& crate::config::same_names(after, list)
        }),
{
    let kept = known_in(queriers, list);
    let added = unknown_in(list, queriers);
    let after = kept + added;
    lemma_filtered_names(
        queriers,
        |website: Website| crate::config::names(list).contains(website.name@),
    );
    lemma_filtered_names(
        list,
        |website: Website| !crate::config::names(queriers).contains(website.name@),
    );
    let kept_names = crate::config::names(kept);
    let added_names = crate::config::names(added);
    let after_names = crate::config::names(after);
    let list_names = crate::config::names(list);
    let querier_names = crate::config::names(queriers);
    assert(after_names =~= kept_names + added_names);
    assert forall|name: Seq<char>| #[trigger] after_names.contains(name) <==> list_names.contains(
        name,
    ) by {
        if after_names.contains(name) {
            let k = choose|k: int| 0 <= k < after_names.len() && after_names[k] == name;
            if k < kept_names.len() {
                assert(kept_names[k] == name);
                assert(kept_names.contains(name));
            } else {
                assert(added_names[k - kept_names.len()] == name);
                assert(added_names.contains(name));
            }
        }
        if list_names.contains(name) {
            let i = choose|i: int| 0 <= i < list_names.len() && list_names[i] == name;
            if querier_names.contains(name) {
                let j = choose|j: int| 0 <= j < querier_names.len() && querier_names[j] == name;
                assert(querier_names[j] == name);
                assert(kept_names.contains(name));
                let k = choose|k: int| 0 <= k < kept_names.len() && kept_names[k] == name;
                assert(after_names[k] == name);
            } else {
                assert(list_names[i] == name);
                assert(added_names.contains(name));
                let k = choose|k: int| 0 <= k < added_names.len() && added_names[k] == name;
                assert(after_names[kept_names.len() + k] == name);
            }
        }
    }
    assert forall|i: int, j: int|
        0 <= i < after_names.len() && 0 <= j < after_names.len() && i
            < j implies after_names[i] != after_names[j] by {
        if i < kept_names.len() && kept_names.len() <= j {
            assert(kept_names.contains(kept_names[i]));
            assert(added_names.contains(added_names[j - kept_names.len()]));
        }
    }
}

/// What a request over HTTP is about.
#[derive(Debug, Clone, Copy, PartialEq, Eq, Structural)]
pub enum Route {
    /// The results are to be shown.
    Metrics,
    /// The configuration is to be reloaded.
    Reload,
    /// Anything else.
    Hint,
}

/// What a request with this method and this path is about.
pub open spec fn route_of(method: Seq<char>, path: Seq<char>) -> Route {
    if method == "GET"@ && path == "/metrics"@ {
        Route::Metrics
    } else if method == "POST"@ && path == "/server-reload"@ {
        Route::Reload
    } else {
        Route::Hint
    }
}

/// Decides what a request is about.
pub fn route(method: &str, path: &str) -> (route: Route)
    ensures
        route == route_of(method@, path@),
{
    if same_text(method, "GET") && same_text(path, "/metrics") {
        Route::Metrics
    } else if same_text(method, "POST") && same_text(path, "/server-reload") {
        Route::Reload
    } else {
        Route::Hint
    }
}

/// An answer over HTTP.
#[derive(Debug, PartialEq, Eq)]
pub struct HttpReply {
    pub status: u16,
    pub body: String,
}

/// What the web server shows.
pub struct WebServerState {
    pub values: Vec<(Website, MetricResult)>,
}

/// The status of the reply to a request, where `sent` tells whether a request to reload could be
/// passed on.
pub open spec fn reply_status(route: Route, sent: Result<(), ServerReload>) -> u16 {
    if route == Route::Reload && sent is Err {
        500
    } else {
        200
    }
}

/// The body of the reply to a request, where `sent` tells whether a request to reload could be
/// passed on.
pub open spec fn reply_body(
    values: Seq<(Website, MetricResult)>,
    route: Route,
    sent: Result<(), ServerReload>,
) -> Seq<char> {
    match route {
        Route::Metrics => crate::report::report(values),
        Route::Reload => if sent is Ok {
            "Server reloading requested, check the server logs"@
        } else {
            ServerError::ReloadMessage.text()
        },
        Route::Hint => "Get metrics at /metrics"@,
    }
}

impl WebServerState {
    /// The answer to a request to reload, given whether it could be passed on.
    pub fn ask_config_reloading(sent: Result<(), ServerReload>) -> (answer: Result<
        String,
        ServerError,
    >)
        ensures
            match sent {
                Ok(_) => answer matches Ok(text) && text@
                    == "Server reloading requested, check the server logs"@,
                Err(_) => answer == Err::<String, _>(ServerError::ReloadMessage),
            },
    {
        match sent {
            Ok(_) => Ok("Server reloading requested, check the server logs".to_owned()),
            Err(_) => Err(ServerError::ReloadMessage),
        }
    }

    /// The answer to a request for the results.
    pub fn get_results(&self) -> (answer: Result<String, ServerError>)
        ensures
            answer matches Ok(text) && text@ == crate::report::report(self.values@),
    {
        Ok(gen_metrics(&self.values))
    }

    /// The reply to a request, given whether a request to reload could be passed on.
    pub fn reply(&self, route: Route, sent: Result<(), ServerReload>) -> (reply: HttpReply)
        ensures
            reply.status == reply_status(route, sent),
            reply.body@ == reply_body(self.values@, route, sent),
    {
        let res = match route {
            Route::Metrics => self.get_results(),
            Route::Reload => WebServerState::ask_config_reloading(sent),
            Route::Hint => Ok("Get metrics at /metrics".to_owned()),
        };
        respond(res)
    }
}

/// Puts an answer into a reply. An error is an internal one, and the reply describes it.
pub fn respond(res: Result<String, ServerError>) -> (reply: HttpReply)
    ensures
        match res {
            Ok(text) => reply.status == 200 && reply.body == text,
            Err(e) => reply.status == 500 && reply.body@ == e.text(),
        },
{
    match res {
        Ok(body) => HttpReply { status: 200, body },
        Err(e) => HttpReply { status: 500, body: e.message() },
    }
}

/// The configuration that is in force.
pub struct App {
    pub conf: GlobalConfig,
    pub websites_list: Vec<Website>,
}

/// The services to start: a web server on this endpoint, if there is one, and a server that looks
/// up the addresses of hosts, and keeps them for this time.
#[derive(Debug, Clone, Copy, PartialEq, Eq, Structural)]
pub struct ServicePlan {
    pub web_server: Option<SocketAddr>,
    pub dns_refresh: Duration,
}

/// The endpoint that a configuration wants the web server on.
pub open spec fn endpoint(global: GlobalConfig) -> SocketAddr {
    SocketAddr { ip: global.listen_addr, port: global.listen_port }
}

/// A configuration asks for nothing new.
pub open spec fn no_change(
    conf: GlobalConfig,
    websites: Seq<Website>,
    new_config: Config,
) -> bool {
    &&& new_config.global == conf
    &&& crate::config::same_names(new_config.websites@, websites)
}

/// The settings and the websites that are in force after a configuration was loaded.
pub open spec fn loaded(
    conf: GlobalConfig,
    websites: Seq<Website>,
    new_config: Config,
) -> (GlobalConfig, Seq<Website>) {
    if no_change(conf, websites, new_config) {
        (conf, websites)
    } else {
        (new_config.global, new_config.websites@)
    }
}

/// The services to start for a new configuration that takes the place of `conf`.
pub open spec fn plan_for(conf: GlobalConfig, new_conf: GlobalConfig) -> ServicePlan {
    ServicePlan {
        web_server: if endpoint(new_conf) != endpoint(conf) {
            Some(endpoint(new_conf))
        } else {
            None
        },
        dns_refresh: Duration { nanos: (new_conf.dns_refresh_time_seconds * 1_000_000_000) as u128 },
    }
}

impl App {
    /// No two websites have the same name.
    pub open spec fn wf(&self) -> bool {
        crate::config::names(self.websites_list@).no_duplicates()
    }

    /// Puts a configuration in force, and tells which services to start.
    pub fn new(config: Config) -> (started: (App, ServicePlan))
        requires
            config.wf(),
        ensures
            started.0.wf(),
            started.0.conf == config.global,
            started.0.websites_list == config.websites,
            started.1.web_server == Some(endpoint(config.global)),
            started.1.dns_refresh.nanos == config.global.dns_refresh_time_seconds * 1_000_000_000,
    {
        let plan = ServicePlan {
            web_server: Some(
                SocketAddr { ip: config.global.listen_addr, port: config.global.listen_port },
            ),
            dns_refresh: Duration::from_secs(config.global.dns_refresh_time_seconds),
        };
        (App { conf: config.global, websites_list: config.websites }, plan)
    }

    /// Puts a new configuration in force, and tells which services to start. Nothing happens if
    /// the configuration could not be loaded (`None`), or asks for nothing new.
    pub fn load_new_config(&mut self, new_config: Option<Config>) -> (plan: Option<ServicePlan>)
        requires
            old(self).wf(),
            new_config matches Some(config) ==> config.wf(),
        ensures
            final(self).wf(),
            match new_config {
                Some(config) => {
                    &&& (final(self).conf, final(self).websites_list@) == loaded(
                        old(self).conf,
                        old(self).websites_list@,
                        config,
                    )
                    &&& plan == if no_change(old(self).conf, old(self).websites_list@, config) {
                        None
                    } else {
                        Some(plan_for(old(self).conf, config.global))
                    }
                },
                None => plan is None && *final(self) == *old(self),
            },
    {
        match new_config {
            Some(config) => {
                if config.global == self.conf && same_websites(
                    &config.websites,
                    &self.websites_list,
                ) {
                    return None;
                }
                let web_server = if config.global.listen_port != self.conf.listen_port
                    || config.global.listen_addr != self.conf.listen_addr {
                    Some(
                        SocketAddr {
                            ip: config.global.listen_addr,
                            port: config.global.listen_port,
                        },
                    )
                } else {
                    None
                };
                let dns_refresh = Duration::from_secs(config.global.dns_refresh_time_seconds);
                self.websites_list = config.websites;
                self.conf = config.global;
                Some(ServicePlan { web_server, dns_refresh })
            },
            None => None,
        }
    }
}

/// Only a POST request can make the server reload: a GET request never does.
pub proof fn law_get_does_not_reload(method: Seq<char>, path: Seq<char>)
    ensures
        route_of(method, path) == Route::Reload <==> method == "POST"@ && path
            == "/server-reload"@,
        method == "GET"@ ==> route_of(method, path) != Route::Reload,
{
    reveal_strlit("GET");
    reveal_strlit("POST");
    reveal_strlit("/metrics");
    reveal_strlit("/server-reload");
    assert("GET"@.len() != "POST"@.len());
}

/// Whatever was in force, loading the same configuration a second time changes nothing.
pub proof fn law_reload_is_idempotent(conf: GlobalConfig, websites: Seq<Website>, config: Config)
    ensures
        ({
            let (new_conf, new_websites) = loaded(conf, websites, config);
            no_change(new_conf, new_websites, config)
        }),
{
}

/// The web server is started anew if and only if its address or its port is another one.
pub proof fn law_web_server_restarts(conf: GlobalConfig, new_conf: GlobalConfig)
    ensures
        plan_for(conf, new_conf).web_server is Some <==> (new_conf.listen_port != conf.listen_port
            || new_conf.listen_addr != conf.listen_addr),
{
}

/// A result that comes in is what a request for the results is told of that website from then on.
pub proof fn law_result_is_served(
    values: Seq<(Website, MetricResult)>,
    website: Website,
    result: MetricResult,
    sent: Result<(), ServerReload>,
)
    ensures
        ({
            let route = route_of("GET"@, "/metrics"@);
            let body = reply_body(store(values, website, result), route, sent);
            &&& reply_status(route, sent) == 200
            &&& crate::report::tells(body, website.name@, result)
        }),
{
    let stored = store(values, website, result);
    let place = if value_names(values).contains(website.name@) {
        value_names(values).index_of(website.name@)
    } else {
        values.len() as int
    };
    assert(stored[place].1 == result);
    crate::report::law_report_is_complete(stored, place);
}

/// A result that comes in is the result of its website from then on, and changes nothing of what is
/// known of other websites.
pub proof fn law_result_concerns_one_website(
    values: Seq<(Website, MetricResult)>,
    website: Website,
    result: MetricResult,
    other: Seq<char>,
)
    requires
        value_names(values).no_duplicates(),
        other != website.name@,
    ensures
        results(store(values, website, result)) == results(values).insert(website.name@, result),
        results(store(values, website, result)).contains_key(other) == results(values).contains_key(
            other,
        ),
        results(values).contains_key(other) ==> results(store(values, website, result))[other]
            == results(values)[other],
{
    if value_names(values).contains(website.name@) {
        let place = value_names(values).index_of(website.name@);
        lemma_stored(values, values[place].0, place, result);
    } else {
        lemma_stored(values, website, values.len() as int, result);
    }
}

/// A second reload with the same list of websites neither starts nor drops a probe.
pub proof fn law_second_reload_is_idle(queriers: Seq<Website>, list: Seq<Website>)
    requires
        crate::config::names(queriers).no_duplicates(),
        crate::config::names(list).no_duplicates(),
    ensures
        ({
            let after = known_in(queriers, list) + unknown_in(list, queriers);
            &&& unknown_in(list, after).len() == 0
            &&& unknown_in(after, list).len() == 0
        }),
{
    let after = known_in(queriers, list) + unknown_in(list, queriers);
    lemma_reloaded(queriers, list);
    lemma_nothing_unknown(list, after);
    lemma_nothing_unknown(after, list);
}

/// If all names of a list are known, nothing of it is unknown.
proof fn lemma_nothing_unknown(list: Seq<Website>, known: Seq<Website>)
    requires
        forall|name: Seq<char>| #[trigger]
            crate::config::names(list).contains(name) ==> crate::config::names(known).contains(name),
    ensures
        unknown_in(list, known).len() == 0,
{
    let left = unknown_in(list, known);
    lemma_filtered_names(
        list,
        |website: Website| !crate::config::names(known).contains(website.name@),
    );
    if left.len() > 0 {
        let name = crate::config::names(left)[0];
        assert(crate::config::names(left).contains(name));
        let i = choose|i: int|
            0 <= i < list.len() && !crate::config::names(known).contains(list[i].name@)
                && #[trigger] crate::config::names(list)[i] == name;
        assert(crate::config::names(list).contains(name));
    }
}

/// A website that is probed and still listed stays as it is, also where the list describes it
/// otherwise.
pub proof fn law_reload_keeps_probes(queriers: Seq<Website>, list: Seq<Website>, i: int)
    requires
        0 <= i < queriers.len(),
        crate::config::names(list).contains(queriers[i].name@),
    ensures
        (known_in(queriers, list) + unknown_in(list, queriers)).contains(queriers[i]),
{
    let keep = |website: Website| crate::config::names(list).contains(website.name@);
    let kept = known_in(queriers, list);
    queriers.lemma_filter_contains(keep, i);
    let k = choose|k: int| 0 <= k < kept.len() && kept[k] == queriers[i];
    assert((kept + unknown_in(list, queriers))[k] == queriers[i]);
}

/// What is left of a list when it is filtered: the websites of it that are to be kept, as they are.
proof fn lemma_filtered(list: Seq<Website>, keep: spec_fn(Website) -> bool)
    ensures
        forall|w: Website| #[trigger]
            list.filter(keep).contains(w) <==> list.contains(w) && keep(w),
{
    assert forall|w: Website| #[trigger] list.filter(keep).contains(w) <==> list.contains(w) && keep(
        w,
    ) by {
        if list.filter(keep).contains(w) {
            list.lemma_filter_contains_rev(keep, w);
            let k = choose|k: int| 0 <= k < list.filter(keep).len() && list.filter(keep)[k] == w;
            list.lemma_filter_pred(keep, k);
        }
        if list.contains(w) && keep(w) {
            let i = choose|i: int| 0 <= i < list.len() && list[i] == w;
            list.lemma_filter_contains(keep, i);
        }
    }
}

/// A reload starts to probe exactly the websites of the list whose names are not probed yet, drops
/// exactly the probes whose names are not in the list, and keeps the others. All of them are taken
/// as they are, with their URLs and their time limits.
pub proof fn law_reload_takes_websites_as_they_are(queriers: Seq<Website>, list: Seq<Website>)
    ensures
        forall|w: Website| #[trigger]
            unknown_in(list, queriers).contains(w) <==> list.contains(w) && !exists|j: int|
                0 <= j < queriers.len() && (#[trigger] queriers[j]).name@ == w.name@,
        forall|w: Website| #[trigger]
            known_in(queriers, list).contains(w) <==> queriers.contains(w) && exists|j: int|
                0 <= j < list.len() && (#[trigger] list[j]).name@ == w.name@,
        unknown_in(list, queriers).len() <= list.len(),
        unknown_in(list, queriers) == list.filter(
            |w: Website| !queriers.map_values(|q: Website| q.name@).contains(w.name@),
        ),
        known_in(queriers, list) == queriers.filter(
            |w: Website| list.map_values(|q: Website| q.name@).contains(w.name@),
        ),
        known_in(queriers, list).len() + unknown_in(queriers, list).len() == queriers.len(),
{
    crate::config::law_names(list);
    crate::config::law_names(queriers);
    lemma_filtered(
        list,
        |website: Website| !crate::config::names(queriers).contains(website.name@),
    );
    lemma_filtered(
        queriers,
        |website: Website| crate::config::names(list).contains(website.name@),
    );
    list.lemma_filter_len(
        |website: Website| !crate::config::names(queriers).contains(website.name@),
    );
    lemma_split_len(queriers, list);
    assert(crate::config::names(queriers) =~= queriers.map_values(|q: Website| q.name@));
    assert(crate::config::names(list) =~= list.map_values(|q: Website| q.name@));
}

/// Every website of a list is either known or unknown.
proof fn lemma_split_len(list: Seq<Website>, known: Seq<Website>)
    ensures
        known_in(list, known).len() + unknown_in(list, known).len() == list.len(),
    decreases list.len(),
{
    reveal(Seq::filter);
    if list.len() > 0 {
        lemma_split_len(list.drop_last(), known);
    }
}

/// Storing a result puts it under the name of its website, in place of an earlier one, and leaves
/// all results of other websites where they are.
pub proof fn law_result_is_stored(
    values: Seq<(Website, MetricResult)>,
    website: Website,
    result: MetricResult,
)
    ensures
        ({
            let after = store(values, website, result);
            &&& values.len() <= after.len() <= values.len() + 1
            &&& exists|i: int|
                {
                    &&& 0 <= i < after.len()
                    &&& (#[trigger] after[i]).0.name@ == website.name@
                    &&& after[i].1 == result
                    &&& i == values.len() ==> after[i].0 == website
                    &&& i < values.len() ==> after[i].0 == values[i].0 && after.len()
                        == values.len()
                    &&& i == values.len() ==> forall|j: int|
                        0 <= j < values.len() ==> (#[trigger] values[j]).0.name@ != website.name@
                    &&& forall|j: int|
                        0 <= j < values.len() && j != i ==> #[trigger] after[j] == values[j]
                }
        }),
{
    let after = store(values, website, result);
    if value_names(values).contains(website.name@) {
        let place = value_names(values).index_of(website.name@);
        assert(0 <= place < values.len() && value_names(values)[place] == website.name@);
        assert(after[place].0.name@ == website.name@);
    } else {
        assert forall|j: int| 0 <= j < values.len() implies (#[trigger] values[j]).0.name@
            != website.name@ by {
            assert(value_names(values)[j] == values[j].0.name@);
        }
        assert(after[values.len() as int].0.name@ == website.name@);
    }
}

/// Once a configuration was loaded, it is in force: its settings and the names of its websites are,
/// no more and no less. Nothing is done if and only if that was so before. If something is done, the
/// websites are those of the configuration, as they are, a web server is started on the new
/// endpoint if it is not the old one, and addresses are kept for the new time.
pub proof fn law_loaded_configuration_is_in_force(
    conf: GlobalConfig,
    websites: Seq<Website>,
    config: Config,
)
    ensures
        loaded(conf, websites, config).0 == config.global,
        loaded(conf, websites, config).1.map_values(|w: Website| w.name@).to_set()
            == config.websites@.map_values(|w: Website| w.name@).to_set(),
        no_change(conf, websites, config) <==> {
            &&& conf == config.global
            &&& websites.map_values(|w: Website| w.name@).to_set()
                == config.websites@.map_values(|w: Website| w.name@).to_set()
        },
        no_change(conf, websites, config) ==> loaded(conf, websites, config).1 == websites,
        !no_change(conf, websites, config) ==> loaded(conf, websites, config).1
            == config.websites@,
        plan_for(conf, config.global).dns_refresh.nanos == config.global.dns_refresh_time_seconds
            * 1_000_000_000,
        match plan_for(conf, config.global).web_server {
            Some(endpoint) => {
                &&& endpoint.ip == config.global.listen_addr
                &&& endpoint.port == config.global.listen_port
                &&& endpoint.ip != conf.listen_addr || endpoint.port != conf.listen_port
            },
            None => {
                &&& config.global.listen_addr == conf.listen_addr
                &&& config.global.listen_port == conf.listen_port
            },
        },
{
    crate::config::law_same_names(config.websites@, websites);
}

/// Every request is answered: one for the results with the report, one to reload with whether it
/// was passed on, and any other with a hint. Only a request to reload that could not be passed on is
/// an error.
pub proof fn law_requests_are_answered(
    method: Seq<char>,
    path: Seq<char>,
    values: Seq<(Website, MetricResult)>,
    sent: Result<(), ServerReload>,
)
    ensures
        ({
            let route = route_of(method, path);
            let status = reply_status(route, sent);
            let body = reply_body(values, route, sent);
            if method == "GET"@ && path == "/metrics"@ {
                status == 200 && body == crate::report::report(values)
            } else if method == "POST"@ && path == "/server-reload"@ {
                if sent is Ok {
                    status == 200 && body == "Server reloading requested, check the server logs"@
                } else {
                    status == 500 && body == "sending a reload message failed"@
                }
            } else {
                status == 200 && body == "Get metrics at /metrics"@
            }
        }),
        route_of(method, path) == Route::Metrics <==> method == "GET"@ && path == "/metrics"@,
        route_of(method, path) == Route::Reload <==> method == "POST"@ && path
            == "/server-reload"@,
{
    reveal_strlit("GET");
    reveal_strlit("POST");
    assert("GET"@.len() != "POST"@.len());
}

/// The results by name: there is one for each name that stands beside a result, and if no name
/// stands there twice, it is the one that stands beside it.
pub proof fn law_results_by_name(values: Seq<(Website, MetricResult)>)
    ensures
        value_names(values) == values.map_values(|v: (Website, MetricResult)| v.0.name@),
        results(values).dom() == values.map_values(
            |v: (Website, MetricResult)| v.0.name@,
        ).to_set(),
        values.map_values(|v: (Website, MetricResult)| v.0.name@).no_duplicates() ==> forall|i: int|
            0 <= i < values.len() ==> results(values)[(#[trigger] values[i]).0.name@]
                == values[i].1,
{
    let all = values.map_values(|v: (Website, MetricResult)| v.0.name@);
    assert(value_names(values) =~= all);
    assert(results(values).dom() =~= all.to_set());
    if all.no_duplicates() {
        assert forall|i: int| 0 <= i < values.len() implies results(values)[(
        #[trigger] values[i]).0.name@] == values[i].1 by {
            lemma_result_at(values, i);
        }
    }
}

/// At every time no website is probed twice, none has two results, and what is shown is what is
/// known; and no website of the configuration in force stands there twice.
pub proof fn law_invariants(prober: QueriersServer, app: App)
    ensures
        prober.wf() <==> {
            &&& prober.queriers@.map_values(|w: Website| w.name@).no_duplicates()
            &&& prober.values@.map_values(
                |v: (Website, MetricResult)| v.0.name@,
            ).no_duplicates()
            &&& prober.old_values@ == prober.values@
        },
        app.wf() <==> app.websites_list@.map_values(|w: Website| w.name@).no_duplicates(),
{
    assert(crate::config::names(prober.queriers@) =~= prober.queriers@.map_values(
        |w: Website| w.name@,
    ));
    assert(value_names(prober.values@) =~= prober.values@.map_values(
        |v: (Website, MetricResult)| v.0.name@,
    ));
    assert(crate::config::names(app.websites_list@) =~= app.websites_list@.map_values(
        |w: Website| w.name@,
    ));
}

/// The endpoint of a configuration is the address and the port that stand in it.
pub proof fn law_endpoint(global: GlobalConfig)
    ensures
        endpoint(global).ip == global.listen_addr,
        endpoint(global).port == global.listen_port,
{
}

} // verus!
