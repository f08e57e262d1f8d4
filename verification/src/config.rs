//! The configuration: which websites to probe, and how to serve the results.
use vstd::prelude::*;

use crate::net::IpAddr;
use crate::query_providers::{HttpStruct, UrlError};
use crate::time::Duration;

verus! {

/// A website to probe. Its name identifies it: two websites with one name count as equal.
#[derive(Debug)]
pub struct Website {
    pub name: String,
    pub url: HttpStruct,
    pub check_time_seconds: u64,
}

impl Clone for Website {
    fn clone(&self) -> (copy: Website)
        ensures
            copy == *self,
    {
        Website {
            name: self.name.clone(),
            url: self.url.clone(),
            check_time_seconds: self.check_time_seconds,
        }
    }
}

impl Website {
    /// The time that a probe may take.
    pub fn time_limit(&self) -> (limit: Duration)
        ensures
            limit.nanos == self.check_time_seconds * 1_000_000_000,
    {
        Duration::from_secs(self.check_time_seconds)
    }
}

impl PartialEq for Website {
    fn eq(&self, other: &Self) -> (equal: bool) {
        self.name == other.name
    }
}

impl vstd::std_specs::cmp::PartialEqSpecImpl for Website {
    open spec fn obeys_eq_spec() -> bool {
        true
    }

    open spec fn eq_spec(&self, other: &Self) -> bool {
        self.name@ == other.name@
    }
}

impl Eq for Website {

}

/// The names of the websites, in their order.
pub open spec fn names(websites: Seq<Website>) -> Seq<Seq<char>> {
    Seq::new(websites.len(), |i: int| websites[i].name@)
}

/// The settings that do not concern a single website.
#[derive(Debug, Clone, Copy, PartialEq, Eq, Structural)]
pub struct GlobalConfig {
    pub listen_port: u16,
    pub listen_addr: IpAddr,
    pub enable_tracing: bool,
    pub dns_refresh_time_seconds: u64,
}

/// The number of seconds that a probe may take, unless it is configured.
pub fn default_checktime() -> (seconds: u64)
    ensures
        seconds == 15,
{
    15
}

/// The port to listen on, unless it is configured.
pub fn default_port() -> (port: u16)
    ensures
        port == 9666,
{
    9666
}

/// Whether traces are recorded, unless it is configured.
pub fn default_tracing_enabled() -> (enabled: bool)
    ensures
        enabled == false,
{
    false
}

/// The number of seconds for which an address is kept, unless it is configured.
pub fn default_dns_refresh_time() -> (seconds: u64)
    ensures
        seconds == 120,
{
    120
}

/// The address to listen on, unless it is configured: any address of this host.
pub fn default_addr() -> (addr: IpAddr)
    ensures
        addr == IpAddr::V4(0),
{
    IpAddr::V4(0)
}

impl Default for GlobalConfig {
    fn default() -> (global: Self)
        ensures
            global == (GlobalConfig {
                listen_port: 9666,
                listen_addr: IpAddr::V4(0),
                enable_tracing: false,
                dns_refresh_time_seconds: 120,
            }),
    {
        GlobalConfig {
            listen_port: default_port(),
            listen_addr: default_addr(),
            enable_tracing: default_tracing_enabled(),
            dns_refresh_time_seconds: default_dns_refresh_time(),
        }
    }
}

/// A website as the configuration file describes it.
#[derive(Debug)]
pub struct RawWebsite {
    pub name: String,
    pub url: String,
    pub check_time_seconds: u64,
}

/// What a configuration file says.
#[derive(Debug)]
pub struct SerializedConfig {
    pub websites: Vec<RawWebsite>,
    pub global: GlobalConfig,
}

/// A configuration that can be used: no two websites have the same name.
#[derive(Debug)]
pub struct Config {
    pub websites: Vec<Website>,
    pub global: GlobalConfig,
}

impl Config {
    /// No two websites have the same name.
    pub open spec fn wf(&self) -> bool {
        names(self.websites@).no_duplicates()
    }
}

/// What is wrong with a configuration.
#[derive(Debug, PartialEq, Eq)]
pub enum ConfigError {
    /// The URL of a website is no target for a probe.
    Url(UrlError),
    /// These names stand for more than one website.
    DuplicateNames(Vec<String>),
}

/// `raw` describes `website`, given what its URL stands for.
pub open spec fn describes(
    raw: RawWebsite,
    target: Result<Seq<char>, UrlError>,
    website: Website,
) -> bool {
    &&& website.name@ == raw.name@
    &&& target == Ok::<_, UrlError>(website.url.query_url@)
    &&& website.check_time_seconds == raw.check_time_seconds
}

/// What the URL in the description of a website stands for.
pub open spec fn raw_target(raw: RawWebsite) -> Result<Seq<char>, UrlError> {
    crate::query_providers::target_of(crate::query_providers::url_of(raw.url@))
}

/// Reads the descriptions of the websites. The first URL that is no target is reported.
pub fn read_websites(raw: &Vec<RawWebsite>) -> (websites: Result<Vec<Website>, UrlError>)
    ensures
        match websites {
            Ok(websites) => {
                &&& websites@.len() == raw@.len()
                &&& forall|i: int|
                    0 <= i < raw@.len() ==> describes(
                        #[trigger] raw@[i],
                        raw_target(raw@[i]),
                        websites@[i],
                    )
            },
            Err(e) => exists|i: int|
                {
                    &&& 0 <= i < raw@.len()
                    &&& raw_target(#[trigger] raw@[i]) == Err::<Seq<char>, _>(e)
                    &&& forall|j: int| 0 <= j < i ==> raw_target(#[trigger] raw@[j]) is Ok
                },
        },
{
    let mut websites: Vec<Website> = Vec::new();
    let mut i: usize = 0;
    while i < raw.len()
        invariant
            i <= raw.len(),
            websites@.len() == i,
            forall|j: int|
                0 <= j < i ==> describes(#[trigger] raw@[j], raw_target(raw@[j]), websites@[j]),
        decreases raw.len() - i,
    {
        match HttpStruct::from_text(raw[i].url.as_str()) {
            Ok(url) => {
                websites.push(
                    Website {
                        name: raw[i].name.clone(),
                        url,
                        check_time_seconds: raw[i].check_time_seconds,
                    },
                );
            },
            Err(e) => {
                return Err(e);
            },
        }
        i += 1;
    }
    Ok(websites)
}

/// The order of texts: by their characters, one after the other; a text comes before those that
/// continue it.
pub open spec fn text_leq(a: Seq<char>, b: Seq<char>) -> bool
    decreases a.len(),
{
    if a.len() == 0 {
        true
    } else if b.len() == 0 {
        false
    } else if a[0] == b[0] {
        text_leq(a.skip(1), b.skip(1))
    } else {
        a[0] < b[0]
    }
}

/// The texts are in ascending order.
pub open spec fn is_sorted(texts: Seq<Seq<char>>) -> bool {
    forall|i: int, j: int|
        0 <= i <= j < texts.len() ==> text_leq(#[trigger] texts[i], #[trigger] texts[j])
}

/// The texts that some references point to.
pub open spec fn texts_of(refs: Seq<&String>) -> Seq<Seq<char>> {
    Seq::new(refs.len(), |i: int| refs[i]@)
}

/// The texts of some strings.
pub open spec fn texts(strings: Seq<String>) -> Seq<Seq<char>> {
    Seq::new(strings.len(), |i: int| strings[i]@)
}

/// Calls `sort` of the standard library. Claimed of it: the names are the same as before, each as
/// often as before, and they are in ascending order.
#[verifier::external_body]
fn sort_names(names: &mut Vec<&String>)
    ensures
        texts_of(final(names)@).to_multiset() == texts_of(old(names)@).to_multiset(),
        is_sorted(texts_of(final(names)@)),
{
    names.sort();
}

/// `name` stands twice in a row.
pub open spec fn stands_twice(list: Seq<Seq<char>>, name: Seq<char>) -> bool {
    exists|i: int| 1 <= i < list.len() && list[i - 1] == name && #[trigger] list[i] == name
}

/// Whether one of the strings is the text `text`.
fn contains_text(strings: &Vec<String>, text: &String) -> (found: bool)
    ensures
        found == texts(strings@).contains(text@),
{
    let mut i: usize = 0;
    while i < strings.len()
        invariant
            i <= strings.len(),
            forall|j: int| 0 <= j < i ==> #[trigger] strings@[j]@ != text@,
        decreases strings.len() - i,
    {
        if strings[i] == *text {
            assert(texts(strings@)[i as int] == text@);
            return true;
        }
        i += 1;
    }
    false
}

/// The names that stand twice in a row, each once. In a sorted list those are the names that
/// occur more than once.
pub fn get_duplicates(sorted_vec: &Vec<&String>) -> (duplicates: Vec<String>)
    ensures
        texts(duplicates@).no_duplicates(),
        forall|name: Seq<char>| #[trigger]
            texts(duplicates@).contains(name) <==> stands_twice(texts_of(sorted_vec@), name),
{
    let mut duplicates: Vec<String> = Vec::new();
    let ghost list = texts_of(sorted_vec@);
    let mut i: usize = 1;
    while i < sorted_vec.len()
        invariant
            list == texts_of(sorted_vec@),
            1 <= i,
            texts(duplicates@).no_duplicates(),
            forall|name: Seq<char>| #[trigger]
                texts(duplicates@).contains(name) <==> exists|j: int|
                    1 <= j < i && j < list.len() && list[j - 1] == name && #[trigger] list[j] == name,
        decreases sorted_vec.len() - i,
    {
        let ghost earlier = texts(duplicates@);
        if *sorted_vec[i - 1] == *sorted_vec[i] && !contains_text(&duplicates, sorted_vec[i]) {
            duplicates.push(sorted_vec[i].clone());
            assert(texts(duplicates@) =~= earlier.push(list[i as int]));
        }
        proof {
            assert(list[i as int] == sorted_vec@[i as int]@);
            assert(list[i - 1] == sorted_vec@[i - 1]@);
            let later = texts(duplicates@);
            assert forall|name: Seq<char>| #[trigger] later.contains(name) <==> exists|j: int|
                1 <= j < i + 1 && j < list.len() && list[j - 1] == name && #[trigger] list[j]
                    == name by {
                if earlier.contains(name) {
                    let k = choose|k: int| 0 <= k < earlier.len() && earlier[k] == name;
                    assert(later[k] == name);
                }
                if later.contains(name) && !earlier.contains(name) {
                    assert(name == list[i as int]);
                }
                if list[i - 1] == list[i as int] && list[i as int] == name && !earlier.contains(name) {
                    assert(later[later.len() - 1] == name);
                }
            }
        }
        i += 1;
    }
    duplicates
}

/// `name` occurs more than once.
pub open spec fn is_repeated(list: Seq<Seq<char>>, name: Seq<char>) -> bool {
    list.to_multiset().count(name) >= 2
}

/// Two texts that are each not behind the other are equal.
proof fn lemma_text_leq_antisymmetric(a: Seq<char>, b: Seq<char>)
    requires
        text_leq(a, b),
        text_leq(b, a),
    ensures
        a == b,
    decreases a.len(),
{
    if a.len() > 0 && b.len() > 0 {
        lemma_text_leq_antisymmetric(a.skip(1), b.skip(1));
        assert(a =~= seq![a[0]] + a.skip(1));
        assert(b =~= seq![b[0]] + b.skip(1));
    } else {
        assert(a =~= b);
    }
}

/// A text counts twice if and only if it stands at two places.
proof fn lemma_count_two(list: Seq<Seq<char>>, name: Seq<char>)
    ensures
        list.to_multiset().count(name) >= 1 <==> list.contains(name),
        is_repeated(list, name) <==> exists|i: int, j: int|
            0 <= i < j < list.len() && #[trigger] list[i] == name && #[trigger] list[j] == name,
    decreases list.len(),
{
    broadcast use vstd::seq_lib::group_to_multiset_ensures;

    if list.len() > 0 {
        let rest = list.drop_last();
        lemma_count_two(rest, name);
        assert(list =~= rest.push(list.last()));
        assert(list.to_multiset() =~= rest.to_multiset().insert(list.last()));
        if is_repeated(list, name) {
            if !is_repeated(rest, name) {
                assert(list.last() == name);
                let i = choose|i: int| 0 <= i < rest.len() && rest[i] == name;
                assert(list[i] == name && list[list.len() - 1] == name);
            } else {
                let (i, j) = choose|i: int, j: int|
                    0 <= i < j < rest.len() && #[trigger] rest[i] == name && #[trigger] rest[j]
                        == name;
                assert(list[i] == name && list[j] == name);
            }
        }
        if exists|i: int, j: int|
            0 <= i < j < list.len() && #[trigger] list[i] == name && #[trigger] list[j] == name {
            let (i, j) = choose|i: int, j: int|
                0 <= i < j < list.len() && #[trigger] list[i] == name && #[trigger] list[j] == name;
            assert(rest[i] == name);
            if j < rest.len() {
                assert(rest[j] == name);
            }
        }
    }
}

/// In a sorted list, the names that stand twice in a row are those that occur more than once.
proof fn lemma_sorted_repeats(list: Seq<Seq<char>>, name: Seq<char>)
    requires
        is_sorted(list),
    ensures
        stands_twice(list, name) <==> is_repeated(list, name),
{
    lemma_count_two(list, name);
    if stands_twice(list, name) {
        let i = choose|i: int|
            1 <= i < list.len() && list[i - 1] == name && #[trigger] list[i] == name;
        assert(list[i - 1] == name && list[i] == name);
    }
    if is_repeated(list, name) {
        let (i, j) = choose|i: int, j: int|
            0 <= i < j < list.len() && #[trigger] list[i] == name && #[trigger] list[j] == name;
        lemma_text_leq_antisymmetric(list[i], list[i + 1]);
        assert(list[i + 1] == name);
    }
}

/// The names of some websites.
fn name_refs<'a>(websites: &'a Vec<Website>) -> (refs: Vec<&'a String>)
    ensures
        texts_of(refs@) == names(websites@),
{
    let mut refs: Vec<&'a String> = Vec::new();
    let mut i: usize = 0;
    while i < websites.len()
        invariant
            i <= websites.len(),
            refs@.len() == i,
            forall|j: int| 0 <= j < i ==> (#[trigger] refs@[j])@ == websites@[j].name@,
        decreases websites.len() - i,
    {
        refs.push(&websites[i].name);
        i += 1;
    }
    assert(texts_of(refs@) =~= names(websites@));
    refs
}

/// Puts a configuration together, unless two websites have the same name. The names that occur
/// more than once are reported, each once.
pub fn build_config(websites: Vec<Website>, global: GlobalConfig) -> (config: Result<
    Config,
    ConfigError,
>)
    ensures
        config is Ok <==> names(websites@).no_duplicates(),
        match config {
            Ok(config) => {
                &&& config.wf()
                &&& config.websites == websites
                &&& config.global == global
            },
            Err(ConfigError::DuplicateNames(duplicates)) => {
                &&& duplicates@.len() > 0
                &&& texts(duplicates@).no_duplicates()
                &&& forall|name: Seq<char>| #[trigger]
                    texts(duplicates@).contains(name) <==> is_repeated(names(websites@), name)
            },
            Err(_) => false,
        },
{
    let mut refs = name_refs(&websites);
    sort_names(&mut refs);
    let duplicates = get_duplicates(&refs);
    proof {
        let list = names(websites@);
        let sorted = texts_of(refs@);
        assert forall|name: Seq<char>| #[trigger]
            texts(duplicates@).contains(name) <==> is_repeated(list, name) by {
            lemma_sorted_repeats(sorted, name);
        }
        if duplicates@.len() > 0 {
            let name = texts(duplicates@)[0];
            assert(texts(duplicates@).contains(name));
            lemma_count_two(list, name);
        } else {
            assert forall|i: int, j: int| 0 <= i < list.len() && 0 <= j < list.len() && i != j implies list[i]
                != list[j] by {
                lemma_count_two(list, list[i]);
                assert(!texts(duplicates@).contains(list[i]));
            }
        }
    }
    if duplicates.len() != 0 {
        return Err(ConfigError::DuplicateNames(duplicates));
    }
    Ok(Config { websites, global })
}

/// All URLs in the descriptions of some websites are targets.
pub open spec fn all_are_targets(raw: Seq<RawWebsite>) -> bool {
    forall|i: int| 0 <= i < raw.len() ==> raw_target(#[trigger] raw[i]) is Ok
}

/// The descriptions of some websites are accepted.
pub open spec fn is_acceptable(raw: Seq<RawWebsite>) -> bool {
    all_are_targets(raw) && raw_names(raw).no_duplicates()
}

/// Makes a configuration of what a file says.
pub fn load_config(conf: SerializedConfig) -> (config: Result<Config, ConfigError>)
    ensures
        config is Ok <==> is_acceptable(conf.websites@),
        config matches Err(ConfigError::Url(e)) ==> exists|i: int|
            {
                &&& 0 <= i < conf.websites@.len()
                &&& raw_target(#[trigger] conf.websites@[i]) == Err::<Seq<char>, _>(e)
                &&& forall|j: int| 0 <= j < i ==> raw_target(#[trigger] conf.websites@[j]) is Ok
            },
        config matches Err(ConfigError::DuplicateNames(duplicates)) ==> {
            &&& all_are_targets(conf.websites@)
            &&& duplicates@.len() > 0
            &&& texts(duplicates@).no_duplicates()
            &&& forall|name: Seq<char>| #[trigger]
                texts(duplicates@).contains(name) <==> is_repeated(raw_names(conf.websites@), name)
        },
        config matches Ok(config) ==> {
            &&& config.wf()
            &&& config.global == conf.global
            &&& config.websites@.len() == conf.websites@.len()
            &&& forall|i: int|
                0 <= i < conf.websites@.len() ==> describes(
                    #[trigger] conf.websites@[i],
                    raw_target(conf.websites@[i]),
                    config.websites@[i],
                )
        },
{
    match read_websites(&conf.websites) {
        Ok(websites) => {
            assert(names(websites@) =~= raw_names(conf.websites@)) by {
                assert forall|i: int| 0 <= i < websites@.len() implies names(websites@)[i]
                    == #[trigger] raw_names(conf.websites@)[i] by {
                    assert(describes(
                        conf.websites@[i],
                        raw_target(conf.websites@[i]),
                        websites@[i],
                    ));
                }
            }
            build_config(websites, conf.global)
        },
        Err(e) => Err(ConfigError::Url(e)),
    }
}

/// The names in the descriptions of some websites, in their order.
pub open spec fn raw_names(raw: Seq<RawWebsite>) -> Seq<Seq<char>> {
    Seq::new(raw.len(), |i: int| raw[i].name@)
}

/// The same names occur in both lists of websites.
pub open spec fn same_names(a: Seq<Website>, b: Seq<Website>) -> bool {
    forall|name: Seq<char>|
        #![trigger names(a).contains(name)]
        #![trigger names(b).contains(name)]
        names(a).contains(name) <==> names(b).contains(name)
}

/// The place of the website that is equal to `website`, if there is one.
pub fn position(websites: &Vec<Website>, website: &Website) -> (place: Option<usize>)
    ensures
        match place {
            Some(i) => {
                &&& i < websites@.len()
                &&& names(websites@)[i as int] == website.name@
                &&& forall|j: int| 0 <= j < i ==> #[trigger] names(websites@)[j] != website.name@
            },
            None => !names(websites@).contains(website.name@),
        },
{
    let mut i: usize = 0;
    while i < websites.len()
        invariant
            i <= websites.len(),
            forall|j: int| 0 <= j < i ==> #[trigger] names(websites@)[j] != website.name@,
        decreases websites.len() - i,
    {
        if websites[i] == *website {
            return Some(i);
        }
        i += 1;
    }
    None
}

/// Whether every website of `a` is equal to one of `b`.
fn is_subset(a: &Vec<Website>, b: &Vec<Website>) -> (subset: bool)
    ensures
        subset <==> forall|name: Seq<char>| #[trigger]
            names(a@).contains(name) ==> names(b@).contains(name),
{
    let mut i: usize = 0;
    while i < a.len()
        invariant
            i <= a.len(),
            forall|j: int| 0 <= j < i ==> names(b@).contains(#[trigger] names(a@)[j]),
        decreases a.len() - i,
    {
        if position(b, &a[i]).is_none() {
            assert(names(a@)[i as int] == a@[i as int].name@);
            assert(names(a@).contains(a@[i as int].name@));
            return false;
        }
        i += 1;
    }
    true
}

/// Whether two lists hold the same websites, in whatever order: the names decide.
pub fn same_websites(a: &Vec<Website>, b: &Vec<Website>) -> (same: bool)
    ensures
        same == same_names(a@, b@),
{
    is_subset(a, b) && is_subset(b, a)
}

impl PartialEq for Config {
    fn eq(&self, other: &Self) -> (equal: bool) {
        same_websites(&self.websites, &other.websites) && self.global == other.global
    }
}

impl vstd::std_specs::cmp::PartialEqSpecImpl for Config {
    open spec fn obeys_eq_spec() -> bool {
        true
    }

    open spec fn eq_spec(&self, other: &Self) -> bool {
        same_names(self.websites@, other.websites@) && self.global == other.global
    }
}

/// Holding the same websites is an equivalence of lists, in which neither their order nor what else
/// is known of a website plays a part.
pub proof fn law_same_websites(a: Seq<Website>, b: Seq<Website>, c: Seq<Website>)
    ensures
        same_names(a, a),
        same_names(a, b) ==> same_names(b, a),
        same_names(a, b) && same_names(b, c) ==> same_names(a, c),
        names(a).to_set() == names(b).to_set() ==> same_names(a, b),
{
    if names(a).to_set() == names(b).to_set() {
        assert forall|name: Seq<char>| #[trigger] names(a).contains(name) <==> names(b).contains(
            name,
        ) by {
            assert(names(a).to_set().contains(name) == names(b).to_set().contains(name));
        }
    }
}

/// The names in the descriptions of the same websites, in another order, are the same, each as
/// often.
proof fn lemma_names_of_permutation(a: Seq<RawWebsite>, b: Seq<RawWebsite>)
    requires
        a.to_multiset() == b.to_multiset(),
    ensures
        raw_names(a).to_multiset() == raw_names(b).to_multiset(),
    decreases a.len(),
{
    broadcast use vstd::seq_lib::group_to_multiset_ensures;

    if a.len() > 0 {
        let last = a.last();
        assert(a.to_multiset().count(last) > 0);
        assert(b.contains(last));
        let i = choose|i: int| 0 <= i < b.len() && b[i] == last;
        assert(a.remove(a.len() - 1) =~= a.drop_last());
        lemma_names_of_permutation(a.drop_last(), b.remove(i));
        assert(raw_names(a) =~= raw_names(a.drop_last()).push(last.name@));
        assert(raw_names(b.remove(i)) =~= raw_names(b).remove(i));
        assert(raw_names(b)[i] == last.name@);
        assert(raw_names(b).contains(last.name@));
        assert(raw_names(b).to_multiset() =~= raw_names(b).remove(i).to_multiset().insert(
            last.name@,
        ));
    } else {
        assert(b.len() == b.to_multiset().len());
        assert(raw_names(a) =~= raw_names(b));
    }
}

/// No name occurs more than once if and only if there are no duplicates.
proof fn lemma_no_repeats(list: Seq<Seq<char>>)
    ensures
        list.no_duplicates() <==> forall|name: Seq<char>| !#[trigger] is_repeated(list, name),
{
    if list.no_duplicates() {
        assert forall|name: Seq<char>| !#[trigger] is_repeated(list, name) by {
            lemma_count_two(list, name);
        }
    }
    if forall|name: Seq<char>| !#[trigger] is_repeated(list, name) {
        assert forall|i: int, j: int|
            0 <= i < list.len() && 0 <= j < list.len() && i != j implies list[i] != list[j] by {
            lemma_count_two(list, list[i]);
            assert(!is_repeated(list, list[i]));
        }
    }
}

/// The order of the websites in a file changes neither whether it is accepted nor which names are
/// reported.
pub proof fn law_order_in_the_file(a: Seq<RawWebsite>, b: Seq<RawWebsite>)
    requires
        a.to_multiset() == b.to_multiset(),
    ensures
        is_acceptable(a) == is_acceptable(b),
        all_are_targets(a) == all_are_targets(b),
        forall|name: Seq<char>| #[trigger]
            is_repeated(raw_names(a), name) == is_repeated(raw_names(b), name),
{
    lemma_names_of_permutation(a, b);
    lemma_no_repeats(raw_names(a));
    lemma_no_repeats(raw_names(b));
    if all_are_targets(a) {
        lemma_targets_of_permutation(a, b);
    }
    if all_are_targets(b) {
        lemma_targets_of_permutation(b, a);
    }
    if raw_names(a).no_duplicates() {
        assert forall|name: Seq<char>| !#[trigger] is_repeated(raw_names(b), name) by {
            assert(!is_repeated(raw_names(a), name));
        }
    }
    if raw_names(b).no_duplicates() {
        assert forall|name: Seq<char>| !#[trigger] is_repeated(raw_names(a), name) by {
            assert(!is_repeated(raw_names(b), name));
        }
    }
}

/// If all URLs of some descriptions are targets, then so are they in another order.
proof fn lemma_targets_of_permutation(a: Seq<RawWebsite>, b: Seq<RawWebsite>)
    requires
        a.to_multiset() == b.to_multiset(),
        all_are_targets(a),
    ensures
        all_are_targets(b),
{
    broadcast use vstd::seq_lib::group_to_multiset_ensures;

    assert forall|i: int| 0 <= i < b.len() implies raw_target(#[trigger] b[i]) is Ok by {
        assert(b.contains(b[i]));
        assert(b.to_multiset().count(b[i]) > 0);
        assert(a.contains(b[i]));
        let j = choose|j: int| 0 <= j < a.len() && a[j] == b[i];
        assert(raw_target(a[j]) is Ok);
    }
}

/// The names of some websites are the names that stand in them, in their order.
pub proof fn law_names(websites: Seq<Website>)
    ensures
        names(websites).len() == websites.len(),
        forall|i: int| 0 <= i < websites.len() ==> #[trigger] names(websites)[i] == websites[i].name@,
        forall|name: Seq<char>| #[trigger]
            names(websites).contains(name) <==> exists|i: int|
                0 <= i < websites.len() && (#[trigger] websites[i]).name@ == name,
        names(websites).no_duplicates() <==> forall|i: int, j: int|
            0 <= i < j < websites.len() ==> (#[trigger] websites[i]).name@ != (
            #[trigger] websites[j]).name@,
{
    assert forall|name: Seq<char>| #[trigger] names(websites).contains(name) <==> exists|i: int|
        0 <= i < websites.len() && (#[trigger] websites[i]).name@ == name by {
        if names(websites).contains(name) {
            let i = choose|i: int| 0 <= i < names(websites).len() && names(websites)[i] == name;
            assert(websites[i].name@ == name);
        }
        if exists|i: int| 0 <= i < websites.len() && (#[trigger] websites[i]).name@ == name {
            let i = choose|i: int| 0 <= i < websites.len() && (#[trigger] websites[i]).name@ == name;
            assert(names(websites)[i] == name);
        }
    }
    if names(websites).no_duplicates() {
        assert forall|i: int, j: int| 0 <= i < j < websites.len() implies (
        #[trigger] websites[i]).name@ != (#[trigger] websites[j]).name@ by {
            assert(names(websites)[i] != names(websites)[j]);
        }
    }
    if forall|i: int, j: int|
        0 <= i < j < websites.len() ==> (#[trigger] websites[i]).name@ != (
        #[trigger] websites[j]).name@ {
        assert forall|i: int, j: int|
            0 <= i < names(websites).len() && 0 <= j < names(websites).len() && i
                != j implies names(websites)[i] != names(websites)[j] by {
            if i < j {
                assert(websites[i].name@ != websites[j].name@);
            } else {
                assert(websites[j].name@ != websites[i].name@);
            }
        }
    }
}

/// Two lists hold the same websites if and only if the set of the names in them is the same.
pub proof fn law_same_names(a: Seq<Website>, b: Seq<Website>)
    ensures
        same_names(a, b) <==> a.map_values(|w: Website| w.name@).to_set() == b.map_values(
            |w: Website| w.name@,
        ).to_set(),
{
    let x = a.map_values(|w: Website| w.name@);
    let y = b.map_values(|w: Website| w.name@);
    assert(names(a) =~= x);
    assert(names(b) =~= y);
    if same_names(a, b) {
        assert forall|name: Seq<char>| x.to_set().contains(name) <==> #[trigger] y.to_set().contains(
            name,
        ) by {
            assert(names(a).contains(name) <==> names(b).contains(name));
        }
        assert(x.to_set() =~= y.to_set());
    }
    if x.to_set() == y.to_set() {
        assert forall|name: Seq<char>| #[trigger] names(a).contains(name) <==> names(b).contains(
            name,
        ) by {
            assert(x.to_set().contains(name) == y.to_set().contains(name));
        }
    }
}

/// A website that is read from its description has the name and the time that stand there, and what
/// the parser writes for the URL that stands there, which is one of `http` or `https`.
pub proof fn law_website_is_read_as_described(raw: RawWebsite, website: Website)
    ensures
        describes(raw, raw_target(raw), website) ==> {
            &&& website.name@ == raw.name@
            &&& website.check_time_seconds == raw.check_time_seconds
            &&& crate::query_providers::url_parse(raw.url@) matches Some((scheme, written))
            &&& written == website.url.query_url@
            &&& scheme == "http"@ || scheme == "https"@
        },
        raw.url@.len() <= 0x7fff_ffff && website.name@ == raw.name@ && website.check_time_seconds
            == raw.check_time_seconds ==> (crate::query_providers::url_parse(raw.url@) matches Some(
            (scheme, written),
        ) && (scheme == "http"@ || scheme == "https"@) && written == website.url.query_url@
            ==> describes(raw, raw_target(raw), website)),
        raw.url@.len() <= 0x7fff_ffff ==> raw_target(raw) == match crate::query_providers::url_parse(
            raw.url@,
        ) {
            None => Err::<Seq<char>, UrlError>(UrlError::Invalid),
            Some((scheme, written)) => if scheme == "http"@ || scheme == "https"@ {
                Ok(written)
            } else {
                Err(UrlError::UnsupportedScheme)
            },
        },
{
    crate::query_providers::law_only_http_is_probed(raw.url@);
}

/// The texts of some strings are the characters of each, in their order.
pub proof fn law_texts(strings: Seq<String>, refs: Seq<&String>, raw: Seq<RawWebsite>)
    ensures
        texts(strings) == strings.map_values(|s: String| s@),
        texts_of(refs) == refs.map_values(|s: &String| s@),
        raw_names(raw) == raw.map_values(|r: RawWebsite| r.name@),
{
    assert(texts(strings) =~= strings.map_values(|s: String| s@));
    assert(texts_of(refs) =~= refs.map_values(|s: &String| s@));
    assert(raw_names(raw) =~= raw.map_values(|r: RawWebsite| r.name@));
}

/// A name is repeated if and only if it stands at two places, and it stands twice in a row if and
/// only if those are next to each other.
pub proof fn law_repetition(list: Seq<Seq<char>>, name: Seq<char>)
    ensures
        is_repeated(list, name) <==> exists|i: int, j: int|
            0 <= i < j < list.len() && #[trigger] list[i] == name && #[trigger] list[j] == name,
        stands_twice(list, name) <==> exists|i: int|
            1 <= i < list.len() && list[i - 1] == name && #[trigger] list[i] == name,
        stands_twice(list, name) ==> is_repeated(list, name),
{
    lemma_count_two(list, name);
    if stands_twice(list, name) {
        let i = choose|i: int|
            1 <= i < list.len() && list[i - 1] == name && #[trigger] list[i] == name;
        assert(list[i - 1] == name && list[i] == name);
    }
}

/// Descriptions with URLs of at most 2147483647 characters are accepted if and only if the parser
/// makes a URL of `http` or `https` of each of them and no two of them have the same name.
pub proof fn law_acceptance(raw: Seq<RawWebsite>)
    requires
        forall|i: int| 0 <= i < raw.len() ==> (#[trigger] raw[i]).url@.len() <= 0x7fff_ffff,
    ensures
        is_acceptable(raw) <==> {
            &&& forall|i: int|
                0 <= i < raw.len() ==> {
                    &&& crate::query_providers::url_parse(
                        (#[trigger] raw[i]).url@,
                    ) matches Some((scheme, _))
                    &&& scheme == "http"@ || scheme == "https"@
                }
            &&& raw.map_values(|r: RawWebsite| r.name@).no_duplicates()
        },
        all_are_targets(raw) <==> forall|i: int|
            0 <= i < raw.len() ==> {
                &&& crate::query_providers::url_parse(
                    (#[trigger] raw[i]).url@,
                ) matches Some((scheme, _))
                &&& scheme == "http"@ || scheme == "https"@
            },
{
    assert(raw_names(raw) =~= raw.map_values(|r: RawWebsite| r.name@));
    assert forall|i: int| 0 <= i < raw.len() implies (raw_target(#[trigger] raw[i]) is Ok <==> {
        &&& crate::query_providers::url_parse(raw[i].url@) matches Some((scheme, _))
        &&& scheme == "http"@ || scheme == "https"@
    }) by {
        crate::query_providers::law_only_http_is_probed(raw[i].url@);
    }
}

/// Two websites are equal if and only if they have the same name, and two configurations if and only
/// if they have the same settings and the same set of names.
pub proof fn law_equality(a: Website, b: Website, x: Config, y: Config)
    ensures
        vstd::std_specs::cmp::PartialEqSpec::eq_spec(&a, &b) <==> a.name@ == b.name@,
        vstd::std_specs::cmp::PartialEqSpec::eq_spec(&x, &y) <==> x.global == y.global
            && x.websites@.map_values(|w: Website| w.name@).to_set() == y.websites@.map_values(
            |w: Website| w.name@,
        ).to_set(),
{
    law_same_names(x.websites@, y.websites@);
}

/// A configuration that can be used has no two websites of the same name.
pub proof fn law_usable_configuration(config: Config)
    ensures
        config.wf() <==> config.websites@.map_values(|w: Website| w.name@).no_duplicates(),
{
    assert(names(config.websites@) =~= config.websites@.map_values(|w: Website| w.name@));
}

} // verus!
