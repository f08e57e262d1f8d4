//! Finding the addresses of hosts, and keeping them for a while.
use vstd::hash_map::StringHashMap;
use vstd::prelude::*;

use crate::errors::DnsError;
use crate::net::{IpAddr, SocketAddr};
use crate::time::{Duration, Instant};

verus! {

/// An address that was found, and when.
#[derive(Debug, Clone, Copy, PartialEq, Eq, Structural)]
pub struct DnsResolverServerInner {
    pub last_resolution_time: Instant,
    pub last_answer: IpAddr,
}

/// The addresses that were found so far. They are forgotten when the server is replaced, which
/// happens whenever the configuration is reloaded.
pub struct DnsResolverServerState {
    pub hosts: StringHashMap<DnsResolverServerInner>,
    pub refresh_frequency: Duration,
}

/// What to do about the question for the address of a host.
#[derive(Debug, Clone, Copy, PartialEq, Eq, Structural)]
pub enum DnsAction {
    /// Answer at once, with an address that was found not long ago.
    Answer(IpAddr),
    /// Look the address up.
    Resolve,
}

/// The addresses that were found, by host.
pub type Hosts = Map<Seq<char>, DnsResolverServerInner>;

/// What to do at the time `now` about the question for `host`: an address that was found less
/// than `refresh` nanoseconds ago is good enough.
pub open spec fn on_question(hosts: Hosts, refresh: Duration, host: Seq<char>, now: Instant) -> DnsAction {
    if hosts.contains_key(host) && hosts[host].last_resolution_time.span_to(now) < refresh.nanos {
        DnsAction::Answer(hosts[host].last_answer)
    } else {
        DnsAction::Resolve
    }
}

/// The addresses that are known after a lookup of `host` came to `result` at the time `now`.
pub open spec fn on_lookup(
    hosts: Hosts,
    host: Seq<char>,
    result: Result<IpAddr, DnsError>,
    now: Instant,
) -> Hosts {
    match result {
        Ok(addr) => hosts.insert(
            host,
            DnsResolverServerInner { last_resolution_time: now, last_answer: addr },
        ),
        Err(_) => hosts,
    }
}

impl DnsResolverServerState {
    /// A server that knows no address yet.
    pub fn new(refresh_frequency: Duration) -> (state: DnsResolverServerState)
        ensures
            state.hosts@ == Map::<Seq<char>, DnsResolverServerInner>::empty(),
            state.refresh_frequency == refresh_frequency,
    {
        DnsResolverServerState { hosts: StringHashMap::new(), refresh_frequency }
    }

    /// Decides what to do about the question for `host`.
    pub fn take_question(&self, host: &str, now: Instant) -> (action: DnsAction)
        ensures
            action == on_question(self.hosts@, self.refresh_frequency, host@, now),
            match action {
                DnsAction::Answer(addr) => {
                    &&& self.hosts@.contains_key(host@)
                    &&& self.hosts@[host@].last_answer == addr
                    &&& 0 < self.refresh_frequency.nanos
                    &&& now.nanos < self.hosts@[host@].last_resolution_time.nanos
                        + self.refresh_frequency.nanos
                },
                DnsAction::Resolve => {
                    ||| !self.hosts@.contains_key(host@)
                    ||| self.refresh_frequency.nanos == 0
                    ||| now.nanos >= self.hosts@[host@].last_resolution_time.nanos
                        + self.refresh_frequency.nanos
                },
            },
    {
        if let Some(inner) = self.hosts.get(host) {
            if inner.last_resolution_time.elapsed(now).nanos < self.refresh_frequency.nanos {
                return DnsAction::Answer(inner.last_answer);
            }
        }
        DnsAction::Resolve
    }

    /// Takes in the result of a lookup, and hands it on to whoever asked.
    pub fn take_lookup(&mut self, host: String, result: Result<IpAddr, DnsError>, now: Instant) -> (answer:
        Result<IpAddr, DnsError>)
        ensures
            answer == result,
            final(self).hosts@ == on_lookup(old(self).hosts@, host@, result, now),
            match result {
                Ok(addr) => {
                    &&& final(self).hosts@.dom() == old(self).hosts@.dom().insert(host@)
                    &&& final(self).hosts@[host@].last_answer == addr
                    &&& final(self).hosts@[host@].last_resolution_time == now
                    &&& forall|other: Seq<char>|
                        other != host@ ==> #[trigger] final(self).hosts@[other] == old(
                            self,
                        ).hosts@[other]
                },
                Err(_) => final(self).hosts@ == old(self).hosts@,
            },
            final(self).refresh_frequency == old(self).refresh_frequency,
    {
        if let Ok(last_answer) = result {
            self.hosts.insert(
                host,
                DnsResolverServerInner { last_answer, last_resolution_time: now },
            );
        }
        result
    }
}

/// What a lookup of `host` comes to, given the addresses that the resolver found, in its order.
/// `None` stands for an error of the resolver.
pub fn lookup_result(host: &str, found: Option<Vec<u32>>) -> (result: Result<IpAddr, DnsError>)
    ensures
        match found {
            None => result == Err::<IpAddr, _>(DnsError::DnsResolution),
            Some(addrs) => if addrs@.len() > 0 {
                result == Ok::<_, DnsError>(IpAddr::V4(addrs@[0]))
            } else {
                result matches Err(DnsError::NoDNSEntry(name)) && name@ == host@
            },
        },
{
    match found {
        Some(addrs) => {
            if addrs.len() > 0 {
                Ok(IpAddr::V4(addrs[0]))
            } else {
                Err(DnsError::NoDNSEntry(host.to_owned()))
            }
        },
        None => Err(DnsError::DnsResolution),
    }
}

/// A handle by which questions are put to the server.
#[derive(Debug, Clone)]
pub struct ServiceWrapper<T>(pub T);

/// How a question to the server went.
#[derive(Debug, PartialEq, Eq)]
pub enum Exchange {
    /// The question could not be sent.
    NotSent,
    /// The question was sent, but no answer came back.
    NotAnswered,
    /// The answer came back.
    Answered(Result<IpAddr, DnsError>),
}

impl<T> ServiceWrapper<T> {
    /// The address to connect to, given how the question for it went. The port is left open: the
    /// caller fills it in.
    pub fn answer(&self, exchange: Exchange) -> (addr: Result<SocketAddr, DnsError>)
        ensures
            match exchange {
                Exchange::NotSent => addr == Err::<SocketAddr, _>(DnsError::SendQuery),
                Exchange::NotAnswered => addr == Err::<SocketAddr, _>(DnsError::Recv),
                Exchange::Answered(Ok(ip)) => addr == Ok::<_, DnsError>(SocketAddr { ip, port: 0 }),
                Exchange::Answered(Err(e)) => addr == Err::<SocketAddr, _>(e),
            },
    {
        match exchange {
            Exchange::NotSent => Err(DnsError::SendQuery),
            Exchange::NotAnswered => Err(DnsError::Recv),
            Exchange::Answered(Ok(ip)) => Ok(SocketAddr { ip, port: 0 }),
            Exchange::Answered(Err(e)) => Err(e),
        }
    }
}

/// An address that was found is given to everyone who asks for that host until the refresh time
/// is over, without another lookup. From then on the host is looked up again.
pub proof fn law_address_is_kept(
    hosts: Hosts,
    refresh: Duration,
    host: Seq<char>,
    addr: IpAddr,
    found: Instant,
    now: Instant,
)
    ensures
        on_question(on_lookup(hosts, host, Ok(addr), found), refresh, host, now)
            == if found.span_to(now) < refresh.nanos {
            DnsAction::Answer(addr)
        } else {
            DnsAction::Resolve
        },
        found.nanos <= now.nanos ==> on_question(
            on_lookup(hosts, host, Ok(addr), found),
            refresh,
            host,
            now,
        ) == if now.nanos - found.nanos < refresh.nanos {
            DnsAction::Answer(addr)
        } else {
            DnsAction::Resolve
        },
        now.nanos <= found.nanos && refresh.nanos > 0 ==> on_question(
            on_lookup(hosts, host, Ok(addr), found),
            refresh,
            host,
            now,
        ) == DnsAction::Answer(addr),
{
}

/// A host that is to be looked up at some time is to be looked up at every later time, unless a
/// lookup has ended meanwhile. And an address that is given at some time was given at every earlier
/// time since it was found.
pub proof fn law_age_decides(
    hosts: Hosts,
    refresh: Duration,
    host: Seq<char>,
    earlier: Instant,
    later: Instant,
)
    requires
        earlier.nanos <= later.nanos,
    ensures
        on_question(hosts, refresh, host, earlier) == DnsAction::Resolve ==> on_question(
            hosts,
            refresh,
            host,
            later,
        ) == DnsAction::Resolve,
        on_question(hosts, refresh, host, later) matches DnsAction::Answer(addr) ==> on_question(
            hosts,
            refresh,
            host,
            earlier,
        ) == DnsAction::Answer(addr),
{
}

/// A longer refresh time never makes a host be looked up that a shorter one does not, and the answer
/// is the address that was found last, or none.
pub proof fn law_longer_refresh_keeps_more(
    hosts: Hosts,
    shorter: Duration,
    longer: Duration,
    host: Seq<char>,
    now: Instant,
)
    requires
        shorter.nanos <= longer.nanos,
    ensures
        on_question(hosts, shorter, host, now) matches DnsAction::Answer(addr) ==> on_question(
            hosts,
            longer,
            host,
            now,
        ) == DnsAction::Answer(addr),
        on_question(hosts, longer, host, now) matches DnsAction::Answer(addr) ==> {
            &&& hosts.contains_key(host)
            &&& hosts[host].last_answer == addr
        },
{
}

/// A lookup that failed changes no answer, and a lookup of one host changes no answer for another.
pub proof fn law_lookup_concerns_one_host(
    hosts: Hosts,
    refresh: Duration,
    host: Seq<char>,
    result: Result<IpAddr, DnsError>,
    done: Instant,
    other: Seq<char>,
    now: Instant,
)
    requires
        other != host || result is Err,
    ensures
        on_question(on_lookup(hosts, host, result, done), refresh, other, now) == on_question(
            hosts,
            refresh,
            other,
            now,
        ),
{
}

/// A new server looks every host up, and one that refreshes all the time does so for good.
pub proof fn law_resolves_from_scratch(
    hosts: Hosts,
    refresh: Duration,
    host: Seq<char>,
    now: Instant,
)
    requires
        hosts == Map::<Seq<char>, DnsResolverServerInner>::empty() || refresh.nanos == 0,
    ensures
        on_question(hosts, refresh, host, now) == DnsAction::Resolve,
{
}

} // verus!
