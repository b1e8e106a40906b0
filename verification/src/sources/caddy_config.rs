//! The configuration document of a Caddy proxy: its servers, routes and match
//! rules, the hosts that it serves, and the list of those hosts.

use crate::host_set::{
    insert_host, lemma_sorted_is_duplicate_free, lemma_sorted_list_is_unique, strictly_sorted,
    texts,
};
use crate::text::{strip_wildcard, trim_wildcard};
use vstd::prelude::*;

verus! {

/// The host that a configured host string stands for: the string without its
/// leading wildcard marker, or nothing where that leaves the empty string.
pub open spec fn canonical_host(raw: Seq<char>) -> Option<Seq<char>> {
    let host = strip_wildcard(raw);
    if host.len() == 0 {
        None
    } else {
        Some(host)
    }
}

/// One rule of a route: the host strings that it matches.
#[derive(Debug)]
pub struct CaddyMatcher {
    pub host: Option<Vec<String>>,
}

/// One route of a server, with its match rules.
#[derive(Debug)]
pub struct CaddyRoute {
    pub matchers: Option<Vec<CaddyMatcher>>,
}

/// One HTTP server of the proxy, with its routes.
#[derive(Debug)]
pub struct CaddyServer {
    pub routes: Option<Vec<CaddyRoute>>,
}

/// The servers of the proxy by name. A name stands for one server: putting a
/// second server under a name replaces the first.
#[derive(Debug)]
pub struct ServerMap {
    entries: Vec<(String, CaddyServer)>,
}

/// The HTTP application of the proxy.
#[derive(Debug)]
pub struct CaddyHttp {
    pub servers: Option<ServerMap>,
}

/// The applications that the proxy runs.
#[derive(Debug)]
pub struct CaddyApps {
    pub http: Option<CaddyHttp>,
}

/// The configuration document of the proxy. Every level of it may be absent,
/// and an absent level serves no host.
#[derive(Debug)]
pub struct CaddyConfig {
    pub apps: Option<CaddyApps>,
}

impl CaddyMatcher {
    /// The rule matches a host string that stands for `host`.
    pub open spec fn serves(&self, host: Seq<char>) -> bool {
        match self.host {
            Some(list) => exists|i: int|
                0 <= i < list.len() && canonical_host(#[trigger] list[i]@) == Some(host),
            None => false,
        }
    }
}

impl CaddyRoute {
    /// One of the route's rules serves `host`.
    pub open spec fn serves(&self, host: Seq<char>) -> bool {
        match self.matchers {
            Some(rules) => exists|i: int| 0 <= i < rules.len() && (#[trigger] rules[i]).serves(host),
            None => false,
        }
    }
}

impl CaddyServer {
    /// One of the server's routes serves `host`.
    pub open spec fn serves(&self, host: Seq<char>) -> bool {
        match self.routes {
            Some(routes) => exists|i: int|
                0 <= i < routes.len() && (#[trigger] routes[i]).serves(host),
            None => false,
        }
    }
}

/// One step of collecting hosts part by part. Where a list held the hosts it
/// began with and those of the parts before `i`, and then took in those of
/// part `i`, it holds the hosts it began with and those of the parts up to
/// and with `i`.
proof fn lemma_collected_one_more<T>(
    parts: Seq<T>,
    serves: spec_fn(T, Seq<char>) -> bool,
    begun: Seq<Seq<char>>,
    before: Seq<Seq<char>>,
    after: Seq<Seq<char>>,
    i: int,
)
    requires
        0 <= i < parts.len(),
        forall|h: Seq<char>| #[trigger]
            before.contains(h) <==> (begun.contains(h) || exists|k: int|
                0 <= k < i && serves(#[trigger] parts[k], h)),
        forall|h: Seq<char>| #[trigger]
            after.contains(h) <==> (before.contains(h) || serves(parts[i], h)),
    ensures
        forall|h: Seq<char>| #[trigger]
            after.contains(h) <==> (begun.contains(h) || exists|k: int|
                0 <= k < i + 1 && serves(#[trigger] parts[k], h)),
{
    assert forall|h: Seq<char>| #[trigger]
        after.contains(h) <==> (begun.contains(h) || exists|k: int|
            0 <= k < i + 1 && serves(#[trigger] parts[k], h)) by {
        if exists|k: int| 0 <= k < i + 1 && serves(#[trigger] parts[k], h) {
            let k = choose|k: int| 0 <= k < i + 1 && serves(#[trigger] parts[k], h);
            if k < i {
                assert(before.contains(h));
            }
        }
        if before.contains(h) && !begun.contains(h) {
            let k = choose|k: int| 0 <= k < i && serves(#[trigger] parts[k], h);
            assert(0 <= k < i + 1 && serves(parts[k], h));
        }
    }
}

impl View for ServerMap {
    type V = Map<Seq<char>, CaddyServer>;

    closed spec fn view(&self) -> Map<Seq<char>, CaddyServer> {
        Map::new(
            |name: Seq<char>| self.position(name) is Some,
            |name: Seq<char>| self.entries[self.position(name).unwrap()].1,
        )
    }
}

impl ServerMap {
    #[verifier::type_invariant]
    spec fn names_are_distinct(self) -> bool {
        forall|i: int, j: int|
            0 <= i < self.entries.len() && 0 <= j < self.entries.len() && i != j ==> (
            #[trigger] self.entries[i]).0@ != (#[trigger] self.entries[j]).0@
    }

    /// Where the server called `name` is kept, if there is one.
    spec fn position(&self, name: Seq<char>) -> Option<int> {
        if exists|i: int| 0 <= i < self.entries.len() && (#[trigger] self.entries[i]).0@ == name {
            Some(
                choose|i: int|
                    0 <= i < self.entries.len() && (#[trigger] self.entries[i]).0@ == name,
            )
        } else {
            None
        }
    }

    /// One of the servers serves `host`.
    pub open spec fn serves(&self, host: Seq<char>) -> bool {
        exists|name: Seq<char>| self@.dom().contains(name) && (#[trigger] self@[name]).serves(host)
    }

    /// Each entry is what the map holds under the entry's name.
    proof fn lemma_entry_is_mapped(&self, i: int)
        requires
            self.names_are_distinct(),
            0 <= i < self.entries.len(),
        ensures
            self@.dom().contains(self.entries[i].0@),
            self@[self.entries[i].0@] == self.entries[i].1,
    {
        assert(self.position(self.entries[i].0@) is Some);
    }

    /// A map without servers.
    pub fn new() -> (servers: Self)
        ensures
            servers@ == Map::<Seq<char>, CaddyServer>::empty(),
    {
        let servers = ServerMap { entries: Vec::new() };
        assert(servers@ =~= Map::<Seq<char>, CaddyServer>::empty());
        servers
    }

    /// Puts `server` under `name` and returns the server that was there
    /// before, if there was one.
    pub fn insert(&mut self, name: String, server: CaddyServer) -> (previous: Option<CaddyServer>)
        ensures
            final(self)@ == old(self)@.insert(name@, server),
            previous == if old(self)@.dom().contains(name@) {
                Some(old(self)@[name@])
            } else {
                None::<CaddyServer>
            },
    {
        proof {
            use_type_invariant(&*self);
        }
        let ghost before = *self;
        let mut entries: Vec<(String, CaddyServer)> = Vec::new();
        core::mem::swap(&mut entries, &mut self.entries);
        let mut at: usize = 0;
        while at < entries.len() && !(entries[at].0 == name)
            invariant
                at <= entries.len(),
                entries == before.entries,
                forall|k: int| 0 <= k < at ==> (#[trigger] entries[k]).0@ != name@,
            decreases entries.len() - at,
        {
            at = at + 1;
        }
        let previous = if at < entries.len() {
            entries.push((name, server));
            let (_, replaced) = entries.swap_remove(at);
            assert(entries@ =~= before.entries@.update(at as int, (name, server)));
            Some(replaced)
        } else {
            entries.push((name, server));
            None
        };
        self.entries = entries;
        proof {
            if at < before.entries.len() {
                before.lemma_entry_is_mapped(at as int);
                assert forall|n: Seq<char>| self.position(n) is Some <==> before.position(
                    n,
                ) is Some by {
                    if before.position(n) is Some {
                        let i = before.position(n).unwrap();
                        assert(self.entries[i].0@ == n);
                    }
                    if self.position(n) is Some {
                        let i = self.position(n).unwrap();
                        assert(before.entries[i].0@ == n);
                    }
                }
                assert forall|n: Seq<char>| self.position(n) is Some implies self.position(n)
                    == before.position(n) by {
                    let i = self.position(n).unwrap();
                    let j = before.position(n).unwrap();
                    assert(before.entries[i].0@ == n);
                }
            } else {
                assert(before.position(name@) is None);
                assert(self.entries[at as int].0@ == name@);
                assert forall|n: Seq<char>| self.position(n) is Some <==> (before.position(
                    n,
                ) is Some || n == name@) by {
                    if before.position(n) is Some {
                        let i = before.position(n).unwrap();
                        assert(self.entries[i].0@ == n);
                    }
                    if self.position(n) is Some {
                        let i = self.position(n).unwrap();
                        if i < at {
                            assert(before.entries[i].0@ == n);
                        }
                    }
                }
                assert forall|n: Seq<char>| before.position(n) is Some implies self.position(n)
                    == before.position(n) by {
                    let i = self.position(n).unwrap();
                    let j = before.position(n).unwrap();
                    assert(self.entries[j].0@ == n);
                }
            }
            assert(self@ =~= before@.insert(name@, server));
        }
        previous
    }

    /// Adds the hosts of every server to a host list.
    fn add_hosts(&self, hosts: &mut Vec<String>)
        requires
            strictly_sorted(texts(old(hosts)@)),
        ensures
            strictly_sorted(texts(final(hosts)@)),
            forall|h: Seq<char>| #[trigger]
                texts(final(hosts)@).contains(h) <==> (texts(old(hosts)@).contains(h)
                    || self.serves(h)),
    {
        proof {
            use_type_invariant(self);
        }
        let mut i: usize = 0;
        while i < self.entries.len()
            invariant
                i <= self.entries.len(),
                strictly_sorted(texts(hosts@)),
                forall|h: Seq<char>|
                    texts(hosts@).contains(h) <==> (texts(old(hosts)@).contains(h) || exists|k: int|
                        0 <= k < i && (#[trigger] self.entries[k]).1.serves(h)),
            decreases self.entries.len() - i,
        {
            let ghost before = texts(hosts@);
            add_server_hosts(&self.entries[i].1, hosts);
            proof {
                lemma_collected_one_more(
                    self.entries@,
                    |entry: (String, CaddyServer), h: Seq<char>| entry.1.serves(h),
                    texts(old(hosts)@),
                    before,
                    texts(hosts@),
                    i as int,
                );
            }
            i = i + 1;
        }
        assert forall|h: Seq<char>|
            self.serves(h) <==> exists|k: int|
                0 <= k < self.entries.len() && (#[trigger] self.entries[k]).1.serves(h) by {
            if self.serves(h) {
                let name = choose|name: Seq<char>|
                    self@.dom().contains(name) && (#[trigger] self@[name]).serves(h);
                let k = self.position(name).unwrap();
                assert(self.entries[k].1.serves(h));
            }
            if exists|k: int|
                0 <= k < self.entries.len() && (#[trigger] self.entries[k]).1.serves(h) {
                let k = choose|k: int|
                    0 <= k < self.entries.len() && (#[trigger] self.entries[k]).1.serves(h);
                self.lemma_entry_is_mapped(k);
                assert(self@[self.entries[k].0@].serves(h));
            }
        }
    }
}

impl CaddyHttp {
    /// One of the servers of the application serves `host`.
    pub open spec fn serves(&self, host: Seq<char>) -> bool {
        match self.servers {
            Some(servers) => servers.serves(host),
            None => false,
        }
    }
}

impl CaddyApps {
    /// The HTTP application serves `host`.
    pub open spec fn serves(&self, host: Seq<char>) -> bool {
        match self.http {
            Some(http) => http.serves(host),
            None => false,
        }
    }
}

impl CaddyConfig {
    /// The proxy serves `host`: a rule of a route of one of its servers
    /// matches a host string that stands for it.
    pub open spec fn serves(&self, host: Seq<char>) -> bool {
        match self.apps {
            Some(apps) => apps.serves(host),
            None => false,
        }
    }

    /// `hosts` is the host list of the configuration: the hosts that the proxy
    /// serves, each once, in ascending order.
    pub open spec fn has_host_list(&self, hosts: Seq<Seq<char>>) -> bool {
        &&& strictly_sorted(hosts)
        &&& forall|h: Seq<char>| hosts.contains(h) <==> self.serves(h)
    }
}

/// Adds the hosts of one rule to a host list.
fn add_matcher_hosts(matcher: &CaddyMatcher, hosts: &mut Vec<String>)
    requires
        strictly_sorted(texts(old(hosts)@)),
    ensures
        strictly_sorted(texts(final(hosts)@)),
        forall|h: Seq<char>| #[trigger]
            texts(final(hosts)@).contains(h) <==> (texts(old(hosts)@).contains(h)
                || matcher.serves(h)),
{
    if let Some(list) = &matcher.host {
        let mut i: usize = 0;
        while i < list.len()
            invariant
                i <= list.len(),
                matcher.host == Some(*list),
                strictly_sorted(texts(hosts@)),
                forall|h: Seq<char>|
                    texts(hosts@).contains(h) <==> (texts(old(hosts)@).contains(h) || exists|k: int|
                        0 <= k < i && canonical_host((#[trigger] list[k])@) == Some(h)),
            decreases list.len() - i,
        {
            let clean = trim_wildcard(list[i].as_str());
            let ghost before = texts(hosts@);
            if !clean.as_str().is_empty() {
                insert_host(hosts, clean);
            }
            proof {
                lemma_collected_one_more(
                    list@,
                    |raw: String, h: Seq<char>| canonical_host(raw@) == Some(h),
                    texts(old(hosts)@),
                    before,
                    texts(hosts@),
                    i as int,
                );
            }
            i = i + 1;
        }
    }
}

/// Adds the hosts of one route to a host list.
fn add_route_hosts(route: &CaddyRoute, hosts: &mut Vec<String>)
    requires
        strictly_sorted(texts(old(hosts)@)),
    ensures
        strictly_sorted(texts(final(hosts)@)),
        forall|h: Seq<char>| #[trigger]
            texts(final(hosts)@).contains(h) <==> (texts(old(hosts)@).contains(h) || route.serves(
                h,
            )),
{
    if let Some(rules) = &route.matchers {
        let mut i: usize = 0;
        while i < rules.len()
            invariant
                i <= rules.len(),
                route.matchers == Some(*rules),
                strictly_sorted(texts(hosts@)),
                forall|h: Seq<char>|
                    texts(hosts@).contains(h) <==> (texts(old(hosts)@).contains(h) || exists|k: int|
                        0 <= k < i && (#[trigger] rules[k]).serves(h)),
            decreases rules.len() - i,
        {
            let ghost before = texts(hosts@);
            add_matcher_hosts(&rules[i], hosts);
            proof {
                lemma_collected_one_more(
                    rules@,
                    |rule: CaddyMatcher, h: Seq<char>| rule.serves(h),
                    texts(old(hosts)@),
                    before,
                    texts(hosts@),
                    i as int,
                );
            }
            i = i + 1;
        }
    }
}

/// Adds the hosts of one server to a host list.
fn add_server_hosts(server: &CaddyServer, hosts: &mut Vec<String>)
    requires
        strictly_sorted(texts(old(hosts)@)),
    ensures
        strictly_sorted(texts(final(hosts)@)),
        forall|h: Seq<char>| #[trigger]
            texts(final(hosts)@).contains(h) <==> (texts(old(hosts)@).contains(h) || server.serves(
                h,
            )),
{
    if let Some(routes) = &server.routes {
        let mut i: usize = 0;
        while i < routes.len()
            invariant
                i <= routes.len(),
                server.routes == Some(*routes),
                strictly_sorted(texts(hosts@)),
                forall|h: Seq<char>|
                    texts(hosts@).contains(h) <==> (texts(old(hosts)@).contains(h) || exists|k: int|
                        0 <= k < i && (#[trigger] routes[k]).serves(h)),
            decreases routes.len() - i,
        {
            let ghost before = texts(hosts@);
            add_route_hosts(&routes[i], hosts);
            proof {
                lemma_collected_one_more(
                    routes@,
                    |route: CaddyRoute, h: Seq<char>| route.serves(h),
                    texts(old(hosts)@),
                    before,
                    texts(hosts@),
                    i as int,
                );
            }
            i = i + 1;
        }
    }
}

/// Collects the hosts that the proxy serves: every host string under any
/// rule of any route of any server, without its leading wildcard marker,
/// each host once and in ascending order. Absent parts of the configuration
/// add nothing.
pub fn extract_hosts(config: &CaddyConfig) -> (hosts: Vec<String>)
    ensures
        config.has_host_list(texts(hosts@)),
{
    let mut hosts: Vec<String> = Vec::new();
    if let Some(apps) = &config.apps {
        if let Some(http) = &apps.http {
            if let Some(servers) = &http.servers {
                servers.add_hosts(&mut hosts);
            }
        }
    }
    hosts
}

/// A configuration has one host list only: whatever is its host list is the
/// same sequence, so extracting twice gives the same hosts in the same order.
pub proof fn lemma_host_list_is_unique(config: CaddyConfig, a: Seq<Seq<char>>, b: Seq<Seq<char>>)
    requires
        config.has_host_list(a),
        config.has_host_list(b),
    ensures
        a == b,
{
    lemma_sorted_list_is_unique(a, b);
}

/// No host of a host list is empty, and no host occurs twice.
pub proof fn lemma_host_list_is_distinct(config: CaddyConfig, hosts: Seq<Seq<char>>)
    requires
        config.has_host_list(hosts),
    ensures
        forall|i: int| 0 <= i < hosts.len() ==> (#[trigger] hosts[i]).len() > 0,
        forall|i: int, j: int|
            0 <= i < hosts.len() && 0 <= j < hosts.len() && i != j ==> #[trigger] hosts[i]
                != #[trigger] hosts[j],
{
    lemma_sorted_is_duplicate_free(hosts);
    assert forall|i: int| 0 <= i < hosts.len() implies (#[trigger] hosts[i]).len() > 0 by {
        assert(hosts.contains(hosts[i]));
        lemma_served_host_is_not_empty(config, hosts[i]);
    }
}

/// A host that the proxy serves is not empty.
proof fn lemma_served_host_is_not_empty(config: CaddyConfig, host: Seq<char>)
    requires
        config.serves(host),
    ensures
        host.len() > 0,
{
    let servers = config.apps->0.http->0.servers->0;
    let name = choose|name: Seq<char>|
        servers@.dom().contains(name) && (#[trigger] servers@[name]).serves(host);
    let routes = servers@[name].routes->0;
    let r = choose|r: int| 0 <= r < routes.len() && (#[trigger] routes[r]).serves(host);
    let rules = routes[r].matchers->0;
    let m = choose|m: int| 0 <= m < rules.len() && (#[trigger] rules[m]).serves(host);
    let list = rules[m].host->0;
    let i = choose|i: int|
        0 <= i < list.len() && canonical_host(#[trigger] list[i]@) == Some(host);
}

/// A configuration without applications serves no host: its host list is
/// empty.
pub proof fn lemma_no_apps_no_hosts(config: CaddyConfig, hosts: Seq<Seq<char>>)
    requires
        config.apps is None,
        config.has_host_list(hosts),
    ensures
        hosts.len() == 0,
{
    if hosts.len() > 0 {
        assert(hosts.contains(hosts[0]));
    }
}

} // verus!
