//! The Caddy source: the polling cycle that turns the configuration reported
//! by the proxy into monitors, one for each host that the proxy serves.

use crate::entity::{
    accepted, accepts_draft, build_drafts, build_entities, draft_for, draft_views, drafts_for,
    entity_views, is_run_of, MonitorDraft, MonitorDraftView,
};
use crate::error::Error;
use crate::host_set::texts;
use crate::sources::caddy_config::{lemma_host_list_is_unique, lemma_no_apps_no_hosts};
use vstd::prelude::*;

pub use crate::sources::caddy_config::{
    extract_hosts, CaddyApps, CaddyConfig, CaddyHttp, CaddyMatcher, CaddyRoute, CaddyServer,
    ServerMap,
};

verus! {

/// Seconds after which a request for the proxy's configuration is given up.
pub const FETCH_TIMEOUT_SECS: u64 = 10;

/// Whether an HTTP status code reports success.
pub fn is_success_status(status: u16) -> (success: bool)
    ensures
        success == (200 <= status < 300),
{
    200 <= status && status < 300
}

/// The failure of a request that could not be prepared.
pub fn client_error(cause: &str) -> (error: Error)
    ensures
        error is IO,
        error.text() == "Failed to create HTTP client: "@ + cause@,
{
    Error::IO("Failed to create HTTP client: ".to_owned().concat(cause))
}

/// The failure of a request that got no answer.
pub fn request_error(cause: &str) -> (error: Error)
    ensures
        error is IO,
        error.text() == "Failed to fetch Caddy config: "@ + cause@,
{
    Error::IO("Failed to fetch Caddy config: ".to_owned().concat(cause))
}

/// Accepts the answer to a request by its status: an answer whose status is
/// no success is a failure, whatever its body holds. `status_text` is the
/// status as the failure is to show it.
pub fn check_status(status: u16, status_text: &str) -> (checked: Result<(), Error>)
    ensures
        checked is Ok <==> 200 <= status < 300,
        checked matches Err(error) ==> error is IO && error.text()
            == "Caddy API returned error status: "@ + status_text@,
{
    if is_success_status(status) {
        Ok(())
    } else {
        Err(Error::IO("Caddy API returned error status: ".to_owned().concat(status_text)))
    }
}

/// The failure of an answer whose body is no configuration document.
pub fn decode_error(cause: &str) -> (error: Error)
    ensures
        error is DeserializeError,
        error.text() == "Failed to parse Caddy config: "@ + cause@,
{
    Error::DeserializeError("Failed to parse Caddy config: ".to_owned().concat(cause))
}

/// What the source asks of its driver when a polling cycle begins.
#[derive(Debug)]
pub enum CycleStep {
    /// The source is switched off: nothing is to be requested, and the cycle
    /// yields nothing.
    Skip,
    /// The configuration is to be requested from `url`, waiting no longer
    /// than `timeout_secs` seconds, and handed to the source.
    Fetch { url: String, timeout_secs: u64 },
}

/// The source of monitors for the hosts that a Caddy proxy serves.
pub struct CaddySource {
    config: crate::config::CaddyConfig,
}

impl CaddySource {
    /// The settings that the source was made with.
    pub closed spec fn settings(&self) -> crate::config::CaddyConfig {
        self.config
    }

    /// `draft` is among what a cycle yields when the request for the
    /// configuration ended in `fetched`.
    pub open spec fn may_yield(
        &self,
        fetched: Result<CaddyConfig, Error>,
        draft: MonitorDraftView,
    ) -> bool {
        &&& self.settings().enabled
        &&& fetched matches Ok(config)
        &&& exists|host: Seq<char>|
            config.serves(host) && draft == #[trigger] draft_for(self.settings()@, host)
    }

    /// `drafts` is what a cycle yields when the request for the configuration
    /// ended in `fetched`: nothing if the source is switched off or the
    /// request failed, else one draft for each host of the configuration's
    /// host list.
    pub open spec fn yields(
        &self,
        fetched: Result<CaddyConfig, Error>,
        drafts: Seq<MonitorDraftView>,
    ) -> bool {
        if self.settings().enabled && fetched is Ok {
            exists|hosts: Seq<Seq<char>>|
                (fetched->Ok_0).has_host_list(hosts) && drafts == #[trigger] drafts_for(
                    self.settings()@,
                    hosts,
                )
        } else {
            drafts.len() == 0
        }
    }

    /// A source with the given settings.
    pub fn new(config: crate::config::CaddyConfig) -> (source: Self)
        ensures
            source.settings() == config,
    {
        CaddySource { config }
    }

    /// The settings of the source.
    pub fn config(&self) -> (config: &crate::config::CaddyConfig)
        ensures
            *config == self.settings(),
    {
        &self.config
    }

    /// The name of the source.
    pub fn name(&self) -> (name: &'static str)
        ensures
            name@ == "Caddy"@,
    {
        "Caddy"
    }

    /// Begins a polling cycle. A source that is switched off asks for no
    /// request; one that is switched on asks for one request, to the address
    /// in its settings.
    pub fn start_cycle(&self) -> (step: CycleStep)
        ensures
            match step {
                CycleStep::Skip => !self.settings().enabled,
                CycleStep::Fetch { url, timeout_secs } => {
                    &&& self.settings().enabled
                    &&& url@ == self.settings().url@
                    &&& timeout_secs == FETCH_TIMEOUT_SECS
                },
            },
    {
        if self.config.enabled {
            CycleStep::Fetch { url: self.config.url.clone(), timeout_secs: FETCH_TIMEOUT_SECS }
        } else {
            CycleStep::Skip
        }
    }

    /// Ends a polling cycle with the drafts that it yields.
    pub fn get_drafts(&self, fetched: Result<CaddyConfig, Error>) -> (drafts: Vec<MonitorDraft>)
        ensures
            self.yields(fetched, draft_views(drafts@)),
    {
        if !self.config.enabled {
            return Vec::new();
        }
        match fetched {
            Ok(config) => {
                let hosts = extract_hosts(&config);
                let drafts = build_drafts(&self.config, &hosts);
                assert(draft_views(drafts@) == drafts_for(self.settings()@, texts(hosts@)));
                drafts
            },
            Err(_) => Vec::new(),
        }
    }

    /// Ends a polling cycle with the entities that it yields: the drafts of
    /// the cycle, each handed to `make_entity` and kept if an entity came
    /// back.
    pub fn get_entities<E, X, F>(
        &self,
        fetched: Result<CaddyConfig, Error>,
        make_entity: F,
    ) -> (entities: Vec<(String, E)>) where
        F: Fn(&MonitorDraft, &Vec<(String, String)>) -> Result<E, X>,

        requires
            forall|draft: MonitorDraft| #[trigger]
                self.may_yield(fetched, draft@) ==> accepts_draft(make_entity, draft),
        ensures
            exists|drafts: Seq<MonitorDraft>, outcomes: Seq<(Seq<char>, Result<E, X>)>|
                {
                    &&& self.yields(fetched, draft_views(drafts))
                    &&& #[trigger] is_run_of(make_entity, drafts, outcomes)
                    &&& entity_views(entities@) == accepted(outcomes)
                },
            !self.settings().enabled || fetched is Err ==> entities@.len() == 0,
    {
        let drafts = self.get_drafts(fetched);
        assert forall|i: int| 0 <= i < drafts.len() implies accepts_draft(
            make_entity,
            #[trigger] drafts[i],
        ) by {
            assert(self.settings().enabled && fetched is Ok);
            let config = fetched->Ok_0;
            let hosts = choose|hosts: Seq<Seq<char>>|
                config.has_host_list(hosts) && draft_views(drafts@) == #[trigger] drafts_for(
                    self.settings()@,
                    hosts,
                );
            assert(draft_views(drafts@).len() == drafts.len());
            assert(drafts_for(self.settings()@, hosts).len() == hosts.len());
            assert(drafts[i]@ == draft_views(drafts@)[i]);
            assert(drafts[i]@ == drafts_for(self.settings()@, hosts)[i]);
            assert(hosts.contains(hosts[i]));
            assert(config.serves(hosts[i]));
            assert(self.may_yield(fetched, drafts[i]@));
        }
        let entities = build_entities(&drafts, make_entity);
        proof {
            let outcomes = choose|outcomes: Seq<(Seq<char>, Result<E, X>)>|
                is_run_of(make_entity, drafts@, outcomes) && entity_views(entities@) == accepted(
                    outcomes,
                );
            assert(is_run_of(make_entity, drafts@, outcomes));
            if drafts.len() == 0 {
                assert(accepted(outcomes).len() == 0);
            }
        }
        entities
    }
}

/// A cycle yields the same drafts whenever it is run on the same settings and
/// the same outcome of the request: the same identifiers, in the same order.
pub proof fn lemma_cycle_is_repeatable(
    source: CaddySource,
    fetched: Result<CaddyConfig, Error>,
    first: Seq<MonitorDraftView>,
    second: Seq<MonitorDraftView>,
)
    requires
        source.yields(fetched, first),
        source.yields(fetched, second),
    ensures
        first == second,
{
    if source.settings().enabled && fetched is Ok {
        let a = choose|hosts: Seq<Seq<char>>|
            (fetched->Ok_0).has_host_list(hosts) && first == #[trigger] drafts_for(
                source.settings()@,
                hosts,
            );
        let b = choose|hosts: Seq<Seq<char>>|
            (fetched->Ok_0).has_host_list(hosts) && second == #[trigger] drafts_for(
                source.settings()@,
                hosts,
            );
        lemma_host_list_is_unique(fetched->Ok_0, a, b);
    } else {
        assert(first =~= second);
    }
}

/// A configuration without applications yields no draft.
pub proof fn lemma_no_apps_no_drafts(
    source: CaddySource,
    config: CaddyConfig,
    drafts: Seq<MonitorDraftView>,
)
    requires
        config.apps is None,
        source.yields(Ok(config), drafts),
    ensures
        drafts.len() == 0,
{
    if source.settings().enabled {
        let hosts = choose|hosts: Seq<Seq<char>>|
            config.has_host_list(hosts) && drafts == #[trigger] drafts_for(
                source.settings()@,
                hosts,
            );
        lemma_no_apps_no_hosts(config, hosts);
        assert(drafts_for(source.settings()@, hosts).len() == hosts.len());
    }
}

} // verus!
