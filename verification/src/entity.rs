//! Monitor drafts: the definition of one monitor, derived from one host.

use crate::config::{text_of, CaddyConfig, CaddyConfigView};
use crate::host_set::texts;
use vstd::prelude::*;

verus! {

/// Seconds between two checks of a monitor.
pub const CHECK_INTERVAL: u64 = 60;

/// Seconds before a failed check is tried again.
pub const RETRY_INTERVAL: u64 = 60;

/// How often a failed check is tried again before the monitor counts as down.
pub const MAX_RETRIES: u64 = 3;

/// The definition of one monitor, not yet known to the monitoring system.
#[derive(Debug, Clone)]
pub struct MonitorDraft {
    /// The identifier under which the monitor is kept.
    pub id: String,
    /// The host that the monitor watches.
    pub host: String,
    /// The kind of check that the monitor makes.
    pub monitor_type: String,
    /// The name that the monitor is shown under.
    pub name: String,
    /// The address that the monitor checks.
    pub url: String,
    /// Seconds between two checks.
    pub interval: u64,
    /// Seconds before a failed check is tried again.
    pub retry_interval: u64,
    /// How often a failed check is tried again.
    pub max_retries: u64,
    /// The group under which the monitor is filed.
    pub parent_name: Option<String>,
}

/// A monitor draft with its strings as character sequences.
pub struct MonitorDraftView {
    pub id: Seq<char>,
    pub host: Seq<char>,
    pub monitor_type: Seq<char>,
    pub name: Seq<char>,
    pub url: Seq<char>,
    pub interval: u64,
    pub retry_interval: u64,
    pub max_retries: u64,
    pub parent_name: Option<Seq<char>>,
}

impl View for MonitorDraft {
    type V = MonitorDraftView;

    open spec fn view(&self) -> MonitorDraftView {
        MonitorDraftView {
            id: self.id@,
            host: self.host@,
            monitor_type: self.monitor_type@,
            name: self.name@,
            url: self.url@,
            interval: self.interval,
            retry_interval: self.retry_interval,
            max_retries: self.max_retries,
            parent_name: text_of(self.parent_name),
        }
    }
}

/// The identifier of the monitor of `host`: the name of the source, a slash
/// and the host.
pub open spec fn monitor_id(host: Seq<char>) -> Seq<char> {
    "caddy/"@ + host
}

/// The address at which `host` is checked.
pub open spec fn monitor_url(use_https: bool, host: Seq<char>) -> Seq<char> {
    if use_https {
        "https://"@ + host
    } else {
        "http://"@ + host
    }
}

/// The name of the monitor of `host`: the host, behind the prefix if one is
/// set.
pub open spec fn monitor_name(prefix: Option<Seq<char>>, host: Seq<char>) -> Seq<char> {
    match prefix {
        Some(p) => p + host,
        None => host,
    }
}

/// The draft that the settings give for `host`.
pub open spec fn draft_for(settings: CaddyConfigView, host: Seq<char>) -> MonitorDraftView {
    MonitorDraftView {
        id: monitor_id(host),
        host,
        monitor_type: "http"@,
        name: monitor_name(settings.monitor_name_prefix, host),
        url: monitor_url(settings.use_https, host),
        interval: CHECK_INTERVAL,
        retry_interval: RETRY_INTERVAL,
        max_retries: MAX_RETRIES,
        parent_name: settings.parent_name,
    }
}

/// The drafts that the settings give for a list of hosts, one for each host
/// and in the order of the hosts.
pub open spec fn drafts_for(settings: CaddyConfigView, hosts: Seq<Seq<char>>) -> Seq<
    MonitorDraftView,
> {
    hosts.map_values(|host: Seq<char>| draft_for(settings, host))
}

/// Each host has its draft, at the place of the host: the identifier names
/// the source and the host, the address has the protocol of the settings,
/// the name begins with the prefix of the settings, and the group is that of
/// the settings, the same for every draft.
pub proof fn lemma_drafts_follow_hosts(settings: CaddyConfigView, hosts: Seq<Seq<char>>, i: int)
    requires
        0 <= i < hosts.len(),
    ensures
        drafts_for(settings, hosts).len() == hosts.len(),
        drafts_for(settings, hosts)[i].host == hosts[i],
        drafts_for(settings, hosts)[i].id == "caddy/"@ + hosts[i],
        settings.use_https ==> drafts_for(settings, hosts)[i].url == "https://"@ + hosts[i],
        !settings.use_https ==> drafts_for(settings, hosts)[i].url == "http://"@ + hosts[i],
        drafts_for(settings, hosts)[i].name == match settings.monitor_name_prefix {
            Some(prefix) => prefix + hosts[i],
            None => hosts[i],
        },
        drafts_for(settings, hosts)[i].parent_name == settings.parent_name,
{
}

/// The views of a list of drafts, in the same order.
pub open spec fn draft_views(drafts: Seq<MonitorDraft>) -> Seq<MonitorDraftView> {
    drafts.map_values(|draft: MonitorDraft| draft@)
}

/// What the templates of a monitor can refer to: the host and the address,
/// each under its key.
pub open spec fn template_context_for(draft: MonitorDraftView) -> Seq<(Seq<char>, Seq<char>)> {
    seq![("host"@, draft.host), ("url"@, draft.url)]
}

/// The views of a list of pairs of strings, in the same order.
pub open spec fn pair_views(pairs: Seq<(String, String)>) -> Seq<(Seq<char>, Seq<char>)> {
    pairs.map_values(|pair: (String, String)| (pair.0@, pair.1@))
}

impl MonitorDraft {
    /// Derives the draft of the monitor of `host`.
    pub fn for_host(settings: &CaddyConfig, host: &str) -> (draft: MonitorDraft)
        ensures
            draft@ == draft_for(settings@, host@),
    {
        let url = if settings.use_https {
            "https://".to_owned().concat(host)
        } else {
            "http://".to_owned().concat(host)
        };
        let name = match &settings.monitor_name_prefix {
            Some(prefix) => prefix.clone().concat(host),
            None => host.to_owned(),
        };
        let parent_name = match &settings.parent_name {
            Some(parent) => Some(parent.clone()),
            None => None,
        };
        MonitorDraft {
            id: "caddy/".to_owned().concat(host),
            host: host.to_owned(),
            monitor_type: "http".to_owned(),
            name,
            url,
            interval: CHECK_INTERVAL,
            retry_interval: RETRY_INTERVAL,
            max_retries: MAX_RETRIES,
            parent_name,
        }
    }

    /// The keys and values that the templates of this monitor are rendered
    /// with.
    pub fn template_context(&self) -> (context: Vec<(String, String)>)
        ensures
            pair_views(context@) == template_context_for(self@),
    {
        let mut context: Vec<(String, String)> = Vec::new();
        context.push(("host".to_owned(), self.host.clone()));
        context.push(("url".to_owned(), self.url.clone()));
        assert(pair_views(context@) =~= template_context_for(self@));
        context
    }
}

/// Derives one draft for each host, in the order of the hosts.
pub fn build_drafts(settings: &CaddyConfig, hosts: &Vec<String>) -> (drafts: Vec<MonitorDraft>)
    ensures
        draft_views(drafts@) == drafts_for(settings@, texts(hosts@)),
{
    let mut drafts: Vec<MonitorDraft> = Vec::new();
    let mut i: usize = 0;
    while i < hosts.len()
        invariant
            i <= hosts.len(),
            drafts.len() == i,
            forall|k: int| 0 <= k < i ==> (#[trigger] drafts[k])@ == draft_for(settings@, hosts[k]@),
        decreases hosts.len() - i,
    {
        let draft = MonitorDraft::for_host(settings, hosts[i].as_str());
        drafts.push(draft);
        i = i + 1;
    }
    assert(draft_views(drafts@) =~= drafts_for(settings@, texts(hosts@)));
    drafts
}

/// The views of a list of outcomes, each with the identifier of its draft.
pub open spec fn outcome_views<E, X>(outcomes: Seq<(String, Result<E, X>)>) -> Seq<
    (Seq<char>, Result<E, X>),
> {
    outcomes.map_values(|outcome: (String, Result<E, X>)| (outcome.0@, outcome.1))
}

/// The views of a list of entities, each with its identifier.
pub open spec fn entity_views<E>(entities: Seq<(String, E)>) -> Seq<(Seq<char>, E)> {
    entities.map_values(|entity: (String, E)| (entity.0@, entity.1))
}

/// The entities among a list of outcomes: each outcome that is an entity,
/// with its identifier, in the order of the outcomes. An outcome that is a
/// failure leaves no trace.
pub open spec fn accepted<E, X>(outcomes: Seq<(Seq<char>, Result<E, X>)>) -> Seq<(Seq<char>, E)>
    decreases outcomes.len(),
{
    if outcomes.len() == 0 {
        Seq::empty()
    } else {
        let earlier = accepted(outcomes.drop_last());
        match outcomes.last().1 {
            Ok(entity) => earlier.push((outcomes.last().0, entity)),
            Err(_) => earlier,
        }
    }
}

/// Keeps the entities among a list of outcomes and drops the failures.
pub fn select_entities<E, X>(outcomes: Vec<(String, Result<E, X>)>) -> (entities: Vec<(String, E)>)
    ensures
        entity_views(entities@) == accepted(outcome_views(outcomes@)),
{
    let ghost all = outcome_views(outcomes@);
    let mut entities: Vec<(String, E)> = Vec::new();
    for outcome in it: outcomes
        invariant
            all == outcome_views(it.seq()),
            entity_views(entities@) == accepted(all.take(it.index() as int)),
    {
        let ghost done = it.index() as int;
        assert(all.take(done + 1).drop_last() =~= all.take(done));
        let ghost earlier = entity_views(entities@);
        let (id, result) = outcome;
        match result {
            Ok(entity) => {
                entities.push((id, entity));
                assert(entity_views(entities@) =~= earlier.push((id@, entity)));
            },
            Err(_) => {},
        }
    }
    assert(all.take(all.len() as int) =~= all);
    entities
}

/// Where every outcome is an entity, the entities are the outcomes.
pub proof fn lemma_no_failure_drops_none<E, X>(outcomes: Seq<(Seq<char>, Result<E, X>)>)
    requires
        forall|i: int| 0 <= i < outcomes.len() ==> (#[trigger] outcomes[i]).1 is Ok,
    ensures
        accepted(outcomes).len() == outcomes.len(),
        forall|i: int|
            0 <= i < outcomes.len() ==> #[trigger] accepted(outcomes)[i] == (
                outcomes[i].0,
                outcomes[i].1->Ok_0,
            ),
    decreases outcomes.len(),
{
    if outcomes.len() > 0 {
        lemma_no_failure_drops_none(outcomes.drop_last());
    }
}

/// Where all outcomes but one are entities, the entities are one fewer than
/// the outcomes: those before the failure stand where they stood, those
/// behind it one place earlier.
pub proof fn lemma_one_failure_drops_one<E, X>(
    outcomes: Seq<(Seq<char>, Result<E, X>)>,
    failed: int,
)
    requires
        0 <= failed < outcomes.len(),
        forall|i: int| 0 <= i < outcomes.len() ==> ((#[trigger] outcomes[i]).1 is Err <==> i == failed),
    ensures
        accepted(outcomes).len() == outcomes.len() - 1,
        forall|i: int|
            0 <= i < failed ==> #[trigger] accepted(outcomes)[i] == (
                outcomes[i].0,
                outcomes[i].1->Ok_0,
            ),
        forall|i: int|
            failed <= i < outcomes.len() - 1 ==> #[trigger] accepted(outcomes)[i] == (
                outcomes[i + 1].0,
                outcomes[i + 1].1->Ok_0,
            ),
    decreases outcomes.len(),
{
    let earlier = outcomes.drop_last();
    if failed == outcomes.len() - 1 {
        lemma_no_failure_drops_none(earlier);
    } else {
        lemma_one_failure_drops_one(earlier, failed);
    }
}

/// `make_entity` can be called on `draft` with the draft's template context.
pub open spec fn accepts_draft<E, X, F: Fn(&MonitorDraft, &Vec<(String, String)>) -> Result<E, X>>(
    make_entity: F,
    draft: MonitorDraft,
) -> bool {
    forall|context: Vec<(String, String)>|
        pair_views(context@) == template_context_for(draft@) ==> call_requires(
            make_entity,
            (&draft, &context),
        )
}

/// `outcome` is what `make_entity` made of `draft` and the draft's template
/// context.
pub open spec fn is_outcome_of<E, X, F: Fn(&MonitorDraft, &Vec<(String, String)>) -> Result<E, X>>(
    make_entity: F,
    draft: MonitorDraft,
    outcome: Result<E, X>,
) -> bool {
    exists|context: Vec<(String, String)>|
        pair_views(context@) == template_context_for(draft@) && call_ensures(
            make_entity,
            (&draft, &context),
            outcome,
        )
}

/// `outcomes` holds, for each draft in turn, the draft's identifier and what
/// `make_entity` made of the draft.
pub open spec fn is_run_of<E, X, F: Fn(&MonitorDraft, &Vec<(String, String)>) -> Result<E, X>>(
    make_entity: F,
    drafts: Seq<MonitorDraft>,
    outcomes: Seq<(Seq<char>, Result<E, X>)>,
) -> bool {
    &&& outcomes.len() == drafts.len()
    &&& forall|i: int|
        0 <= i < drafts.len() ==> (#[trigger] outcomes[i]).0 == drafts[i].id@ && is_outcome_of(
            make_entity,
            drafts[i],
            outcomes[i].1,
        )
}

/// Hands each draft, with its template context, to `make_entity`, and returns
/// the entities that came back, each with the identifier of its draft, in the
/// order of the drafts. A draft that `make_entity` fails on is left out; the
/// others are not affected by it.
pub fn build_entities<E, X, F>(drafts: &Vec<MonitorDraft>, make_entity: F) -> (entities: Vec<
    (String, E),
>) where
    F: Fn(&MonitorDraft, &Vec<(String, String)>) -> Result<E, X>,

    requires
        forall|i: int| 0 <= i < drafts.len() ==> accepts_draft(make_entity, #[trigger] drafts[i]),
    ensures
        exists|outcomes: Seq<(Seq<char>, Result<E, X>)>|
            is_run_of(make_entity, drafts@, outcomes) && entity_views(entities@) == accepted(
                outcomes,
            ),
{
    let mut outcomes: Vec<(String, Result<E, X>)> = Vec::new();
    let mut i: usize = 0;
    while i < drafts.len()
        invariant
            i <= drafts.len(),
            outcomes.len() == i,
            forall|k: int| 0 <= k < drafts.len() ==> accepts_draft(make_entity, #[trigger] drafts[k]),
            forall|k: int|
                0 <= k < i ==> (#[trigger] outcomes[k]).0@ == drafts[k].id@ && is_outcome_of(
                    make_entity,
                    drafts[k],
                    outcomes[k].1,
                ),
        decreases drafts.len() - i,
    {
        let draft = &drafts[i];
        let context = draft.template_context();
        assert(accepts_draft(make_entity, drafts[i as int]));
        let result = make_entity(draft, &context);
        outcomes.push((draft.id.clone(), result));
        i = i + 1;
    }
    let ghost run = outcome_views(outcomes@);
    assert(is_run_of(make_entity, drafts@, run));
    select_entities(outcomes)
}

} // verus!
