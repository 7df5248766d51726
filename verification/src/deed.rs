//! Deeds and the append-only event ledger.

use vstd::prelude::*;

use crate::model::{
    metric_mean, metric_mean_exec, SiteIndex, SiteSnapshot, SnapMetric, Tick, UNIT_MAX,
};

verus! {

/// All morally relevant deed kinds (closed set).
#[derive(Clone, Copy, PartialEq, Eq, Structural, Debug)]
pub enum DeedKind {
    // Core social / territorial actions.
    Help,
    Conflict,
    Colonize,
    Repair,
    // Addiction / pollution deeds.
    UseHabit,
    EmitPollution,
    DeployCleanTech,
    SupportCessation,
    BanEmission,
    RepairEnvironment,
    // Support / reflection.
    UseSupport,
    /// Explicit non-action in a morally loaded context.
    Abstain,
}

/// Minimal cause context keeping provenance auditable.
#[derive(Clone, Debug)]
pub struct CauseContext {
    /// Human-readable reason or rule label.
    pub rationale: String,
    /// Rule identifiers fired in the decision engine.
    pub rule_ids: Vec<String>,
}

/// One recorded state transition: a deed plus complete pre/post
/// snapshots for every site it touches.
#[derive(Clone, Debug)]
pub struct Deed {
    pub tick: Tick,
    pub kind: DeedKind,
    /// Primary site index (actor, or focal location).
    pub primary_site: SiteIndex,
    /// Optional secondary site (target, neighbor, or affected region).
    pub other_site: Option<SiteIndex>,
    /// Pre-deed snapshots for all impacted sites.
    pub pre: Vec<SiteSnapshot>,
    /// Post-deed snapshots for all impacted sites, paired positionally
    /// with `pre`.
    pub post: Vec<SiteSnapshot>,
    /// Cause and rule context for later judgment and reflection.
    pub cause: CauseContext,
    /// Cached deltas of per-site means, `post - pre`; derived in the
    /// constructor, never settable independently.
    pub delta_church: i64,
    pub delta_fear: i64,
    pub delta_power: i64,
    pub delta_tech: i64,
    pub delta_bioload: i64,
    pub delta_pollution: i64,
    pub delta_exposure: i64,
}

/// The derived value of one cached delta: difference of the post and
/// pre means of the metric.
pub open spec fn deed_delta(pre: Seq<SiteSnapshot>, post: Seq<SiteSnapshot>, m: SnapMetric) -> int {
    metric_mean(post, m) - metric_mean(pre, m)
}

impl Deed {
    /// Structural invariant: `pre` and `post` cover the same site
    /// indices, paired positionally; every snapshot is well-formed;
    /// the cached deltas equal their derivation from `pre`/`post`.
    pub open spec fn wf(self) -> bool {
        &&& self.pre@.len() == self.post@.len()
        &&& forall|i: int|
            0 <= i < self.pre@.len() ==> (#[trigger] self.pre@[i]).index == self.post@[i].index
        &&& forall|i: int| 0 <= i < self.pre@.len() ==> (#[trigger] self.pre@[i]).wf()
        &&& forall|i: int| 0 <= i < self.post@.len() ==> (#[trigger] self.post@[i]).wf()
        &&& self.delta_church == deed_delta(self.pre@, self.post@, SnapMetric::Church)
        &&& self.delta_fear == deed_delta(self.pre@, self.post@, SnapMetric::Fear)
        &&& self.delta_power == deed_delta(self.pre@, self.post@, SnapMetric::Power)
        &&& self.delta_tech == deed_delta(self.pre@, self.post@, SnapMetric::Tech)
        &&& self.delta_bioload == deed_delta(self.pre@, self.post@, SnapMetric::Bioload)
        &&& self.delta_pollution == deed_delta(self.pre@, self.post@, SnapMetric::Pollution)
        &&& self.delta_exposure == deed_delta(self.pre@, self.post@, SnapMetric::Exposure)
    }

    /// Build a deed from captured snapshots, deriving the cached deltas
    /// in the same step so they can never drift from `pre`/`post`.
    pub fn new(
        tick: Tick,
        kind: DeedKind,
        primary_site: SiteIndex,
        other_site: Option<SiteIndex>,
        pre: Vec<SiteSnapshot>,
        post: Vec<SiteSnapshot>,
        cause: CauseContext,
    ) -> (d: Deed)
        requires
            pre@.len() == post@.len(),
            forall|i: int| 0 <= i < pre@.len() ==> (#[trigger] pre@[i]).index == post@[i].index,
            forall|i: int| 0 <= i < pre@.len() ==> (#[trigger] pre@[i]).wf(),
            forall|i: int| 0 <= i < post@.len() ==> (#[trigger] post@[i]).wf(),
        ensures
            d.wf(),
            d.tick == tick,
            d.kind == kind,
            d.primary_site == primary_site,
            d.other_site == other_site,
            d.pre@ == pre@,
            d.post@ == post@,
            d.cause == cause,
    {
        let delta_church = delta_of(&pre, &post, SnapMetric::Church);
        let delta_fear = delta_of(&pre, &post, SnapMetric::Fear);
        let delta_power = delta_of(&pre, &post, SnapMetric::Power);
        let delta_tech = delta_of(&pre, &post, SnapMetric::Tech);
        let delta_bioload = delta_of(&pre, &post, SnapMetric::Bioload);
        let delta_pollution = delta_of(&pre, &post, SnapMetric::Pollution);
        let delta_exposure = delta_of(&pre, &post, SnapMetric::Exposure);
        Deed {
            tick,
            kind,
            primary_site,
            other_site,
            pre,
            post,
            cause,
            delta_church,
            delta_fear,
            delta_power,
            delta_tech,
            delta_bioload,
            delta_pollution,
            delta_exposure,
        }
    }
}

/// Difference of post and pre means of one metric.
fn delta_of(pre: &Vec<SiteSnapshot>, post: &Vec<SiteSnapshot>, m: SnapMetric) -> (r: i64)
    requires
        forall|i: int| 0 <= i < pre@.len() ==> (#[trigger] pre@[i]).wf(),
        forall|i: int| 0 <= i < post@.len() ==> (#[trigger] post@[i]).wf(),
    ensures
        r as int == deed_delta(pre@, post@, m),
        -UNIT_MAX <= r <= UNIT_MAX,
{
    let post_mean = metric_mean_exec(post, m);
    let pre_mean = metric_mean_exec(pre, m);
    post_mean - pre_mean
}

/// Ordered, append-only ledger of deeds: the system of record.
#[derive(Clone, Debug)]
pub struct EventLog {
    pub deeds: Vec<Deed>,
}

impl EventLog {
    /// Ledger invariant: tick values never decrease along the ledger.
    /// Maintaining it is the appender's responsibility; `push` states
    /// under which condition it is preserved.
    pub open spec fn wf(self) -> bool {
        forall|i: int, j: int|
            0 <= i <= j < self.deeds@.len() ==> (#[trigger] self.deeds@[i]).tick
                <= (#[trigger] self.deeds@[j]).tick
    }

    /// Append-only: the new ledger is the old ledger plus `deed` at the
    /// end; the length grows by exactly one and no prior entry changes.
    pub fn push(&mut self, deed: Deed)
        ensures
            final(self).deeds@ == old(self).deeds@.push(deed),
            final(self).deeds@.len() == old(self).deeds@.len() + 1,
            forall|i: int|
                0 <= i < old(self).deeds@.len() ==> final(self).deeds@[i] == old(
                    self,
                ).deeds@[i],
            old(self).wf() && (old(self).deeds@.len() == 0 || old(self).deeds@.last().tick
                <= deed.tick) ==> final(self).wf(),
    {
        self.deeds.push(deed);
    }

    /// The deeds in insertion order, borrowed for iteration.
    pub fn iter(&self) -> (r: &Vec<Deed>)
        ensures
            r@ == self.deeds@,
    {
        &self.deeds
    }
}

impl Default for EventLog {
    /// The empty ledger.
    fn default() -> (r: EventLog)
        ensures
            r.deeds@.len() == 0,
            r.wf(),
    {
        EventLog { deeds: Vec::new() }
    }
}

} // verus!
