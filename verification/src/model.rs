//! State model: sites, token rails, biophysical state, corridor
//! constraints, worlds, and value-semantic site snapshots.
//!
//! Every scalar is a fixed-point integer in micro-units (`SCALE`
//! micro-units = 1.0). Quantities that live in `[0, 1]` are stored in
//! `[0, SCALE]`; open-ended non-negative quantities are capped at
//! `UNIT_MAX` so that sums and products over them fit the machine
//! integers they are computed in.

use vstd::prelude::*;

verus! {

/// Micro-units per whole unit: a stored `v: i64` stands for `v / SCALE`.
pub const SCALE: i64 = 1_000_000;

/// Cap on every open-ended non-negative scalar (tokens, pollution,
/// exposure, habit figures): one million whole units in micro-units.
pub const UNIT_MAX: i64 = 1_000_000_000_000;

/// Cap on the number of sites a world may hold; keeps the pairwise
/// sums of the inequality metrics inside 128-bit arithmetic.
pub const MAX_SITES: usize = 1_000_000_000;

pub type SiteIndex = usize;
pub type Tick = u64;

/// Core scalar rails at each site.
#[derive(Clone, Copy, PartialEq, Eq, Structural, Debug)]
pub struct TokenState {
    pub church: i64,
    pub fear: i64,
    pub power: i64,
    pub tech: i64,
}

impl TokenState {
    /// Token rails are non-negative and capped.
    pub open spec fn wf(self) -> bool {
        &&& 0 <= self.church <= UNIT_MAX
        &&& 0 <= self.fear <= UNIT_MAX
        &&& 0 <= self.power <= UNIT_MAX
        &&& 0 <= self.tech <= UNIT_MAX
    }
}

/// Biophysical state of a site.
#[derive(Clone, Copy, PartialEq, Eq, Structural, Debug)]
pub struct BiophysicalState {
    /// Normalized biophysical load in `[0, SCALE]`.
    pub bioload: i64,
    /// Territorial / aggregate bioload view.
    pub computebioload: i64,
    /// Habit load, in `[0, habit_capacity]`.
    pub habit_load: i64,
    /// Habit capacity.
    pub habit_capacity: i64,
    /// Pollution stock.
    pub pollution: i64,
    /// Exposure dose (cumulative, non-decreasing over a site's life).
    pub exposure: i64,
}

impl BiophysicalState {
    pub open spec fn wf(self) -> bool {
        &&& 0 <= self.bioload <= SCALE
        &&& 0 <= self.computebioload <= UNIT_MAX
        &&& 0 <= self.habit_capacity <= UNIT_MAX
        &&& 0 <= self.habit_load <= self.habit_capacity
        &&& 0 <= self.pollution <= UNIT_MAX
        &&& 0 <= self.exposure <= UNIT_MAX
    }
}

/// Derived audit scalars, computed and attached externally; this crate
/// treats them as opaque pass-through data.
#[derive(Clone, Copy, PartialEq, Eq, Structural, Debug)]
pub struct JusticeState {
    pub hpcc: i64,
    pub erg: i64,
    pub tecr: i64,
}

/// Trust toward neighbors / attached communities, in `[0, SCALE]`.
#[derive(Clone, Copy, PartialEq, Eq, Structural, Debug)]
pub struct TrustState {
    pub trust: i64,
}

impl TrustState {
    pub open spec fn wf(self) -> bool {
        0 <= self.trust <= SCALE
    }
}

/// Full per-site state, owned by the `World` that contains it.
#[derive(Clone, Copy, PartialEq, Eq, Structural, Debug)]
pub struct SiteState {
    pub index: SiteIndex,
    pub occupied: bool,
    pub tokens: TokenState,
    pub bio: BiophysicalState,
    pub justice: JusticeState,
    pub trust: TrustState,
}

impl SiteState {
    pub open spec fn wf(self) -> bool {
        &&& self.tokens.wf()
        &&& self.bio.wf()
        &&& self.trust.wf()
    }
}

/// Per-episode read-only corridor thresholds.
#[derive(Clone, Copy, PartialEq, Eq, Structural, Debug)]
pub struct GlobalConstraints {
    /// Risk-of-harm ceiling.
    pub roh_max: i64,
    /// Decay ceiling.
    pub decay_max: i64,
    /// Territorial max bioload, in `[0, SCALE]`.
    pub max_bioload: i64,
    /// Ceiling on the power-to-church ratio (micro-units).
    pub power_church_k: i64,
    /// Fear safe band, `fear_min <= fear_max`.
    pub fear_min: i64,
    pub fear_max: i64,
}

impl GlobalConstraints {
    pub open spec fn wf(self) -> bool {
        &&& 0 <= self.roh_max
        &&& 0 <= self.decay_max
        &&& 0 <= self.max_bioload <= SCALE
        &&& 0 <= self.power_church_k
        &&& self.fear_min <= self.fear_max
    }
}

/// World state: tick counter, the sites, and the episode's constraints.
/// Mutated only by the external simulation.
#[derive(Clone, Debug)]
pub struct World {
    pub tick: Tick,
    pub sites: Vec<SiteState>,
    pub constraints: GlobalConstraints,
}

impl World {
    /// Site indices are unique; every site is well-formed; the site
    /// count stays under the arithmetic capacity bound.
    pub open spec fn wf(self) -> bool {
        &&& self.sites@.len() <= MAX_SITES
        &&& forall|i: int| 0 <= i < self.sites@.len() ==> (#[trigger] self.sites@[i]).wf()
        &&& forall|i: int, j: int|
            0 <= i < j < self.sites@.len() ==> self.sites@[i].index != self.sites@[j].index
    }
}

/// Immutable value copy of a site's rails at a point in time,
/// independent of the live `World`.
#[derive(Clone, Copy, PartialEq, Eq, Structural, Debug)]
pub struct SiteSnapshot {
    pub index: SiteIndex,
    pub tokens: TokenState,
    pub bio: BiophysicalState,
    pub justice: JusticeState,
    pub trust: TrustState,
}

impl SiteSnapshot {
    pub open spec fn wf(self) -> bool {
        &&& self.tokens.wf()
        &&& self.bio.wf()
        &&& self.trust.wf()
    }

    /// The snapshot a given site state captures to.
    pub open spec fn spec_of(site: SiteState) -> SiteSnapshot {
        SiteSnapshot {
            index: site.index,
            tokens: site.tokens,
            bio: site.bio,
            justice: site.justice,
            trust: site.trust,
        }
    }

    /// Capture a value copy of a live site.
    pub fn from_site(site: &SiteState) -> (s: SiteSnapshot)
        ensures
            s == SiteSnapshot::spec_of(*site),
            site.wf() ==> s.wf(),
    {
        SiteSnapshot {
            index: site.index,
            tokens: site.tokens,
            bio: site.bio,
            justice: site.justice,
            trust: site.trust,
        }
    }
}

/// A scalar read off a `SiteSnapshot` by the aggregate computations.
#[derive(Clone, Copy, PartialEq, Eq, Structural, Debug)]
pub enum SnapMetric {
    Church,
    Fear,
    Power,
    Tech,
    Bioload,
    Pollution,
    Exposure,
    /// Duty-of-care proxy: `0.4*power + 0.3*tech + 0.3*church`,
    /// rounded down in micro-units.
    Duty,
}

/// The value of one metric on one snapshot.
pub open spec fn metric_of(s: SiteSnapshot, m: SnapMetric) -> int {
    match m {
        SnapMetric::Church => s.tokens.church as int,
        SnapMetric::Fear => s.tokens.fear as int,
        SnapMetric::Power => s.tokens.power as int,
        SnapMetric::Tech => s.tokens.tech as int,
        SnapMetric::Bioload => s.bio.bioload as int,
        SnapMetric::Pollution => s.bio.pollution as int,
        SnapMetric::Exposure => s.bio.exposure as int,
        SnapMetric::Duty => (4 * s.tokens.power + 3 * s.tokens.tech + 3 * s.tokens.church) / 10,
    }
}

/// Sum of a metric over a sequence of snapshots.
pub open spec fn metric_sum(s: Seq<SiteSnapshot>, m: SnapMetric) -> int
    decreases s.len(),
{
    if s.len() == 0 {
        0
    } else {
        metric_sum(s.drop_last(), m) + metric_of(s.last(), m)
    }
}

/// Mean of a metric over a sequence of snapshots, rounded down;
/// `0` for the empty sequence.
pub open spec fn metric_mean(s: Seq<SiteSnapshot>, m: SnapMetric) -> int {
    if s.len() == 0 {
        0
    } else {
        metric_sum(s, m) / s.len() as int
    }
}

/// On a well-formed snapshot every metric lies in `[0, UNIT_MAX]`.
pub proof fn lemma_metric_in_range(s: SiteSnapshot, m: SnapMetric)
    requires
        s.wf(),
    ensures
        0 <= metric_of(s, m) <= UNIT_MAX,
{
    if m is Duty {
        assert(0 <= (4 * s.tokens.power + 3 * s.tokens.tech + 3 * s.tokens.church) / 10
            <= UNIT_MAX) by (nonlinear_arith)
            requires
                0 <= s.tokens.power <= UNIT_MAX,
                0 <= s.tokens.tech <= UNIT_MAX,
                0 <= s.tokens.church <= UNIT_MAX;
    }
}

/// Sums of a metric over well-formed snapshots stay in `[0, len * UNIT_MAX]`.
pub proof fn lemma_metric_sum_bound(s: Seq<SiteSnapshot>, m: SnapMetric)
    requires
        forall|i: int| 0 <= i < s.len() ==> (#[trigger] s[i]).wf(),
    ensures
        0 <= metric_sum(s, m) <= s.len() * UNIT_MAX,
    decreases s.len(),
{
    if s.len() == 0 {
    } else {
        lemma_metric_sum_bound(s.drop_last(), m);
        lemma_metric_in_range(s.last(), m);
        assert((s.len() - 1) * UNIT_MAX + UNIT_MAX == s.len() * UNIT_MAX) by (nonlinear_arith);
    }
}

/// Executable counterpart of `metric_of`.
fn metric_value(s: &SiteSnapshot, m: SnapMetric) -> (r: i64)
    requires
        s.wf(),
    ensures
        r as int == metric_of(*s, m),
        0 <= r <= UNIT_MAX,
{
    proof {
        lemma_metric_in_range(*s, m);
    }
    match m {
        SnapMetric::Church => s.tokens.church,
        SnapMetric::Fear => s.tokens.fear,
        SnapMetric::Power => s.tokens.power,
        SnapMetric::Tech => s.tokens.tech,
        SnapMetric::Bioload => s.bio.bioload,
        SnapMetric::Pollution => s.bio.pollution,
        SnapMetric::Exposure => s.bio.exposure,
        SnapMetric::Duty => {
            let p = s.tokens.power as u128;
            let t = s.tokens.tech as u128;
            let c = s.tokens.church as u128;
            let duty = (4 * p + 3 * t + 3 * c) / 10;
            duty as i64
        },
    }
}

/// Executable mean of a metric over snapshots: sum divided by count,
/// rounded down; `0` when the list is empty.
pub fn metric_mean_exec(s: &Vec<SiteSnapshot>, m: SnapMetric) -> (r: i64)
    requires
        forall|i: int| 0 <= i < s@.len() ==> (#[trigger] s@[i]).wf(),
    ensures
        r as int == metric_mean(s@, m),
        0 <= r <= UNIT_MAX,
{
    if s.len() == 0 {
        return 0;
    }
    let mut acc: u128 = 0;
    let mut i: usize = 0;
    while i < s.len()
        invariant
            0 <= i <= s@.len(),
            forall|k: int| 0 <= k < s@.len() ==> (#[trigger] s@[k]).wf(),
            acc as int == metric_sum(s@.subrange(0, i as int), m),
            acc as int <= i as int * UNIT_MAX,
        decreases s@.len() - i,
    {
        let v = metric_value(&s[i], m);
        proof {
            assert(s@.subrange(0, i + 1).drop_last() =~= s@.subrange(0, i as int));
            assert((i as int) * UNIT_MAX + UNIT_MAX == (i + 1) as int * UNIT_MAX)
                by (nonlinear_arith);
            assert((i + 1) as int * UNIT_MAX <= s@.len() * UNIT_MAX) by (nonlinear_arith)
                requires
                    i + 1 <= s@.len(),
                    UNIT_MAX > 0;
            assert(s@.len() * UNIT_MAX < u128::MAX) by (nonlinear_arith)
                requires
                    s@.len() < 0x1_0000_0000_0000_0000,
                    UNIT_MAX == 1_000_000_000_000;
        }
        acc = acc + v as u128;
        i = i + 1;
    }
    proof {
        assert(s@.subrange(0, s@.len() as int) =~= s@);
        lemma_metric_sum_bound(s@, m);
        assert(metric_sum(s@, m) / s@.len() as int <= UNIT_MAX) by (nonlinear_arith)
            requires
                0 <= metric_sum(s@, m) <= s@.len() * UNIT_MAX,
                s@.len() > 0;
    }
    let n = s.len() as u128;
    let mean = acc / n;
    mean as i64
}

} // verus!
