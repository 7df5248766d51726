//! Episodes: one completed simulation run, its ledger, and the
//! aggregate metrics folded from them at finalization.

use vstd::prelude::*;
use vstd::arithmetic::div_mod::{
    lemma_div_is_ordered, lemma_div_multiples_vanish, lemma_div_multiples_vanish_quotient,
    lemma_div_of0,
};

use crate::deed::{Deed, EventLog};
use crate::model::{GlobalConstraints, SiteSnapshot, SiteState, World, MAX_SITES, SCALE, UNIT_MAX};

verus! {

/// Sum of an integer sequence.
pub open spec fn sum_seq(s: Seq<int>) -> int
    decreases s.len(),
{
    if s.len() == 0 {
        0
    } else {
        sum_seq(s.drop_last()) + s.last()
    }
}

pub open spec fn abs_int(x: int) -> int {
    if x >= 0 {
        x
    } else {
        -x
    }
}

/// Sum of `|x - e|` over the elements `e` of `all`.
pub open spec fn abs_diff_row(all: Seq<int>, x: int) -> int
    decreases all.len(),
{
    if all.len() == 0 {
        0
    } else {
        abs_diff_row(all.drop_last(), x) + abs_int(x - all.last())
    }
}

/// Sum of `|r - e|` over all pairs `(r, e)` in `rows x all`.
pub open spec fn pair_abs_sum(rows: Seq<int>, all: Seq<int>) -> int
    decreases rows.len(),
{
    if rows.len() == 0 {
        0
    } else {
        pair_abs_sum(rows.drop_last(), all) + abs_diff_row(all, rows.last())
    }
}

/// Gini coefficient of a non-negative distribution, in micro-units:
/// the mean absolute difference over twice the mean, rounded down.
/// `0` for an empty or all-zero distribution.
pub open spec fn spec_gini(s: Seq<int>) -> int {
    if s.len() == 0 || sum_seq(s) <= 0 {
        0
    } else {
        pair_abs_sum(s, s) * SCALE / (2 * s.len() * sum_seq(s))
    }
}

/// The token rails whose inequality an episode reports.
#[derive(Clone, Copy, PartialEq, Eq, Structural, Debug)]
pub enum TokenRail {
    Power,
    Tech,
    Church,
}

pub open spec fn rail_of(site: SiteState, r: TokenRail) -> int {
    match r {
        TokenRail::Power => site.tokens.power as int,
        TokenRail::Tech => site.tokens.tech as int,
        TokenRail::Church => site.tokens.church as int,
    }
}

/// One rail's distribution across a world's sites.
pub open spec fn rail_seq(sites: Seq<SiteState>, r: TokenRail) -> Seq<int> {
    sites.map_values(|site: SiteState| rail_of(site, r))
}

/// Cumulative exposure delta across a ledger.
pub open spec fn spec_total_exposure(deeds: Seq<Deed>) -> int
    decreases deeds.len(),
{
    if deeds.len() == 0 {
        0
    } else {
        spec_total_exposure(deeds.drop_last()) + deeds.last().delta_exposure
    }
}

/// Cumulative bioload delta across a ledger.
pub open spec fn spec_total_bioload(deeds: Seq<Deed>) -> int
    decreases deeds.len(),
{
    if deeds.len() == 0 {
        0
    } else {
        spec_total_bioload(deeds.drop_last()) + deeds.last().delta_bioload
    }
}

/// A post-deed snapshot breaks a corridor: bioload over the ceiling,
/// power over `k` times church (for a positive church holding), or
/// fear outside the safe band.
pub open spec fn snapshot_violates(s: SiteSnapshot, gc: GlobalConstraints) -> bool {
    ||| s.bio.bioload > gc.max_bioload
    ||| (s.tokens.church > 0 && s.tokens.power * SCALE > gc.power_church_k * s.tokens.church)
    ||| s.tokens.fear < gc.fear_min
    ||| s.tokens.fear > gc.fear_max
}

/// A deed is a collapse event when any of its post-deed snapshots
/// breaks a corridor.
pub open spec fn deed_collapses(d: Deed, gc: GlobalConstraints) -> bool {
    exists|i: int| 0 <= i < d.post@.len() && snapshot_violates(#[trigger] d.post@[i], gc)
}

/// Number of collapse events in a ledger.
pub open spec fn spec_collapse_count(deeds: Seq<Deed>, gc: GlobalConstraints) -> int
    decreases deeds.len(),
{
    if deeds.len() == 0 {
        0
    } else {
        spec_collapse_count(deeds.drop_last(), gc) + if deed_collapses(deeds.last(), gc) {
            1int
        } else {
            0int
        }
    }
}

/// Single simulation run: world trajectory, ledger, aggregate metrics,
/// and reflection hooks.
#[derive(Clone, Debug)]
pub struct Episode {
    pub id: String,
    pub world_init: World,
    pub world_final: World,
    pub event_log: EventLog,
    /// Cumulative exposure delta over the ledger (micro-units).
    pub total_exposure: i128,
    /// Cumulative bioload delta over the ledger (micro-units).
    pub total_bioload: i128,
    /// Ledger entries whose post-deed state breaks any corridor.
    pub collapse_events: u64,
    pub gini_power: i64,
    pub gini_tech: i64,
    pub gini_church: i64,
    /// Reflection triples (what / so what / now what), matched by index.
    pub what_reflections: Vec<String>,
    pub so_what_reflections: Vec<String>,
    pub now_what_reflections: Vec<String>,
}

impl Episode {
    /// The three reflection sequences stay equal-length, so their
    /// indices form 1:1 triples.
    pub open spec fn reflections_aligned(self) -> bool {
        &&& self.what_reflections@.len() == self.so_what_reflections@.len()
        &&& self.what_reflections@.len() == self.now_what_reflections@.len()
    }

    /// Open an episode: the initial world is fixed here; the final
    /// world starts as a copy of it and the metrics at zero until
    /// `finalize`.
    pub fn new(id: String, world_init: World) -> (e: Episode)
        ensures
            e.id@ == id@,
            e.world_init == world_init,
            e.world_final.tick == world_init.tick,
            e.world_final.sites@ == world_init.sites@,
            e.world_final.constraints == world_init.constraints,
            e.event_log.deeds@.len() == 0,
            e.event_log.wf(),
            e.total_exposure == 0,
            e.total_bioload == 0,
            e.collapse_events == 0,
            e.gini_power == 0,
            e.gini_tech == 0,
            e.gini_church == 0,
            e.what_reflections@.len() == 0,
            e.so_what_reflections@.len() == 0,
            e.now_what_reflections@.len() == 0,
            e.reflections_aligned(),
    {
        let world_final = clone_world(&world_init);
        Episode {
            id,
            world_init,
            world_final,
            event_log: EventLog::default(),
            total_exposure: 0,
            total_bioload: 0,
            collapse_events: 0,
            gini_power: 0,
            gini_tech: 0,
            gini_church: 0,
            what_reflections: Vec::new(),
            so_what_reflections: Vec::new(),
            now_what_reflections: Vec::new(),
        }
    }

    /// Close the episode: fix the final world and fold the ledger and
    /// final state into the aggregate metrics.
    pub fn finalize(&mut self, final_world: World)
        requires
            final_world.wf(),
        ensures
            final(self).world_final == final_world,
            final(self).total_exposure == spec_total_exposure(old(self).event_log.deeds@),
            final(self).total_bioload == spec_total_bioload(old(self).event_log.deeds@),
            final(self).collapse_events == spec_collapse_count(
                old(self).event_log.deeds@,
                final_world.constraints,
            ),
            final(self).gini_power == spec_gini(rail_seq(final_world.sites@, TokenRail::Power)),
            final(self).gini_tech == spec_gini(rail_seq(final_world.sites@, TokenRail::Tech)),
            final(self).gini_church == spec_gini(rail_seq(final_world.sites@, TokenRail::Church)),
            0 <= final(self).gini_power <= SCALE,
            0 <= final(self).gini_tech <= SCALE,
            0 <= final(self).gini_church <= SCALE,
            final(self).id == old(self).id,
            final(self).world_init == old(self).world_init,
            final(self).event_log == old(self).event_log,
            final(self).what_reflections == old(self).what_reflections,
            final(self).so_what_reflections == old(self).so_what_reflections,
            final(self).now_what_reflections == old(self).now_what_reflections,
    {
        self.total_exposure = total_exposure_of(&self.event_log.deeds);
        self.total_bioload = total_bioload_of(&self.event_log.deeds);
        self.collapse_events = count_collapses(&self.event_log.deeds, &final_world.constraints);
        self.gini_power = gini_rail(&final_world.sites, TokenRail::Power);
        self.gini_tech = gini_rail(&final_world.sites, TokenRail::Tech);
        self.gini_church = gini_rail(&final_world.sites, TokenRail::Church);
        self.world_final = final_world;
    }

    /// Record one matched reflection triple; keeps the sequences
    /// aligned and touches nothing else.
    pub fn add_reflection(&mut self, what: String, so_what: String, now_what: String)
        ensures
            final(self).what_reflections@ == old(self).what_reflections@.push(what),
            final(self).so_what_reflections@ == old(self).so_what_reflections@.push(so_what),
            final(self).now_what_reflections@ == old(self).now_what_reflections@.push(now_what),
            old(self).reflections_aligned() ==> final(self).reflections_aligned(),
            final(self).id == old(self).id,
            final(self).world_init == old(self).world_init,
            final(self).world_final == old(self).world_final,
            final(self).event_log == old(self).event_log,
            final(self).total_exposure == old(self).total_exposure,
            final(self).total_bioload == old(self).total_bioload,
            final(self).collapse_events == old(self).collapse_events,
            final(self).gini_power == old(self).gini_power,
            final(self).gini_tech == old(self).gini_tech,
            final(self).gini_church == old(self).gini_church,
    {
        self.what_reflections.push(what);
        self.so_what_reflections.push(so_what);
        self.now_what_reflections.push(now_what);
    }
}

/// Value copy of a world (sites are plain values).
fn clone_world(w: &World) -> (r: World)
    ensures
        r.tick == w.tick,
        r.sites@ == w.sites@,
        r.constraints == w.constraints,
{
    let mut sites: Vec<SiteState> = Vec::new();
    let mut i: usize = 0;
    while i < w.sites.len()
        invariant
            0 <= i <= w.sites@.len(),
            sites@ == w.sites@.subrange(0, i as int),
        decreases w.sites@.len() - i,
    {
        sites.push(w.sites[i]);
        proof {
            assert(sites@ =~= w.sites@.subrange(0, i + 1));
        }
        i = i + 1;
    }
    proof {
        assert(w.sites@.subrange(0, w.sites@.len() as int) =~= w.sites@);
    }
    World { tick: w.tick, sites, constraints: w.constraints }
}

fn total_exposure_of(deeds: &Vec<Deed>) -> (t: i128)
    ensures
        t as int == spec_total_exposure(deeds@),
{
    let mut t: i128 = 0;
    let mut i: usize = 0;
    while i < deeds.len()
        invariant
            0 <= i <= deeds@.len(),
            t as int == spec_total_exposure(deeds@.subrange(0, i as int)),
            -(i as int) * 0x8000_0000_0000_0000 <= t as int <= i as int * 0x7fff_ffff_ffff_ffff,
        decreases deeds@.len() - i,
    {
        proof {
            assert(deeds@.subrange(0, i + 1).drop_last() =~= deeds@.subrange(0, i as int));
            assert((i as int + 1) * 0x8000_0000_0000_0000 == i as int * 0x8000_0000_0000_0000
                + 0x8000_0000_0000_0000) by (nonlinear_arith);
            assert((i as int + 1) * 0x7fff_ffff_ffff_ffff == i as int * 0x7fff_ffff_ffff_ffff
                + 0x7fff_ffff_ffff_ffff) by (nonlinear_arith);
            assert((i as int + 1) * 0x8000_0000_0000_0000 <= 0xffff_ffff_ffff_ffff
                * 0x8000_0000_0000_0000) by (nonlinear_arith)
                requires
                    i as int + 1 <= 0xffff_ffff_ffff_ffff;
            assert((i as int + 1) * 0x7fff_ffff_ffff_ffff <= 0xffff_ffff_ffff_ffff
                * 0x7fff_ffff_ffff_ffff) by (nonlinear_arith)
                requires
                    i as int + 1 <= 0xffff_ffff_ffff_ffff;
        }
        t = t + deeds[i].delta_exposure as i128;
        i = i + 1;
    }
    proof {
        assert(deeds@.subrange(0, deeds@.len() as int) =~= deeds@);
    }
    t
}

fn total_bioload_of(deeds: &Vec<Deed>) -> (t: i128)
    ensures
        t as int == spec_total_bioload(deeds@),
{
    let mut t: i128 = 0;
    let mut i: usize = 0;
    while i < deeds.len()
        invariant
            0 <= i <= deeds@.len(),
            t as int == spec_total_bioload(deeds@.subrange(0, i as int)),
            -(i as int) * 0x8000_0000_0000_0000 <= t as int <= i as int * 0x7fff_ffff_ffff_ffff,
        decreases deeds@.len() - i,
    {
        proof {
            assert(deeds@.subrange(0, i + 1).drop_last() =~= deeds@.subrange(0, i as int));
            assert((i as int + 1) * 0x8000_0000_0000_0000 == i as int * 0x8000_0000_0000_0000
                + 0x8000_0000_0000_0000) by (nonlinear_arith);
            assert((i as int + 1) * 0x7fff_ffff_ffff_ffff == i as int * 0x7fff_ffff_ffff_ffff
                + 0x7fff_ffff_ffff_ffff) by (nonlinear_arith);
            assert((i as int + 1) * 0x8000_0000_0000_0000 <= 0xffff_ffff_ffff_ffff
                * 0x8000_0000_0000_0000) by (nonlinear_arith)
                requires
                    i as int + 1 <= 0xffff_ffff_ffff_ffff;
            assert((i as int + 1) * 0x7fff_ffff_ffff_ffff <= 0xffff_ffff_ffff_ffff
                * 0x7fff_ffff_ffff_ffff) by (nonlinear_arith)
                requires
                    i as int + 1 <= 0xffff_ffff_ffff_ffff;
        }
        t = t + deeds[i].delta_bioload as i128;
        i = i + 1;
    }
    proof {
        assert(deeds@.subrange(0, deeds@.len() as int) =~= deeds@);
    }
    t
}

fn snapshot_violates_exec(s: &SiteSnapshot, gc: &GlobalConstraints) -> (b: bool)
    ensures
        b == snapshot_violates(*s, *gc),
{
    if s.bio.bioload > gc.max_bioload {
        return true;
    }
    if s.tokens.church > 0 {
        proof {
            assert((s.tokens.power as int) * (SCALE as int) < 0x8000_0000_0000_0000_0000_0000int
                && (s.tokens.power as int) * (SCALE as int)
                > -0x8000_0000_0000_0000_0000_0000int) by (nonlinear_arith)
                requires
                    -0x8000_0000_0000_0000 <= s.tokens.power as int <= 0x7fff_ffff_ffff_ffff,
                    SCALE == 1_000_000;
            assert((gc.power_church_k as int) * (s.tokens.church as int)
                < 0x8000_0000_0000_0000_0000_0000_0000_0000int && (gc.power_church_k as int) * (
            s.tokens.church as int) > -0x8000_0000_0000_0000_0000_0000_0000_0000int)
                by (nonlinear_arith)
                requires
                    -0x8000_0000_0000_0000 <= gc.power_church_k as int <= 0x7fff_ffff_ffff_ffff,
                    -0x8000_0000_0000_0000 <= s.tokens.church as int <= 0x7fff_ffff_ffff_ffff;
        }
        if (s.tokens.power as i128) * (SCALE as i128) > (gc.power_church_k as i128)
            * (s.tokens.church as i128) {
            return true;
        }
    }
    if s.tokens.fear < gc.fear_min || s.tokens.fear > gc.fear_max {
        return true;
    }
    false
}

fn deed_collapses_exec(d: &Deed, gc: &GlobalConstraints) -> (b: bool)
    ensures
        b == deed_collapses(*d, *gc),
{
    let mut i: usize = 0;
    while i < d.post.len()
        invariant
            0 <= i <= d.post@.len(),
            forall|k: int| 0 <= k < i ==> !snapshot_violates(#[trigger] d.post@[k], *gc),
        decreases d.post@.len() - i,
    {
        if snapshot_violates_exec(&d.post[i], gc) {
            return true;
        }
        i = i + 1;
    }
    false
}

fn count_collapses(deeds: &Vec<Deed>, gc: &GlobalConstraints) -> (c: u64)
    ensures
        c as int == spec_collapse_count(deeds@, *gc),
{
    let mut c: u64 = 0;
    let mut i: usize = 0;
    while i < deeds.len()
        invariant
            0 <= i <= deeds@.len(),
            c as int == spec_collapse_count(deeds@.subrange(0, i as int), *gc),
            c as int <= i as int,
        decreases deeds@.len() - i,
    {
        proof {
            assert(deeds@.subrange(0, i + 1).drop_last() =~= deeds@.subrange(0, i as int));
        }
        if deed_collapses_exec(&deeds[i], gc) {
            c = c + 1;
        }
        i = i + 1;
    }
    proof {
        assert(deeds@.subrange(0, deeds@.len() as int) =~= deeds@);
    }
    c
}

/// Sums of non-negative sequences are non-negative and bounded by
/// `len * bound` when every element is.
proof fn lemma_sum_bounds(s: Seq<int>, bound: int)
    requires
        forall|i: int| 0 <= i < s.len() ==> 0 <= #[trigger] s[i] <= bound,
    ensures
        0 <= sum_seq(s) <= s.len() * bound,
    decreases s.len(),
{
    if s.len() == 0 {
    } else {
        lemma_sum_bounds(s.drop_last(), bound);
        assert((s.len() - 1) * bound + bound == s.len() * bound) by (nonlinear_arith);
    }
}

/// `abs_diff_row(all, x) <= all.len() * x + sum_seq(all)` for a
/// non-negative row value over non-negative elements.
proof fn lemma_row_le(all: Seq<int>, x: int)
    requires
        x >= 0,
        forall|i: int| 0 <= i < all.len() ==> #[trigger] all[i] >= 0,
    ensures
        0 <= abs_diff_row(all, x) <= all.len() * x + sum_seq(all),
    decreases all.len(),
{
    if all.len() == 0 {
    } else {
        lemma_row_le(all.drop_last(), x);
        assert((all.len() - 1) * x + x == all.len() * x) by (nonlinear_arith);
    }
}

/// `pair_abs_sum(rows, all) <= all.len() * sum_seq(rows) + rows.len() * sum_seq(all)`
/// over non-negative sequences.
proof fn lemma_pair_le(rows: Seq<int>, all: Seq<int>)
    requires
        forall|i: int| 0 <= i < rows.len() ==> #[trigger] rows[i] >= 0,
        forall|i: int| 0 <= i < all.len() ==> #[trigger] all[i] >= 0,
    ensures
        0 <= pair_abs_sum(rows, all) <= all.len() * sum_seq(rows) + rows.len() * sum_seq(all),
    decreases rows.len(),
{
    if rows.len() == 0 {
    } else {
        lemma_pair_le(rows.drop_last(), all);
        lemma_row_le(all, rows.last());
        assert(all.len() * (sum_seq(rows.drop_last()) + rows.last()) == all.len() * sum_seq(
            rows.drop_last(),
        ) + all.len() * rows.last()) by (nonlinear_arith);
        assert((rows.len() - 1) * sum_seq(all) + sum_seq(all) == rows.len() * sum_seq(all))
            by (nonlinear_arith);
    }
}

/// Gini coefficient of one token rail across a world's sites.
fn gini_rail(sites: &Vec<SiteState>, r: TokenRail) -> (g: i64)
    requires
        sites@.len() <= MAX_SITES,
        forall|i: int| 0 <= i < sites@.len() ==> (#[trigger] sites@[i]).wf(),
    ensures
        g as int == spec_gini(rail_seq(sites@, r)),
        0 <= g <= SCALE,
{
    let ghost vals = rail_seq(sites@, r);
    proof {
        assert(forall|i: int| 0 <= i < vals.len() ==> 0 <= #[trigger] vals[i] <= UNIT_MAX);
    }
    let n = sites.len();
    if n == 0 {
        return 0;
    }
    // Total holding on the rail.
    let mut total: u128 = 0;
    let mut i: usize = 0;
    while i < n
        invariant
            n == sites@.len() <= MAX_SITES,
            forall|k: int| 0 <= k < sites@.len() ==> (#[trigger] sites@[k]).wf(),
            vals == rail_seq(sites@, r),
            0 <= i <= n,
            total as int == sum_seq(vals.subrange(0, i as int)),
            total as int <= i as int * UNIT_MAX,
        decreases n - i,
    {
        let v = rail_value(&sites[i], r);
        proof {
            assert(vals.subrange(0, i + 1).drop_last() =~= vals.subrange(0, i as int));
            assert(i as int * UNIT_MAX + UNIT_MAX == (i as int + 1) * UNIT_MAX)
                by (nonlinear_arith);
            assert((i as int + 1) * UNIT_MAX <= 1_000_000_000 * 1_000_000_000_000int)
                by (nonlinear_arith)
                requires
                    i as int + 1 <= 1_000_000_000,
                    UNIT_MAX == 1_000_000_000_000;
        }
        total = total + v as u128;
        i = i + 1;
    }
    proof {
        assert(vals.subrange(0, n as int) =~= vals);
    }
    if total == 0 {
        return 0;
    }
    // Sum of absolute pairwise differences.
    let mut pairs: u128 = 0;
    let mut i: usize = 0;
    while i < n
        invariant
            n == sites@.len() <= MAX_SITES,
            forall|k: int| 0 <= k < sites@.len() ==> (#[trigger] sites@[k]).wf(),
            vals == rail_seq(sites@, r),
            0 <= i <= n,
            pairs as int == pair_abs_sum(vals.subrange(0, i as int), vals),
            pairs as int <= i as int * (n as int * UNIT_MAX),
        decreases n - i,
    {
        let xi = rail_value(&sites[i], r);
        let mut row: u128 = 0;
        let mut j: usize = 0;
        while j < n
            invariant
                n == sites@.len() <= MAX_SITES,
                forall|k: int| 0 <= k < sites@.len() ==> (#[trigger] sites@[k]).wf(),
                vals == rail_seq(sites@, r),
                0 <= j <= n,
                0 <= xi <= UNIT_MAX,
                xi as int == vals[i as int],
                0 <= i < n,
                row as int == abs_diff_row(vals.subrange(0, j as int), xi as int),
                row as int <= j as int * UNIT_MAX,
            decreases n - j,
        {
            let xj = rail_value(&sites[j], r);
            let d: u64 = if xi >= xj {
                (xi - xj) as u64
            } else {
                (xj - xi) as u64
            };
            proof {
                assert(vals.subrange(0, j + 1).drop_last() =~= vals.subrange(0, j as int));
                assert(j as int * UNIT_MAX + UNIT_MAX == (j as int + 1) * UNIT_MAX)
                    by (nonlinear_arith);
                assert((j as int + 1) * UNIT_MAX <= 1_000_000_000 * 1_000_000_000_000int)
                    by (nonlinear_arith)
                    requires
                        j as int + 1 <= 1_000_000_000,
                        UNIT_MAX == 1_000_000_000_000;
            }
            row = row + d as u128;
            j = j + 1;
        }
        proof {
            assert(vals.subrange(0, n as int) =~= vals);
            assert(vals.subrange(0, i + 1).drop_last() =~= vals.subrange(0, i as int));
            assert(vals.subrange(0, i + 1).last() == vals[i as int]);
            assert(row as int <= n as int * UNIT_MAX);
            assert(i as int * (n as int * UNIT_MAX) + n as int * UNIT_MAX == (i as int + 1) * (
            n as int * UNIT_MAX)) by (nonlinear_arith);
            assert((i as int + 1) * (n as int * UNIT_MAX) <= 1_000_000_000 * (1_000_000_000
                * 1_000_000_000_000int)) by (nonlinear_arith)
                requires
                    i as int + 1 <= 1_000_000_000,
                    n as int <= 1_000_000_000,
                    UNIT_MAX == 1_000_000_000_000;
        }
        pairs = pairs + row;
        i = i + 1;
    }
    proof {
        assert(vals.subrange(0, n as int) =~= vals);
    }
    // pairs <= 2 * n * total, so the quotient is at most SCALE.
    proof {
        assert(2 * (n as int) * (total as int) <= 2 * (1_000_000_000 * (1_000_000_000
            * 1_000_000_000_000int))) by (nonlinear_arith)
            requires
                1 <= n as int <= 1_000_000_000,
                0 <= total as int <= n as int * UNIT_MAX,
                UNIT_MAX == 1_000_000_000_000;
    }
    let denom: u128 = 2 * (n as u128) * total;
    proof {
        lemma_pair_le(vals, vals);
        lemma_sum_bounds(vals, UNIT_MAX as int);
        let p = pair_abs_sum(vals, vals);
        let t = sum_seq(vals);
        assert(2 * (n as int) * t == n as int * t + n as int * t) by (nonlinear_arith);
        assert(denom as int == 2 * (n as int) * t) by (nonlinear_arith)
            requires
                total as int == t,
                n >= 1,
                t >= 1,
                denom as int == 2 * (n as int) * (total as int);
        assert(denom > 0) by (nonlinear_arith)
            requires
                denom as int == 2 * (n as int) * (total as int),
                n >= 1,
                total >= 1;
        assert(p * SCALE <= (2 * (n as int) * t) * SCALE) by (nonlinear_arith)
            requires
                0 <= p <= 2 * (n as int) * t,
                SCALE > 0;
        lemma_div_is_ordered(p * SCALE, (2 * (n as int) * t) * SCALE, 2 * (n as int) * t);
        lemma_div_multiples_vanish(SCALE as int, 2 * (n as int) * t);
        assert((2 * (n as int) * t) * SCALE == (2 * (n as int) * t) * (SCALE as int));
        lemma_div_of0(2 * (n as int) * t);
        lemma_div_is_ordered(0, p * SCALE, 2 * (n as int) * t);
        // The numerator fits u128.
        assert(p <= 2 * (1_000_000_000 * (1_000_000_000 * 1_000_000_000_000int)))
            by (nonlinear_arith)
            requires
                p <= 2 * (n as int) * t,
                0 <= t <= n as int * UNIT_MAX,
                0 <= n as int <= 1_000_000_000,
                UNIT_MAX == 1_000_000_000_000;
        assert(p * SCALE <= 2 * (1_000_000_000 * (1_000_000_000 * 1_000_000_000_000int))
            * 1_000_000) by (nonlinear_arith)
            requires
                0 <= p <= 2 * (1_000_000_000 * (1_000_000_000 * 1_000_000_000_000int)),
                SCALE == 1_000_000;
    }
    let g = (pairs * (SCALE as u128)) / denom;
    g as i64
}

proof fn lemma_sum_all_equal(s: Seq<int>, v: int)
    requires
        forall|i: int| 0 <= i < s.len() ==> #[trigger] s[i] == v,
    ensures
        sum_seq(s) == s.len() * v,
    decreases s.len(),
{
    if s.len() == 0 {
    } else {
        lemma_sum_all_equal(s.drop_last(), v);
        assert((s.len() - 1) * v + v == s.len() * v) by (nonlinear_arith);
    }
}

proof fn lemma_row_all_equal(all: Seq<int>, x: int)
    requires
        forall|i: int| 0 <= i < all.len() ==> #[trigger] all[i] == x,
    ensures
        abs_diff_row(all, x) == 0,
    decreases all.len(),
{
    if all.len() == 0 {
    } else {
        lemma_row_all_equal(all.drop_last(), x);
    }
}

proof fn lemma_pair_all_equal(rows: Seq<int>, all: Seq<int>, v: int)
    requires
        forall|i: int| 0 <= i < rows.len() ==> #[trigger] rows[i] == v,
        forall|i: int| 0 <= i < all.len() ==> #[trigger] all[i] == v,
    ensures
        pair_abs_sum(rows, all) == 0,
    decreases rows.len(),
{
    if rows.len() == 0 {
    } else {
        lemma_pair_all_equal(rows.drop_last(), all, v);
        lemma_row_all_equal(all, rows.last());
    }
}

/// Perfect equality: when every entry of the distribution holds the
/// same non-negative value, the Gini coefficient is zero.
pub proof fn lemma_gini_all_equal(s: Seq<int>, v: int)
    requires
        v >= 0,
        forall|i: int| 0 <= i < s.len() ==> #[trigger] s[i] == v,
    ensures
        spec_gini(s) == 0,
{
    if s.len() == 0 || sum_seq(s) <= 0 {
    } else {
        lemma_pair_all_equal(s, s, v);
        let d = 2 * s.len() * sum_seq(s);
        assert(d > 0) by (nonlinear_arith)
            requires
                s.len() > 0,
                sum_seq(s) > 0,
                d == 2 * s.len() * sum_seq(s);
        lemma_div_of0(d);
    }
}

proof fn lemma_row_all_zero(all: Seq<int>, x: int)
    requires
        x >= 0,
        forall|i: int| 0 <= i < all.len() ==> #[trigger] all[i] == 0,
    ensures
        abs_diff_row(all, x) == all.len() * x,
    decreases all.len(),
{
    if all.len() == 0 {
    } else {
        lemma_row_all_zero(all.drop_last(), x);
        assert((all.len() - 1) * x + x == all.len() * x) by (nonlinear_arith);
    }
}

proof fn lemma_sum_single(s: Seq<int>, h: int)
    requires
        0 <= h < s.len(),
        forall|i: int| 0 <= i < s.len() && i != h ==> #[trigger] s[i] == 0,
    ensures
        sum_seq(s) == s[h],
    decreases s.len(),
{
    if h == s.len() - 1 {
        lemma_sum_all_equal(s.drop_last(), 0);
    } else {
        lemma_sum_single(s.drop_last(), h);
    }
}

/// Row sum against a distribution concentrated at index `h`:
/// `(len - 1)` zero entries each contribute `x`, the holder `|x - t|`.
proof fn lemma_row_concentrated(all: Seq<int>, h: int, x: int)
    requires
        0 <= h < all.len(),
        forall|i: int| 0 <= i < all.len() && i != h ==> #[trigger] all[i] == 0,
        x >= 0,
    ensures
        abs_diff_row(all, x) == (all.len() - 1) * x + abs_int(x - all[h]),
    decreases all.len(),
{
    if h == all.len() - 1 {
        lemma_row_all_zero(all.drop_last(), x);
    } else {
        lemma_row_concentrated(all.drop_last(), h, x);
        assert((all.len() - 2) * x + x == (all.len() - 1) * x) by (nonlinear_arith);
    }
}

proof fn lemma_pair_concentrated(s: Seq<int>, h: int, m: int)
    requires
        0 <= h < s.len(),
        s[h] >= 0,
        forall|i: int| 0 <= i < s.len() && i != h ==> #[trigger] s[i] == 0,
        0 <= m <= s.len(),
    ensures
        pair_abs_sum(s.subrange(0, m), s) == if h < m {
            (m - 1) * s[h] + (s.len() - 1) * s[h]
        } else {
            m * s[h]
        },
    decreases m,
{
    let t = s[h];
    let n = s.len() as int;
    if m == 0 {
    } else {
        lemma_pair_concentrated(s, h, m - 1);
        assert(s.subrange(0, m).drop_last() =~= s.subrange(0, m - 1));
        assert(s.subrange(0, m).last() == s[m - 1]);
        lemma_row_concentrated(s, h, if m - 1 == h {
            t
        } else {
            0
        });
        if m - 1 == h {
            // The holder's row contributes `(n - 1) * t`.
            assert((m - 1) * t + ((n - 1) * t + abs_int(t - t)) == (m - 1) * t + (n - 1) * t);
        } else {
            // A zero row contributes `|0 - t| == t`.
            assert((n - 1) * 0 + abs_int(0 - t) == t);
            if h < m - 1 {
                assert((m - 2) * t + (n - 1) * t + t == (m - 1) * t + (n - 1) * t)
                    by (nonlinear_arith);
            } else {
                assert((m - 1) * t + t == m * t) by (nonlinear_arith);
            }
        }
    }
}

/// Maximal concentration: when one entry holds the entire positive
/// supply among `n`, the Gini coefficient is `(n - 1) / n` of a whole
/// unit (rounded down).
pub proof fn lemma_gini_concentrated(s: Seq<int>, h: int)
    requires
        0 <= h < s.len(),
        s[h] > 0,
        forall|i: int| 0 <= i < s.len() && i != h ==> #[trigger] s[i] == 0,
    ensures
        spec_gini(s) == (s.len() - 1) * SCALE / (s.len() as int),
{
    let t = s[h];
    let n = s.len() as int;
    lemma_sum_single(s, h);
    lemma_pair_concentrated(s, h, n);
    assert(s.subrange(0, n) =~= s);
    assert(pair_abs_sum(s, s) == (n - 1) * t + (n - 1) * t);
    lemma_div_multiples_vanish_quotient(2 * t, (n - 1) * SCALE, n);
    assert(pair_abs_sum(s, s) * SCALE == 2 * t * ((n - 1) * SCALE)) by (nonlinear_arith)
        requires
            pair_abs_sum(s, s) == (n - 1) * t + (n - 1) * t,
            n >= 1;
    assert(2 * n * t == 2 * t * n) by (nonlinear_arith);
    assert(((n - 1) * SCALE) / n == (2 * t * ((n - 1) * SCALE)) / (2 * t * n));
}

fn rail_value(site: &SiteState, r: TokenRail) -> (v: i64)
    requires
        site.wf(),
    ensures
        v as int == rail_of(*site, r),
        0 <= v <= UNIT_MAX,
{
    match r {
        TokenRail::Power => site.tokens.power,
        TokenRail::Tech => site.tokens.tech,
        TokenRail::Church => site.tokens.church,
    }
}

} // verus!
