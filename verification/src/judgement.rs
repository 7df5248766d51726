//! The judgment engine: a pure, deterministic mapping from one deed
//! plus configuration and global constraints to a `Judgment`.

use vstd::prelude::*;
use vstd::string::StringExecFns;

use crate::deed::{Deed, DeedKind};
use crate::model::{metric_mean, metric_mean_exec, GlobalConstraints, SnapMetric, SCALE, UNIT_MAX};
use crate::render::{fixed3_seq, fixed3_string};

verus! {

/// Half a whole unit in micro-units.
pub const HALF_SCALE: i64 = 500_000;

/// Lowest value `overall_moral_score` can take (`-2.5` in micro-units).
pub const OVERALL_MIN: i64 = -2_500_000;

/// Per-deed moral evaluation, rule-based and auditable. Produced on
/// demand from a deed, never stored on it, so the same deed can be
/// re-judged under different configurations.
#[derive(Clone, Debug)]
pub struct Judgment {
    pub harmscore: i64,
    pub opportunity_cost_score: i64,
    pub responsibility_score: i64,
    pub fairness_score: i64,
    pub overall_moral_score: i64,
    pub rationale: String,
}

/// Parameters for the judgment engine. `vulnerable_fear_band` is an
/// accepted but not yet consumed policy hook.
#[derive(Clone, Copy, Debug)]
pub struct JudgmentConfig {
    pub high_load_threshold: i64,
    pub vulnerable_fear_band: (i64, i64),
}

/// Every snapshot carried by the deed is well-formed (the engine's
/// arithmetic capacity bound; site sets may still be degenerate).
pub open spec fn deed_snapshots_wf(d: Deed) -> bool {
    &&& forall|i: int| 0 <= i < d.pre@.len() ==> (#[trigger] d.pre@[i]).wf()
    &&& forall|i: int| 0 <= i < d.post@.len() ==> (#[trigger] d.post@[i]).wf()
}

/// Mean bioload before the deed (`0` when `pre` is empty).
pub open spec fn spec_pre_bioload(d: Deed) -> int {
    metric_mean(d.pre@, SnapMetric::Bioload)
}

/// Mean bioload after the deed (`0` when `post` is empty).
pub open spec fn spec_post_bioload(d: Deed) -> int {
    metric_mean(d.post@, SnapMetric::Bioload)
}

/// Change in mean bioload caused by the deed.
pub open spec fn spec_delta_bioload(d: Deed) -> int {
    spec_post_bioload(d) - spec_pre_bioload(d)
}

/// Post-deed power-to-church ratio in micro-units, rounded down;
/// `0` when mean church is zero (documented zero-denominator policy).
pub open spec fn spec_ratio_pc(d: Deed) -> int {
    let church = metric_mean(d.post@, SnapMetric::Church);
    if church > 0 {
        metric_mean(d.post@, SnapMetric::Power) * SCALE / church
    } else {
        0
    }
}

/// Harm score: bioload increases are penalized, half again as much in
/// an already high-load context; exceeding the power-church corridor
/// adds half the excess (unbounded above).
pub open spec fn spec_harmscore(d: Deed, cfg: JudgmentConfig, global: GlobalConstraints) -> int {
    let delta = spec_delta_bioload(d);
    let tier = if spec_pre_bioload(d) >= cfg.high_load_threshold && delta > 0 {
        3 * delta / 2
    } else if delta > 0 {
        delta
    } else {
        0
    };
    let ratio = spec_ratio_pc(d);
    let corridor = if ratio > global.power_church_k {
        (ratio - global.power_church_k) / 2
    } else {
        0
    };
    tier + corridor
}

/// Opportunity cost: half a unit for emitting or fighting while the
/// pre-deed load is already at or above the high-load threshold.
pub open spec fn spec_opportunity_cost(d: Deed, cfg: JudgmentConfig) -> int {
    if (d.kind is EmitPollution || d.kind is Conflict) && spec_pre_bioload(d)
        >= cfg.high_load_threshold {
        HALF_SCALE as int
    } else {
        0
    }
}

/// Responsibility gradient: mean duty-of-care over the pre-deed sites.
pub open spec fn spec_responsibility(d: Deed) -> int {
    metric_mean(d.pre@, SnapMetric::Duty)
}

/// Fairness score: the bioload increase of a pollution emission counts
/// against the emitter; never positive.
pub open spec fn spec_fairness(d: Deed) -> int {
    if d.kind is EmitPollution && spec_delta_bioload(d) > 0 {
        -spec_delta_bioload(d)
    } else {
        0
    }
}

pub open spec fn spec_clamp(x: int, lo: int, hi: int) -> int {
    if x < lo {
        lo
    } else if x > hi {
        hi
    } else {
        x
    }
}

/// Aggregate moral score: one whole unit minus the clamped penalty
/// terms; always in `[OVERALL_MIN, SCALE]`.
pub open spec fn spec_overall(d: Deed, cfg: JudgmentConfig, global: GlobalConstraints) -> int {
    SCALE - spec_clamp(spec_harmscore(d, cfg, global), 0, SCALE as int) - spec_clamp(
        spec_opportunity_cost(d, cfg),
        0,
        SCALE as int,
    ) - spec_clamp(spec_responsibility(d), 0, SCALE as int) / 2 + spec_clamp(
        spec_fairness(d),
        -(SCALE as int),
        0,
    )
}

/// The printable name of a deed kind.
pub open spec fn kind_label_spec(k: DeedKind) -> Seq<char> {
    match k {
        DeedKind::Help => "Help"@,
        DeedKind::Conflict => "Conflict"@,
        DeedKind::Colonize => "Colonize"@,
        DeedKind::Repair => "Repair"@,
        DeedKind::UseHabit => "UseHabit"@,
        DeedKind::EmitPollution => "EmitPollution"@,
        DeedKind::DeployCleanTech => "DeployCleanTech"@,
        DeedKind::SupportCessation => "SupportCessation"@,
        DeedKind::BanEmission => "BanEmission"@,
        DeedKind::RepairEnvironment => "RepairEnvironment"@,
        DeedKind::UseSupport => "UseSupport"@,
        DeedKind::Abstain => "Abstain"@,
    }
}

fn kind_label(k: &DeedKind) -> (r: &'static str)
    ensures
        r@ == kind_label_spec(*k),
{
    match k {
        DeedKind::Help => "Help",
        DeedKind::Conflict => "Conflict",
        DeedKind::Colonize => "Colonize",
        DeedKind::Repair => "Repair",
        DeedKind::UseHabit => "UseHabit",
        DeedKind::EmitPollution => "EmitPollution",
        DeedKind::DeployCleanTech => "DeployCleanTech",
        DeedKind::SupportCessation => "SupportCessation",
        DeedKind::BanEmission => "BanEmission",
        DeedKind::RepairEnvironment => "RepairEnvironment",
        DeedKind::UseSupport => "UseSupport",
        DeedKind::Abstain => "Abstain",
    }
}

/// The fixed-format audit string: kind plus the judged context values
/// at three-decimal precision (truncated toward zero).
pub open spec fn spec_rationale(d: Deed) -> Seq<char> {
    "kind="@ + kind_label_spec(d.kind) + ", pre_b="@ + fixed3_seq(spec_pre_bioload(d))
        + ", post_b="@ + fixed3_seq(spec_post_bioload(d)) + ", delta_b="@ + fixed3_seq(
        spec_delta_bioload(d),
    ) + ", ratio_pc="@ + fixed3_seq(spec_ratio_pc(d))
}

/// The judgment every call on `(d, cfg, global)` must return: each
/// score equals its defining term and the rationale is the fixed-format
/// audit string.
pub open spec fn judgment_matches(
    j: Judgment,
    d: Deed,
    cfg: JudgmentConfig,
    global: GlobalConstraints,
) -> bool {
    &&& j.harmscore == spec_harmscore(d, cfg, global)
    &&& j.opportunity_cost_score == spec_opportunity_cost(d, cfg)
    &&& j.responsibility_score == spec_responsibility(d)
    &&& j.fairness_score == spec_fairness(d)
    &&& j.overall_moral_score == spec_overall(d, cfg, global)
    &&& j.rationale@ == spec_rationale(d)
}

fn clamp_i64(x: i64, lo: i64, hi: i64) -> (r: i64)
    requires
        lo <= hi,
    ensures
        r as int == spec_clamp(x as int, lo as int, hi as int),
        lo <= r <= hi,
{
    if x < lo {
        lo
    } else if x > hi {
        hi
    } else {
        x
    }
}

/// Core judgment function: pure, deterministic mapping from one deed,
/// the engine configuration, and the episode constraints to a
/// `Judgment`. Empty snapshot lists resolve to zero means; a zero mean
/// church yields ratio zero.
pub fn judge_deed(deed: &Deed, cfg: &JudgmentConfig, global: &GlobalConstraints) -> (j: Judgment)
    requires
        deed_snapshots_wf(*deed),
        global.power_church_k >= 0,
    ensures
        judgment_matches(j, *deed, *cfg, *global),
        // Fairness sign invariant: never positive, and zero unless the
        // deed is a pollution emission that raised the mean bioload.
        j.fairness_score <= 0,
        !(deed.kind is EmitPollution && spec_delta_bioload(*deed) > 0) ==> j.fairness_score == 0,
        // Zero-harm: no bioload increase and a ratio inside the
        // corridor leave the harm score at zero.
        spec_delta_bioload(*deed) <= 0 && spec_ratio_pc(*deed) <= global.power_church_k
            ==> j.harmscore == 0,
        // The aggregate score is bounded.
        OVERALL_MIN <= j.overall_moral_score <= SCALE,
{
    // Context: average bioload before and after.
    let pre_b = metric_mean_exec(&deed.pre, SnapMetric::Bioload);
    let post_b = metric_mean_exec(&deed.post, SnapMetric::Bioload);
    let delta_b = post_b - pre_b;

    // Context: power-church ratio after the deed (stewardship).
    let post_power = metric_mean_exec(&deed.post, SnapMetric::Power);
    let post_church = metric_mean_exec(&deed.post, SnapMetric::Church);
    let ratio_pc: i64 = if post_church > 0 {
        let r = (post_power as u128 * SCALE as u128) / (post_church as u128);
        proof {
            assert(post_power as int * SCALE as int / post_church as int <= UNIT_MAX as int
                * SCALE as int) by (nonlinear_arith)
                requires
                    0 <= post_power <= UNIT_MAX,
                    0 < post_church,
                    SCALE > 0;
        }
        r as i64
    } else {
        0
    };

    // Harm: tiered bioload penalty plus corridor excess.
    let mut harmscore: i64 = 0;
    if pre_b >= cfg.high_load_threshold && delta_b > 0 {
        harmscore = ((3 * (delta_b as u64)) / 2) as i64;
    } else if delta_b > 0 {
        harmscore = delta_b;
    }
    if ratio_pc > global.power_church_k {
        harmscore = harmscore + (((ratio_pc - global.power_church_k) as u64) / 2) as i64;
    }

    // Opportunity cost: restorative options forgone under high load.
    let mut opportunity_cost_score: i64 = 0;
    match deed.kind {
        DeedKind::EmitPollution | DeedKind::Conflict => {
            if pre_b >= cfg.high_load_threshold {
                opportunity_cost_score = HALF_SCALE;
            }
        },
        _ => {},
    }

    // Responsibility gradient: more-resourced sites bear more duty.
    let responsibility_score = metric_mean_exec(&deed.pre, SnapMetric::Duty);

    // Fairness: pollution emissions that raise the load count against
    // the emitter.
    let mut fairness_score: i64 = 0;
    if matches!(deed.kind, DeedKind::EmitPollution) && delta_b > 0 {
        fairness_score = -delta_b;
    }

    // Aggregate moral score (bounded but interpretable).
    let ch = clamp_i64(harmscore, 0, SCALE);
    let co = clamp_i64(opportunity_cost_score, 0, SCALE);
    let cr = clamp_i64(responsibility_score, 0, SCALE);
    let cf = clamp_i64(fairness_score, -SCALE, 0);
    let overall_moral_score = SCALE - ch - co - ((cr as u64 / 2) as i64) + cf;

    let mut rationale = kind_prefix(&deed.kind);
    rationale.append(", pre_b=");
    let t1 = fixed3_string(pre_b);
    rationale.append(t1.as_str());
    rationale.append(", post_b=");
    let t2 = fixed3_string(post_b);
    rationale.append(t2.as_str());
    rationale.append(", delta_b=");
    let t3 = fixed3_string(delta_b);
    rationale.append(t3.as_str());
    rationale.append(", ratio_pc=");
    let t4 = fixed3_string(ratio_pc);
    rationale.append(t4.as_str());
    proof {
        reveal_strlit(", pre_b=");
        reveal_strlit(", post_b=");
        reveal_strlit(", delta_b=");
        reveal_strlit(", ratio_pc=");
        assert(rationale@ =~= spec_rationale(*deed));
    }

    Judgment {
        harmscore,
        opportunity_cost_score,
        responsibility_score,
        fairness_score,
        overall_moral_score,
        rationale,
    }
}

/// The leading `kind=<name>` of the audit string.
fn kind_prefix(k: &DeedKind) -> (s: String)
    ensures
        s@ == "kind="@ + kind_label_spec(*k),
{
    let mut s = "kind=".to_owned();
    s.append(kind_label(k));
    s
}

/// Determinism: two judgments that both satisfy the engine's contract
/// for the same deed, configuration, and constraints agree on every
/// score and on the rationale text.
pub proof fn lemma_judge_deterministic(
    j1: Judgment,
    j2: Judgment,
    d: Deed,
    cfg: JudgmentConfig,
    global: GlobalConstraints,
)
    requires
        judgment_matches(j1, d, cfg, global),
        judgment_matches(j2, d, cfg, global),
    ensures
        j1.harmscore == j2.harmscore,
        j1.opportunity_cost_score == j2.opportunity_cost_score,
        j1.responsibility_score == j2.responsibility_score,
        j1.fairness_score == j2.fairness_score,
        j1.overall_moral_score == j2.overall_moral_score,
        j1.rationale@ == j2.rationale@,
{
}

/// Bound: for every deed, configuration, and constraint set the
/// aggregate moral score lies in `[OVERALL_MIN, SCALE]`.
pub proof fn lemma_overall_bounded(d: Deed, cfg: JudgmentConfig, global: GlobalConstraints)
    ensures
        OVERALL_MIN <= spec_overall(d, cfg, global) <= SCALE,
{
}

/// Zero-harm: a deed that does not raise the mean bioload and stays
/// inside the power-church corridor scores zero harm.
pub proof fn lemma_zero_harm(d: Deed, cfg: JudgmentConfig, global: GlobalConstraints)
    requires
        spec_delta_bioload(d) <= 0,
        spec_ratio_pc(d) <= global.power_church_k,
    ensures
        spec_harmscore(d, cfg, global) == 0,
{
}

/// Fairness sign invariant: the fairness score is never positive, and
/// is exactly zero unless the deed is a pollution emission that raised
/// the mean bioload.
pub proof fn lemma_fairness_sign(d: Deed)
    ensures
        spec_fairness(d) <= 0,
        !(d.kind is EmitPollution && spec_delta_bioload(d) > 0) ==> spec_fairness(d) == 0,
{
}

} // verus!
