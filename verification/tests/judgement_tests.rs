use microsociety_core::deed::{CauseContext, Deed, DeedKind};
use microsociety_core::judgement::{judge_deed, JudgmentConfig};
use microsociety_core::model::{
    BiophysicalState, GlobalConstraints, JusticeState, SiteSnapshot, TokenState, TrustState, SCALE,
};

fn snap(bioload: i64, church: i64, fear: i64, power: i64, tech: i64) -> SiteSnapshot {
    SiteSnapshot {
        index: 0,
        tokens: TokenState { church, fear, power, tech },
        bio: BiophysicalState {
            bioload,
            computebioload: 0,
            habit_load: 0,
            habit_capacity: 0,
            pollution: 0,
            exposure: 0,
        },
        justice: JusticeState { hpcc: 0, erg: 0, tecr: 0 },
        trust: TrustState { trust: 0 },
    }
}

fn deed(kind: DeedKind, pre: Vec<SiteSnapshot>, post: Vec<SiteSnapshot>) -> Deed {
    Deed::new(
        0,
        kind,
        0,
        None,
        pre,
        post,
        CauseContext { rationale: String::new(), rule_ids: Vec::new() },
    )
}

fn cfg(high_load_threshold: i64) -> JudgmentConfig {
    JudgmentConfig { high_load_threshold, vulnerable_fear_band: (0, SCALE) }
}

fn constraints(power_church_k: i64) -> GlobalConstraints {
    GlobalConstraints {
        roh_max: SCALE,
        decay_max: SCALE,
        max_bioload: SCALE,
        power_church_k,
        fear_min: 0,
        fear_max: SCALE,
    }
}

#[test]
fn threshold_tiering_high_load() {
    // pre bioload 0.9 >= threshold 0.8 and delta 0.1 => harm 0.15.
    let d = deed(DeedKind::Help, vec![snap(900_000, 0, 0, 0, 0)], vec![snap(
        1_000_000, 0, 0, 0, 0,
    )]);
    let j = judge_deed(&d, &cfg(800_000), &constraints(SCALE));
    assert_eq!(j.harmscore, 150_000);
    assert_eq!(j.opportunity_cost_score, 0);
    assert_eq!(j.responsibility_score, 0);
    assert_eq!(j.fairness_score, 0);
    assert_eq!(j.overall_moral_score, 850_000);
}

#[test]
fn threshold_tiering_below_load() {
    // pre bioload 0.5 below the threshold, same delta => harm 0.1.
    let d = deed(DeedKind::Help, vec![snap(500_000, 0, 0, 0, 0)], vec![snap(
        600_000, 0, 0, 0, 0,
    )]);
    let j = judge_deed(&d, &cfg(800_000), &constraints(SCALE));
    assert_eq!(j.harmscore, 100_000);
}

#[test]
fn opportunity_cost_gating() {
    // A Help deed under high pre-load costs nothing ...
    let pre = vec![snap(950_000, 0, 0, 0, 0)];
    let post = vec![snap(950_000, 0, 0, 0, 0)];
    let help = deed(DeedKind::Help, pre.clone(), post.clone());
    let j = judge_deed(&help, &cfg(800_000), &constraints(SCALE));
    assert_eq!(j.opportunity_cost_score, 0);
    // ... an EmitPollution deed under the same load costs 0.5.
    let emit = deed(DeedKind::EmitPollution, pre.clone(), post.clone());
    let j = judge_deed(&emit, &cfg(800_000), &constraints(SCALE));
    assert_eq!(j.opportunity_cost_score, 500_000);
    // Conflict is the other gated kind.
    let fight = deed(DeedKind::Conflict, pre, post);
    let j = judge_deed(&fight, &cfg(800_000), &constraints(SCALE));
    assert_eq!(j.opportunity_cost_score, 500_000);
}

#[test]
fn zero_harm_when_inside_corridor() {
    // Bioload falls and the power/church ratio stays under k => harm 0.
    let d = deed(DeedKind::EmitPollution, vec![snap(500_000, 0, 0, 0, 0)], vec![snap(
        400_000, 0, 0, 0, 0,
    )]);
    let j = judge_deed(&d, &cfg(800_000), &constraints(SCALE));
    assert_eq!(j.harmscore, 0);
    assert_eq!(j.fairness_score, 0);
}

#[test]
fn corridor_excess_adds_harm() {
    // Post power 3.0 against church 1.0 => ratio 3.0; k = 1.0 => 0.5 * 2.0 = 1.0 harm.
    let d = deed(DeedKind::Help, vec![snap(0, 0, 0, 0, 0)], vec![snap(
        0, 1_000_000, 0, 3_000_000, 0,
    )]);
    let j = judge_deed(&d, &cfg(800_000), &constraints(SCALE));
    assert_eq!(j.harmscore, 1_000_000);
    // Duty of care 0.4 * 0 (pre has no tokens) => responsibility 0.
    assert_eq!(j.responsibility_score, 0);
    assert_eq!(j.overall_moral_score, 0);
}

#[test]
fn responsibility_gradient() {
    // Duty per site: 0.4 * 3.0 + 0.3 * 0 + 0.3 * 1.0 = 1.5; clamped to 1, halved.
    let d = deed(DeedKind::Help, vec![snap(0, 1_000_000, 0, 3_000_000, 0)], vec![snap(
        0, 1_000_000, 0, 3_000_000, 0,
    )]);
    let j = judge_deed(&d, &cfg(800_000), &constraints(4_000_000));
    assert_eq!(j.responsibility_score, 1_500_000);
    assert_eq!(j.harmscore, 0);
    assert_eq!(j.overall_moral_score, 500_000);
}

#[test]
fn fairness_sign() {
    // Emission that raises the load: fairness is minus the delta.
    let d = deed(DeedKind::EmitPollution, vec![snap(0, 0, 0, 0, 0)], vec![snap(
        100_000, 0, 0, 0, 0,
    )]);
    let j = judge_deed(&d, &cfg(800_000), &constraints(SCALE));
    assert_eq!(j.fairness_score, -100_000);
    assert_eq!(j.overall_moral_score, 800_000);
    // Any other kind with the same delta: fairness stays zero.
    let d = deed(DeedKind::Conflict, vec![snap(0, 0, 0, 0, 0)], vec![snap(
        100_000, 0, 0, 0, 0,
    )]);
    let j = judge_deed(&d, &cfg(800_000), &constraints(SCALE));
    assert_eq!(j.fairness_score, 0);
}

#[test]
fn determinism() {
    let d = deed(DeedKind::EmitPollution, vec![snap(900_000, 500_000, 0, 2_000_000, 100_000)], vec![
        snap(950_000, 500_000, 0, 2_500_000, 100_000),
    ]);
    let c = cfg(800_000);
    let g = constraints(SCALE);
    let j1 = judge_deed(&d, &c, &g);
    let j2 = judge_deed(&d, &c, &g);
    assert_eq!(j1.harmscore, j2.harmscore);
    assert_eq!(j1.opportunity_cost_score, j2.opportunity_cost_score);
    assert_eq!(j1.responsibility_score, j2.responsibility_score);
    assert_eq!(j1.fairness_score, j2.fairness_score);
    assert_eq!(j1.overall_moral_score, j2.overall_moral_score);
    assert_eq!(j1.rationale, j2.rationale);
}

#[test]
fn overall_bounds() {
    // Every term maxed out that can be: harm and responsibility clamp
    // to 1, opportunity cost 0.5, fairness clamps to -1.
    let d = deed(DeedKind::EmitPollution, vec![snap(0, 0, 0, 3_000_000, 0)], vec![snap(
        1_000_000, 0, 0, 3_000_000, 0,
    )]);
    let j = judge_deed(&d, &cfg(0), &constraints(SCALE));
    assert_eq!(j.harmscore, 1_500_000);
    assert_eq!(j.opportunity_cost_score, 500_000);
    assert_eq!(j.responsibility_score, 1_200_000);
    assert_eq!(j.fairness_score, -1_000_000);
    assert_eq!(j.overall_moral_score, -2_000_000);
    assert!(-2_500_000 <= j.overall_moral_score && j.overall_moral_score <= SCALE);
}

#[test]
fn empty_snapshots_are_degenerate_zeroes() {
    let d = deed(DeedKind::Abstain, Vec::new(), Vec::new());
    let j = judge_deed(&d, &cfg(800_000), &constraints(SCALE));
    assert_eq!(j.harmscore, 0);
    assert_eq!(j.opportunity_cost_score, 0);
    assert_eq!(j.responsibility_score, 0);
    assert_eq!(j.fairness_score, 0);
    assert_eq!(j.overall_moral_score, SCALE);
}

#[test]
fn means_are_taken_over_all_touched_sites() {
    // Two sites: pre bioloads 0.2 and 0.6 (mean 0.4), post 0.5 and 0.7
    // (mean 0.6): delta 0.2, below the threshold => harm 0.2.
    let mut pre = vec![snap(200_000, 0, 0, 0, 0), snap(600_000, 0, 0, 0, 0)];
    pre[1].index = 1;
    let mut post = vec![snap(500_000, 0, 0, 0, 0), snap(700_000, 0, 0, 0, 0)];
    post[1].index = 1;
    let d = deed(DeedKind::Colonize, pre, post);
    let j = judge_deed(&d, &cfg(800_000), &constraints(SCALE));
    assert_eq!(j.harmscore, 200_000);
}

#[test]
fn rationale_format() {
    let d = deed(DeedKind::Help, vec![snap(900_000, 0, 0, 0, 0)], vec![snap(
        1_000_000, 0, 0, 0, 0,
    )]);
    let j = judge_deed(&d, &cfg(800_000), &constraints(SCALE));
    assert_eq!(
        j.rationale,
        "kind=Help, pre_b=0.900, post_b=1.000, delta_b=0.100, ratio_pc=0.000"
    );
}

#[test]
fn rationale_negative_delta_and_ratio() {
    let d = deed(DeedKind::Repair, vec![snap(500_000, 0, 0, 0, 0)], vec![snap(
        399_000, 1_000_000, 0, 3_000_000, 0,
    )]);
    let j = judge_deed(&d, &cfg(800_000), &constraints(SCALE));
    assert_eq!(
        j.rationale,
        "kind=Repair, pre_b=0.500, post_b=0.399, delta_b=-0.101, ratio_pc=3.000"
    );
}
