use microsociety_core::consent::SmokingConsentDiagnostic;
use microsociety_core::deed::{CauseContext, Deed, DeedKind};
use microsociety_core::episode::Episode;
use microsociety_core::model::{
    BiophysicalState, GlobalConstraints, JusticeState, SiteSnapshot, SiteState, TokenState,
    TrustState, SCALE,
};
use microsociety_core::render::{dec_string, fixed3_string};

fn site(index: usize, power: i64, tech: i64, church: i64) -> SiteState {
    SiteState {
        index,
        occupied: true,
        tokens: TokenState { church, fear: 500_000, power, tech },
        bio: BiophysicalState {
            bioload: 100_000,
            computebioload: 0,
            habit_load: 0,
            habit_capacity: 0,
            pollution: 0,
            exposure: 0,
        },
        justice: JusticeState { hpcc: 0, erg: 0, tecr: 0 },
        trust: TrustState { trust: 0 },
    }
}

fn snap(index: usize, bioload: i64, fear: i64, exposure: i64) -> SiteSnapshot {
    SiteSnapshot {
        index,
        tokens: TokenState { church: 0, fear, power: 0, tech: 0 },
        bio: BiophysicalState {
            bioload,
            computebioload: 0,
            habit_load: 0,
            habit_capacity: 0,
            pollution: 0,
            exposure,
        },
        justice: JusticeState { hpcc: 0, erg: 0, tecr: 0 },
        trust: TrustState { trust: 0 },
    }
}

fn world(sites: Vec<SiteState>) -> microsociety_core::model::World {
    microsociety_core::model::World {
        tick: 0,
        sites,
        constraints: GlobalConstraints {
            roh_max: SCALE,
            decay_max: SCALE,
            max_bioload: 800_000,
            power_church_k: SCALE,
            fear_min: 0,
            fear_max: SCALE,
        },
    }
}

fn deed(tick: u64, kind: DeedKind, pre: Vec<SiteSnapshot>, post: Vec<SiteSnapshot>) -> Deed {
    Deed::new(
        tick,
        kind,
        0,
        None,
        pre,
        post,
        CauseContext { rationale: String::new(), rule_ids: Vec::new() },
    )
}

#[test]
fn new_episode_starts_clean() {
    let w = world(vec![site(0, 1, 2, 3), site(1, 4, 5, 6)]);
    let e = Episode::new(String::from("ep-1"), w);
    assert_eq!(e.id, "ep-1");
    assert_eq!(e.world_init.sites.len(), 2);
    assert_eq!(e.world_final.sites.len(), 2);
    assert_eq!(e.world_final.sites[1].tokens.power, e.world_init.sites[1].tokens.power);
    assert_eq!(e.event_log.deeds.len(), 0);
    assert_eq!(e.total_exposure, 0);
    assert_eq!(e.total_bioload, 0);
    assert_eq!(e.collapse_events, 0);
    assert_eq!(e.gini_power, 0);
    assert_eq!(e.what_reflections.len(), 0);
}

#[test]
fn gini_equal_distribution_is_zero() {
    let w = world(vec![site(0, 500_000, 0, 0), site(1, 500_000, 0, 0), site(2, 500_000, 0, 0)]);
    let mut e = Episode::new(String::from("ep"), w.clone());
    e.finalize(w);
    assert_eq!(e.gini_power, 0);
    // An all-zero rail is also perfectly equal.
    assert_eq!(e.gini_tech, 0);
}

#[test]
fn gini_full_concentration_approaches_limit() {
    // One of four sites holds the whole power supply: gini = 3/4.
    let w = world(vec![
        site(0, 2_000_000, 0, 0),
        site(1, 0, 0, 0),
        site(2, 0, 0, 0),
        site(3, 0, 0, 0),
    ]);
    let mut e = Episode::new(String::from("ep"), w.clone());
    e.finalize(w);
    assert_eq!(e.gini_power, 750_000);
    // Two sites: (n - 1) / n = 1/2.
    let w = world(vec![site(0, 1_000_000, 0, 0), site(1, 0, 0, 0)]);
    let mut e = Episode::new(String::from("ep"), w.clone());
    e.finalize(w);
    assert_eq!(e.gini_power, 500_000);
}

#[test]
fn finalize_counts_collapses_and_totals() {
    let w = world(vec![site(0, 0, 0, 0)]);
    let mut e = Episode::new(String::from("ep"), w.clone());
    // Post bioload 0.9 breaks the 0.8 ceiling: one collapse.
    e.event_log.push(deed(
        1,
        DeedKind::EmitPollution,
        vec![snap(0, 500_000, 500_000, 0)],
        vec![snap(0, 900_000, 500_000, 250_000)],
    ));
    // Post fear 2.0 leaves the [0, 1] band: a second collapse.
    e.event_log.push(deed(
        2,
        DeedKind::Conflict,
        vec![snap(0, 100_000, 500_000, 250_000)],
        vec![snap(0, 150_000, 2_000_000, 350_000)],
    ));
    // Everything inside the corridors: no collapse.
    e.event_log.push(deed(
        3,
        DeedKind::Repair,
        vec![snap(0, 150_000, 500_000, 350_000)],
        vec![snap(0, 120_000, 500_000, 350_000)],
    ));
    e.finalize(w);
    assert_eq!(e.collapse_events, 2);
    // Exposure deltas: 0.25 + 0.1 + 0 = 0.35.
    assert_eq!(e.total_exposure, 350_000);
    // Bioload deltas: 0.4 + 0.05 - 0.03 = 0.42.
    assert_eq!(e.total_bioload, 420_000);
}

#[test]
fn gini_degenerate_worlds() {
    // No sites at all: every rail reads as perfectly equal.
    let w = world(Vec::new());
    let mut e = Episode::new(String::from("ep"), w.clone());
    e.finalize(w);
    assert_eq!(e.gini_power, 0);
    // A single site holds everything, but (n - 1) / n = 0.
    let w = world(vec![site(0, 700_000, 0, 0)]);
    let mut e = Episode::new(String::from("ep"), w.clone());
    e.finalize(w);
    assert_eq!(e.gini_power, 0);
}

#[test]
fn finalize_fixes_the_final_world() {
    let w0 = world(vec![site(0, 100_000, 0, 0)]);
    let w1 = world(vec![site(0, 900_000, 0, 0), site(1, 0, 0, 0)]);
    let mut e = Episode::new(String::from("ep"), w0);
    e.finalize(w1);
    assert_eq!(e.world_final.sites.len(), 2);
    assert_eq!(e.world_final.sites[0].tokens.power, 900_000);
    // The initial world stays as constructed.
    assert_eq!(e.world_init.sites.len(), 1);
    assert_eq!(e.world_init.sites[0].tokens.power, 100_000);
}

#[test]
fn reflections_stay_aligned() {
    let w = world(vec![site(0, 0, 0, 0)]);
    let mut e = Episode::new(String::from("ep"), w);
    e.add_reflection(
        String::from("load rose"),
        String::from("corridor at risk"),
        String::from("ban emissions"),
    );
    assert_eq!(e.what_reflections.len(), 1);
    assert_eq!(e.so_what_reflections.len(), 1);
    assert_eq!(e.now_what_reflections.len(), 1);
    assert_eq!(e.so_what_reflections[0], "corridor at risk");
}

#[test]
fn consent_diagnostic_shape() {
    let d = SmokingConsentDiagnostic {
        violates_consent: false,
        respects_consent: true,
        advisory_high_cumulative_risk: true,
        potential_addiction_pattern: false,
        policy_evaluation_error: false,
        explanation: String::from("within rolling average"),
    };
    assert!(d.respects_consent && !d.violates_consent);
    assert_eq!(d.explanation, "within rolling average");
}

#[test]
fn fixed_point_rendering() {
    assert_eq!(fixed3_string(0), "0.000");
    assert_eq!(fixed3_string(900_000), "0.900");
    assert_eq!(fixed3_string(1_234_567), "1.234");
    assert_eq!(fixed3_string(-1_500), "-0.001");
    assert_eq!(fixed3_string(-2_500_000), "-2.500");
    assert_eq!(dec_string(0), "0");
    assert_eq!(dec_string(907), "907");
}
