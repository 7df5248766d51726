//! Verdict shape of the individual-consent policy evaluator.
//!
//! The evaluator itself is an external collaborator with its own rule
//! set and input shape; it is not wired into the deed judgment
//! pipeline. This crate only fixes the structure of the diagnostic it
//! returns.

use vstd::prelude::*;

verus! {

/// Input handed to the external consent policy evaluator: the subject,
/// the current and rolling-average risk-of-harm weights (micro-units),
/// rule-branch tags, and per-observation addiction pull scores
/// (micro-units).
#[derive(Clone, Debug)]
pub struct SmokingConsentInput {
    pub user_age_years: i32,
    pub subject_state: String,
    pub current_roh_weight_neuro: i64,
    pub rolling30d_avg_roh_weight_neuro: i64,
    pub branch1_tags: Vec<String>,
    pub branch3_tags: Vec<String>,
    pub addiction_pull_scores: Vec<i64>,
}

/// Diagnostic flags returned by the external consent policy evaluator,
/// plus a human-readable explanation.
#[derive(Clone, Debug)]
pub struct SmokingConsentDiagnostic {
    pub violates_consent: bool,
    pub respects_consent: bool,
    pub advisory_high_cumulative_risk: bool,
    pub potential_addiction_pattern: bool,
    pub policy_evaluation_error: bool,
    pub explanation: String,
}

} // verus!
