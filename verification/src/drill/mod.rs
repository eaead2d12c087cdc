//! The drill: its phases, and what each of them decides.
pub mod error;
pub mod facts;
pub mod scorecard;
pub mod spec;
pub mod verdict;
pub mod phase7_verify;
pub mod step;
pub mod phase0_admit;
pub mod phase1_approval;
pub mod phase2_target;
pub mod phase3_diff;
pub mod phase4_sample;
pub mod plan;
pub mod phase5_preflight;
pub mod phase6_restore;
pub mod persist;
pub mod record;
pub mod draft;
pub mod run;
pub mod contract;
pub mod context;
pub mod credentials;
pub mod binding;
pub mod startup;
pub mod report;
pub mod notify;
pub mod phase8_score;
pub mod phase9_teardown;
pub mod verify_laws;
pub mod sample_laws;
pub mod plan_laws;
pub mod score_laws;
pub mod target_laws;
pub mod admit_laws;
pub mod approval_laws;
pub mod run_laws;
