//! A rule-driven scanner: counts pattern occurrences against per-rule
//! budgets, and maps unified diffs to changed-line indexes.

pub mod config;
pub mod text;
pub mod matcher;
pub mod rules;
pub mod ratchet;
pub mod factory;
pub mod git_diff;
pub mod toml_config;
pub mod scan;
