//! The immutable configuration value threaded through every component
//! call. No component reads ambient state: concurrent or repeated runs
//! with differing settings cannot interfere.

use vstd::prelude::*;

use crate::report::ReportLevel;

verus! {

/// How much progress output the surrounding program prints; no verified
/// component reads it.
#[derive(Clone, Copy, Debug, PartialEq, Eq, Structural)]
pub enum Verbosity {
    Normal,
    Verbose,
    Trace,
}

/// How aggressively the analysis trades false positives for coverage.
#[derive(Clone, Copy, Debug, PartialEq, Eq, Structural)]
pub enum Precision {
    LOW,
    HIGH,
}

/// Caller-supplied knobs for one analysis run.
#[derive(Clone, Debug)]
pub struct YugaConfig {
    /// Progress output level for the surrounding program.
    pub verbosity: Verbosity,
    /// Severity attached to emitted reports.
    pub report_level: ReportLevel,
    /// Whether a sub-type without a nominal identity matches sub-types
    /// of any identity, or only other identity-free sub-types.
    pub generic_matches_all: bool,
    /// Whether the points-to analysis fans an unknown field access out
    /// over a wildcard field that matches every field.
    pub wildcard_field: bool,
    /// Whether only public functions are analyzed.
    pub pub_only: bool,
    /// Whether common false-positive trait shapes (`clone`, `next`) are
    /// skipped.
    pub shallow_filter: bool,
    /// Whether flagged pairs are confirmed by the points-to analysis
    /// instead of taint propagation.
    pub alias_analysis: bool,
    /// Whether every structural candidate counts as confirmed, with no
    /// dataflow pass at all.
    pub no_mir: bool,
    /// Whether raw/raw pairs are exempted when neither side's nearest
    /// owning struct has a custom destructor reachable through the
    /// pointer chain.
    pub filter_by_drop_impl: bool,
    /// Whether every confirmed violation of a function is kept, rather
    /// than only the first per check kind.
    pub keep_all_violations: bool,
    /// Name of a function the surrounding program wants extra output
    /// for; no verified component reads it.
    pub debug_fn: Option<String>,
    /// Directory the surrounding program writes reports into.
    pub report_dir: String,
}

impl YugaConfig {
    /// Clones the configuration; every setting carries over.
    pub fn clone_cfg(&self) -> (r: YugaConfig)
        ensures
            r.verbosity == self.verbosity,
            r.report_level == self.report_level,
            r.generic_matches_all == self.generic_matches_all,
            r.wildcard_field == self.wildcard_field,
            r.pub_only == self.pub_only,
            r.shallow_filter == self.shallow_filter,
            r.alias_analysis == self.alias_analysis,
            r.no_mir == self.no_mir,
            r.filter_by_drop_impl == self.filter_by_drop_impl,
            r.keep_all_violations == self.keep_all_violations,
            crate::types::name_v(r.debug_fn) == crate::types::name_v(self.debug_fn),
            r.report_dir@ == self.report_dir@,
    {
        YugaConfig {
            verbosity: self.verbosity,
            report_level: self.report_level,
            generic_matches_all: self.generic_matches_all,
            wildcard_field: self.wildcard_field,
            pub_only: self.pub_only,
            shallow_filter: self.shallow_filter,
            alias_analysis: self.alias_analysis,
            no_mir: self.no_mir,
            filter_by_drop_impl: self.filter_by_drop_impl,
            keep_all_violations: self.keep_all_violations,
            debug_fn: match &self.debug_fn {
                Some(s) => Some(s.clone()),
                None => None,
            },
            report_dir: self.report_dir.clone(),
        }
    }
}

impl Default for YugaConfig {
    /// The configuration the command line starts from.
    fn default() -> (r: YugaConfig)
        ensures
            r.verbosity == Verbosity::Normal,
            r.report_level == ReportLevel::Info,
            !r.generic_matches_all,
            r.wildcard_field,
            r.pub_only,
            r.shallow_filter,
            r.alias_analysis,
            !r.no_mir,
            !r.filter_by_drop_impl,
            !r.keep_all_violations,
            r.debug_fn is None,
            r.report_dir@ == "yuga_reports"@,
    {
        YugaConfig {
            verbosity: Verbosity::Normal,
            report_level: ReportLevel::Info,
            generic_matches_all: false,
            wildcard_field: true,
            pub_only: true,
            shallow_filter: true,
            alias_analysis: true,
            no_mir: false,
            filter_by_drop_impl: false,
            keep_all_violations: false,
            debug_fn: None,
            report_dir: String::from_str("yuga_reports"),
        }
    }
}

} // verus!
