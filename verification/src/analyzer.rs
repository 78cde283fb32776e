//! The analyzer itself: built once from an optional options payload, it turns
//! a snapshot of artifact entries into the rendered report.

use vstd::prelude::*;

use crate::config::{config_from_options, spec_config_of, AnalyzerConfig};
use crate::report::{build_report, sum_sizes, valid_report, FileEntry};

verus! {

/// Analyzes a build's artifact set and reports per-file sizes, percentages of
/// the total, large-file warnings and aggregate statistics.
pub struct FarmBundleSizeAnalyzerPlugin {
    /// The settings the analyzer was constructed with.
    pub config: AnalyzerConfig,
}

impl FarmBundleSizeAnalyzerPlugin {
    /// Builds the analyzer from an optional JSON options payload. A payload
    /// that is empty or cannot be used degrades silently to the defaults;
    /// construction never fails.
    pub fn new(options: String) -> (p: Self)
        ensures
            p.config == spec_config_of(options@),
    {
        let config = config_from_options(options.as_str());
        FarmBundleSizeAnalyzerPlugin { config }
    }

    /// The identifier under which the analyzer registers with its host.
    pub fn name(&self) -> (r: &'static str)
        ensures
            r@ == "farm-bundle-size-analyzer"@,
    {
        "farm-bundle-size-analyzer"
    }

    /// Analyzes one point-in-time snapshot of the artifact set: the returned
    /// lines are exactly the report over the entries in non-increasing size
    /// order. The snapshot is consumed; the configuration is read only.
    pub fn analyze(&self, entries: Vec<FileEntry>) -> (report: Vec<String>)
        requires
            sum_sizes(entries@) <= usize::MAX,
        ensures
            valid_report(entries@, self.config, report.deep_view()),
    {
        build_report(entries, &self.config)
    }
}

} // verus!
