//! Bundle size analyzer: turns a snapshot of build artifacts (name and byte
//! length) into a deterministic, human-readable size report with per-file
//! percentages, large-file warnings and aggregate statistics.

pub mod analyzer;
pub mod config;
pub mod format;
pub mod report;

pub use analyzer::FarmBundleSizeAnalyzerPlugin;
pub use config::{
    default_generate_report, default_show_suggestions, default_warning_threshold, AnalyzerConfig,
};
pub use format::format_size;
pub use report::FileEntry;
