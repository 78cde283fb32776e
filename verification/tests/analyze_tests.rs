use farm_bundle_size_analyzer::{FarmBundleSizeAnalyzerPlugin, FileEntry};

fn entry(name: &str, size: usize) -> FileEntry {
    FileEntry { name: name.to_string(), size }
}

fn lines(strs: &[&str]) -> Vec<String> {
    strs.iter().map(|s| s.to_string()).collect()
}

#[test]
fn test_analyze_empty_bundle() {
    let plugin = FarmBundleSizeAnalyzerPlugin::new(String::new());

    let report = plugin.analyze(Vec::new());

    assert_eq!(report, lines(&["No resources found in the bundle"]));
}

#[test]
fn test_analyze_bundle_with_files() {
    let plugin = FarmBundleSizeAnalyzerPlugin::new(String::new());

    let report = plugin.analyze(vec![entry("main.js", 1024), entry("style.css", 512)]);

    assert_eq!(
        report,
        lines(&[
            "\nFarm Bundle Size Analysis",
            "============================================",
            "main.js: 1.0 KB (66.7%)",
            "style.css: 512 B (33.3%)",
            "\nSummary",
            "--------------------------------------------",
            "Total files: 2",
            "Total size: 1.5 KB",
            "Estimated gzipped: ~538 B",
        ])
    );
}

#[test]
fn test_analyze_large_files() {
    let plugin = FarmBundleSizeAnalyzerPlugin::new(r#"{"warning_threshold": 1024}"#.to_string());

    let report = plugin.analyze(vec![entry("large.js", 2048), entry("small.js", 512)]);

    assert_eq!(
        report,
        lines(&[
            "\nFarm Bundle Size Analysis",
            "============================================",
            "large.js: 2.0 KB (80.0%) [LARGE FILE]",
            "small.js: 512 B (20.0%)",
            "\nSummary",
            "--------------------------------------------",
            "Total files: 2",
            "Total size: 2.5 KB",
            "Estimated gzipped: ~896 B",
            "\nOptimization Suggestions",
            "--------------------------------------------",
            "WARNING: 1 large files detected (> 1.0 KB)",
            "   - large.js: 2.0 KB",
            "   Consider code splitting or lazy loading for these files.",
        ])
    );
}

#[test]
fn test_plugin_generate_end_hook() {
    let plugin = FarmBundleSizeAnalyzerPlugin::new(String::new());

    let report = plugin.analyze(vec![entry("test.js", 1024)]);

    assert_eq!(report.len(), 8);
    assert_eq!(report[2], "test.js: 1.0 KB (100.0%)");
}

#[test]
fn test_threshold_boundary_marks_only_strictly_larger() {
    let plugin = FarmBundleSizeAnalyzerPlugin::new(r#"{"warning_threshold": 1024}"#.to_string());

    let report = plugin.analyze(vec![entry("at.js", 1024), entry("over.js", 1025)]);

    assert!(report[2].starts_with("over.js: "));
    assert!(report[2].ends_with(" [LARGE FILE]"));
    assert!(report[3].starts_with("at.js: "));
    assert!(!report[3].ends_with(" [LARGE FILE]"));
}

#[test]
fn test_suggestions_disabled_suppresses_section() {
    let plugin = FarmBundleSizeAnalyzerPlugin::new(
        r#"{"warning_threshold": 100, "show_suggestions": false}"#.to_string(),
    );

    let report = plugin.analyze(vec![entry("big.js", 1000)]);

    assert_eq!(report.len(), 8);
    assert!(!report.iter().any(|l| l.contains("Optimization Suggestions")));
    assert!(report[2].ends_with(" [LARGE FILE]"));
}

#[test]
fn test_zero_sized_entries_use_zero_percent() {
    let plugin = FarmBundleSizeAnalyzerPlugin::new(String::new());

    let report = plugin.analyze(vec![entry("empty.js", 0)]);

    assert_eq!(report[2], "empty.js: 0 B (0.0%)");
    assert_eq!(report[6], "Total size: 0 B");
    assert_eq!(report[7], "Estimated gzipped: ~0 B");
}

#[test]
fn test_equal_shares_sum_close_to_hundred() {
    let plugin = FarmBundleSizeAnalyzerPlugin::new(String::new());

    let report = plugin.analyze(vec![entry("a.js", 100), entry("b.js", 100), entry("c.js", 100)]);

    // each share rounds to 33.3%; the three shares sum to 99.9%, within
    // rounding tolerance of 100%
    assert_eq!(report[2], "a.js: 100 B (33.3%)");
    assert_eq!(report[3], "b.js: 100 B (33.3%)");
    assert_eq!(report[4], "c.js: 100 B (33.3%)");
}
