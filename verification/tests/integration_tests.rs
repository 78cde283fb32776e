use farm_bundle_size_analyzer::{FarmBundleSizeAnalyzerPlugin, FileEntry};

fn entry(name: &str, size: usize) -> FileEntry {
    FileEntry { name: name.to_string(), size }
}

#[test]
fn test_plugin_integration_with_realistic_bundle() {
    let plugin = FarmBundleSizeAnalyzerPlugin::new(String::new());

    let report = plugin.analyze(vec![
        entry("main.js", 245 * 1024),
        entry("styles.css", 82 * 1024),
        entry("index.html", 12 * 1024),
        entry("logo.png", 45 * 1024),
    ]);

    // four file lines between the two header lines and the five summary
    // lines; nothing is over the default threshold, so no suggestions
    assert_eq!(report.len(), 11);
    assert_eq!(report[0], "\nFarm Bundle Size Analysis");
    assert!(report[2].starts_with("main.js: 245.0 KB"));
    assert!(report[3].starts_with("styles.css: 82.0 KB"));
    assert!(report[4].starts_with("logo.png: 45.0 KB"));
    assert!(report[5].starts_with("index.html: 12.0 KB"));
    assert_eq!(report[6], "\nSummary");
    assert_eq!(report[8], "Total files: 4");
}

#[test]
fn test_plugin_with_large_files_warning() {
    let custom_options = r#"{
        "warning_threshold": 100000,
        "show_suggestions": true
    }"#;
    let plugin = FarmBundleSizeAnalyzerPlugin::new(custom_options.to_string());

    let report = plugin.analyze(vec![
        entry("huge-bundle.js", 200 * 1024),
        entry("small-file.js", 50 * 1024),
    ]);

    assert!(report[2].starts_with("huge-bundle.js: 200.0 KB"));
    assert!(report[2].ends_with(" [LARGE FILE]"));
    assert!(!report[3].ends_with(" [LARGE FILE]"));
    assert!(report.contains(&"\nOptimization Suggestions".to_string()));
    assert!(report.contains(&"WARNING: 1 large files detected (> 97.7 KB)".to_string()));
    assert!(report.contains(&"   - huge-bundle.js: 200.0 KB".to_string()));
}

#[test]
fn test_plugin_with_different_file_types() {
    let plugin = FarmBundleSizeAnalyzerPlugin::new(String::new());

    let report = plugin.analyze(vec![
        entry("app.js", 1024),
        entry("vendor.js", 2048),
        entry("main.css", 512),
        entry("bootstrap.css", 1536),
        entry("index.html", 256),
        entry("favicon.ico", 128),
    ]);

    assert_eq!(report.len(), 13);
    assert!(report[2].starts_with("vendor.js: "));
    assert!(report[3].starts_with("bootstrap.css: "));
    assert!(report[4].starts_with("app.js: "));
    assert!(report[5].starts_with("main.css: "));
    assert!(report[6].starts_with("index.html: "));
    assert!(report[7].starts_with("favicon.ico: "));
}

#[test]
fn test_plugin_performance_with_many_files() {
    let plugin = FarmBundleSizeAnalyzerPlugin::new(String::new());

    let mut entries: Vec<FileEntry> = Vec::new();
    for i in 0..100 {
        let filename = format!("chunk_{}.js", i);
        entries.push(entry(&filename, 1024 + i * 100));
    }

    let report = plugin.analyze(entries);

    assert_eq!(report.len(), 107);
    assert!(report[2].starts_with("chunk_99.js: "));
    assert!(report[101].starts_with("chunk_0.js: "));
}

#[test]
fn test_plugin_error_handling() {
    let plugin = FarmBundleSizeAnalyzerPlugin::new(String::new());

    let report = plugin.analyze(Vec::new());

    assert_eq!(report, vec!["No resources found in the bundle".to_string()]);
}
