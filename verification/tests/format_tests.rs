use farm_bundle_size_analyzer::format_size;

#[test]
fn test_format_size() {
    assert_eq!(format_size(0), "0 B");
    assert_eq!(format_size(512), "512 B");
    assert_eq!(format_size(1024), "1.0 KB");
    assert_eq!(format_size(1536), "1.5 KB");
    assert_eq!(format_size(1024 * 1024), "1.0 MB");
    assert_eq!(format_size(1024 * 1024 * 1024), "1.0 GB");
}

#[test]
fn test_format_size_rounding() {
    assert_eq!(format_size(1023), "1023 B");
    assert_eq!(format_size(1264), "1.2 KB");
    // 1280 bytes is exactly 1.25 KB: the tie rounds to the even digit.
    assert_eq!(format_size(1280), "1.2 KB");
    assert_eq!(format_size(1383), "1.4 KB");
    assert_eq!(format_size(1024 * 1024 - 1), "1024.0 KB");
}

#[test]
fn test_format_size_stops_at_terabytes() {
    assert_eq!(format_size(5 * 1024 * 1024 * 1024 * 1024), "5.0 TB");
    assert_eq!(format_size(2048 * 1024 * 1024 * 1024 * 1024), "2048.0 TB");
}
