use rs_split::Config;
use rs_split::FileSyncType;
use rs_split::FILE_SYNC_TYPE_DEFAULT;
use rs_split::MAX_LINE_COUNT_PER_FILE_DEFAULT;
use rs_split::SHOW_PROGRESS_DEFAULT;

#[test]
fn parse_nop() {
    assert_eq!(FileSyncType::from_str("nop"), Ok(FileSyncType::Nop));
}

#[test]
fn parse_data() {
    assert_eq!(FileSyncType::from_str("data"), Ok(FileSyncType::Data));
}

#[test]
fn parse_all() {
    assert_eq!(FileSyncType::from_str("all"), Ok(FileSyncType::All));
}

#[test]
fn parse_unknown_is_error() {
    assert!(FileSyncType::from_str("fsync").is_err());
    assert!(FileSyncType::from_str("").is_err());
    assert!(FileSyncType::from_str("Nop").is_err());
    assert!(FileSyncType::from_str("nope").is_err());
}

#[test]
fn config_defaults() {
    let cfg = Config::default();
    assert_eq!(cfg.output_dir_name, "");
    assert_eq!(cfg.max_line_per_file, MAX_LINE_COUNT_PER_FILE_DEFAULT);
    assert_eq!(cfg.max_line_per_file, 1024);
    assert_eq!(cfg.file_sync_type, FILE_SYNC_TYPE_DEFAULT);
    assert_eq!(cfg.file_sync_type, FileSyncType::Nop);
    assert_eq!(cfg.show_progress, SHOW_PROGRESS_DEFAULT);
    assert!(!cfg.show_progress);
}
