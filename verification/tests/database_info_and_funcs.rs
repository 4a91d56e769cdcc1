use navdata_interface::database::{split_validity, DatabaseManual, DatabaseNotCompat, NoDatabaseOpen, PackageInfo};
use navdata_interface::database_info::{from_to_readable, parse_from_to, DatabaseInfo, Header};
use navdata_interface::funcs::{
    find_database_file, heartbeat_due, is_database_file, queue_step, CycleInfo,
    GetNavigationDataInstallStatus, QueueStep, RunStatus,
};
use navdata_interface::meta::InstalledNavigationDataCycleInfo;

#[test]
fn range_within_one_year() {
    let (from, to) = parse_from_to("2501220224".to_string()).unwrap();
    assert_eq!(from, "25-01-2024");
    assert_eq!(to, "22-02-2024");
}

#[test]
fn range_across_new_year() {
    let (from, to) = parse_from_to("2812250124".to_string()).unwrap();
    assert_eq!(from, "28-12-2023");
    assert_eq!(to, "25-01-2024");
}

#[test]
fn plus_sign_reads_as_number() {
    let (from, to) = parse_from_to("+5+1+9+124".to_string()).unwrap();
    assert_eq!(from, "05-01-2024");
    assert_eq!(to, "09-01-2024");
}

#[test]
fn bad_field_is_an_error() {
    assert!(parse_from_to("2x01220224".to_string()).is_err());
    assert!(parse_from_to("25-1220224".to_string()).is_err());
}

#[test]
fn non_ascii_field_is_an_error() {
    assert!(from_to_readable("é12050124"));
    assert!(parse_from_to("é12050124".to_string()).is_err());
    assert!(from_to_readable("25é220224"));
    assert!(parse_from_to("25é220224".to_string()).is_err());
}

#[test]
fn field_cut_inside_a_character_is_unreadable() {
    assert!(!from_to_readable("1é050124"));
    assert!(!from_to_readable("250"));
    assert!(!from_to_readable("2512250100"));
    assert!(from_to_readable("2501220224"));
    assert!(from_to_readable("2x"));
}

#[test]
fn info_from_header() {
    let h = Header {
        creator: "c".to_string(),
        cycle: "2401".to_string(),
        data_provider: "p".to_string(),
        dataset_version: "1".to_string(),
        dataset: "d".to_string(),
        effective_fromto: "2501220224".to_string(),
        parsed_at: "now".to_string(),
        revision: "1".to_string(),
    };
    let info = DatabaseInfo::from_header(h);
    assert_eq!(info.airac_cycle, "2401");
    assert_eq!(info.effective_from_to, ("25-01-2024".to_string(), "22-02-2024".to_string()));
    assert_eq!(info.previous_from_to, ("deprecated".to_string(), "deprecated".to_string()));
}

#[test]
fn validity_splits_at_slash() {
    assert_eq!(split_validity("2024-01-25/2024-02-21"), ("2024-01-25".to_string(), "2024-02-21".to_string()));
    assert_eq!(split_validity("a/b/c"), ("a".to_string(), "b".to_string()));
    assert_eq!(split_validity("nodate"), ("nodate".to_string(), "".to_string()));
    assert_eq!(split_validity(""), ("".to_string(), "".to_string()));
    assert_eq!(split_validity("/x"), ("".to_string(), "x".to_string()));
}

#[test]
fn manual_database_tracks_active_package() {
    let mut db = DatabaseManual::new();
    assert!(db.get_database().is_err());
    assert_eq!(db.setup().unwrap(), "Setup Complete");
    let cycle = InstalledNavigationDataCycleInfo {
        cycle: "2401".to_string(),
        revision: "1".to_string(),
        name: "n".to_string(),
        format: "dfd".to_string(),
        validity_period: "2024-01-25/2024-02-21".to_string(),
    };
    let package = PackageInfo { path: "\\work/pkg".to_string(), uuid: "u".to_string(), cycle };
    assert_eq!(db.enable_cycle(&package).unwrap(), true);
    assert_eq!(db.path, "\\work/pkg");
    assert_eq!(db.disable_cycle().unwrap(), true);
    let (c, from, to) = DatabaseManual::database_info_from_cycle(&package.cycle);
    assert_eq!((c.as_str(), from.as_str(), to.as_str()), ("2401", "2024-01-25", "2024-02-21"));
}

#[test]
fn error_texts() {
    assert_eq!(NoDatabaseOpen.message(), "No database open");
    assert_eq!(DatabaseNotCompat.message(), "Function not implemented in database type");
}

#[test]
fn database_file_in_archive() {
    assert!(is_database_file("ng_navigation_data.s3db"));
    assert!(is_database_file("DATA.S3DB"));
    assert!(!is_database_file("cycle.json"));
    assert!(!is_database_file("s3db"));
    let names = vec!["cycle.json".to_string(), "nav.S3db".to_string(), "other.s3db".to_string()];
    assert_eq!(find_database_file(&names), Some(1));
    assert_eq!(find_database_file(&vec!["cycle.json".to_string()]), None);
}

#[test]
fn queue_and_heartbeat_steps() {
    assert_eq!(queue_step(Some(RunStatus::InProgress)), QueueStep::Wait);
    assert_eq!(queue_step(Some(RunStatus::Finished)), QueueStep::Remove);
    assert_eq!(queue_step(None), QueueStep::Remove);
    assert!(!heartbeat_due(999));
    assert!(heartbeat_due(1000));
}

#[test]
fn install_status_report() {
    let info = CycleInfo {
        cycle: "2401".to_string(),
        revision: "2".to_string(),
        name: "n".to_string(),
        format: "dfd".to_string(),
        validity_period: "v".to_string(),
    };
    let r = GetNavigationDataInstallStatus {}.report(info, "\\work/db.s3db", None);
    assert_eq!(r.status, "Manual");
    assert_eq!(r.installed_cycle.as_deref(), Some("2401"));
    assert_eq!(r.installed_revision.as_deref(), Some("2"));
    assert_eq!(r.installed_path.as_deref(), Some("\\work/db.s3db"));
    assert_eq!(r.latest_cycle, None);
}
