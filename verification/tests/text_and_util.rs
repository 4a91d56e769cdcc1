use navdata_interface::fix::{fix_type_from_table, Fix, FixType};
use navdata_interface::text::{char_at_is, is_all_keyword, is_single_char, prefix4_eq};
use navdata_interface::util::{batch_full, delete_action, trim_null_terminator, DeleteAction, PathType};

#[test]
fn trims_every_trailing_nul() {
    assert_eq!(trim_null_terminator("{\"id\":\"1\"}\0\0"), "{\"id\":\"1\"}");
}

#[test]
fn trim_keeps_inner_nul_and_text_without_nul() {
    assert_eq!(trim_null_terminator("a\0b"), "a\0b");
    assert_eq!(trim_null_terminator("abc"), "abc");
    assert_eq!(trim_null_terminator("\0\0"), "");
    assert_eq!(trim_null_terminator(""), "");
}

#[test]
fn trimming_twice_changes_nothing() {
    let once = trim_null_terminator("call\0\0\0");
    assert_eq!(trim_null_terminator(once), once);
}

#[test]
fn delete_actions_follow_entry_type() {
    assert_eq!(delete_action(PathType::Directory, false), DeleteAction::Recurse);
    assert_eq!(delete_action(PathType::File, true), DeleteAction::RemoveFile);
    assert_eq!(delete_action(PathType::DoesNotExist, false), DeleteAction::RemoveEmptyDirectory);
    assert_eq!(delete_action(PathType::DoesNotExist, true), DeleteAction::Keep);
}

#[test]
fn batch_is_full_at_its_size() {
    assert!(!batch_full(2, Some(3)));
    assert!(batch_full(3, Some(3)));
    assert!(!batch_full(1000, None));
}

#[test]
fn character_tests() {
    assert!(char_at_is("IF ", 1, 'F'));
    assert!(!char_at_is("I", 1, 'F'));
    assert!(is_single_char("A", 'A'));
    assert!(!is_single_char("AA", 'A'));
    assert!(is_all_keyword("ALL"));
    assert!(!is_all_keyword("AL"));
    assert!(prefix4_eq("RW27L", "RW27B"));
    assert!(!prefix4_eq("RW27L", "RW09B"));
    assert!(prefix4_eq("ééx", "ééy"));
    assert!(!prefix4_eq("éé", "éè"));
}

#[test]
fn fix_types_from_reference_tables() {
    assert_eq!(fix_type_from_table("PA"), Some(FixType::Airport));
    assert_eq!(fix_type_from_table("PN"), Some(FixType::NdbNavaid));
    assert_eq!(fix_type_from_table("DB"), Some(FixType::NdbNavaid));
    assert_eq!(fix_type_from_table("PG"), Some(FixType::RunwayThreshold));
    assert_eq!(fix_type_from_table("PT"), Some(FixType::GlsNavaid));
    assert_eq!(fix_type_from_table("PI"), Some(FixType::IlsNavaid));
    assert_eq!(fix_type_from_table("D "), Some(FixType::VhfNavaid));
    assert_eq!(fix_type_from_table("EA"), Some(FixType::Waypoint));
    assert_eq!(fix_type_from_table("PC"), Some(FixType::Waypoint));
    assert_eq!(fix_type_from_table("XX"), None);
    assert_eq!(fix_type_from_table("D"), None);
}

#[test]
fn fix_from_row_data_keeps_fields() {
    let f = Fix::from_row_data(
        51.5,
        -0.1,
        "GLENN".to_string(),
        "K2".to_string(),
        Some("KLAX".to_string()),
        "EA".to_string(),
    );
    assert_eq!(f.fix_type, FixType::Waypoint);
    assert_eq!(f.ident, "GLENN");
    assert_eq!(f.icao_code, "K2");
    assert_eq!(f.location.lat, 51.5);
    assert_eq!(f.location.long, -0.1);
    assert_eq!(f.airport_ident, Some("KLAX".to_string()));
}
