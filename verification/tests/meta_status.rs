use navdata_interface::meta::{
    install_status, navigation_data_status, needs_cycle_info, should_copy_bundled, str_greater,
    CurrentCycleResponse, InstallStatus, InstalledNavigationDataCycleInfo, InternalState,
};

fn latest(cycle: &str) -> CurrentCycleResponse {
    CurrentCycleResponse {
        name: "n".to_string(),
        version: "v".to_string(),
        configuration: "c".to_string(),
        cycle: cycle.to_string(),
    }
}

fn cycle_info() -> InstalledNavigationDataCycleInfo {
    InstalledNavigationDataCycleInfo {
        cycle: "2401".to_string(),
        revision: "1".to_string(),
        name: "Navigraph".to_string(),
        format: "dfd".to_string(),
        validity_period: "2024-01-25/2024-02-21".to_string(),
    }
}

#[test]
fn bundled_wins_over_downloaded() {
    assert_eq!(install_status(true, true), InstallStatus::Bundled);
    assert_eq!(install_status(true, false), InstallStatus::Bundled);
    assert_eq!(install_status(false, true), InstallStatus::Manual);
    assert_eq!(install_status(false, false), InstallStatus::NotInstalled);
    assert!(needs_cycle_info(InstallStatus::Manual));
    assert!(!needs_cycle_info(InstallStatus::NotInstalled));
}

#[test]
fn report_for_manual_data() {
    let r = navigation_data_status(InstallStatus::Manual, Some(cycle_info()), "\\work/navdata", latest("2402"));
    assert_eq!(r.status, InstallStatus::Manual);
    assert_eq!(r.installed_format.as_deref(), Some("dfd"));
    assert_eq!(r.installed_revision.as_deref(), Some("1"));
    assert_eq!(r.installed_cycle.as_deref(), Some("2401"));
    assert_eq!(r.install_path.as_deref(), Some("\\work/navdata"));
    assert_eq!(r.validity_period.as_deref(), Some("2024-01-25/2024-02-21"));
    assert_eq!(r.latest_cycle, "2402");
}

#[test]
fn report_for_bundled_and_missing_data() {
    let r = navigation_data_status(InstallStatus::Bundled, Some(cycle_info()), "\\work/navdata", latest("2402"));
    assert_eq!(r.install_path, None);
    assert_eq!(r.installed_cycle.as_deref(), Some("2401"));
    let r = navigation_data_status(InstallStatus::NotInstalled, None, "\\work/navdata", latest("2402"));
    assert_eq!(r.installed_cycle, None);
    assert_eq!(r.installed_format, None);
    assert_eq!(r.install_path, None);
}

#[test]
fn string_order_is_lexicographic() {
    assert!(str_greater("2402", "2401"));
    assert!(!str_greater("2401", "2402"));
    assert!(!str_greater("2401", "2401"));
    assert!(str_greater("24011", "2401"));
    assert!(!str_greater("", ""));
    assert!(str_greater("b", "abc"));
}

#[test]
fn bundled_copy_decision() {
    let c = |s: &str| Some(s.to_string());
    assert!(should_copy_bundled(None, &None, &None));
    assert!(should_copy_bundled(Some(true), &c("2401"), &c("2402")));
    assert!(!should_copy_bundled(Some(true), &c("2402"), &c("2402")));
    assert!(!should_copy_bundled(Some(true), &c("2402"), &c("2401")));
    assert!(!should_copy_bundled(Some(false), &c("2401"), &c("2402")));
    assert!(!should_copy_bundled(Some(true), &None, &c("2402")));
}

#[test]
fn internal_state_defaults_to_not_bundled() {
    assert!(!InternalState::default().is_bundled);
}
