use globlin::model::SourceKind;
use globlin::source::choco::{list_arguments, major_version, merge, parse_listing, parse_outdated, Choco};

const LISTING: &str = "git|2.44.0
nodejs|22.11.0
7zip.install|23.1.0
Chocolatey v2.3.0
";

const OUTDATED: &str = "git|2.44.0|2.47.1|false
nodejs|22.11.0|24.1.0|false
";

#[test]
fn the_local_listing_becomes_the_installed_set() {
    let installed = merge(LISTING, "");
    let names: Vec<&str> = installed.iter().map(|item| item.name.as_str()).collect();

    assert_eq!(names, vec!["git", "nodejs", "7zip.install"]);
    assert_eq!(installed[0].source, SourceKind::Choco);
}

#[test]
fn the_outdated_report_supplies_the_upgrade() {
    let installed = merge(LISTING, OUTDATED);

    assert_eq!(installed[0].version, "2.44.0");
    assert_eq!(installed[0].available.as_deref(), Some("2.47.1"));
}

#[test]
fn a_package_absent_from_the_outdated_report_is_not_behind() {
    let installed = merge(LISTING, OUTDATED);
    let seven_zip = installed.iter().find(|item| item.name == "7zip.install");

    assert_eq!(seven_zip.unwrap().available, None);
}

#[test]
fn an_outdated_row_naming_the_same_version_twice_is_not_an_upgrade() {
    let upgrades = parse_outdated("git|2.44.0|2.44.0|false\n");

    assert!(upgrades.is_empty());
}

#[test]
fn the_trailing_version_banner_is_not_a_package() {
    let installed = parse_listing(LISTING);

    assert!(!installed
        .iter()
        .any(|item| item.name.contains("Chocolatey")));
}

#[test]
fn chocolatey_one_needs_the_local_only_flag() {
    assert_eq!(major_version("1.4.0\n"), Some(1));
    assert_eq!(major_version("2.3.0\n"), Some(2));
    assert_eq!(major_version(""), None);
}

#[test]
fn empty_output_is_no_packages_rather_than_a_panic() {
    assert!(merge("", "").is_empty());
}

#[test]
fn only_chocolatey_before_two_is_told_to_stay_local() {
    assert_eq!(list_arguments("1.4.0\n"), vec!["list", "-r", "--local-only"]);
    assert_eq!(list_arguments("2.3.0\n"), vec!["list", "-r"]);
}

#[test]
fn chocolatey_is_read_only() {
    let choco = Choco::new(Some("choco".to_string())).unwrap();
    assert!(choco.update_command("git").is_none());
    assert!(choco.uninstall_command("git").is_none());
}
