use globlin::model::SourceKind;
use globlin::source::pipx::{parse_listing, Pipx};

const LISTING: &str = "black 24.10.0
poetry 1.8.4
yt-dlp 2025.9.5
";

fn pipx() -> Pipx {
    Pipx::new(Some("pipx".to_string())).unwrap()
}

#[test]
fn each_short_row_is_a_tool_and_its_version() {
    let installed = parse_listing(LISTING);
    let names: Vec<&str> = installed.iter().map(|item| item.name.as_str()).collect();

    assert_eq!(names, vec!["black", "poetry", "yt-dlp"]);
    assert_eq!(installed[0].version, "24.10.0");
    assert_eq!(installed[0].source, SourceKind::Pipx);
}

#[test]
fn a_calendar_version_survives_because_versions_are_kept_as_text() {
    let installed = parse_listing(LISTING);

    assert_eq!(installed[2].version, "2025.9.5");
}

#[test]
fn pipx_reports_no_upgrade_of_its_own_so_the_feed_has_to_answer() {
    let installed = parse_listing(LISTING);

    assert!(installed.iter().all(|item| item.available.is_none()));
}

#[test]
fn a_line_that_is_not_two_columns_is_not_a_tool() {
    assert!(parse_listing("nothing has been installed with pipx\n").is_empty());
    assert!(parse_listing("").is_empty());
}

#[test]
fn the_pipx_update_command_upgrades_the_named_tool() {
    assert_eq!(pipx().update_command("black").unwrap().args, vec!["upgrade", "black"]);
}

#[test]
fn the_pipx_uninstall_command_removes_the_named_tool() {
    assert_eq!(pipx().uninstall_command("black").unwrap().args, vec!["uninstall", "black"]);
}
