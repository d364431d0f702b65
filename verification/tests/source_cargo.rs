use globlin::model::SourceKind;
use globlin::source::cargo::{parse_listing, Cargo};

const LISTING: &str = "cargo-edit v0.13.6:
    cargo-add
    cargo-rm
ripgrep v14.1.0:
    rg
tool-from-git v0.1.0 (https://github.com/example/tool#01234567):
    tool
";

fn cargo() -> Cargo {
    Cargo::new(Some("cargo".to_string())).unwrap()
}

#[test]
fn each_header_line_is_a_crate_and_its_version() {
    let installed = parse_listing(LISTING);
    let names: Vec<&str> = installed.iter().map(|item| item.name.as_str()).collect();

    assert_eq!(names, vec!["cargo-edit", "ripgrep"]);
    assert_eq!(installed[1].version, "14.1.0");
    assert_eq!(installed[1].source, SourceKind::Cargo);
}

#[test]
fn the_indented_binaries_under_a_crate_are_not_crates() {
    assert!(!parse_listing(LISTING)
        .iter()
        .any(|item| item.name == "rg" || item.name == "cargo-add"));
}

#[test]
fn a_crate_installed_from_git_is_dropped_because_crates_io_cannot_answer_for_it() {
    assert!(!parse_listing(LISTING)
        .iter()
        .any(|item| item.name == "tool-from-git"));
}

#[test]
fn a_version_that_is_not_semver_is_not_a_crate() {
    assert!(parse_listing("odd vnot-a-version:\n").is_empty());
    assert!(parse_listing("").is_empty());
}

#[test]
fn the_cargo_update_command_installs_the_crate_again() {
    let command = cargo().update_command("ripgrep").unwrap();
    assert_eq!(command.args, vec!["install", "ripgrep"]);
    assert_eq!(command.program, "cargo");
}

#[test]
fn the_cargo_uninstall_command_removes_the_crate() {
    assert_eq!(
        cargo().uninstall_command("ripgrep").unwrap().args,
        vec!["uninstall", "ripgrep"]
    );
}

#[test]
fn cargo_that_is_not_on_path_cannot_be_used() {
    assert_eq!(
        Cargo::new(None).err().as_deref(),
        Some("cargo was not found on PATH")
    );
}
