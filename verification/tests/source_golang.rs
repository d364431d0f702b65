use globlin::source::golang::{bin_candidates, latest_release, parse_listing, Go};

const LISTING: &str = "C:\\Users\\x\\go\\bin\\goimports.exe: go1.22.2
\tpath\tgolang.org/x/tools/cmd/goimports
\tmod\tgolang.org/x/tools\tv0.20.0\th1:hz/CVckiOxybQvFw6h7b/q80NTr9IUQb4s1IIzW7KNY=
\tbuild\t-buildmode=exe
C:\\Users\\x\\go\\bin\\gopls.exe: go1.22.2
\tpath\tgolang.org/x/tools/gopls
\tmod\tgolang.org/x/tools/gopls\tv0.15.3\th1:zbdOidFrPTc8Bx0YrN5QKgJ0zCjyGi0L27sKQ/bDG5o=
\tdep\tgithub.com/BurntSushi/toml\tv1.2.1\th1:9F2/+DoOYIOksmaJFPw1tGFy1eDnIJXg+UHjuD8lTak=
C:\\Users\\x\\go\\bin\\test.exe: go1.22.2
\tpath\ttest
\tmod\ttest\t(devel)\t
";

fn go() -> Go {
    Go::new(Some("go".to_string())).unwrap()
}

#[test]
fn the_package_path_names_the_tool_because_that_is_what_go_install_takes() {
    let binaries = parse_listing(LISTING);
    let packages: Vec<&str> = binaries
        .iter()
        .map(|binary| binary.package.as_str())
        .collect();

    assert_eq!(
        packages,
        vec![
            "golang.org/x/tools/cmd/goimports",
            "golang.org/x/tools/gopls"
        ]
    );
}

#[test]
fn the_module_is_kept_apart_from_the_package_because_only_it_can_be_queried() {
    let binaries = parse_listing(LISTING);

    assert_eq!(binaries[0].module, "golang.org/x/tools");
    assert_eq!(binaries[0].package, "golang.org/x/tools/cmd/goimports");
}

#[test]
fn the_leading_v_is_dropped_so_versions_render_like_every_other_source() {
    assert_eq!(parse_listing(LISTING)[1].version, "0.15.3");
}

#[test]
fn a_locally_built_binary_has_no_released_version_to_compare_against() {
    assert!(!parse_listing(LISTING)
        .iter()
        .any(|binary| binary.package == "test"));
}

#[test]
fn dependency_rows_are_not_binaries() {
    assert!(!parse_listing(LISTING)
        .iter()
        .any(|binary| binary.module.contains("BurntSushi")));
}

#[test]
fn output_that_is_not_a_listing_is_empty_rather_than_fatal() {
    assert!(parse_listing("go: no such tool\n").is_empty());
    assert!(parse_listing("").is_empty());
}

#[test]
fn the_latest_release_drops_its_v_and_a_devel_build_has_none() {
    assert_eq!(latest_release("v0.16.0\n").as_deref(), Some("0.16.0"));
    assert_eq!(latest_release("(devel)\n"), None);
    assert_eq!(latest_release(""), None);
}

#[test]
fn the_go_update_command_installs_the_package_at_latest() {
    assert_eq!(
        go().update_command("golang.org/x/tools/gopls").unwrap().args,
        vec!["install", "golang.org/x/tools/gopls@latest"]
    );
}

#[test]
fn go_has_no_uninstall_of_its_own() {
    assert!(go().uninstall_command("golang.org/x/tools/gopls").is_none());
}

#[test]
fn gobin_is_tried_before_the_bin_directory_of_gopath() {
    assert_eq!(
        bin_candidates("C:\\go\\custom\n", "C:\\Users\\x\\go\n"),
        vec![vec!["C:\\go\\custom"], vec!["C:\\Users\\x\\go", "bin"]]
    );
    assert_eq!(
        bin_candidates("\n", "/home/x/go\n"),
        vec![vec!["/home/x/go", "bin"]]
    );
    assert!(bin_candidates("", "  ").is_empty());
}
