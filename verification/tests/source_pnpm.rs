use globlin::model::{Installed, SourceKind};
use globlin::source::pnpm::{from_projects, listing_text, Pnpm};

const LISTING: &str = r#"[
  {
    "name": "C:\\Users\\x\\AppData\\Local\\pnpm\\global\\5",
    "dependencies": {
      "typescript": { "from": "typescript", "version": "5.6.2" },
      "@salesforce/cli": { "from": "@salesforce/cli", "version": "2.145.6" },
      "broken": { "from": "broken", "version": "latest" }
    }
  }
]"#;

/// Reads pnpm's listing as the app does: an array of projects or a single
/// project, each with its `dependencies`; output that is not JSON lists
/// nothing.
fn parse_listing(raw: &str) -> Vec<Installed> {
    let Ok(value) = serde_json::from_str::<serde_json::Value>(&listing_text(raw)) else {
        return Vec::new();
    };
    let projects: Vec<serde_json::Value> = match value {
        serde_json::Value::Array(projects) => projects,
        project => vec![project],
    };
    let entries: Vec<Vec<(String, Option<String>)>> = projects
        .iter()
        .map(|project| match project.get("dependencies").and_then(|d| d.as_object()) {
            Some(dependencies) => dependencies
                .iter()
                .map(|(name, entry)| {
                    (
                        name.clone(),
                        entry.get("version").and_then(|v| v.as_str()).map(str::to_string),
                    )
                })
                .collect(),
            None => Vec::new(),
        })
        .collect();
    from_projects(&entries)
}

fn pnpm() -> Pnpm {
    Pnpm::new(Some("pnpm".to_string())).unwrap()
}

#[test]
fn the_global_project_array_is_flattened_into_packages() {
    let installed = parse_listing(LISTING);
    let names: Vec<&str> = installed.iter().map(|item| item.name.as_str()).collect();

    assert_eq!(names, vec!["@salesforce/cli", "typescript"]);
    assert_eq!(installed[1].version, "5.6.2");
    assert_eq!(installed[1].source, SourceKind::Pnpm);
}

#[test]
fn an_entry_whose_version_is_not_semver_is_dropped() {
    let installed = parse_listing(LISTING);

    assert!(!installed.iter().any(|item| item.name == "broken"));
}

#[test]
fn a_single_project_object_parses_like_an_array_of_one() {
    let installed = parse_listing(r#"{"dependencies":{"vite":{"version":"6.0.1"}}}"#);

    assert_eq!(installed.len(), 1);
    assert_eq!(installed[0].name, "vite");
}

#[test]
fn a_package_listed_by_two_projects_is_reported_once() {
    let raw = r#"[
      {"dependencies":{"vite":{"version":"6.0.1"}}},
      {"dependencies":{"vite":{"version":"6.0.1"}}}
    ]"#;

    assert_eq!(parse_listing(raw).len(), 1);
}

#[test]
fn output_that_is_not_json_is_empty_rather_than_fatal() {
    assert!(parse_listing("ERR_PNPM_NO_GLOBAL_DIR").is_empty());
    assert!(parse_listing("").is_empty());
}

#[test]
fn the_first_project_to_list_a_name_gives_its_version() {
    let installed = from_projects(&vec![
        vec![("b".to_string(), Some("2.0.0".to_string()))],
        vec![
            ("b".to_string(), Some("3.0.0".to_string())),
            ("a".to_string(), Some("1.0.0".to_string())),
        ],
    ]);
    let rows: Vec<(&str, &str)> = installed
        .iter()
        .map(|item| (item.name.as_str(), item.version.as_str()))
        .collect();
    assert_eq!(rows, vec![("a", "1.0.0"), ("b", "2.0.0")]);
}

#[test]
fn the_pnpm_update_command_installs_the_latest_globally() {
    assert_eq!(
        pnpm().update_command("vite").unwrap().args,
        vec!["add", "-g", "vite@latest"]
    );
}

#[test]
fn the_pnpm_uninstall_command_removes_the_package_globally() {
    assert_eq!(
        pnpm().uninstall_command("vite").unwrap().args,
        vec!["remove", "-g", "vite"]
    );
}

#[test]
fn a_byte_order_mark_before_the_listing_is_dropped() {
    let installed = parse_listing(&format!("\u{feff}\u{feff}{LISTING}"));

    assert_eq!(installed.len(), 2);
    assert_eq!(listing_text("\u{feff}[]"), "[]");
    assert_eq!(listing_text("[\u{feff}]"), "[\u{feff}]");
}
