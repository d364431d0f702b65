use globlin::model::{Installed, SourceKind};
use globlin::source::dotnet::{from_json_entries, parse_table, Dotnet};

const JSON: &str = r#"{
  "version": 1,
  "data": [
    { "packageId": "dotnetsay", "version": "2.1.4", "commands": ["dotnetsay"] },
    { "packageId": "dotnet-ef", "version": "9.0.0", "commands": ["dotnet-ef"] }
  ]
}"#;

const PASCAL_JSON: &str = r#"{
  "Version": 1,
  "Data": [
    { "PackageId": "dotnetsay", "Version": "2.1.4", "Commands": ["dotnetsay"] }
  ]
}"#;

const TABLE: &str = "Package Id      Version      Commands
-------------------------------------
dotnetsay       2.1.4        dotnetsay
dotnet-ef       9.0.0        dotnet-ef
";

/// Reads the `(packageId, version)` pairs of the JSON listing in either
/// casing, as the app hands them to the library.
fn parse_json(raw: &str) -> Vec<Installed> {
    let Ok(value) = serde_json::from_str::<serde_json::Value>(raw) else {
        return Vec::new();
    };
    let data = value
        .get("data")
        .or_else(|| value.get("Data"))
        .and_then(|data| data.as_array())
        .cloned()
        .unwrap_or_default();
    let field = |entry: &serde_json::Value, lower: &str, upper: &str| {
        entry
            .get(lower)
            .or_else(|| entry.get(upper))
            .and_then(|v| v.as_str())
            .unwrap_or_default()
            .to_string()
    };
    let entries = data
        .iter()
        .map(|entry| (field(entry, "packageId", "PackageId"), field(entry, "version", "Version")))
        .collect();
    from_json_entries(entries)
}

fn dotnet() -> Dotnet {
    Dotnet::new(Some("dotnet".to_string())).unwrap()
}

#[test]
fn the_json_listing_is_read_from_the_data_array() {
    let installed = parse_json(JSON);
    let names: Vec<&str> = installed.iter().map(|item| item.name.as_str()).collect();

    assert_eq!(names, vec!["dotnetsay", "dotnet-ef"]);
    assert_eq!(installed[1].version, "9.0.0");
    assert_eq!(installed[0].source, SourceKind::Dotnet);
}

#[test]
fn either_casing_of_the_json_contract_is_accepted() {
    let installed = parse_json(PASCAL_JSON);

    assert_eq!(installed.len(), 1);
    assert_eq!(installed[0].name, "dotnetsay");
    assert_eq!(installed[0].version, "2.1.4");
}

#[test]
fn an_sdk_too_old_for_json_falls_back_to_its_table() {
    let installed = parse_table(TABLE);
    let names: Vec<&str> = installed.iter().map(|item| item.name.as_str()).collect();

    assert_eq!(names, vec!["dotnetsay", "dotnet-ef"]);
    assert_eq!(installed[0].version, "2.1.4");
}

#[test]
fn the_localised_header_above_the_dashes_is_never_a_tool() {
    assert!(!parse_table(TABLE)
        .iter()
        .any(|item| item.name.contains("Package")));
}

#[test]
fn output_without_a_table_is_empty_rather_than_fatal() {
    assert!(parse_table("No tools were found.\n").is_empty());
    assert!(parse_table("").is_empty());
    assert!(parse_json("error: unrecognized option --format").is_empty());
}

#[test]
fn a_json_entry_missing_its_id_or_version_is_not_a_tool() {
    let installed = from_json_entries(vec![
        ("".to_string(), "1.0.0".to_string()),
        ("tool".to_string(), "".to_string()),
        ("kept".to_string(), "2.0.0".to_string()),
    ]);
    assert_eq!(installed.len(), 1);
    assert_eq!(installed[0].name, "kept");
}

#[test]
fn the_dotnet_update_command_updates_the_global_tool() {
    assert_eq!(
        dotnet().update_command("dotnetsay").unwrap().args,
        vec!["tool", "update", "--global", "dotnetsay"]
    );
}

#[test]
fn the_dotnet_uninstall_command_removes_the_global_tool() {
    assert_eq!(
        dotnet().uninstall_command("dotnetsay").unwrap().args,
        vec!["tool", "uninstall", "--global", "dotnetsay"]
    );
}
