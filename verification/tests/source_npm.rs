use globlin::model::{Installed, SourceKind};
use globlin::source::npm::{from_dependencies, resolve, Npm};

const LISTING: &[u8] = br#"{
  "name": "npm",
  "problems": ["invalid: @kilocode/cli@ C:\\Users\\x\\AppData\\Roaming\\npm\\node_modules\\@kilocode"],
  "dependencies": {
    "prettier": { "version": "3.9.6", "resolved": "https://registry.npmjs.org/prettier/-/prettier-3.9.6.tgz" },
    "@salesforce/cli": { "version": "2.145.6" },
    "vanished": { "required": "^1.0.0", "missing": true },
    "not-semver": { "version": "latest" }
  }
}"#;

/// Reads npm's listing as the app does: the `dependencies` object, each
/// entry's `version` where it has one.
fn parse_listing(stdout: &[u8]) -> Result<Vec<Installed>, String> {
    let value: serde_json::Value =
        serde_json::from_slice(stdout).map_err(|error| error.to_string())?;
    let entries = match value.get("dependencies").and_then(|d| d.as_object()) {
        Some(dependencies) => dependencies
            .iter()
            .map(|(name, entry)| {
                (
                    name.clone(),
                    entry.get("version").and_then(|v| v.as_str()).map(str::to_string),
                )
            })
            .collect(),
        None => Vec::new(),
    };
    Ok(from_dependencies(&entries))
}

#[test]
fn parses_scoped_and_plain_packages() {
    let installed = parse_listing(LISTING).unwrap();
    let names: Vec<&str> = installed.iter().map(|item| item.name.as_str()).collect();

    assert_eq!(names, vec!["@salesforce/cli", "prettier"]);
}

#[test]
fn skips_entries_without_a_usable_version() {
    let installed = parse_listing(LISTING).unwrap();

    assert!(!installed.iter().any(|item| item.name == "vanished"));
    assert!(!installed.iter().any(|item| item.name == "not-semver"));
}

#[test]
fn reads_the_version_and_tags_the_source() {
    let installed = parse_listing(LISTING).unwrap();
    let prettier = installed
        .iter()
        .find(|item| item.name == "prettier")
        .unwrap();

    assert_eq!(prettier.version, "3.9.6");
    assert_eq!(prettier.source, SourceKind::Npm);
}

#[test]
fn a_listing_without_dependencies_is_empty_not_an_error() {
    let installed = parse_listing(br#"{"name":"npm"}"#).unwrap();

    assert!(installed.is_empty());
}

#[test]
fn unparseable_output_is_an_error() {
    assert!(parse_listing(b"").is_err());
    assert!(parse_listing(b"npm ERR! code ENOENT").is_err());
}

#[test]
fn a_configured_npm_wins_over_the_one_on_path() {
    assert_eq!(
        resolve(
            Some("C:/tools/npm.cmd".to_string()),
            Some("npm.cmd".to_string()),
            None
        )
        .as_deref(),
        Some("C:/tools/npm.cmd")
    );
    assert_eq!(
        resolve(None, None, Some("C:/Program Files/nodejs/npm.cmd".to_string())).as_deref(),
        Some("C:/Program Files/nodejs/npm.cmd")
    );
    assert_eq!(resolve(None, None, None), None);
}

#[test]
fn npm_that_cannot_be_found_names_the_config_key_to_set() {
    let error = Npm::new(None, "npm").err().unwrap();
    assert_eq!(
        error,
        "npm was not found on PATH; set \"npm_cmd\" in the config file"
    );
    let error = Npm::new(None, "npm.cmd").err().unwrap();
    assert!(error.starts_with("npm.cmd was not found on PATH"), "{error}");
}

#[test]
fn the_npm_commands_install_the_latest_and_uninstall_globally() {
    let npm = Npm::new(Some("npm.cmd".to_string()), "npm.cmd").unwrap();
    assert_eq!(
        npm.update_command("prettier").unwrap().args,
        vec!["install", "-g", "prettier@latest"]
    );
    assert_eq!(
        npm.uninstall_command("prettier").unwrap().args,
        vec!["uninstall", "-g", "prettier"]
    );
}
