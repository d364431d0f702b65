use globlin::config::{Config, Sources};
use globlin::model::{SourceKind, KINDS};
use globlin::source::{enabled, Located};

fn only(kinds: &[SourceKind]) -> Config {
    let mut config = Config {
        sources: Sources {
            npm: false,
            bun: false,
            pnpm: false,
            yarn: false,
            pipx: false,
            uv: false,
            scoop: false,
            cargo: false,
            go: false,
            dotnet: false,
            psgallery: false,
            gem: false,
            winget: false,
            choco: false,
        },
        ..Default::default()
    };
    for kind in kinds {
        config.set_source_enabled(*kind, true);
    }
    config
}

/// What the search found for each source: only npm is on the machine.
fn only_npm_found() -> Vec<Located> {
    KINDS
        .iter()
        .map(|kind| Located {
            command: if *kind == SourceKind::Npm {
                Some("npm.cmd".to_string())
            } else {
                None
            },
            root: None,
        })
        .collect()
}

#[test]
fn disabling_every_source_is_an_error_rather_than_an_empty_result() {
    let error = enabled(&only(&[]), only_npm_found(), "npm")
        .err()
        .expect("disabling every source should fail");

    assert!(error.contains("no package sources are enabled"), "{error}");
}

#[test]
fn npm_alone_is_enough_to_run() {
    let sources = enabled(&only(&[SourceKind::Npm]), only_npm_found(), "npm").unwrap();

    assert_eq!(sources.len(), 1);
    assert_eq!(sources[0].kind(), SourceKind::Npm);
}

#[test]
fn a_missing_optional_source_does_not_break_the_working_one() {
    let sources = enabled(&only(&[SourceKind::Npm, SourceKind::Bun]), only_npm_found(), "npm").unwrap();

    assert!(sources
        .iter()
        .any(|source| source.kind() == SourceKind::Npm));
}

#[test]
fn when_no_enabled_source_can_be_found_the_reasons_are_joined() {
    let error = enabled(&only(&[SourceKind::Bun, SourceKind::Pipx]), only_npm_found(), "npm")
        .err()
        .unwrap();

    assert_eq!(
        error,
        "bun was not found on PATH; pipx was not found on PATH"
    );
}

#[test]
fn every_source_kind_round_trips_through_its_label() {
    for kind in KINDS {
        assert_eq!(SourceKind::from_label(kind.label()), Some(kind));
    }
}

#[test]
fn only_the_enabled_sources_are_built() {
    let config = only(&[SourceKind::Npm]);

    assert!(config.source_enabled(SourceKind::Npm));
    assert!(!config.source_enabled(SourceKind::Winget));
}

#[test]
fn the_default_config_checks_npm_and_bun_every_six_hours() {
    let config = Config::default();

    assert_eq!(config.check_interval_hours, 6);
    assert!(config.source_enabled(SourceKind::Npm));
    assert!(config.source_enabled(SourceKind::Bun));
    assert!(!config.source_enabled(SourceKind::Winget));
    assert_eq!(config.ignore, vec!["npm"]);
}

#[test]
fn switching_one_source_leaves_the_others_alone() {
    let mut config = Config::default();
    config.set_source_enabled(SourceKind::Bun, false);

    assert!(!config.source_enabled(SourceKind::Bun));
    assert!(config.source_enabled(SourceKind::Npm));
}

#[test]
fn a_missing_npm_is_named_by_the_file_that_was_searched_for() {
    let found: Vec<Located> = KINDS
        .iter()
        .map(|_| Located {
            command: None,
            root: None,
        })
        .collect();
    let error = enabled(&only(&[SourceKind::Npm]), found, "npm").err().unwrap();

    assert_eq!(
        error,
        "npm was not found on PATH; set \"npm_cmd\" in the config file"
    );
}
