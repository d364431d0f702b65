use globlin::source::scoop::{non_empty, Scoop};

fn scoop() -> Scoop {
    Scoop::new(Some("scoop".to_string()), Some("scoop-root".to_string())).unwrap()
}

#[test]
fn the_scoop_update_command_updates_the_named_app() {
    assert_eq!(scoop().update_command("bun").unwrap().args, vec!["update", "bun"]);
}

#[test]
fn the_scoop_uninstall_command_removes_the_named_app() {
    assert_eq!(
        scoop().uninstall_command("bun").unwrap().args,
        vec!["uninstall", "bun"]
    );
}

#[test]
fn scoop_needs_its_program_and_a_directory_of_apps() {
    assert_eq!(
        Scoop::new(None, Some("scoop-root".to_string())).err().as_deref(),
        Some("scoop was not found on PATH")
    );
    assert_eq!(
        Scoop::new(Some("scoop".to_string()), None).err().as_deref(),
        Some("the scoop directory has no apps to read")
    );
    assert_eq!(scoop().root(), "scoop-root");
}

#[test]
fn an_empty_version_or_bucket_is_none() {
    assert_eq!(non_empty(Some(String::new())), None);
    assert_eq!(non_empty(None), None);
    assert_eq!(non_empty(Some("main".to_string())).as_deref(), Some("main"));
}
