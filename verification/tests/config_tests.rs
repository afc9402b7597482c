use saykocraft_launcher::config::{
    config_file_path, get_config, launcher_log_dir, read_config_file, resolve_path, save_config,
    finish_update, resolve_launcher_path, update_field, LauncherPathError, Config, ConfigStore, PathError,
};
use saykocraft_launcher::json::JsonValue;

const BASE: &str = "/home/player/.saykocraft";

fn config() -> Config {
    Config {
        install_dir: "$SAYKOCRAFT/instances".to_string(),
        data_dir: "$SAYKOCRAFT/data".to_string(),
        language: "tr-TR".to_string(),
        keep_launcher_open: false,
        prefer_discrete_gpu: true,
    }
}

fn store() -> ConfigStore {
    let mut s = ConfigStore::new();
    read_config_file(&mut s, config(), BASE, false).unwrap();
    s
}

#[test]
fn default_config_values() {
    let c = Config::default();
    assert_eq!(c.install_dir, "$SAYKOCRAFT/instances");
    assert_eq!(c.data_dir, "$SAYKOCRAFT/data");
    assert_eq!(c.language, "tr-TR");
    assert!(!c.keep_launcher_open());
    assert!(c.prefer_discrete_gpu());
}

#[test]
fn launcher_variable_resolves_to_base() {
    assert_eq!(resolve_path("$SAYKOCRAFT", BASE, false).unwrap(), BASE);
    assert_eq!(
        resolve_path("$SAYKOCRAFT/instances", BASE, false).unwrap(),
        "/home/player/.saykocraft/instances"
    );
    assert_eq!(
        resolve_path("$SAYKOCRAFT/a/./b//c", BASE, false).unwrap(),
        "/home/player/.saykocraft/a/b/c"
    );
    assert_eq!(resolve_path("$SAYKOCRAFT\\games", BASE, false).unwrap(), "/home/player/.saykocraft/games");
}

#[test]
fn absolute_paths_are_kept() {
    assert_eq!(resolve_path("/srv/games", BASE, false).unwrap(), "/srv/games");
}

#[test]
fn refused_paths() {
    assert!(matches!(resolve_path("", BASE, false), Err(PathError::Empty)));
    assert!(matches!(resolve_path("   ", BASE, false), Err(PathError::Empty)));
    assert!(matches!(resolve_path("/a\0b", BASE, false), Err(PathError::NullByte)));
    assert!(matches!(resolve_path("$SAYKOCRAFTx", BASE, false), Err(PathError::MissingSeparator)));
    assert!(matches!(resolve_path("$SAYKOCRAFT/../x", BASE, false), Err(PathError::ParentComponent)));
    assert!(matches!(resolve_path("$SAYKOCRAFT/a:b", BASE, false), Err(PathError::InvalidComponent)));
    assert!(matches!(resolve_path("/x/$SAYKOCRAFT", BASE, false), Err(PathError::MisplacedVariable)));
    assert!(matches!(resolve_path("relative/path", BASE, false), Err(PathError::NotAbsolute)));
}

#[test]
fn path_error_messages() {
    assert_eq!(PathError::Empty.message(), "path cannot be empty");
    assert_eq!(PathError::NotAbsolute.message(), "path must be absolute or start with $SAYKOCRAFT");
    assert_eq!(PathError::ParentComponent.message(), "$SAYKOCRAFT paths cannot contain '..'");
}

#[test]
fn launcher_paths_stay_in_base_example() {
    for value in ["$SAYKOCRAFT", "$SAYKOCRAFT/x/y", "$SAYKOCRAFT//./z"] {
        assert!(resolve_path(value, BASE, false).unwrap().starts_with(BASE));
    }
}

#[test]
fn launcher_files() {
    assert_eq!(launcher_log_dir(BASE), "/home/player/.saykocraft/logs");
    assert_eq!(config_file_path(BASE), "/home/player/.saykocraft/config.json");
    assert_eq!(launcher_log_dir("/root/"), "/root/logs");
}

#[test]
fn resolved_directories() {
    let c = config();
    assert_eq!(c.resolved_install_dir(BASE, false).unwrap(), "/home/player/.saykocraft/instances");
    assert_eq!(c.resolved_data_dir(BASE, false).unwrap(), "/home/player/.saykocraft/data");
}

#[test]
fn reading_a_config_checks_its_directories() {
    let mut s = ConfigStore::new();
    let mut bad = config();
    bad.install_dir = "games".to_string();
    assert_eq!(
        read_config_file(&mut s, bad, BASE, false),
        Err("invalid install_dir: path must be absolute or start with $SAYKOCRAFT".to_string())
    );
    assert!(s.config.is_none());
    let mut bad = config();
    bad.data_dir = "".to_string();
    assert_eq!(
        read_config_file(&mut s, bad, BASE, false),
        Err("invalid data_dir: path cannot be empty".to_string())
    );
    assert!(read_config_file(&mut s, config(), BASE, false).is_ok());
    assert_eq!(get_config(&s).language, "tr-TR");
}

#[test]
fn update_gives_back_what_was_written() {
    let mut s = store();
    let c = update_field(&mut s, "language", JsonValue::Str("en-US".to_string()), &Ok(BASE.to_string()), false).unwrap();
    assert_eq!(c.language, "en-US");
    assert_eq!(get_config(&s).language, "en-US");
    let c = update_field(&mut s, "keep_launcher_open", JsonValue::Bool(true), &Ok(BASE.to_string()), false).unwrap();
    assert!(c.keep_launcher_open);
    assert!(get_config(&s).keep_launcher_open);
    let c = update_field(&mut s, "install_dir", JsonValue::Str("/srv/games".to_string()), &Ok(BASE.to_string()), false).unwrap();
    assert_eq!(get_config(&s).install_dir, "/srv/games");
    assert_eq!(c.install_dir, "/srv/games");
}

#[test]
fn update_keeps_other_settings_and_repeats_change_nothing() {
    let mut s = store();
    let before = get_config(&s);
    let once = update_field(&mut s, "data_dir", JsonValue::Str("$SAYKOCRAFT/other".to_string()), &Ok(BASE.to_string()), false).unwrap();
    assert_eq!(once.data_dir, "$SAYKOCRAFT/other");
    assert_eq!(once.install_dir, before.install_dir);
    assert_eq!(once.language, before.language);
    assert_eq!(once.keep_launcher_open, before.keep_launcher_open);
    assert_eq!(once.prefer_discrete_gpu, before.prefer_discrete_gpu);
    let twice = update_field(&mut s, "data_dir", JsonValue::Str("$SAYKOCRAFT/other".to_string()), &Ok(BASE.to_string()), false).unwrap();
    assert_eq!(twice.data_dir, once.data_dir);
    assert_eq!(twice.install_dir, once.install_dir);
    assert_eq!(twice.language, once.language);
    assert_eq!(get_config(&s).data_dir, "$SAYKOCRAFT/other");
}

#[test]
fn refused_updates_change_nothing() {
    let mut s = store();
    assert_eq!(
        update_field(&mut s, "language", JsonValue::Bool(true), &Ok(BASE.to_string()), false).unwrap_err(),
        "language must be a string"
    );
    assert_eq!(
        update_field(&mut s, "prefer_discrete_gpu", JsonValue::Str("yes".into()), &Ok(BASE.to_string()), false).unwrap_err(),
        "prefer_discrete_gpu must be a boolean"
    );
    assert_eq!(
        update_field(&mut s, "data_dir", JsonValue::Str("data".into()), &Ok(BASE.to_string()), false).unwrap_err(),
        "invalid data_dir: path must be absolute or start with $SAYKOCRAFT"
    );
    assert_eq!(
        update_field(&mut s, "theme", JsonValue::Null, &Ok(BASE.to_string()), false).unwrap_err(),
        "Unknown config key: theme"
    );
    assert_eq!(get_config(&s).data_dir, "$SAYKOCRAFT/data");
    let mut empty = ConfigStore::new();
    assert_eq!(
        update_field(&mut empty, "language", JsonValue::Str("x".into()), &Ok(BASE.to_string()), false).unwrap_err(),
        "Config not initialized"
    );
}

#[test]
fn failed_save_restores_previous_settings() {
    let mut s = store();
    let previous = get_config(&s);
    let updated = update_field(&mut s, "language", JsonValue::Str("de-DE".into()), &Ok(BASE.to_string()), false).unwrap();
    let m = finish_update(&mut s, previous, updated, Err("disk full".to_string())).unwrap_err();
    assert_eq!(m, "Config saving failed: disk full");
    assert_eq!(get_config(&s).language, "tr-TR");
}

#[test]
fn saved_updates_stay() {
    let mut s = store();
    let previous = get_config(&s);
    let updated = update_field(&mut s, "language", JsonValue::Str("de-DE".into()), &Ok(BASE.to_string()), false).unwrap();
    let kept = finish_update(&mut s, previous, updated, Ok(())).unwrap();
    assert_eq!(kept.language, "de-DE");
    assert_eq!(get_config(&s).language, "de-DE");
}

#[test]
fn paths_need_the_data_directory() {
    let missing: Result<String, String> = Err("HOME is not set".to_string());
    assert!(matches!(
        resolve_launcher_path("/srv/games", &missing, false),
        Err(LauncherPathError::NotFound(m)) if m == "HOME is not set"
    ));
    assert!(matches!(resolve_launcher_path("", &missing, false), Err(LauncherPathError::NotFound(_))));
    let found: Result<String, String> = Ok(BASE.to_string());
    assert_eq!(resolve_launcher_path("$SAYKOCRAFT/data", &found, false).unwrap(), format!("{BASE}/data"));
    assert!(matches!(
        resolve_launcher_path("data", &found, false),
        Err(LauncherPathError::Invalid(PathError::NotAbsolute))
    ));
    let mut s = store();
    assert_eq!(
        update_field(&mut s, "install_dir", JsonValue::Str("/srv".into()), &missing, false).unwrap_err(),
        "invalid install_dir: HOME is not set"
    );
    assert!(update_field(&mut s, "language", JsonValue::Str("en".into()), &missing, false).is_ok());
}

#[test]
fn save_goes_through_a_temporary_file() {
    let s = store();
    let save = save_config(&s, BASE);
    assert_eq!(save.path, "/home/player/.saykocraft/config.json");
    assert_eq!(save.temp_path, "/home/player/.saykocraft/config.json.tmp");
    assert_eq!(save.config.install_dir, "$SAYKOCRAFT/instances");
}

#[test]
fn absolute_paths_follow_the_platform() {
    let base = "C:\\Users\\p\\AppData\\Roaming\\.saykocraft";
    assert_eq!(resolve_path("C:\\games", base, true).unwrap(), "C:\\games");
    assert_eq!(resolve_path("d:/games", base, true).unwrap(), "d:/games");
    assert_eq!(resolve_path("\\\\server\\share\\games", base, true).unwrap(), "\\\\server\\share\\games");
    assert_eq!(resolve_path("\\\\?\\C:\\games", base, true).unwrap(), "\\\\?\\C:\\games");
    assert!(matches!(resolve_path("C:games", base, true), Err(PathError::NotAbsolute)));
    assert!(matches!(resolve_path("\\games", base, true), Err(PathError::NotAbsolute)));
    assert!(matches!(resolve_path("/games", base, true), Err(PathError::NotAbsolute)));
    assert!(matches!(resolve_path("\\\\server", base, true), Err(PathError::NotAbsolute)));
    assert!(matches!(resolve_path("C:\\games", BASE, false), Err(PathError::NotAbsolute)));
    assert_eq!(resolve_path("/games", BASE, false).unwrap(), "/games");
}
