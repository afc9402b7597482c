use saykocraft_launcher::instance::{
    clear_instance_state_override, determine_instance_state, ensure_instance_can_be_removed,
    get_instance_manifest, get_instance_settings, get_instance_state, get_instance_version,
    get_instances, init_instances, install_state, installed_instance_dir, is_remote_instance_id,
    local_instance_dir, normalize_jvm_args, parse_jvm_args, read_local_instance,
    read_local_instances, remote_instance_ids, existing_instance_dir, instance_dir_removal, InstanceDirError, remove_local_instance, replace_instances,
    set_instance_state_override, state_code, update_instance_settings_field,
    validate_instance_id_path_component, validate_pack_file_manifest, validate_remote_instance,
    FileManifestReference, InstanceEntry, InstanceManifest, InstanceRegistry, InstanceSettings,
    InstanceState, PackFileManifest,
};
use saykocraft_launcher::json::JsonValue;

fn manifest(id: &str, version: &str) -> InstanceManifest {
    InstanceManifest {
        schema_version: 0,
        id: id.to_string(),
        name: "Earth".to_string(),
        pack_version: version.to_string(),
        minecraft_version: "1.21.1".to_string(),
        loader: None,
        server_address: "play.example.net".to_string(),
        minimum_ram_mb: 2048,
        recommended_ram_mb: 4096,
        file_manifest: FileManifestReference {
            url: "https://cdn.example.net/files.json".to_string(),
            sha256: "00".repeat(32),
        },
    }
}

fn entry(id: &str, state: InstanceState, version: Option<&str>) -> InstanceEntry {
    InstanceEntry {
        id: id.to_string(),
        state,
        instance_manifest: version.map(|v| manifest(id, v)),
    }
}

fn registry(entries: Vec<InstanceEntry>) -> InstanceRegistry {
    let mut reg = InstanceRegistry::new();
    replace_instances(&mut reg, entries);
    reg
}

#[test]
fn instance_ids_must_name_one_folder() {
    assert!(validate_instance_id_path_component("saykocraft-earth", false).is_ok());
    assert_eq!(
        validate_instance_id_path_component("  ", false).unwrap_err(),
        "instance id cannot be empty"
    );
    assert_eq!(
        validate_instance_id_path_component(" earth", false).unwrap_err(),
        "instance id cannot start or end with whitespace"
    );
    assert_eq!(
        validate_instance_id_path_component("a/b", false).unwrap_err(),
        "instance id must not contain path separators"
    );
    assert_eq!(
        validate_instance_id_path_component("a\\b", false).unwrap_err(),
        "instance id must not contain path separators"
    );
    assert_eq!(
        validate_instance_id_path_component("a\u{7}b", false).unwrap_err(),
        "instance id cannot contain control characters"
    );
    assert_eq!(
        validate_instance_id_path_component("..", false).unwrap_err(),
        "instance id must be a single folder name"
    );
}

#[test]
fn local_manifests_are_checked_against_their_folder() {
    let e = read_local_instance(Some("earth"), manifest("earth", "1.0.0"), false).unwrap();
    assert_eq!(e.id, "earth");
    assert_eq!(e.state, InstanceState::NotDownloaded);
    assert_eq!(
        read_local_instance(Some("mars"), manifest("earth", "1.0.0"), false).unwrap_err(),
        "instance id 'earth' does not match folder name 'mars'"
    );
    assert_eq!(
        read_local_instance(None, manifest("earth", "1.0.0"), false).unwrap_err(),
        "instance folder name is not valid UTF-8"
    );
    let mut m = manifest("earth", "1.0.0");
    m.schema_version = 3;
    assert_eq!(
        read_local_instance(Some("earth"), m, false).unwrap_err(),
        "unsupported instance schema version: 3"
    );
    let mut m = manifest("earth", "1.0.0");
    m.minimum_ram_mb = 8192;
    assert_eq!(
        read_local_instance(Some("earth"), m, false).unwrap_err(),
        "minimum RAM cannot be greater than recommended RAM"
    );
}

#[test]
fn remote_manifests_must_be_the_one_asked_for() {
    assert!(validate_remote_instance("earth", &manifest("earth", "1.0.0"), false).is_ok());
    assert_eq!(
        validate_remote_instance("earth", &manifest("mars", "1.0.0"), false).unwrap_err(),
        "remote instance id 'mars' does not match requested id 'earth'"
    );
}

#[test]
fn pack_file_manifests_must_match_the_instance() {
    let m = manifest("earth", "1.0.0");
    let pack = PackFileManifest {
        schema_version: 0,
        instance_id: "earth".to_string(),
        pack_version: "1.0.0".to_string(),
        files: Vec::new(),
    };
    assert!(validate_pack_file_manifest(&m, &pack).is_ok());
    let other = PackFileManifest { pack_version: "0.9.0".to_string(), ..pack };
    assert_eq!(
        validate_pack_file_manifest(&m, &other).unwrap_err(),
        "pack file manifest version '0.9.0' does not match instance version '1.0.0'"
    );
}

#[test]
fn jvm_argument_lines_split_like_a_shell() {
    assert_eq!(
        parse_jvm_args("-Xss2m  \"-Dname=a b\" '-Dq=x'"),
        vec!["-Xss2m".to_string(), "-Dname=a b".to_string(), "-Dq=x".to_string()]
    );
    assert_eq!(parse_jvm_args("   "), Vec::<String>::new());
    assert_eq!(
        normalize_jvm_args(vec![" -Xmx1G ".to_string(), "".to_string(), "  ".to_string()]),
        vec!["-Xmx1G".to_string()]
    );
}

#[test]
fn default_settings_come_from_the_manifest() {
    let m = manifest("earth", "1.0.0");
    let s = get_instance_settings(&m, None).unwrap();
    assert_eq!(s.maximum_ram_mb, 4096);
    assert!(s.additional_jvm_args.is_empty());
    let stored = InstanceSettings { maximum_ram_mb: 1024, additional_jvm_args: Vec::new() };
    assert_eq!(
        get_instance_settings(&m, Some(stored)).unwrap_err(),
        "maximum RAM cannot be lower than the instance minimum of 2048 MB"
    );
}

#[test]
fn settings_fields_are_checked() {
    let m = manifest("earth", "1.0.0");
    let s = InstanceSettings { maximum_ram_mb: 4096, additional_jvm_args: Vec::new() };
    let s = update_instance_settings_field(&m, s, "maximum_ram_mb", JsonValue::Number(Some(6144), Some(6144))).unwrap();
    assert_eq!(s.maximum_ram_mb, 6144);
    let s = update_instance_settings_field(
        &m,
        s,
        "additional_jvm_args",
        JsonValue::Str("-XX:+UseG1GC  -Dx=1".to_string()),
    )
    .unwrap();
    assert_eq!(s.additional_jvm_args, vec!["-XX:+UseG1GC".to_string(), "-Dx=1".to_string()]);
    let err = update_instance_settings_field(&m, s, "colour", JsonValue::Null).unwrap_err();
    assert_eq!(err, "Unknown instance settings key: colour");
    let s = InstanceSettings { maximum_ram_mb: 4096, additional_jvm_args: Vec::new() };
    let err = update_instance_settings_field(&m, s, "maximum_ram_mb", JsonValue::Number(Some(0), Some(0))).unwrap_err();
    assert_eq!(err, "maximum RAM must be greater than zero");
    let s = InstanceSettings { maximum_ram_mb: 4096, additional_jvm_args: Vec::new() };
    let err = update_instance_settings_field(
        &m,
        s,
        "additional_jvm_args",
        JsonValue::Array(vec![JsonValue::Bool(true)]),
    )
    .unwrap_err();
    assert_eq!(err, "additional_jvm_args must be an array of strings");
}

#[test]
fn instance_folders() {
    assert_eq!(local_instance_dir("/games", "earth", false).unwrap(), "/games/earth");
    assert!(local_instance_dir("/games", "../x", false).is_err());
    let reg = registry(vec![entry("earth", InstanceState::Ready, Some("1.0.0"))]);
    assert_eq!(installed_instance_dir(&reg, "/games", "earth", false).unwrap(), "/games/earth");
    assert!(matches!(
        installed_instance_dir(&reg, "/games", "mars", false),
        Err(InstanceDirError::NotFound(m)) if m == "Instance 'mars' is not installed"
    ));
    assert!(matches!(existing_instance_dir("/games/x".to_string(), false), Err(InstanceDirError::NotFound(_))));
    assert!(matches!(instance_dir_removal("/games/x", true, true, true), Err(InstanceDirError::InvalidInput(_))));
    assert!(matches!(instance_dir_removal("/games/x", true, false, false), Err(InstanceDirError::InvalidData(_))));
    assert!(matches!(instance_dir_removal("/games/x", false, false, false), Ok(false)));
}

#[test]
fn the_record_answers_lookups() {
    let reg = registry(vec![
        entry("earth", InstanceState::Ready, Some("1.2.0")),
        entry("moon", InstanceState::NotDownloaded, None),
    ]);
    assert_eq!(get_instances(&reg).len(), 2);
    assert_eq!(get_instance_manifest(&reg, "earth").unwrap().pack_version, "1.2.0");
    assert!(get_instance_manifest(&reg, "moon").is_none());
    assert_eq!(get_instance_version(&reg, "earth").unwrap(), "1.2.0");
    assert_eq!(get_instance_version(&reg, "moon").unwrap_err(), "Instance 'moon' was not found");
    assert_eq!(get_instance_state(&reg, "moon"), InstanceState::NotDownloaded);
    assert_eq!(get_instance_state(&reg, "pluto"), InstanceState::Unknown);
}

#[test]
fn state_codes() {
    assert_eq!(state_code(InstanceState::Unknown), 0);
    assert_eq!(state_code(InstanceState::Ready), 5);
    assert_eq!(state_code(InstanceState::Broken), 7);
}

#[test]
fn overrides_show_over_the_entry_and_clearing_restores_it() {
    let mut reg = registry(vec![entry("earth", InstanceState::Ready, Some("1.0.0"))]);
    let event = set_instance_state_override(&mut reg, "earth", InstanceState::Launched).unwrap();
    assert_eq!(event.id, "earth");
    assert_eq!(event.state, InstanceState::Launched);
    assert_eq!(event.state_code, 6);
    assert_eq!(get_instance_state(&reg, "earth"), InstanceState::Launched);
    assert!(set_instance_state_override(&mut reg, "earth", InstanceState::Launched).is_none());
    let event = clear_instance_state_override(&mut reg, "earth").unwrap();
    assert_eq!(event.state, InstanceState::Ready);
    assert_eq!(get_instance_state(&reg, "earth"), InstanceState::Ready);
    assert!(clear_instance_state_override(&mut reg, "earth").is_none());
}

#[test]
fn install_states() {
    assert_eq!(install_state(InstanceState::RequiresUpdate), InstanceState::Updating);
    assert_eq!(install_state(InstanceState::Updating), InstanceState::Updating);
    assert_eq!(install_state(InstanceState::NotDownloaded), InstanceState::Downloading);
    assert_eq!(install_state(InstanceState::Ready), InstanceState::Downloading);
}

#[test]
fn states_from_versions() {
    let remote = manifest("earth", "1.2.0");
    assert_eq!(determine_instance_state("earth", &remote, None), InstanceState::NotDownloaded);
    assert_eq!(
        determine_instance_state("earth", &remote, Some(&manifest("earth", "1.1.0"))),
        InstanceState::RequiresUpdate
    );
    assert_eq!(
        determine_instance_state("earth", &remote, Some(&manifest("earth", "1.2.0"))),
        InstanceState::Ready
    );
    assert_eq!(
        determine_instance_state("earth", &remote, Some(&manifest("earth", "2.0.0"))),
        InstanceState::Unknown
    );
}

#[test]
fn replacing_changes_only_what_changed() {
    let mut reg = registry(vec![
        entry("earth", InstanceState::Ready, Some("1.0.0")),
        entry("moon", InstanceState::NotDownloaded, None),
    ]);
    let events = replace_instances(
        &mut reg,
        vec![
            entry("earth", InstanceState::Ready, Some("1.0.0")),
            entry("moon", InstanceState::NotDownloaded, None),
        ],
    );
    assert!(events.is_empty());
    let events = replace_instances(
        &mut reg,
        vec![entry("earth", InstanceState::RequiresUpdate, Some("1.0.0"))],
    );
    let ids: Vec<&str> = events.iter().map(|e| e.id.as_str()).collect();
    assert_eq!(ids, vec!["earth", "moon"]);
    assert_eq!(events[0].state, InstanceState::RequiresUpdate);
    assert_eq!(events[1].state, InstanceState::Unknown);
}

#[test]
fn start_up_applies_the_cdn() {
    let mut reg = InstanceRegistry::new();
    let local = read_local_instances(vec![
        (Some("saykocraft-earth".to_string()), Some(manifest("saykocraft-earth", "1.0.0"))),
        (Some("saykocraft-earth".to_string()), Some(manifest("saykocraft-earth", "0.5.0"))),
    ], false);
    assert_eq!(local.len(), 1);
    let events = init_instances(
        &mut reg,
        local,
        vec![("saykocraft-earth".to_string(), Some(manifest("saykocraft-earth", "1.1.0")))],
    );
    assert_eq!(events.len(), 1);
    assert_eq!(get_instance_state(&reg, "saykocraft-earth"), InstanceState::RequiresUpdate);
    let mut reg = InstanceRegistry::new();
    init_instances(&mut reg, Vec::new(), vec![("saykocraft-earth".to_string(), None)]);
    assert_eq!(get_instance_state(&reg, "saykocraft-earth"), InstanceState::Unknown);
}

#[test]
fn remote_ids() {
    assert!(is_remote_instance_id("saykocraft-earth"));
    assert!(!is_remote_instance_id("earth"));
    assert_eq!(remote_instance_ids(), vec!["saykocraft-earth".to_string()]);
}

#[test]
fn removing_instances() {
    let mut reg = registry(vec![entry("earth", InstanceState::Ready, Some("1.0.0"))]);
    assert!(ensure_instance_can_be_removed(&reg, "earth", false).is_ok());
    set_instance_state_override(&mut reg, "earth", InstanceState::Downloading);
    assert_eq!(
        ensure_instance_can_be_removed(&reg, "earth", false).unwrap_err().message(),
        "cannot remove instance 'earth' while it is active"
    );
    clear_instance_state_override(&mut reg, "earth");
    let (removed, _events) = remove_local_instance(&mut reg, "earth", Ok(true)).unwrap();
    assert!(removed);
    assert!(get_instance_manifest(&reg, "earth").is_none());
    assert_eq!(
        remove_local_instance(&mut reg, "earth", Err(InstanceDirError::InvalidInput("busy".to_string())))
            .unwrap_err()
            .message(),
        "busy"
    );
}

#[test]
fn the_folder_scan_keeps_valid_manifests_of_their_folders() {
    let mut bad = manifest("earth", "1.0.0");
    bad.minimum_ram_mb = bad.recommended_ram_mb + 1;
    let local = read_local_instances(vec![
        (Some("mars".to_string()), Some(manifest("earth", "1.0.0"))),
        (Some("earth".to_string()), None),
        (None, Some(manifest("earth", "1.0.0"))),
        (Some("earth".to_string()), Some(bad)),
        (Some("earth".to_string()), Some(manifest("earth", "2.0.0"))),
        (Some("earth".to_string()), Some(manifest("earth", "3.0.0"))),
        (Some("moon".to_string()), Some(manifest("moon", "1.0.0"))),
    ], false);
    let ids: Vec<&str> = local.iter().map(|e| e.id.as_str()).collect();
    assert_eq!(ids, vec!["earth", "moon"]);
    assert_eq!(local[0].instance_manifest.as_ref().unwrap().pack_version, "2.0.0");
    assert!(local.iter().all(|e| e.state == InstanceState::NotDownloaded));
}

#[test]
fn removal_forgets_the_instance() {
    let mut reg = registry(vec![
        entry("earth", InstanceState::Ready, Some("1.0.0")),
        entry("saykocraft-earth", InstanceState::Ready, Some("1.0.0")),
    ]);
    let (removed, events) = remove_local_instance(&mut reg, "earth", Ok(false)).unwrap();
    assert!(!removed);
    assert_eq!(get_instances(&reg).len(), 1);
    assert_eq!(get_instance_state(&reg, "earth"), InstanceState::Unknown);
    assert_eq!(events.len(), 1);
    let (removed, _) = remove_local_instance(&mut reg, "saykocraft-earth", Ok(true)).unwrap();
    assert!(removed);
    let entries = get_instances(&reg);
    assert_eq!(entries.len(), 1);
    assert_eq!(entries[0].id, "saykocraft-earth");
    assert!(entries[0].instance_manifest.is_none());
    assert_eq!(get_instance_state(&reg, "saykocraft-earth"), InstanceState::NotDownloaded);
}

#[test]
fn drive_prefixes_are_not_folder_names_on_windows() {
    assert!(validate_instance_id_path_component("C:", false).is_ok());
    assert_eq!(
        validate_instance_id_path_component("C:", true).unwrap_err(),
        "instance id must be a single folder name"
    );
    assert!(validate_instance_id_path_component("C:x", true).is_err());
    assert!(validate_instance_id_path_component("ab:c", true).is_ok());
}
