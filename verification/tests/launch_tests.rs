use saykocraft_launcher::config::Config;
use saykocraft_launcher::instance::{FileManifestReference, InstanceManifest};
use saykocraft_launcher::minecraft::error::MinecraftInstallError;
use saykocraft_launcher::minecraft::launch::{
    build_launch_context, classpath_entries, classpath_separator, evaluate_rules, join_classpath,
    launch_directories, launch_files, launch_username, launch_variables, memory_settings,
    natives_dir, normalize_uuid, offline_uuid, replace_variables, resolve_arguments,
    resolve_game_arguments, resolve_jvm_arguments, version_metadata_path, Argument,
    ArgumentValue, Arguments, Library, LaunchOptions, MinecraftLaunchError, Rule, RuleAction,
    RuleOs, VersionDetails,
};
use saykocraft_launcher::minecraft::platform::Platform;

const BASE: &str = "/home/p/.saykocraft";

fn linux() -> Platform {
    Platform { os: "linux".to_string(), arch: "x86_64".to_string(), pointer_width: 64 }
}

fn windows() -> Platform {
    Platform { os: "windows".to_string(), arch: "x86_64".to_string(), pointer_width: 64 }
}

fn config() -> Config {
    Config {
        install_dir: "$SAYKOCRAFT/instances".to_string(),
        data_dir: "$SAYKOCRAFT/data".to_string(),
        language: "tr-TR".to_string(),
        keep_launcher_open: false,
        prefer_discrete_gpu: true,
    }
}

fn manifest() -> InstanceManifest {
    InstanceManifest {
        schema_version: 0,
        id: "earth".to_string(),
        name: "Earth".to_string(),
        pack_version: "1.0.0".to_string(),
        minecraft_version: "1.21.1".to_string(),
        loader: None,
        server_address: "play.example.net".to_string(),
        minimum_ram_mb: 2048,
        recommended_ram_mb: 4096,
        file_manifest: FileManifestReference { url: String::new(), sha256: String::new() },
    }
}

fn allow() -> Rule {
    Rule { action: RuleAction::Allow, os: None, features: None }
}

fn on_os(action: RuleAction, name: &str) -> Rule {
    Rule {
        action,
        os: Some(RuleOs { name: Some(name.to_string()), arch: None }),
        features: None,
    }
}

fn vars(pairs: &[(&str, &str)]) -> Vec<(String, String)> {
    pairs.iter().map(|(k, v)| (k.to_string(), v.to_string())).collect()
}

fn details(arguments: Option<Arguments>, legacy: Option<&str>) -> VersionDetails {
    VersionDetails {
        id: "1.21.1".to_string(),
        arguments,
        minecraft_arguments: legacy.map(str::to_string),
        main_class: "net.minecraft.client.main.Main".to_string(),
        libraries: vec![
            Library { artifact_path: Some("com/a/a.jar".to_string()), rules: None },
            Library {
                artifact_path: Some("org/b/b-mac.jar".to_string()),
                rules: Some(vec![on_os(RuleAction::Allow, "osx")]),
            },
            Library { artifact_path: None, rules: None },
        ],
        asset_index_id: "17".to_string(),
        java_major_version: Some(21),
        version_type: None,
    }
}

#[test]
fn rules_let_the_last_matching_rule_decide() {
    let none: Vec<(String, bool)> = Vec::new();
    assert!(evaluate_rules(None, &none, &linux()));
    assert!(evaluate_rules(Some(&vec![allow()]), &none, &linux()));
    assert!(!evaluate_rules(Some(&vec![]), &none, &linux()));
    let rules = vec![allow(), on_os(RuleAction::Disallow, "osx")];
    assert!(evaluate_rules(Some(&rules), &none, &linux()));
    let mac = Platform { os: "macos".to_string(), arch: "aarch64".to_string(), pointer_width: 64 };
    assert!(!evaluate_rules(Some(&rules), &none, &mac));
    let demo = Rule {
        action: RuleAction::Allow,
        os: None,
        features: Some(vec![("is_demo_user".to_string(), true)]),
    };
    assert!(!evaluate_rules(Some(&vec![demo]), &none, &linux()));
    let not_demo = Rule {
        action: RuleAction::Allow,
        os: None,
        features: Some(vec![("is_demo_user".to_string(), false)]),
    };
    assert!(evaluate_rules(Some(&vec![not_demo]), &none, &linux()));
}

#[test]
fn variables_are_replaced_in_order() {
    let v = vars(&[("a", "1"), ("b", "${a}")]);
    assert_eq!(replace_variables("${a}-${b}", &v), "1-${a}");
    assert_eq!(replace_variables("--name ${name}", &vars(&[("name", "Steve")])), "--name Steve");
    assert_eq!(replace_variables("${missing}", &v), "${missing}");
}

#[test]
fn arguments_follow_their_rules() {
    let args = vec![
        Argument::Plain("--user".to_string()),
        Argument::Plain("${auth_player_name}".to_string()),
        Argument::Ruled {
            rules: vec![on_os(RuleAction::Allow, "linux")],
            value: ArgumentValue::List(vec!["-Da=1".to_string(), "-Db=${x}".to_string()]),
        },
        Argument::Ruled {
            rules: vec![on_os(RuleAction::Allow, "windows")],
            value: ArgumentValue::Single("-Dwin".to_string()),
        },
    ];
    let v = vars(&[("auth_player_name", "Steve"), ("x", "2")]);
    assert_eq!(
        resolve_arguments(&args, &v, &linux()),
        vec!["--user", "Steve", "-Da=1", "-Db=2"]
    );
    assert_eq!(resolve_arguments(&args, &v, &windows()), vec!["--user", "Steve", "-Dwin"]);
}

#[test]
fn legacy_and_default_arguments() {
    let v = vars(&[
        ("auth_player_name", "Steve"),
        ("version_name", "1.7.10"),
        ("natives_directory", "/n"),
        ("classpath", "/a.jar:/b.jar"),
    ]);
    let d = details(None, Some("--username ${auth_player_name}  --version ${version_name}"));
    assert_eq!(
        resolve_game_arguments(&d, &v, &linux()).unwrap(),
        vec!["--username", "Steve", "--version", "1.7.10"]
    );
    assert_eq!(
        resolve_jvm_arguments(&d, &v, &linux()),
        vec!["-Djava.library.path=/n", "-cp", "/a.jar:/b.jar"]
    );
    let neither = details(None, None);
    match resolve_game_arguments(&neither, &v, &linux()) {
        Err(MinecraftLaunchError::InvalidManifest(m)) => assert_eq!(
            m,
            "Minecraft version 1.21.1 has neither modern nor legacy launch arguments"
        ),
        other => panic!("unexpected {:?}", other.map(|v| v.len())),
    }
}

#[test]
fn offline_names() {
    assert_eq!(launch_username(None).unwrap(), "SayKOPlayer");
    assert_eq!(launch_username(Some("   ")).unwrap(), "SayKOPlayer");
    assert_eq!(launch_username(Some("  Steve_1 ")).unwrap(), "Steve_1");
    match launch_username(Some("bad name")) {
        Err(MinecraftLaunchError::Validation(m)) => {
            assert_eq!(m, "invalid offline Minecraft username: bad name")
        }
        _ => panic!("expected a validation error"),
    }
    assert!(launch_username(Some("abcdefghijklmnopq")).is_err());
    assert!(launch_username(Some("abcdefghijklmnop")).is_ok());
    assert!(launch_username(Some("Jürgen")).is_err());
}

#[test]
fn player_uuids() {
    assert_eq!(
        normalize_uuid("123e4567-e89b-12d3-a456-426614174000").unwrap(),
        "123e4567e89b12d3a456426614174000"
    );
    match normalize_uuid("not-a-uuid") {
        Err(MinecraftLaunchError::Validation(m)) => assert_eq!(m, "invalid Minecraft UUID: not-a-uuid"),
        _ => panic!("expected a validation error"),
    }
    assert_eq!(offline_uuid("Steve"), "1cc1131dd8e41ae5d64c4afd4f9ba6c1");
}

#[test]
fn memory_bounds() {
    let m = manifest();
    assert_eq!(memory_settings(&m, &LaunchOptions::default()).unwrap(), (2048, 4096));
    let o = LaunchOptions { max_memory_mb: Some(8192), ..LaunchOptions::default() };
    assert_eq!(memory_settings(&m, &o).unwrap(), (2048, 8192));
    let o = LaunchOptions { min_memory_mb: Some(0), ..LaunchOptions::default() };
    match memory_settings(&m, &o) {
        Err(MinecraftLaunchError::Validation(e)) => assert_eq!(e, "memory values must be greater than zero"),
        _ => panic!("expected a validation error"),
    }
    let o = LaunchOptions { min_memory_mb: Some(5000), ..LaunchOptions::default() };
    match memory_settings(&m, &o) {
        Err(MinecraftLaunchError::Validation(e)) => {
            assert_eq!(e, "minimum memory cannot be greater than maximum memory")
        }
        _ => panic!("expected a validation error"),
    }
}

#[test]
fn class_path_and_directories() {
    assert_eq!(classpath_separator(&linux()), ":");
    assert_eq!(classpath_separator(&windows()), ";");
    let cp = vec!["/a.jar".to_string(), "/b.jar".to_string()];
    assert_eq!(join_classpath(&cp, &linux()), "/a.jar:/b.jar");
    assert_eq!(join_classpath(&cp, &windows()), "/a.jar;/b.jar");
    assert_eq!(join_classpath(&Vec::new(), &linux()), "");
    assert_eq!(natives_dir("/d", "1.21.1", &linux()), "/d/versions/1.21.1/natives/linux-x86_64");
    let mac = Platform { os: "macos".to_string(), arch: "aarch64".to_string(), pointer_width: 64 };
    assert_eq!(natives_dir("/d", "1.21.1", &mac), "/d/versions/1.21.1/natives/osx-aarch64");
    assert_eq!(
        classpath_entries("/d", &details(None, None), &linux()),
        vec!["/d/libraries/com/a/a.jar", "/d/versions/1.21.1/1.21.1.jar"]
    );
    assert_eq!(
        version_metadata_path(&config(), BASE, false, "1.21.1").unwrap(),
        "/home/p/.saykocraft/data/versions/1.21.1/1.21.1.json"
    );
}

#[test]
fn launch_steps() {
    let (data, work) = launch_directories(&config(), BASE, false, "earth").unwrap();
    assert_eq!(data, "/home/p/.saykocraft/data");
    assert_eq!(work, "/home/p/.saykocraft/instances/earth/game");
    let mut bad = config();
    bad.install_dir = "relative".to_string();
    match launch_directories(&bad, BASE, false, "earth") {
        Err(MinecraftLaunchError::Io(m)) => assert_eq!(m, "path must be absolute or start with $SAYKOCRAFT"),
        _ => panic!("expected an io error"),
    }
    let files = launch_files(&config(), BASE, false, &details(None, None), &data, &linux()).unwrap();
    assert_eq!(
        files.java_path,
        "/home/p/.saykocraft/data/runtimes/temurin-21-jre/linux-x86_64/bin/java"
    );
    assert_eq!(files.natives_dir, "/home/p/.saykocraft/data/versions/1.21.1/natives/linux-x86_64");
    let mut no_java = details(None, None);
    no_java.java_major_version = None;
    match launch_files(&config(), BASE, false, &no_java, &data, &linux()) {
        Err(MinecraftLaunchError::InvalidManifest(m)) => {
            assert_eq!(m, "Minecraft version 1.21.1 is missing javaVersion")
        }
        _ => panic!("expected an invalid manifest"),
    }
}

#[test]
fn building_the_launch() {
    let d = details(None, Some("--username ${auth_player_name} --uuid ${auth_uuid}"));
    let (data, work) = launch_directories(&config(), BASE, false, "earth").unwrap();
    let files = launch_files(&config(), BASE, false, &d, &data, &linux()).unwrap();
    let options = LaunchOptions {
        username: Some("Steve".to_string()),
        extra_jvm_args: vec!["-XX:+UseG1GC".to_string()],
        extra_game_args: vec!["--demo".to_string()],
        ..LaunchOptions::default()
    };
    let c = build_launch_context(&manifest(), options, &d, &work, &data, files, &linux(), "0.1.0")
        .unwrap();
    assert_eq!(c.main_class, "net.minecraft.client.main.Main");
    assert_eq!(c.working_dir, work);
    assert_eq!(c.jvm_args[0], "-Xms2048M");
    assert_eq!(c.jvm_args[1], "-Xmx4096M");
    assert_eq!(c.jvm_args[2], "-XX:+UseG1GC");
    assert_eq!(c.jvm_args[3], "-Djava.library.path=/home/p/.saykocraft/data/versions/1.21.1/natives/linux-x86_64");
    assert_eq!(c.jvm_args[4], "-cp");
    assert_eq!(
        c.game_args,
        vec!["--username", "Steve", "--uuid", "1cc1131dd8e41ae5d64c4afd4f9ba6c1", "--demo"]
    );
    let files = launch_files(&config(), BASE, false, &d, &data, &linux()).unwrap();
    let options = LaunchOptions { uuid: Some("xyz".to_string()), ..LaunchOptions::default() };
    match build_launch_context(&manifest(), options, &d, &work, &data, files, &linux(), "0.1.0") {
        Err(MinecraftLaunchError::Validation(m)) => assert_eq!(m, "invalid Minecraft UUID: xyz"),
        _ => panic!("expected a validation error"),
    }
}

#[test]
fn variables_of_a_launch() {
    let d = details(None, None);
    let cp = vec!["/a.jar".to_string(), "/b.jar".to_string()];
    let v = launch_variables(&d, "Steve", "u", "/w", "/d", "/n", &cp, &linux(), "0.1.0");
    assert_eq!(v.len(), 16);
    assert_eq!(v[0], ("auth_player_name".to_string(), "Steve".to_string()));
    assert_eq!(v[7], ("version_type".to_string(), "release".to_string()));
    assert_eq!(v[9], ("assets_root".to_string(), "/d/assets".to_string()));
    assert_eq!(v[14], ("classpath".to_string(), "/a.jar:/b.jar".to_string()));
    assert_eq!(v[15], ("classpath_separator".to_string(), ":".to_string()));
}

#[test]
fn launch_error_messages() {
    assert_eq!(
        MinecraftLaunchError::MissingFile("/x".to_string()).message(),
        "Minecraft launch file is missing: /x"
    );
    assert_eq!(
        MinecraftLaunchError::Io("denied".to_string()).message(),
        "filesystem error during Minecraft launch: denied"
    );
    assert_eq!(
        MinecraftLaunchError::Install(MinecraftInstallError::Validation("v".to_string())).message(),
        "invalid Minecraft install request: v"
    );
}
