use saykocraft_launcher::commands::{
    greet, instance_settings_response, merge_launch_options, needs_stored_username,
};
use saykocraft_launcher::instance::{FileManifestReference, InstanceManifest, InstanceSettings};
use saykocraft_launcher::minecraft::launch::LaunchOptions;
use saykocraft_launcher::minecraft::paths::instance_game_dir;
use saykocraft_launcher::minecraft::platform::Platform;
use saykocraft_launcher::config::Config;

#[test]
fn greeting() {
    assert_eq!(greet("Ada"), "Hello, Ada! You've been greeted from Rust!");
}

#[test]
fn launch_options_take_the_instance_settings() {
    let settings = InstanceSettings {
        maximum_ram_mb: 6144,
        additional_jvm_args: vec!["-XX:+UseZGC".to_string()],
    };
    let o = merge_launch_options(None, &settings);
    assert_eq!(o.max_memory_mb, Some(6144));
    assert_eq!(o.extra_jvm_args, vec!["-XX:+UseZGC".to_string()]);
    assert!(o.username.is_none());
    let asked = LaunchOptions {
        max_memory_mb: Some(2048),
        extra_jvm_args: vec!["-Dx=1".to_string()],
        username: Some("Steve".to_string()),
        ..LaunchOptions::default()
    };
    let o = merge_launch_options(Some(asked), &settings);
    assert_eq!(o.max_memory_mb, Some(2048));
    assert_eq!(o.extra_jvm_args, vec!["-XX:+UseZGC".to_string(), "-Dx=1".to_string()]);
    assert_eq!(o.username.as_deref(), Some("Steve"));
    assert!(!needs_stored_username(&o));
    assert!(needs_stored_username(&LaunchOptions::default()));
    let blank = LaunchOptions { username: Some("  ".to_string()), ..LaunchOptions::default() };
    assert!(needs_stored_username(&blank));
}

#[test]
fn settings_answer() {
    let m = InstanceManifest {
        schema_version: 0,
        id: "earth".to_string(),
        name: "Earth".to_string(),
        pack_version: "1.0.0".to_string(),
        minecraft_version: "1.21.1".to_string(),
        loader: None,
        server_address: String::new(),
        minimum_ram_mb: 1024,
        recommended_ram_mb: 2048,
        file_manifest: FileManifestReference { url: String::new(), sha256: String::new() },
    };
    let s = InstanceSettings { maximum_ram_mb: 3000, additional_jvm_args: Vec::new() };
    let r = instance_settings_response(s, "/games/earth".to_string(), &m);
    assert_eq!(r.settings.maximum_ram_mb, 3000);
    assert_eq!(r.instance_location, "/games/earth");
    assert_eq!((r.minimum_ram_mb, r.recommended_ram_mb), (1024, 2048));
}

#[test]
fn platform_names() {
    let mac = Platform { os: "macos".to_string(), arch: "aarch64".to_string(), pointer_width: 64 };
    assert_eq!(mac.current_minecraft_os_name(), "osx");
    assert_eq!(mac.current_native_platform_dir_name(), "osx-aarch64");
    assert_eq!(mac.current_platform_dir_name(), "macos-aarch64");
    assert_eq!(mac.current_arch_bits(), "64");
    assert!(!mac.is_windows());
}

#[test]
fn game_directories() {
    let c = Config {
        install_dir: "/srv/instances".to_string(),
        data_dir: "/srv/data".to_string(),
        language: "tr-TR".to_string(),
        keep_launcher_open: false,
        prefer_discrete_gpu: true,
    };
    assert_eq!(instance_game_dir(&c, "/home/p", false, "earth").unwrap(), "/srv/instances/earth/game");
}
