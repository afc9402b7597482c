use saykocraft_launcher::config::Config;
use saykocraft_launcher::minecraft::error::MinecraftInstallError;
use saykocraft_launcher::minecraft::neoforge::{
    check_installed, check_loader_version, checksum_url, installer_failed, installer_log_path,
    launcher_profiles_path, launcher_profiles_step, loader_details_match,
    neoforge_installer_path, neoforge_installer_url, neoforge_patched_client_path,
    neoforge_version_id, parse_sha1_checksum, verify_sha1_download, version_metadata_path,
    LoaderVersionDetails,
};

const BASE: &str = "/home/p/.saykocraft";

fn config() -> Config {
    Config {
        install_dir: "$SAYKOCRAFT/instances".to_string(),
        data_dir: "$SAYKOCRAFT/data".to_string(),
        language: "tr-TR".to_string(),
        keep_launcher_open: false,
        prefer_discrete_gpu: true,
    }
}

#[test]
fn loader_names_and_places() {
    assert!(check_loader_version("21.1.77").is_ok());
    match check_loader_version(" ") {
        Err(MinecraftInstallError::Validation(m)) => assert_eq!(m, "NeoForge version cannot be empty"),
        _ => panic!("expected a validation error"),
    }
    assert_eq!(neoforge_version_id("21.1.77"), "neoforge-21.1.77");
    assert_eq!(
        neoforge_installer_url("21.1.77"),
        "https://maven.neoforged.net/releases/net/neoforged/neoforge/21.1.77/neoforge-21.1.77-installer.jar"
    );
    assert_eq!(checksum_url("https://m/x.jar"), "https://m/x.jar.sha1");
    assert_eq!(
        neoforge_installer_path(&config(), BASE, false, "21.1.77").unwrap(),
        "/home/p/.saykocraft/data/libraries/net/neoforged/neoforge/21.1.77/neoforge-21.1.77-installer.jar"
    );
    assert_eq!(
        neoforge_patched_client_path(&config(), BASE, false, "neoforge-21.1.77").unwrap(),
        "/home/p/.saykocraft/data/libraries/net/neoforged/neoforge/21.1.77/neoforge-21.1.77-client.jar"
    );
    assert_eq!(
        neoforge_patched_client_path(&config(), BASE, false, "21.1.77").unwrap(),
        "/home/p/.saykocraft/data/libraries/net/neoforged/neoforge/21.1.77/neoforge-21.1.77-client.jar"
    );
    assert_eq!(
        version_metadata_path(&config(), BASE, false, "neoforge-21.1.77").unwrap(),
        "/home/p/.saykocraft/data/versions/neoforge-21.1.77/neoforge-21.1.77.json"
    );
    assert_eq!(installer_log_path("/d", "21.1.77"), "/d/logs/neoforge-21.1.77-installer.log");
    assert_eq!(launcher_profiles_path("/d"), "/d/launcher_profiles.json");
}

#[test]
fn installed_loaders() {
    let d = LoaderVersionDetails {
        id: "neoforge-21.1.77".to_string(),
        inherits_from: Some("1.21.1".to_string()),
    };
    assert!(loader_details_match(&d, "neoforge-21.1.77", "1.21.1"));
    assert!(!loader_details_match(&d, "neoforge-21.1.77", "1.21"));
    assert!(!loader_details_match(&d, "neoforge-21.1.78", "1.21.1"));
    let orphan = LoaderVersionDetails { id: "neoforge-21.1.77".to_string(), inherits_from: None };
    assert!(!loader_details_match(&orphan, "neoforge-21.1.77", "1.21.1"));
    assert!(check_installed("neoforge-21.1.77", true).is_ok());
    match check_installed("neoforge-21.1.77", false) {
        Err(MinecraftInstallError::Validation(m)) => assert_eq!(
            m,
            "NeoForge installer completed, but neoforge-21.1.77 was not installed correctly"
        ),
        _ => panic!("expected a validation error"),
    }
}

#[test]
fn checksum_files() {
    assert_eq!(
        parse_sha1_checksum("6f5b01580ce43822444ae4c79edcd0dc789028f1  installer.jar\n", "u").unwrap(),
        "6f5b01580ce43822444ae4c79edcd0dc789028f1"
    );
    match parse_sha1_checksum("  \n", "https://m/x.sha1") {
        Err(MinecraftInstallError::InvalidManifest(m)) => {
            assert_eq!(m, "empty SHA-1 checksum response: https://m/x.sha1")
        }
        _ => panic!("expected an invalid manifest"),
    }
    match parse_sha1_checksum("nothex", "https://m/x.sha1") {
        Err(MinecraftInstallError::InvalidManifest(m)) => {
            assert_eq!(m, "invalid SHA-1 checksum response from https://m/x.sha1: nothex")
        }
        _ => panic!("expected an invalid manifest"),
    }
    assert!(verify_sha1_download(b"native", "/x", "6f5b01580ce43822444ae4c79edcd0dc789028f1").is_ok());
    assert!(matches!(
        verify_sha1_download(b"other", "/x", "6f5b01580ce43822444ae4c79edcd0dc789028f1"),
        Err(MinecraftInstallError::ChecksumMismatch { .. })
    ));
}

#[test]
fn installer_runs() {
    match installer_failed("exit status: 1", "/d/logs/i.log") {
        MinecraftInstallError::Process(m) => {
            assert_eq!(m, "NeoForge installer exited with status exit status: 1. See /d/logs/i.log")
        }
        _ => panic!("expected a process error"),
    }
    assert!(launcher_profiles_step("/d/p.json", false, false).unwrap());
    assert!(!launcher_profiles_step("/d/p.json", true, true).unwrap());
    match launcher_profiles_step("/d/p.json", true, false) {
        Err(MinecraftInstallError::Validation(m)) => {
            assert_eq!(m, "launcher profile path is not a file: /d/p.json")
        }
        _ => panic!("expected a validation error"),
    }
}
