use saykocraft_launcher::config::Config;
use saykocraft_launcher::instance::{
    FileManifestReference, InstanceEntry, InstanceManifest, InstanceRegistry, InstanceState,
    ModLoader, ModLoaderType, PackFile, PackFileManifest, UpdatePolicy, replace_instances,
};
use saykocraft_launcher::minecraft::error::MinecraftInstallError;
use saykocraft_launcher::minecraft::install::{
    asset_downloads, asset_index_download, check_minecraft_version, client_jar_download,
    download_step, find_version, installation_dirs, installed_instance_manifest,
    is_safe_relative_path, library_downloads, library_is_allowed, mod_loader_step,
    native_archives, native_artifact_classifier, native_classifier_for_current_os,
    pack_file_destination, pack_file_download, pack_file_is_kept, sha1_prefix,
    should_skip_native_entry, validate_pack_manifest_for_install, verify_download,
    verify_sha256_download, version_dir, AssetIndexRef, AssetObject, DownloadInfo, ExtractRules,
    DownloadStep, Library, LibraryDownloads, VersionDetails, VersionSummary,
};
use saykocraft_launcher::minecraft::launch::{Rule, RuleAction, RuleOs};
use saykocraft_launcher::minecraft::platform::Platform;
use saykocraft_launcher::minecraft::progress::InstallPhase;

const BASE: &str = "/home/p/.saykocraft";

fn linux() -> Platform {
    Platform { os: "linux".to_string(), arch: "x86_64".to_string(), pointer_width: 64 }
}

fn windows32() -> Platform {
    Platform { os: "windows".to_string(), arch: "x86".to_string(), pointer_width: 32 }
}

fn config() -> Config {
    Config {
        install_dir: "$SAYKOCRAFT/instances".to_string(),
        data_dir: "$SAYKOCRAFT/data".to_string(),
        language: "tr-TR".to_string(),
        keep_launcher_open: false,
        prefer_discrete_gpu: true,
    }
}

fn download(path: Option<&str>) -> DownloadInfo {
    DownloadInfo {
        sha1: "6f5b01580ce43822444ae4c79edcd0dc789028f1".to_string(),
        size: 6,
        url: "https://libraries.example.net/x.jar".to_string(),
        path: path.map(str::to_string),
    }
}

fn library(name: &str) -> Library {
    Library { name: name.to_string(), downloads: None, rules: None, natives: None, extract: None }
}

fn manifest(loader: Option<ModLoader>) -> InstanceManifest {
    InstanceManifest {
        schema_version: 0,
        id: "earth".to_string(),
        name: "Earth".to_string(),
        pack_version: "1.0.0".to_string(),
        minecraft_version: "1.21.1".to_string(),
        loader,
        server_address: String::new(),
        minimum_ram_mb: 1024,
        recommended_ram_mb: 2048,
        file_manifest: FileManifestReference { url: String::new(), sha256: String::new() },
    }
}

fn pack_file(path: &str, policy: UpdatePolicy) -> PackFile {
    PackFile {
        path: path.to_string(),
        url: "https://cdn.example.net/f".to_string(),
        sha256: "d92c6a81b2ff50096bcda80885427d1f59a25b5f483f7055523504925d16ab23".to_string(),
        size: 7,
        update_policy: policy,
    }
}

fn details(libraries: Vec<Library>) -> VersionDetails {
    VersionDetails {
        id: "1.21.1".to_string(),
        client: download(None),
        libraries,
        asset_index: AssetIndexRef {
            id: "17".to_string(),
            sha1: "ab".to_string(),
            size: 10,
            url: "https://meta.example.net/17.json".to_string(),
        },
        java_major_version: Some(21),
    }
}

#[test]
fn install_rules_refuse_any_feature() {
    let mut lib = library("a:b:1");
    assert!(library_is_allowed(&lib, &linux()));
    lib.rules = Some(vec![Rule {
        action: RuleAction::Allow,
        os: None,
        features: Some(vec![("has_custom_resolution".to_string(), false)]),
    }]);
    assert!(!library_is_allowed(&lib, &linux()));
    lib.rules = Some(vec![
        Rule { action: RuleAction::Allow, os: None, features: None },
        Rule {
            action: RuleAction::Disallow,
            os: Some(RuleOs { name: Some("linux".to_string()), arch: None }),
            features: None,
        },
    ]);
    assert!(!library_is_allowed(&lib, &linux()));
    assert!(library_is_allowed(&lib, &windows32()));
}

#[test]
fn native_classifiers() {
    let mut lib = library("org.lwjgl:lwjgl:2.9.4");
    lib.natives = Some(vec![
        ("linux".to_string(), "natives-linux".to_string()),
        ("windows".to_string(), "natives-windows-${arch}".to_string()),
    ]);
    assert_eq!(native_classifier_for_current_os(&lib, &linux()).unwrap(), "natives-linux");
    assert_eq!(native_classifier_for_current_os(&lib, &windows32()).unwrap(), "natives-windows-32");
    let mac = Platform { os: "macos".to_string(), arch: "aarch64".to_string(), pointer_width: 64 };
    assert!(native_classifier_for_current_os(&lib, &mac).is_none());
    assert_eq!(
        native_artifact_classifier(&library("org.lwjgl:lwjgl:3.3.3:natives-linux")).unwrap(),
        "natives-linux"
    );
    assert!(native_artifact_classifier(&library("org.lwjgl:lwjgl:3.3.3")).is_none());
    assert!(native_artifact_classifier(&library("org.lwjgl:lwjgl:3.3.3:sources")).is_none());
}

#[test]
fn native_archive_entries() {
    assert!(should_skip_native_entry("META-INF/MANIFEST.MF", None));
    assert!(should_skip_native_entry("META-INF\\x.sf", None));
    assert!(!should_skip_native_entry("liblwjgl.so", None));
    let rules = ExtractRules { exclude: Some(vec!["docs/".to_string(), "LICENSE".to_string(), "".to_string()]) };
    assert!(should_skip_native_entry("docs/readme.txt", Some(&rules)));
    assert!(should_skip_native_entry("LICENSE", Some(&rules)));
    assert!(!should_skip_native_entry("LICENSE.txt", Some(&rules)));
    assert!(!should_skip_native_entry("liblwjgl.so", Some(&rules)));
    let none = ExtractRules { exclude: None };
    assert!(!should_skip_native_entry("docs/a", Some(&none)));
}

#[test]
fn asset_prefixes() {
    assert_eq!(sha1_prefix("6f5b01580ce43822444ae4c79edcd0dc789028f1", "icon.png").unwrap(), "6f");
    match sha1_prefix("xyz", "icon.png") {
        Err(MinecraftInstallError::Validation(m)) => {
            assert_eq!(m, "asset icon.png has an invalid SHA-1 hash: xyz")
        }
        _ => panic!("expected a validation error"),
    }
}

#[test]
fn pack_file_paths() {
    assert!(is_safe_relative_path("mods/a.jar", false));
    assert!(is_safe_relative_path("./config/x.toml", false));
    assert!(!is_safe_relative_path("/etc/passwd", false));
    assert!(!is_safe_relative_path("mods/../../x", false));
    assert!(is_safe_relative_path("..\\x", false));
    assert!(!is_safe_relative_path("..\\x", true));
    assert!(!is_safe_relative_path("mods\\..\\x", true));
    assert!(!is_safe_relative_path("\\x", true));
    assert!(!is_safe_relative_path("C:x", true));
    assert!(is_safe_relative_path("C:x", false));
    assert!(is_safe_relative_path("mods\\a.jar", true));
    assert_eq!(
        pack_file_destination("/g", &pack_file("mods/a.jar", UpdatePolicy::Replace), false).unwrap(),
        "/g/mods/a.jar"
    );
    match pack_file_destination("/g", &pack_file("  ", UpdatePolicy::Replace), false) {
        Err(MinecraftInstallError::Validation(m)) => assert_eq!(m, "pack file path cannot be empty"),
        _ => panic!("expected a validation error"),
    }
    match pack_file_destination("/g", &pack_file("../x", UpdatePolicy::Replace), false) {
        Err(MinecraftInstallError::Validation(m)) => assert_eq!(m, "pack file path is not safe: ../x"),
        _ => panic!("expected a validation error"),
    }
    let d = pack_file_download("/g", &pack_file("options.txt", UpdatePolicy::InstallIfMissing), false).unwrap();
    assert_eq!(d.destination, "/g/options.txt");
    assert_eq!(d.label, "Downloading modpack file options.txt");
    assert_eq!(d.phase, InstallPhase::ModpackFiles);
    assert!(pack_file_is_kept(&UpdatePolicy::InstallIfMissing, true));
    assert!(!pack_file_is_kept(&UpdatePolicy::InstallIfMissing, false));
    assert!(!pack_file_is_kept(&UpdatePolicy::Replace, true));
}

#[test]
fn pack_manifest_must_be_the_instances() {
    let m = manifest(None);
    let pack = PackFileManifest {
        schema_version: 0,
        instance_id: "earth".to_string(),
        pack_version: "1.0.0".to_string(),
        files: Vec::new(),
    };
    assert!(validate_pack_manifest_for_install(&m, &pack).is_ok());
    let other = PackFileManifest { instance_id: "mars".to_string(), ..pack };
    match validate_pack_manifest_for_install(&m, &other) {
        Err(MinecraftInstallError::InvalidManifest(e)) => {
            assert_eq!(e, "pack file manifest instance id 'mars' does not match 'earth'")
        }
        _ => panic!("expected an invalid manifest"),
    }
}

#[test]
fn mod_loaders() {
    assert!(matches!(mod_loader_step(&manifest(None)), Ok(None)));
    let neo = ModLoader { loader_type: ModLoaderType::NeoForge, version: "21.1.77".to_string() };
    assert_eq!(mod_loader_step(&manifest(Some(neo))).unwrap().unwrap(), "21.1.77");
    let fabric = ModLoader { loader_type: ModLoaderType::Fabric, version: "0.16".to_string() };
    match mod_loader_step(&manifest(Some(fabric))) {
        Err(MinecraftInstallError::Validation(m)) => {
            assert_eq!(m, "unsupported mod loader for instance install: Fabric")
        }
        _ => panic!("expected a validation error"),
    }
}

#[test]
fn instances_to_install() {
    let mut reg = InstanceRegistry::new();
    replace_instances(
        &mut reg,
        vec![InstanceEntry {
            id: "earth".to_string(),
            state: InstanceState::Ready,
            instance_manifest: Some(manifest(None)),
        }],
    );
    assert_eq!(installed_instance_manifest(&reg, "earth").unwrap().id, "earth");
    match installed_instance_manifest(&reg, "mars") {
        Err(MinecraftInstallError::Validation(m)) => assert_eq!(m, "instance is not installed: mars"),
        _ => panic!("expected a validation error"),
    }
    assert!(check_minecraft_version("1.21.1").is_ok());
    assert!(check_minecraft_version("  ").is_err());
}

#[test]
fn version_lookup() {
    let versions = vec![
        VersionSummary { id: "1.21".to_string(), url: "u1".to_string(), sha1: None },
        VersionSummary { id: "1.21.1".to_string(), url: "u2".to_string(), sha1: None },
    ];
    assert_eq!(find_version(&versions, "1.21.1").unwrap(), 1);
    match find_version(&versions, "1.22") {
        Err(MinecraftInstallError::MissingVersion(v)) => assert_eq!(v, "1.22"),
        _ => panic!("expected a missing version"),
    }
}

#[test]
fn install_directories() {
    assert_eq!(
        installation_dirs(&config(), BASE, false).unwrap(),
        vec![
            "/home/p/.saykocraft/data/assets",
            "/home/p/.saykocraft/data/libraries",
            "/home/p/.saykocraft/data/versions",
            "/home/p/.saykocraft/data/runtimes",
        ]
    );
    assert_eq!(version_dir(&config(), BASE, false, "1.21.1").unwrap(), "/home/p/.saykocraft/data/versions/1.21.1");
}

#[test]
fn client_and_asset_index_downloads() {
    let d = details(Vec::new());
    let jar = client_jar_download("/d", &d);
    assert_eq!(jar.destination, "/d/versions/1.21.1/1.21.1.jar");
    assert_eq!(jar.current_file, jar.destination);
    assert_eq!(jar.label, "Downloading Minecraft 1.21.1");
    assert_eq!(jar.phase, InstallPhase::MinecraftClient);
    let index = asset_index_download("/d/assets", &d);
    assert_eq!(index.destination, "/d/assets/indexes/17.json");
    assert_eq!(index.label, "Downloading Minecraft asset index 17");
}

#[test]
fn library_downloads_stop_at_a_missing_path() {
    let mut a = library("com.a:a:1");
    a.downloads = Some(LibraryDownloads { artifact: Some(download(Some("com/a/a-1.jar"))), classifiers: None });
    let skipped = library("com.s:s:1");
    let mut broken = library("com.b:b:1");
    broken.downloads = Some(LibraryDownloads { artifact: Some(download(None)), classifiers: None });
    let mut c = library("com.c:c:1");
    c.downloads = Some(LibraryDownloads { artifact: Some(download(Some("com/c/c-1.jar"))), classifiers: None });
    let (plan, error) = library_downloads(&details(vec![a, skipped, broken, c]), "/d/libraries", &linux());
    assert_eq!(plan.len(), 1);
    assert_eq!(plan[0].destination, "/d/libraries/com/a/a-1.jar");
    assert_eq!(plan[0].label, "Downloading Minecraft library com.a:a:1");
    match error {
        Some(MinecraftInstallError::MissingDownload { version, artifact }) => {
            assert_eq!(version, "1.21.1");
            assert_eq!(artifact, "com.b:b:1");
        }
        _ => panic!("expected a missing download"),
    }
}

#[test]
fn asset_downloads_go_by_digest() {
    let objects = vec![
        AssetObject {
            name: "icons/a.png".to_string(),
            hash: "6f5b01580ce43822444ae4c79edcd0dc789028f1".to_string(),
            size: 6,
        },
        AssetObject { name: "bad".to_string(), hash: "zz".to_string(), size: 1 },
    ];
    let (plan, error) = asset_downloads("/d/assets", &objects);
    assert_eq!(plan.len(), 1);
    assert_eq!(
        plan[0].url,
        "https://resources.download.minecraft.net/6f/6f5b01580ce43822444ae4c79edcd0dc789028f1"
    );
    assert_eq!(plan[0].destination, "/d/assets/objects/6f/6f5b01580ce43822444ae4c79edcd0dc789028f1");
    match error {
        Some(MinecraftInstallError::Validation(m)) => assert_eq!(m, "asset bad has an invalid SHA-1 hash: zz"),
        _ => panic!("expected a validation error"),
    }
}

#[test]
fn native_archives_of_a_version() {
    let mut old_style = library("org.lwjgl:lwjgl-platform:2.9.4");
    old_style.natives = Some(vec![("linux".to_string(), "natives-linux".to_string())]);
    old_style.downloads = Some(LibraryDownloads {
        artifact: None,
        classifiers: Some(vec![("natives-linux".to_string(), download(Some("org/l/l-natives-linux.jar")))]),
    });
    let mut new_style = library("org.lwjgl:lwjgl:3.3.3:natives-linux");
    new_style.downloads = Some(LibraryDownloads {
        artifact: Some(download(Some("org/l/lwjgl-3.3.3-natives-linux.jar"))),
        classifiers: None,
    });
    let (plan, error) = native_archives(&details(vec![old_style, new_style]), "/d/libraries", &linux());
    assert!(error.is_none());
    assert_eq!(plan.len(), 2);
    assert_eq!(plan[0].classifier, "natives-linux");
    assert_eq!(plan[0].library, 0);
    assert_eq!(plan[0].download.destination, "/d/libraries/org/l/l-natives-linux.jar");
    assert_eq!(plan[1].library, 1);
    assert_eq!(plan[1].download.label, "Downloading Minecraft native org.lwjgl:lwjgl:3.3.3:natives-linux");

    let mut missing = library("org.lwjgl:lwjgl-platform:2.9.4");
    missing.natives = Some(vec![("linux".to_string(), "natives-linux".to_string())]);
    let (plan, error) = native_archives(&details(vec![missing]), "/d/libraries", &linux());
    assert!(plan.is_empty());
    match error {
        Some(MinecraftInstallError::MissingDownload { artifact, .. }) => {
            assert_eq!(artifact, "org.lwjgl:lwjgl-platform:2.9.4 (natives-linux)")
        }
        _ => panic!("expected a missing download"),
    }

    let (plan, error) = native_archives(&details(vec![library("com.a:a:1")]), "/d/libraries", &linux());
    assert!(plan.is_empty());
    match error {
        Some(MinecraftInstallError::UnsupportedPlatform(m)) => {
            assert_eq!(m, "no Minecraft native libraries were found for linux x86_64")
        }
        _ => panic!("expected an unsupported platform"),
    }
}

#[test]
fn downloads_are_checked() {
    assert!(verify_download(b"native", "/d/x", 6, "6F5B01580CE43822444AE4C79EDCD0DC789028F1").is_ok());
    match verify_download(b"native!", "/d/x", 6, "6f5b01580ce43822444ae4c79edcd0dc789028f1") {
        Err(MinecraftInstallError::Validation(m)) => {
            assert_eq!(m, "downloaded file size mismatch for /d/x: expected 6, got 7")
        }
        _ => panic!("expected a size mismatch"),
    }
    match verify_download(b"nativf", "/d/x", 6, "6f5b01580ce43822444ae4c79edcd0dc789028f1") {
        Err(MinecraftInstallError::ChecksumMismatch { path, expected, actual }) => {
            assert_eq!(path, "/d/x");
            assert_eq!(expected, "6f5b01580ce43822444ae4c79edcd0dc789028f1");
            assert_ne!(actual, expected);
            assert_eq!(actual.len(), 40);
        }
        _ => panic!("expected a checksum mismatch"),
    }
    assert!(verify_sha256_download(
        b"runtime",
        "/d/r",
        7,
        "d92c6a81b2ff50096bcda80885427d1f59a25b5f483f7055523504925d16ab23"
    )
    .is_ok());
    assert!(verify_sha256_download(b"runtime", "/d/r", 7, "00").is_err());
    assert_eq!(download_step(Some((true, 6)), Some(6), None), DownloadStep::CheckDigest);
    assert_eq!(download_step(Some((true, 6)), Some(6), Some(true)), DownloadStep::Skip);
    assert_eq!(download_step(Some((true, 6)), Some(6), Some(false)), DownloadStep::Download);
    assert_eq!(download_step(Some((true, 5)), Some(6), None), DownloadStep::Download);
    assert_eq!(download_step(Some((false, 6)), Some(6), None), DownloadStep::Download);
    assert_eq!(download_step(None, Some(6), Some(true)), DownloadStep::Download);
    assert_eq!(download_step(Some((true, 99)), None, Some(true)), DownloadStep::Skip);
}

#[test]
fn install_error_messages() {
    assert_eq!(
        MinecraftInstallError::MissingDownload { version: "1.21".to_string(), artifact: "a".to_string() }
            .message(),
        "Minecraft version 1.21 is missing download artifact: a"
    );
    assert_eq!(
        MinecraftInstallError::UnsupportedPlatform("x".to_string()).message(),
        "unsupported Minecraft install platform: x"
    );
}
