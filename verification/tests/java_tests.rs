use saykocraft_launcher::config::Config;
use saykocraft_launcher::minecraft::error::MinecraftInstallError;
use saykocraft_launcher::minecraft::java::{
    adoptium_url, archive_format, check_extracted_runtime, component_name,
    current_adoptium_architecture, current_adoptium_os, executable_path, first_package,
    required_java, runtime_archive_path, runtime_dir, runtime_is_ready, runtime_marker, runtime_marker_path,
    runtime_root, validate_package, verify_runtime_archive, AdoptiumPackage, ArchiveFormat,
    JavaVersion,
};
use saykocraft_launcher::minecraft::platform::Platform;

const BASE: &str = "/home/p/.saykocraft";

fn platform(os: &str, arch: &str) -> Platform {
    Platform { os: os.to_string(), arch: arch.to_string(), pointer_width: 64 }
}

fn config() -> Config {
    Config {
        install_dir: "$SAYKOCRAFT/instances".to_string(),
        data_dir: "$SAYKOCRAFT/data".to_string(),
        language: "tr-TR".to_string(),
        keep_launcher_open: false,
        prefer_discrete_gpu: true,
    }
}

fn package() -> AdoptiumPackage {
    AdoptiumPackage {
        name: "OpenJDK21U-jre_x64_linux_hotspot_21.0.5_11.tar.gz".to_string(),
        link: "https://github.com/adoptium/x.tar.gz".to_string(),
        checksum: "d92c6a81b2ff50096bcda80885427d1f59a25b5f483f7055523504925d16ab23".to_string(),
        size: 7,
    }
}

#[test]
fn runtime_locations() {
    let dir = runtime_dir(&config(), BASE, false, 21, &platform("linux", "x86_64")).unwrap();
    assert_eq!(dir, "/home/p/.saykocraft/data/runtimes/temurin-21-jre/linux-x86_64");
    assert_eq!(executable_path(&dir, &platform("linux", "x86_64")), format!("{dir}/bin/java"));
    assert_eq!(executable_path("/r", &platform("windows", "x86_64")), "/r/bin/java.exe");
    assert_eq!(runtime_marker_path("/r"), "/r/.saykocraft-runtime");
    assert!(runtime_is_ready(true, true));
    assert!(!runtime_is_ready(true, false));
    assert!(!runtime_is_ready(false, true));
    assert_eq!(runtime_archive_path("/d", "jre.zip"), "/d/runtimes/archives/jre.zip");
    let mut bad = config();
    bad.data_dir = "data".to_string();
    match runtime_dir(&bad, BASE, false, 21, &platform("linux", "x86_64")) {
        Err(MinecraftInstallError::Io(m)) => assert_eq!(m, "path must be absolute or start with $SAYKOCRAFT"),
        _ => panic!("expected an io error"),
    }
}

#[test]
fn java_versions() {
    let v = JavaVersion { component: None, major_version: 21 };
    assert_eq!(component_name(&v), "java-runtime");
    let named = JavaVersion { component: Some("java-runtime-delta".to_string()), major_version: 21 };
    assert_eq!(component_name(&named), "java-runtime-delta");
    assert_eq!(required_java("1.21.1", Some(&v)).unwrap().major_version, 21);
    match required_java("1.21.1", None) {
        Err(MinecraftInstallError::InvalidManifest(m)) => {
            assert_eq!(m, "Minecraft version 1.21.1 is missing javaVersion")
        }
        _ => panic!("expected an invalid manifest"),
    }
}

#[test]
fn adoptium_packages() {
    assert!(validate_package(&package(), 21).is_ok());
    let mut p = package();
    p.checksum = "  ".to_string();
    match validate_package(&p, 21) {
        Err(MinecraftInstallError::InvalidManifest(m)) => {
            assert_eq!(m, "Adoptium Java runtime package is missing required fields for Java 21")
        }
        _ => panic!("expected an invalid manifest"),
    }
    assert_eq!(first_package(vec![package()], 21, "linux", "x64").unwrap().size, 7);
    match first_package(Vec::new(), 21, "linux", "x64") {
        Err(MinecraftInstallError::UnsupportedPlatform(m)) => {
            assert_eq!(m, "no Temurin JRE 21 HotSpot runtime was found for linux/x64")
        }
        _ => panic!("expected an unsupported platform"),
    }
    let mut empty_size = package();
    empty_size.size = 0;
    assert!(first_package(vec![empty_size, package()], 21, "linux", "x64").is_err());
}

#[test]
fn adoptium_names() {
    assert_eq!(current_adoptium_os(&platform("macos", "aarch64")).unwrap(), "mac");
    assert_eq!(current_adoptium_os(&platform("linux", "x86_64")).unwrap(), "linux");
    assert_eq!(current_adoptium_os(&platform("windows", "x86_64")).unwrap(), "windows");
    match current_adoptium_os(&platform("freebsd", "x86_64")) {
        Err(MinecraftInstallError::UnsupportedPlatform(m)) => {
            assert_eq!(m, "Temurin Java runtime downloads are not configured for OS: freebsd")
        }
        _ => panic!("expected an unsupported platform"),
    }
    assert_eq!(current_adoptium_architecture(&platform("linux", "x86_64")).unwrap(), "x64");
    assert_eq!(current_adoptium_architecture(&platform("linux", "aarch64")).unwrap(), "aarch64");
    assert!(current_adoptium_architecture(&platform("linux", "riscv64")).is_err());
    assert_eq!(
        adoptium_url(21, "linux", "x64"),
        "https://api.adoptium.net/v3/assets/latest/21/hotspot?architecture=x64&heap_size=normal&image_type=jre&os=linux&vendor=eclipse"
    );
}

#[test]
fn runtime_archives() {
    assert!(verify_runtime_archive(b"runtime", "/a", &package()).is_ok());
    match verify_runtime_archive(b"run", "/a", &package()) {
        Err(MinecraftInstallError::Validation(m)) => assert_eq!(
            m,
            "downloaded Java runtime archive size mismatch for /a: expected 7, got 3"
        ),
        _ => panic!("expected a size mismatch"),
    }
    assert!(matches!(
        verify_runtime_archive(b"runtimf", "/a", &package()),
        Err(MinecraftInstallError::ChecksumMismatch { .. })
    ));
    assert!(matches!(archive_format("jre.zip"), Ok(ArchiveFormat::Zip)));
    assert!(matches!(archive_format("jre.tar.gz"), Ok(ArchiveFormat::TarGz)));
    assert!(matches!(archive_format("jre.tgz"), Ok(ArchiveFormat::TarGz)));
    match archive_format("jre.7z") {
        Err(MinecraftInstallError::Archive(m)) => assert_eq!(m, "unsupported Java runtime archive format: jre.7z"),
        _ => panic!("expected an archive error"),
    }
}

#[test]
fn runtime_roots() {
    assert_eq!(runtime_root("/s", true, vec!["/s/a".to_string()]).unwrap(), "/s");
    assert_eq!(runtime_root("/s", false, vec!["/s/jdk".to_string()]).unwrap(), "/s/jdk");
    match runtime_root("/s", false, Vec::new()) {
        Err(MinecraftInstallError::Archive(m)) => {
            assert_eq!(m, "Java runtime archive did not contain a bin/java executable under /s")
        }
        _ => panic!("expected an archive error"),
    }
    match runtime_root("/s", false, vec!["/s/a".to_string(), "/s/b".to_string()]) {
        Err(MinecraftInstallError::Archive(m)) => {
            assert_eq!(m, "Java runtime archive contained multiple candidate runtime roots under /s")
        }
        _ => panic!("expected an archive error"),
    }
    assert!(check_extracted_runtime("/r/bin/java", true).is_ok());
    assert!(check_extracted_runtime("/r/bin/java", false).is_err());
}

#[test]
fn runtime_marker_text() {
    let v = JavaVersion { component: None, major_version: 21 };
    assert_eq!(
        runtime_marker(&v, &package()),
        "provider=adoptium\nimage_type=jre\njvm=hotspot\nmajor=21\ncomponent=java-runtime\narchive=OpenJDK21U-jre_x64_linux_hotspot_21.0.5_11.tar.gz\nsha256=d92c6a81b2ff50096bcda80885427d1f59a25b5f483f7055523504925d16ab23\n"
    );
}
