//! The Java runtime a Minecraft version asks for: where it is kept, which
//! Temurin package provides it, and how a downloaded package is checked.
use vstd::prelude::*;

use crate::config::{join_path, path_error_message, path_join, resolved_path, Config};
use crate::minecraft::error::MinecraftInstallError;
use crate::minecraft::platform::Platform;
use crate::text::{
    chars_of, concat2, concat3, decimal, ends_with, ends_with_chars, eq_ignore_ascii_case,
    eq_ignore_ascii_case_exec, str_eq, str_to_string, trim, trim_str, u64_to_string,
};
use crate::utils::{hex_lower, sha256_digest, sha256_hex};

verus! {

/// The directory of the Temurin JRE `major_version` for `platform`, in the
/// data directory of `config`.
pub fn runtime_dir(config: &Config, base: &str, windows: bool, major_version: u32, platform: &Platform) -> (r: Result<
    String,
    MinecraftInstallError,
>)
    ensures
        match resolved_path(config.data_dir@, base@, windows) {
            Ok(data) => r matches Ok(p) && p@ == path_join(
                path_join(
                    path_join(data, "runtimes"@),
                    "temurin-"@ + decimal(major_version as nat) + "-jre"@,
                ),
                platform.os@ + "-"@ + platform.arch@,
            ),
            Err(e) => r matches Err(MinecraftInstallError::Io(m)) && m@ == path_error_message(e),
        },
{
    match config.resolved_data_dir(base, windows) {
        Ok(data) => {
            let runtimes = join_path(data.as_str(), "runtimes");
            let major = u64_to_string(major_version as u64);
            let name = concat3("temurin-", major.as_str(), "-jre");
            let dir = join_path(runtimes.as_str(), name.as_str());
            let platform_dir = platform.current_platform_dir_name();
            Ok(join_path(dir.as_str(), platform_dir.as_str()))
        },
        Err(e) => Err(MinecraftInstallError::Io(e.message())),
    }
}

/// The file name of the Java executable on `platform`.
pub open spec fn java_file_name(platform: Platform) -> Seq<char> {
    if platform.os@ == "windows"@ {
        "java.exe"@
    } else {
        "java"@
    }
}

/// The Java executable of the runtime in `runtime_dir`.
pub fn executable_path(runtime_dir: &str, platform: &Platform) -> (r: String)
    ensures
        r@ == path_join(path_join(runtime_dir@, "bin"@), java_file_name(*platform)),
{
    let bin = join_path(runtime_dir, "bin");
    if platform.is_windows() {
        join_path(bin.as_str(), "java.exe")
    } else {
        join_path(bin.as_str(), "java")
    }
}

/// A runtime counts as installed where both its Java executable and its
/// marker file are files.
pub fn runtime_is_ready(java_is_file: bool, marker_is_file: bool) -> (r: bool)
    ensures
        r == (java_is_file && marker_is_file),
{
    java_is_file && marker_is_file
}

/// The file that marks a runtime as complete.
pub fn runtime_marker_path(runtime_dir: &str) -> (r: String)
    ensures
        r@ == path_join(runtime_dir@, ".saykocraft-runtime"@),
{
    join_path(runtime_dir, ".saykocraft-runtime")
}

/// The Java a version asks for: its component name and major version.
#[derive(Debug)]
pub struct JavaVersion {
    pub component: Option<String>,
    pub major_version: u32,
}

/// The component name, `java-runtime` where none is given.
pub open spec fn component_of(v: JavaVersion) -> Seq<char> {
    match v.component {
        Some(c) => c@,
        None => "java-runtime"@,
    }
}

pub fn component_name(v: &JavaVersion) -> (r: String)
    ensures
        r@ == component_of(*v),
{
    match &v.component {
        Some(c) => c.clone(),
        None => str_to_string("java-runtime"),
    }
}

/// A version's metadata must say which Java it needs.
pub fn required_java<'a>(minecraft_version: &str, java_version: Option<&'a JavaVersion>) -> (r: Result<
    &'a JavaVersion,
    MinecraftInstallError,
>)
    ensures
        match java_version {
            Some(v) => r == Ok::<&JavaVersion, MinecraftInstallError>(v),
            None => r matches Err(MinecraftInstallError::InvalidManifest(m)) && m@ == "Minecraft version "@
                + minecraft_version@ + " is missing javaVersion"@,
        },
{
    match java_version {
        Some(v) => Ok(v),
        None => Err(
            MinecraftInstallError::InvalidManifest(
                concat3("Minecraft version ", minecraft_version, " is missing javaVersion"),
            ),
        ),
    }
}

/// A Temurin package of the Adoptium API.
#[derive(Debug)]
pub struct AdoptiumPackage {
    pub name: String,
    pub link: String,
    pub checksum: String,
    pub size: u64,
}

/// A package must name its file, link and checksum and have a size.
pub open spec fn package_complete(p: AdoptiumPackage) -> bool {
    trim(p.link@).len() > 0 && trim(p.name@).len() > 0 && trim(p.checksum@).len() > 0 && p.size != 0
}

pub fn validate_package(package: &AdoptiumPackage, major_version: u32) -> (r: Result<(), MinecraftInstallError>)
    ensures
        package_complete(*package) ==> r is Ok,
        !package_complete(*package) ==> (r matches Err(MinecraftInstallError::InvalidManifest(m)) && m@
            == "Adoptium Java runtime package is missing required fields for Java "@ + decimal(
            major_version as nat,
        )),
{
    let link = trim_str(package.link.as_str());
    let name = trim_str(package.name.as_str());
    let checksum = trim_str(package.checksum.as_str());
    if link.len() == 0 || name.len() == 0 || checksum.len() == 0 || package.size == 0 {
        let major = u64_to_string(major_version as u64);
        return Err(
            MinecraftInstallError::InvalidManifest(
                concat2(
                    "Adoptium Java runtime package is missing required fields for Java ",
                    major.as_str(),
                ),
            ),
        );
    }
    Ok(())
}

/// The first package the API lists, which must be complete; none listed
/// means the platform has no runtime.
pub fn first_package(packages: Vec<AdoptiumPackage>, major_version: u32, os: &str, architecture: &str) -> (r: Result<
    AdoptiumPackage,
    MinecraftInstallError,
>)
    ensures
        packages@.len() == 0 ==> (r matches Err(MinecraftInstallError::UnsupportedPlatform(m)) && m@
            == "no Temurin JRE "@ + decimal(major_version as nat) + " HotSpot runtime was found for "@
            + os@ + "/"@ + architecture@),
        packages@.len() > 0 && package_complete(packages@[0]) ==> r == Ok::<
            AdoptiumPackage,
            MinecraftInstallError,
        >(packages@[0]),
        packages@.len() > 0 && !package_complete(packages@[0]) ==> (r matches Err(
            MinecraftInstallError::InvalidManifest(m),
        ) && m@ == "Adoptium Java runtime package is missing required fields for Java "@ + decimal(
            major_version as nat,
        )),
{
    let mut packages = packages;
    if packages.len() == 0 {
        let major = u64_to_string(major_version as u64);
        let mut m = concat3("no Temurin JRE ", major.as_str(), " HotSpot runtime was found for ");
        m.append(os);
        m.append("/");
        m.append(architecture);
        return Err(MinecraftInstallError::UnsupportedPlatform(m));
    }
    let package = packages.remove(0);
    match validate_package(&package, major_version) {
        Ok(()) => Ok(package),
        Err(e) => Err(e),
    }
}

/// Temurin's name for the platform's operating system.
pub fn current_adoptium_os(platform: &Platform) -> (r: Result<String, MinecraftInstallError>)
    ensures
        platform.os@ == "macos"@ ==> (r matches Ok(s) && s@ == "mac"@),
        platform.os@ == "windows"@ ==> (r matches Ok(s) && s@ == "windows"@),
        platform.os@ == "linux"@ ==> (r matches Ok(s) && s@ == "linux"@),
        platform.os@ != "macos"@ && platform.os@ != "windows"@ && platform.os@ != "linux"@ ==> (r matches Err(
            MinecraftInstallError::UnsupportedPlatform(m),
        ) && m@ == "Temurin Java runtime downloads are not configured for OS: "@ + platform.os@),
{
    proof {
        reveal_strlit("macos");
        reveal_strlit("windows");
        reveal_strlit("linux");
        assert("linux"@[0] != "macos"@[0]);
    }
    if str_eq(platform.os.as_str(), "macos") {
        Ok(str_to_string("mac"))
    } else if str_eq(platform.os.as_str(), "windows") {
        Ok(str_to_string("windows"))
    } else if str_eq(platform.os.as_str(), "linux") {
        Ok(str_to_string("linux"))
    } else {
        Err(
            MinecraftInstallError::UnsupportedPlatform(
                concat2(
                    "Temurin Java runtime downloads are not configured for OS: ",
                    platform.os.as_str(),
                ),
            ),
        )
    }
}

/// Temurin's name for the platform's architecture.
pub fn current_adoptium_architecture(platform: &Platform) -> (r: Result<String, MinecraftInstallError>)
    ensures
        platform.arch@ == "x86_64"@ ==> (r matches Ok(s) && s@ == "x64"@),
        platform.arch@ == "aarch64"@ ==> (r matches Ok(s) && s@ == "aarch64"@),
        platform.arch@ != "x86_64"@ && platform.arch@ != "aarch64"@ ==> (r matches Err(
            MinecraftInstallError::UnsupportedPlatform(m),
        ) && m@ == "Temurin Java runtime downloads are not configured for architecture: "@
            + platform.arch@),
{
    proof {
        reveal_strlit("x86_64");
        reveal_strlit("aarch64");
    }
    if str_eq(platform.arch.as_str(), "x86_64") {
        Ok(str_to_string("x64"))
    } else if str_eq(platform.arch.as_str(), "aarch64") {
        Ok(str_to_string("aarch64"))
    } else {
        Err(
            MinecraftInstallError::UnsupportedPlatform(
                concat2(
                    "Temurin Java runtime downloads are not configured for architecture: ",
                    platform.arch.as_str(),
                ),
            ),
        )
    }
}

/// The Adoptium API query for the latest Temurin JRE `major_version`.
pub open spec fn adoptium_url_of(major_version: u32, os: Seq<char>, architecture: Seq<char>) -> Seq<char> {
    "https://api.adoptium.net/v3/assets/latest/"@ + decimal(major_version as nat)
        + "/hotspot?architecture="@ + architecture + "&heap_size=normal&image_type=jre&os="@ + os
        + "&vendor=eclipse"@
}

pub fn adoptium_url(major_version: u32, os: &str, architecture: &str) -> (r: String)
    ensures
        r@ == adoptium_url_of(major_version, os@, architecture@),
{
    let major = u64_to_string(major_version as u64);
    let mut r = concat3(
        "https://api.adoptium.net/v3/assets/latest/",
        major.as_str(),
        "/hotspot?architecture=",
    );
    r.append(architecture);
    r.append("&heap_size=normal&image_type=jre&os=");
    r.append(os);
    r.append("&vendor=eclipse");
    r
}

/// Where a downloaded runtime archive is kept.
pub fn runtime_archive_path(data_dir: &str, package_name: &str) -> (r: String)
    ensures
        r@ == path_join(path_join(path_join(data_dir@, "runtimes"@), "archives"@), package_name@),
{
    let runtimes = join_path(data_dir, "runtimes");
    let archives = join_path(runtimes.as_str(), "archives");
    join_path(archives.as_str(), package_name)
}

/// Checks a downloaded runtime archive against the package's size and
/// SHA-256 checksum.
pub fn verify_runtime_archive(bytes: &[u8], destination: &str, package: &AdoptiumPackage) -> (r: Result<(), MinecraftInstallError>)
    ensures
        bytes@.len() != package.size ==> (r matches Err(MinecraftInstallError::Validation(m)) && m@
            == "downloaded Java runtime archive size mismatch for "@ + destination@ + ": expected "@
            + decimal(package.size as nat) + ", got "@ + decimal(bytes@.len())),
        bytes@.len() == package.size && !eq_ignore_ascii_case(
            hex_lower(sha256_digest(bytes@)),
            package.checksum@,
        ) ==> (r matches Err(MinecraftInstallError::ChecksumMismatch { path, expected, actual })
            && path@ == destination@ && expected@ == package.checksum@ && actual@ == hex_lower(
            sha256_digest(bytes@),
        )),
        bytes@.len() == package.size && eq_ignore_ascii_case(
            hex_lower(sha256_digest(bytes@)),
            package.checksum@,
        ) ==> r is Ok,
{
    let len = bytes.len() as u64;
    if len != package.size {
        let mut m = concat3(
            "downloaded Java runtime archive size mismatch for ",
            destination,
            ": expected ",
        );
        m.append(u64_to_string(package.size).as_str());
        m.append(", got ");
        m.append(u64_to_string(len).as_str());
        return Err(MinecraftInstallError::Validation(m));
    }
    let actual = sha256_hex(bytes);
    let a = chars_of(actual.as_str());
    let e = chars_of(package.checksum.as_str());
    if !eq_ignore_ascii_case_exec(&a, &e) {
        return Err(
            MinecraftInstallError::ChecksumMismatch {
                path: str_to_string(destination),
                expected: package.checksum.clone(),
                actual,
            },
        );
    }
    Ok(())
}

#[derive(Debug)]
pub enum ArchiveFormat {
    Zip,
    TarGz,
}

/// How a runtime archive is unpacked, by its name.
pub fn archive_format(archive_name: &str) -> (r: Result<ArchiveFormat, MinecraftInstallError>)
    ensures
        ends_with(archive_name@, ".zip"@) ==> r matches Ok(ArchiveFormat::Zip),
        !ends_with(archive_name@, ".zip"@) && (ends_with(archive_name@, ".tar.gz"@) || ends_with(
            archive_name@,
            ".tgz"@,
        )) ==> r matches Ok(ArchiveFormat::TarGz),
        !ends_with(archive_name@, ".zip"@) && !ends_with(archive_name@, ".tar.gz"@) && !ends_with(
            archive_name@,
            ".tgz"@,
        ) ==> (r matches Err(MinecraftInstallError::Archive(m)) && m@
            == "unsupported Java runtime archive format: "@ + archive_name@),
{
    let name = chars_of(archive_name);
    let zip = chars_of(".zip");
    let tar_gz = chars_of(".tar.gz");
    let tgz = chars_of(".tgz");
    if ends_with_chars(&name, &zip) {
        Ok(ArchiveFormat::Zip)
    } else if ends_with_chars(&name, &tar_gz) || ends_with_chars(&name, &tgz) {
        Ok(ArchiveFormat::TarGz)
    } else {
        Err(
            MinecraftInstallError::Archive(
                concat2("unsupported Java runtime archive format: ", archive_name),
            ),
        )
    }
}

/// The root of an unpacked runtime: the staging directory where it holds
/// the Java executable itself, else the one subdirectory that does.
pub fn runtime_root(staging_dir: &str, staging_has_java: bool, candidates: Vec<String>) -> (r: Result<
    String,
    MinecraftInstallError,
>)
    ensures
        staging_has_java ==> (r matches Ok(p) && p@ == staging_dir@),
        !staging_has_java && candidates@.len() == 1 ==> r == Ok::<String, MinecraftInstallError>(
            candidates@[0],
        ),
        !staging_has_java && candidates@.len() == 0 ==> (r matches Err(MinecraftInstallError::Archive(m))
            && m@ == "Java runtime archive did not contain a bin/java executable under "@
            + staging_dir@),
        !staging_has_java && candidates@.len() > 1 ==> (r matches Err(MinecraftInstallError::Archive(m))
            && m@ == "Java runtime archive contained multiple candidate runtime roots under "@
            + staging_dir@),
{
    if staging_has_java {
        return Ok(str_to_string(staging_dir));
    }
    let mut candidates = candidates;
    if candidates.len() == 1 {
        Ok(candidates.remove(0))
    } else if candidates.len() == 0 {
        Err(
            MinecraftInstallError::Archive(
                concat2("Java runtime archive did not contain a bin/java executable under ", staging_dir),
            ),
        )
    } else {
        Err(
            MinecraftInstallError::Archive(
                concat2("Java runtime archive contained multiple candidate runtime roots under ", staging_dir),
            ),
        )
    }
}

/// The text of the marker written into a complete runtime.
pub open spec fn runtime_marker_of(java: JavaVersion, package: AdoptiumPackage) -> Seq<char> {
    "provider=adoptium\nimage_type=jre\njvm=hotspot\nmajor="@ + decimal(java.major_version as nat)
        + "\ncomponent="@ + component_of(java) + "\narchive="@ + package.name@ + "\nsha256="@
        + package.checksum@ + "\n"@
}

pub fn runtime_marker(java: &JavaVersion, package: &AdoptiumPackage) -> (r: String)
    ensures
        r@ == runtime_marker_of(*java, *package),
{
    let major = u64_to_string(java.major_version as u64);
    let component = component_name(java);
    let mut r = concat3("provider=adoptium\nimage_type=jre\njvm=hotspot\nmajor=", major.as_str(), "\ncomponent=");
    r.append(component.as_str());
    r.append("\narchive=");
    r.append(package.name.as_str());
    r.append("\nsha256=");
    r.append(package.checksum.as_str());
    r.append("\n");
    r
}

/// After unpacking, the Java executable must be there.
pub fn check_extracted_runtime(java_path: &str, java_is_file: bool) -> (r: Result<(), MinecraftInstallError>)
    ensures
        java_is_file ==> r is Ok,
        !java_is_file ==> (r matches Err(MinecraftInstallError::Archive(m)) && m@
            == "Java executable was not found after extracting runtime: "@ + java_path@),
{
    if java_is_file {
        Ok(())
    } else {
        Err(
            MinecraftInstallError::Archive(
                concat2("Java executable was not found after extracting runtime: ", java_path),
            ),
        )
    }
}

} // verus!
