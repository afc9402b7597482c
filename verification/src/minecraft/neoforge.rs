//! Installing the NeoForge mod loader: where its installer comes from and
//! goes, and when an install counts as done.
use vstd::prelude::*;

use crate::config::{join_path, path_error_message, path_join, resolved_path, Config};
use crate::minecraft::error::MinecraftInstallError;
use crate::minecraft::launch::{is_hex_byte, version_file};
use crate::text::{
    chars_of, concat2, concat3, eq_ignore_ascii_case, eq_ignore_ascii_case_exec, split_whitespace,
    starts_with, str_eq, str_to_string, string_of, sub_chars, trim, trim_str, words,
};
use crate::utils::{hex_lower, sha1_digest, sha1_hex};
use vstd::utf8::encode_utf8;

verus! {

/// A loader version must be named.
pub fn check_loader_version(loader_version: &str) -> (r: Result<(), MinecraftInstallError>)
    ensures
        trim(loader_version@).len() == 0 ==> (r matches Err(MinecraftInstallError::Validation(m)) && m@
            == "NeoForge version cannot be empty"@),
        trim(loader_version@).len() > 0 ==> r is Ok,
{
    let t = trim_str(loader_version);
    if t.len() == 0 {
        Err(MinecraftInstallError::Validation(str_to_string("NeoForge version cannot be empty")))
    } else {
        Ok(())
    }
}

/// The version id NeoForge installs under.
pub fn neoforge_version_id(loader_version: &str) -> (r: String)
    ensures
        r@ == "neoforge-"@ + loader_version@,
{
    concat2("neoforge-", loader_version)
}

/// The installer jar on NeoForge's Maven repository.
pub open spec fn installer_url_of(v: Seq<char>) -> Seq<char> {
    "https://maven.neoforged.net/releases/net/neoforged/neoforge/"@ + v + "/neoforge-"@ + v
        + "-installer.jar"@
}

pub fn neoforge_installer_url(loader_version: &str) -> (r: String)
    ensures
        r@ == installer_url_of(loader_version@),
{
    let mut r = concat3(
        "https://maven.neoforged.net/releases/net/neoforged/neoforge/",
        loader_version,
        "/neoforge-",
    );
    r.append(loader_version);
    r.append("-installer.jar");
    r
}

/// Where the SHA-1 digest of a file on the Maven repository is published.
pub fn checksum_url(url: &str) -> (r: String)
    ensures
        r@ == url@ + ".sha1"@,
{
    concat2(url, ".sha1")
}

/// `data_dir/libraries/net/neoforged/neoforge/v`.
pub open spec fn neoforge_dir(data_dir: Seq<char>, v: Seq<char>) -> Seq<char> {
    path_join(
        path_join(path_join(path_join(path_join(data_dir, "libraries"@), "net"@), "neoforged"@), "neoforge"@),
        v,
    )
}

fn neoforge_file(config: &Config, base: &str, windows: bool, v: &str, suffix: &str) -> (r: Result<String, MinecraftInstallError>)
    ensures
        match resolved_path(config.data_dir@, base@, windows) {
            Err(e) => r matches Err(MinecraftInstallError::Io(m)) && m@ == path_error_message(e),
            Ok(d) => r matches Ok(p) && p@ == path_join(neoforge_dir(d, v@), "neoforge-"@ + v@ + suffix@),
        },
{
    match config.resolved_data_dir(base, windows) {
        Err(e) => Err(MinecraftInstallError::Io(e.message())),
        Ok(d) => {
            let a = join_path(d.as_str(), "libraries");
            let b = join_path(a.as_str(), "net");
            let c = join_path(b.as_str(), "neoforged");
            let n = join_path(c.as_str(), "neoforge");
            let dir = join_path(n.as_str(), v);
            let name = concat3("neoforge-", v, suffix);
            Ok(join_path(dir.as_str(), name.as_str()))
        },
    }
}

/// Where the installer of `loader_version` is kept.
pub fn neoforge_installer_path(config: &Config, base: &str, windows: bool, loader_version: &str) -> (r: Result<
    String,
    MinecraftInstallError,
>)
    ensures
        match resolved_path(config.data_dir@, base@, windows) {
            Err(e) => r matches Err(MinecraftInstallError::Io(m)) && m@ == path_error_message(e),
            Ok(d) => r matches Ok(p) && p@ == path_join(
                neoforge_dir(d, loader_version@),
                "neoforge-"@ + loader_version@ + "-installer.jar"@,
            ),
        },
{
    neoforge_file(config, base, windows, loader_version, "-installer.jar")
}

/// `s` without the prefix `p`, where it has it.
pub open spec fn strip_prefix(s: Seq<char>, p: Seq<char>) -> Seq<char> {
    if starts_with(s, p) {
        s.skip(p.len() as int)
    } else {
        s
    }
}

/// The patched client jar the installer writes for `version_id`.
pub fn neoforge_patched_client_path(config: &Config, base: &str, windows: bool, version_id: &str) -> (r: Result<
    String,
    MinecraftInstallError,
>)
    ensures
        match resolved_path(config.data_dir@, base@, windows) {
            Err(e) => r matches Err(MinecraftInstallError::Io(m)) && m@ == path_error_message(e),
            Ok(d) => r matches Ok(p) && p@ == ({
                let v = strip_prefix(version_id@, "neoforge-"@);
                path_join(neoforge_dir(d, v), "neoforge-"@ + v + "-client.jar"@)
            }),
        },
{
    let id = chars_of(version_id);
    let prefix = chars_of("neoforge-");
    let v = if crate::text::starts_with_chars(&id, &prefix) {
        let rest = sub_chars(&id, prefix.len(), id.len());
        assert(rest@ =~= id@.skip(prefix@.len() as int));
        string_of(&rest)
    } else {
        str_to_string(version_id)
    };
    neoforge_file(config, base, windows, v.as_str(), "-client.jar")
}

/// The metadata file of an installed version.
pub fn version_metadata_path(config: &Config, base: &str, windows: bool, version: &str) -> (r: Result<
    String,
    MinecraftInstallError,
>)
    ensures
        match resolved_path(config.data_dir@, base@, windows) {
            Err(e) => r matches Err(MinecraftInstallError::Io(m)) && m@ == path_error_message(e),
            Ok(d) => r matches Ok(p) && p@ == version_file(d, version@, version@ + ".json"@),
        },
{
    match config.resolved_data_dir(base, windows) {
        Err(e) => Err(MinecraftInstallError::Io(e.message())),
        Ok(d) => {
            let versions = join_path(d.as_str(), "versions");
            let dir = join_path(versions.as_str(), version);
            let name = concat2(version, ".json");
            Ok(join_path(dir.as_str(), name.as_str()))
        },
    }
}

/// The id and parent of an installed loader version, from its metadata.
#[derive(Debug)]
pub struct LoaderVersionDetails {
    pub id: String,
    pub inherits_from: Option<String>,
}

/// An installed loader version is the one expected when its metadata names
/// it and the Minecraft version it builds on.
pub fn loader_details_match(details: &LoaderVersionDetails, version_id: &str, minecraft_version: &str) -> (r: bool)
    ensures
        r == (details.id@ == version_id@ && (details.inherits_from matches Some(p) && p@
            == minecraft_version@)),
{
    if !str_eq(details.id.as_str(), version_id) {
        return false;
    }
    match &details.inherits_from {
        Some(p) => str_eq(p.as_str(), minecraft_version),
        None => false,
    }
}

/// The install is refused when the installer ran but left no complete loader.
pub fn check_installed(version_id: &str, ready: bool) -> (r: Result<(), MinecraftInstallError>)
    ensures
        ready ==> r is Ok,
        !ready ==> (r matches Err(MinecraftInstallError::Validation(m)) && m@
            == "NeoForge installer completed, but "@ + version_id@ + " was not installed correctly"@),
{
    if ready {
        Ok(())
    } else {
        Err(
            MinecraftInstallError::Validation(
                concat3("NeoForge installer completed, but ", version_id, " was not installed correctly"),
            ),
        )
    }
}

/// 40 bytes, each an ASCII hexadecimal digit.
pub open spec fn sha1_text(c: Seq<char>) -> bool {
    encode_utf8(c).len() == 40 && forall|i: int|
        0 <= i < encode_utf8(c).len() ==> is_hex_byte(#[trigger] encode_utf8(c)[i])
}

/// The digest of a `.sha1` file: its first word, which must be 40
/// hexadecimal digits.
pub fn parse_sha1_checksum(text: &str, url: &str) -> (r: Result<String, MinecraftInstallError>)
    ensures
        words(text@).len() == 0 ==> (r matches Err(MinecraftInstallError::InvalidManifest(m)) && m@
            == "empty SHA-1 checksum response: "@ + url@),
        words(text@).len() > 0 && sha1_text(words(text@)[0]) ==> (r matches Ok(c) && c@ == words(
            text@,
        )[0]),
        words(text@).len() > 0 && !sha1_text(words(text@)[0]) ==> (r matches Err(
            MinecraftInstallError::InvalidManifest(m),
        ) && m@ == "invalid SHA-1 checksum response from "@ + url@ + ": "@ + words(text@)[0]),
{
    let chars = chars_of(text);
    let ws = split_whitespace(&chars);
    if ws.len() == 0 {
        return Err(
            MinecraftInstallError::InvalidManifest(concat2("empty SHA-1 checksum response: ", url)),
        );
    }
    let checksum = string_of(&ws[0]);
    let bytes = checksum.as_str().as_bytes();
    let mut ok = bytes.len() == 40;
    let mut i: usize = 0;
    while ok && i < bytes.len()
        invariant
            i <= bytes@.len(),
            bytes@ == encode_utf8(checksum@),
            ok ==> forall|k: int| 0 <= k < i ==> is_hex_byte(#[trigger] bytes@[k]),
            ok ==> bytes@.len() == 40,
            !ok ==> !sha1_text(checksum@),
        decreases bytes.len() - i,
    {
        let b = bytes[i];
        if !((48 <= b && b <= 57) || (65 <= b && b <= 70) || (97 <= b && b <= 102)) {
            ok = false;
        }
        i = i + 1;
    }
    if !ok {
        let mut m = concat3("invalid SHA-1 checksum response from ", url, ": ");
        m.append(checksum.as_str());
        return Err(MinecraftInstallError::InvalidManifest(m));
    }
    Ok(checksum)
}

/// Checks downloaded bytes against the SHA-1 digest expected.
pub fn verify_sha1_download(bytes: &[u8], destination: &str, expected_sha1: &str) -> (r: Result<
    (),
    MinecraftInstallError,
>)
    ensures
        eq_ignore_ascii_case(hex_lower(sha1_digest(bytes@)), expected_sha1@) ==> r is Ok,
        !eq_ignore_ascii_case(hex_lower(sha1_digest(bytes@)), expected_sha1@) ==> (r matches Err(
            MinecraftInstallError::ChecksumMismatch { path, expected, actual },
        ) && path@ == destination@ && expected@ == expected_sha1@ && actual@ == hex_lower(
            sha1_digest(bytes@),
        )),
{
    let actual = sha1_hex(bytes);
    let a = chars_of(actual.as_str());
    let e = chars_of(expected_sha1);
    if eq_ignore_ascii_case_exec(&a, &e) {
        Ok(())
    } else {
        Err(
            MinecraftInstallError::ChecksumMismatch {
                path: str_to_string(destination),
                expected: str_to_string(expected_sha1),
                actual,
            },
        )
    }
}

/// The installer's log file.
pub fn installer_log_path(data_dir: &str, loader_version: &str) -> (r: String)
    ensures
        r@ == path_join(path_join(data_dir@, "logs"@), "neoforge-"@ + loader_version@ + "-installer.log"@),
{
    let logs = join_path(data_dir, "logs");
    let name = concat3("neoforge-", loader_version, "-installer.log");
    join_path(logs.as_str(), name.as_str())
}

/// The error of an installer that exited unsuccessfully, with its exit
/// status as the system words it.
pub fn installer_failed(status: &str, log_path: &str) -> (r: MinecraftInstallError)
    ensures
        r matches MinecraftInstallError::Process(m) && m@ == "NeoForge installer exited with status "@
            + status@ + ". See "@ + log_path@,
{
    let mut m = concat3("NeoForge installer exited with status ", status, ". See ");
    m.append(log_path);
    MinecraftInstallError::Process(m)
}

/// The launcher profiles file the installer expects in the data directory.
pub fn launcher_profiles_path(data_dir: &str) -> (r: String)
    ensures
        r@ == path_join(data_dir@, "launcher_profiles.json"@),
{
    join_path(data_dir, "launcher_profiles.json")
}

/// What is at the profiles path decides: a file is kept, anything else is
/// refused, nothing there means one is written.
pub fn launcher_profiles_step(path: &str, exists: bool, is_file: bool) -> (r: Result<bool, MinecraftInstallError>)
    ensures
        !exists ==> r == Ok::<bool, MinecraftInstallError>(true),
        exists && is_file ==> r == Ok::<bool, MinecraftInstallError>(false),
        exists && !is_file ==> (r matches Err(MinecraftInstallError::Validation(m)) && m@
            == "launcher profile path is not a file: "@ + path@),
{
    if !exists {
        Ok(true)
    } else if is_file {
        Ok(false)
    } else {
        Err(MinecraftInstallError::Validation(concat2("launcher profile path is not a file: ", path)))
    }
}

} // verus!
