//! Installing a Minecraft version and an instance's files: which libraries,
//! natives and assets a version needs, where each download goes and how a
//! downloaded file is checked.
//!
//! The network and the filesystem are the caller's: it fetches and parses
//! the metadata, performs the planned downloads in order and extracts the
//! archives, asking this module at each decision.
use vstd::prelude::*;

use crate::config::{has_drive, join_path, path_error_message, path_join, path_separators, resolved_path, Config};
use crate::instance::{
    find_entry, get_instance_manifest, InstanceManifest, InstanceRegistry, ModLoaderType,
    PackFile, PackFileManifest, UpdatePolicy,
};
use crate::minecraft::error::MinecraftInstallError;
use crate::minecraft::launch::{is_hex_byte, os_rule_matches, version_file, Rule, RuleAction};
use crate::minecraft::platform::{minecraft_os_name, Platform};
use crate::minecraft::progress::InstallPhase;
use crate::text::{
    chars_eq, chars_of, concat2, concat3, concat5, decimal, ends_with, matches_at_exec, replace_all,
    replace_chars, split_by, split_on, starts_with, str_eq, str_to_string, string_of, sub_chars,
    trim, trim_str, u64_to_string, views, is_sep_in,
};
use crate::utils::{hex_lower, sha1_digest, sha1_hex, sha256_digest, sha256_hex};
use vstd::utf8::encode_utf8;

verus! {

// ---------------------------------------------------------------------------
// Version metadata, as far as an install reads it
// ---------------------------------------------------------------------------
/// A file to download: its URL, size and SHA-1 digest, and where it goes
/// below the libraries directory where the metadata says.
#[derive(Debug)]
pub struct DownloadInfo {
    pub sha1: String,
    pub size: u64,
    pub url: String,
    pub path: Option<String>,
}

#[derive(Debug)]
pub struct LibraryDownloads {
    pub artifact: Option<DownloadInfo>,
    /// The native archives by classifier, each classifier once.
    pub classifiers: Option<Vec<(String, DownloadInfo)>>,
}

#[derive(Debug)]
pub struct ExtractRules {
    pub exclude: Option<Vec<String>>,
}

/// A library of a version; `natives` gives the native classifier by
/// Minecraft OS name, each OS once.
#[derive(Debug)]
pub struct Library {
    pub name: String,
    pub downloads: Option<LibraryDownloads>,
    pub rules: Option<Vec<Rule>>,
    pub natives: Option<Vec<(String, String)>>,
    pub extract: Option<ExtractRules>,
}

#[derive(Debug)]
pub struct AssetIndexRef {
    pub id: String,
    pub sha1: String,
    pub size: u64,
    pub url: String,
}

/// An asset of the asset index: its name, digest and size.
#[derive(Debug)]
pub struct AssetObject {
    pub name: String,
    pub hash: String,
    pub size: u64,
}

/// A version of the version manifest.
#[derive(Debug)]
pub struct VersionSummary {
    pub id: String,
    pub url: String,
    pub sha1: Option<String>,
}

/// A version's metadata: the client download, the libraries, the asset
/// index and the Java major version it asks for.
#[derive(Debug)]
pub struct VersionDetails {
    pub id: String,
    pub client: DownloadInfo,
    pub libraries: Vec<Library>,
    pub asset_index: AssetIndexRef,
    pub java_major_version: Option<u32>,
}

// ---------------------------------------------------------------------------
// Rules
// ---------------------------------------------------------------------------
/// A rule matches when its OS matches and it asks for no feature: an
/// install sets none.
pub open spec fn install_rule_matches(rule: Rule, platform: Platform) -> bool {
    (rule.os matches Some(os) ==> os_rule_matches(os, platform)) && (rule.features matches Some(
        f,
    ) ==> f@.len() == 0)
}

pub open spec fn install_rules_allow(rules: Seq<Rule>, platform: Platform) -> bool
    decreases rules.len(),
{
    if rules.len() == 0 {
        false
    } else if install_rule_matches(rules.last(), platform) {
        rules.last().action == RuleAction::Allow
    } else {
        install_rules_allow(rules.drop_last(), platform)
    }
}

/// Whether a library is installed on `platform`.
pub open spec fn library_allowed(lib: Library, platform: Platform) -> bool {
    match lib.rules {
        None => true,
        Some(r) => install_rules_allow(r@, platform),
    }
}

pub fn library_is_allowed(lib: &Library, platform: &Platform) -> (r: bool)
    ensures
        r == library_allowed(*lib, *platform),
{
    match &lib.rules {
        None => true,
        Some(rs) => {
            let mut allowed = false;
            let mut i: usize = 0;
            while i < rs.len()
                invariant
                    i <= rs.len(),
                    allowed == install_rules_allow(rs@.take(i as int), *platform),
                decreases rs.len() - i,
            {
                assert(rs@.take(i + 1).drop_last() =~= rs@.take(i as int));
                assert(rs@.take(i + 1).last() == rs@[i as int]);
                let rule = &rs[i];
                let os_ok = match &rule.os {
                    Some(os) => os_matches(os, platform),
                    None => true,
                };
                let features_ok = match &rule.features {
                    Some(f) => f.len() == 0,
                    None => true,
                };
                if os_ok && features_ok {
                    allowed = rule.action == RuleAction::Allow;
                }
                i = i + 1;
            }
            assert(rs@.take(rs.len() as int) =~= rs@);
            allowed
        },
    }
}

fn os_matches(os: &crate::minecraft::launch::RuleOs, platform: &Platform) -> (r: bool)
    ensures
        r == os_rule_matches(*os, *platform),
{
    let name_ok = match &os.name {
        Some(n) => {
            let current = platform.current_minecraft_os_name();
            str_eq(n.as_str(), current.as_str())
        },
        None => true,
    };
    let arch_ok = match &os.arch {
        Some(a) => str_eq(a.as_str(), platform.arch.as_str()),
        None => true,
    };
    name_ok && arch_ok
}

// ---------------------------------------------------------------------------
// Native classifiers
// ---------------------------------------------------------------------------
/// The value given for `key`; none where it is not given.
pub open spec fn lookup(pairs: Seq<(String, String)>, key: Seq<char>) -> Option<Seq<char>>
    decreases pairs.len(),
{
    if pairs.len() == 0 {
        None
    } else if pairs[0].0@ == key {
        Some(pairs[0].1@)
    } else {
        lookup(pairs.drop_first(), key)
    }
}

fn lookup_exec(pairs: &Vec<(String, String)>, key: &str) -> (r: Option<String>)
    ensures
        match r {
            Some(v) => lookup(pairs@, key@) == Some(v@),
            None => lookup(pairs@, key@) is None,
        },
{
    let mut i: usize = 0;
    assert(pairs@.skip(0) =~= pairs@);
    while i < pairs.len()
        invariant
            i <= pairs.len(),
            lookup(pairs@, key@) == lookup(pairs@.skip(i as int), key@),
        decreases pairs.len() - i,
    {
        assert(pairs@.skip(i as int)[0] == pairs@[i as int]);
        assert(pairs@.skip(i as int).drop_first() =~= pairs@.skip(i + 1));
        if str_eq(pairs[i].0.as_str(), key) {
            return Some(pairs[i].1.clone());
        }
        i = i + 1;
    }
    None
}

/// The native classifier of a library for `platform`, with `${arch}`
/// replaced by the pointer width.
pub open spec fn native_classifier_of(lib: Library, platform: Platform) -> Option<Seq<char>> {
    match lib.natives {
        None => None,
        Some(n) => match lookup(n@, minecraft_os_name(platform.os@)) {
            None => None,
            Some(c) => Some(replace_all(c, "${arch}"@, decimal(platform.pointer_width as nat))),
        },
    }
}

pub fn native_classifier_for_current_os(lib: &Library, platform: &Platform) -> (r: Option<String>)
    ensures
        match r {
            Some(c) => native_classifier_of(*lib, *platform) == Some(c@),
            None => native_classifier_of(*lib, *platform) is None,
        },
{
    let natives = match &lib.natives {
        Some(n) => n,
        None => return None,
    };
    let os = platform.current_minecraft_os_name();
    let classifier = match lookup_exec(natives, os.as_str()) {
        Some(c) => c,
        None => return None,
    };
    let bits = platform.current_arch_bits();
    let pattern = chars_of("${arch}");
    proof {
        reveal_strlit("${arch}");
    }
    let chars = chars_of(classifier.as_str());
    let with = chars_of(bits.as_str());
    Some(string_of(&replace_chars(&chars, &pattern, &with)))
}

pub open spec fn colon() -> spec_fn(char) -> bool {
    |c: char| c == ':'
}

/// The fourth `:`-separated part of a library's name, where it starts with
/// `natives-`.
pub open spec fn native_artifact_classifier_of(name: Seq<char>) -> Option<Seq<char>> {
    let parts = split_by(name, is_sep_in(seq![':']));
    if parts.len() > 3 && starts_with(parts[3], "natives-"@) {
        Some(parts[3])
    } else {
        None
    }
}

pub fn native_artifact_classifier(lib: &Library) -> (r: Option<String>)
    ensures
        match r {
            Some(c) => native_artifact_classifier_of(lib.name@) == Some(c@),
            None => native_artifact_classifier_of(lib.name@) is None,
        },
{
    let name = chars_of(lib.name.as_str());
    let mut seps: Vec<char> = Vec::new();
    seps.push(':');
    assert(seps@ =~= seq![':']);
    let parts = split_on(&name, &seps);
    if parts.len() > 3 {
        let prefix = chars_of("natives-");
        if crate::text::starts_with_chars(&parts[3], &prefix) {
            return Some(string_of(&parts[3]));
        }
    }
    None
}

// ---------------------------------------------------------------------------
// Native archive entries
// ---------------------------------------------------------------------------
/// `s` with each `\` turned into `/`.
pub open spec fn forward_slashes(s: Seq<char>) -> Seq<char> {
    replace_all(s, seq!['\\'], seq!['/'])
}

fn forward_slashes_exec(s: &str) -> (r: Vec<char>)
    ensures
        r@ == forward_slashes(s@),
{
    let chars = chars_of(s);
    let mut from: Vec<char> = Vec::new();
    from.push('\\');
    let mut to: Vec<char> = Vec::new();
    to.push('/');
    assert(from@ =~= seq!['\\']);
    assert(to@ =~= seq!['/']);
    replace_chars(&chars, &from, &to)
}

/// Whether an archive entry is left out by the exclusion `exclude`: a
/// directory exclusion (ending in `/`) covers what lies under it, another
/// covers the entry of that exact name; an empty one covers nothing.
pub open spec fn entry_matches_exclude(entry: Seq<char>, exclude: Seq<char>) -> bool {
    let x = forward_slashes(exclude);
    if x.len() == 0 {
        false
    } else if ends_with(x, "/"@) {
        starts_with(entry, x)
    } else {
        entry == x
    }
}

pub fn native_entry_matches_exclude(entry_name: &Vec<char>, exclude: &str) -> (r: bool)
    ensures
        r == entry_matches_exclude(entry_name@, exclude@),
{
    let x = forward_slashes_exec(exclude);
    if x.len() == 0 {
        return false;
    }
    let slash = chars_of("/");
    proof {
        reveal_strlit("/");
    }
    if crate::text::ends_with_chars(&x, &slash) {
        crate::text::starts_with_chars(entry_name, &x)
    } else {
        chars_eq(entry_name, &x)
    }
}

/// Some exclusion of `xs` covers `entry`.
pub open spec fn any_exclude_matches(xs: Seq<String>, entry: Seq<char>) -> bool {
    exists|i: int| 0 <= i < xs.len() && entry_matches_exclude(entry, #[trigger] xs[i]@)
}

/// Whether an entry of a native archive is not extracted: what lies under
/// `META-INF/`, and what an exclusion of the library covers.
pub open spec fn skips_native_entry(entry: Seq<char>, extract: Option<ExtractRules>) -> bool {
    let e = forward_slashes(entry);
    if starts_with(e, "META-INF/"@) {
        true
    } else {
        match extract {
            None => false,
            Some(rules) => match rules.exclude {
                None => false,
                Some(xs) => any_exclude_matches(xs@, e),
            },
        }
    }
}

pub fn should_skip_native_entry(entry_name: &str, extract: Option<&ExtractRules>) -> (r: bool)
    ensures
        r == skips_native_entry(
            entry_name@,
            match extract {
                Some(x) => Some(*x),
                None => None,
            },
        ),
{
    let e = forward_slashes_exec(entry_name);
    let meta = chars_of("META-INF/");
    if crate::text::starts_with_chars(&e, &meta) {
        return true;
    }
    let rules = match extract {
        Some(x) => x,
        None => return false,
    };
    let excludes = match &rules.exclude {
        Some(xs) => xs,
        None => return false,
    };
    let mut i: usize = 0;
    while i < excludes.len()
        invariant
            i <= excludes.len(),
            e@ == forward_slashes(entry_name@),
            !starts_with(e@, "META-INF/"@),
            extract == Some(rules),
            rules.exclude == Some(*excludes),
            forall|k: int| 0 <= k < i ==> !entry_matches_exclude(e@, #[trigger] excludes@[k]@),
        decreases excludes.len() - i,
    {
        if native_entry_matches_exclude(&e, excludes[i].as_str()) {
            assert(entry_matches_exclude(e@, excludes@[i as int]@));
            assert(any_exclude_matches(excludes@, e@));
            return true;
        }
        i = i + 1;
    }
    false
}

// ---------------------------------------------------------------------------
// Paths and checks
// ---------------------------------------------------------------------------
pub proof fn lemma_encode_utf8_len(s: Seq<char>)
    ensures
        encode_utf8(s).len() <= 4 * s.len(),
    decreases s.len(),
{
    if s.len() > 0 {
        lemma_encode_utf8_len(s.drop_first());
    }
}

/// 40 bytes, each an ASCII hexadecimal digit.
pub open spec fn valid_sha1_hash(h: Seq<char>) -> bool {
    encode_utf8(h).len() == 40 && forall|i: int|
        0 <= i < encode_utf8(h).len() ==> is_hex_byte(#[trigger] encode_utf8(h)[i])
}

/// The directory an asset is stored under: the first two digits of its
/// SHA-1 digest.
pub fn sha1_prefix(hash: &str, asset_name: &str) -> (r: Result<String, MinecraftInstallError>)
    ensures
        valid_sha1_hash(hash@) ==> (r matches Ok(p) && p@ == hash@.take(2)),
        !valid_sha1_hash(hash@) ==> (r matches Err(MinecraftInstallError::Validation(m)) && m@
            == "asset "@ + asset_name@ + " has an invalid SHA-1 hash: "@ + hash@),
{
    let bytes = hash.as_bytes();
    let mut ok = bytes.len() == 40;
    let mut i: usize = 0;
    while ok && i < bytes.len()
        invariant
            i <= bytes@.len(),
            bytes@ == encode_utf8(hash@),
            ok ==> forall|k: int| 0 <= k < i ==> is_hex_byte(#[trigger] bytes@[k]),
            ok ==> bytes@.len() == 40,
            !ok ==> !valid_sha1_hash(hash@),
        decreases bytes.len() - i,
    {
        let b = bytes[i];
        if !((48 <= b && b <= 57) || (65 <= b && b <= 70) || (97 <= b && b <= 102)) {
            ok = false;
        }
        i = i + 1;
    }
    if !ok {
        let mut m = concat3("asset ", asset_name, " has an invalid SHA-1 hash: ");
        m.append(hash);
        return Err(MinecraftInstallError::Validation(m));
    }
    proof {
        lemma_encode_utf8_len(hash@);
    }
    let chars = chars_of(hash);
    let head = sub_chars(&chars, 0, 2);
    assert(head@ =~= hash@.take(2));
    Ok(string_of(&head))
}

pub open spec fn slash() -> spec_fn(char) -> bool {
    is_sep_in(seq!['/'])
}

/// The components of a path, split at its separators: `/`, and on Windows
/// `\\` too.
pub open spec fn path_pieces(p: Seq<char>, windows: bool) -> Seq<Seq<char>> {
    if windows {
        split_by(p, is_sep_in(path_separators()))
    } else {
        split_by(p, slash())
    }
}

/// A relative path that stays inside the directory it is joined to, as
/// `Path::components` reads it: no root (it does not start with a
/// separator), on Windows no drive prefix, and no component is `..`.
pub open spec fn safe_relative(p: Seq<char>, windows: bool) -> bool {
    &&& !(p.len() > 0 && (p[0] == '/' || (windows && p[0] == '\\')))
    &&& !(windows && has_drive(p))
    &&& forall|i: int|
        0 <= i < path_pieces(p, windows).len() ==> #[trigger] path_pieces(p, windows)[i] != ".."@
}

pub fn is_safe_relative_path(path: &str, windows: bool) -> (r: bool)
    ensures
        r == safe_relative(path@, windows),
{
    let chars = chars_of(path);
    if chars.len() > 0 && (chars[0] == '/' || (windows && chars[0] == '\\')) {
        return false;
    }
    if windows && chars.len() >= 2 && (('a' <= chars[0] && chars[0] <= 'z') || ('A' <= chars[0] && chars[0] <= 'Z'))
        && chars[1] == ':' {
        return false;
    }
    let mut seps: Vec<char> = Vec::new();
    seps.push('/');
    if windows {
        seps.push('\\');
        assert(seps@ =~= path_separators());
    } else {
        assert(seps@ =~= seq!['/']);
    }
    let parts = split_on(&chars, &seps);
    let ghost pieces = path_pieces(path@, windows);
    assert(views(parts@) == pieces);
    let dots = chars_of("..");
    let mut i: usize = 0;
    while i < parts.len()
        invariant
            i <= parts.len(),
            dots@ == ".."@,
            views(parts@) == pieces,
            pieces == path_pieces(path@, windows),
            forall|k: int| 0 <= k < i ==> #[trigger] pieces[k] != ".."@,
        decreases parts.len() - i,
    {
        assert(parts@[i as int]@ == pieces[i as int]);
        if chars_eq(&parts[i], &dots) {
            return false;
        }
        i = i + 1;
    }
    true
}

/// Where a pack file goes in the game directory.
pub fn pack_file_destination(game_dir: &str, file: &PackFile, windows: bool) -> (r: Result<String, MinecraftInstallError>)
    ensures
        trim(file.path@).len() == 0 ==> (r matches Err(MinecraftInstallError::Validation(m)) && m@
            == "pack file path cannot be empty"@),
        trim(file.path@).len() > 0 && !safe_relative(file.path@, windows) ==> (r matches Err(
            MinecraftInstallError::Validation(m),
        ) && m@ == "pack file path is not safe: "@ + file.path@),
        trim(file.path@).len() > 0 && safe_relative(file.path@, windows) ==> (r matches Ok(p) && p@
            == path_join(game_dir@, file.path@)),
{
    let t = trim_str(file.path.as_str());
    if t.len() == 0 {
        return Err(MinecraftInstallError::Validation(str_to_string("pack file path cannot be empty")));
    }
    if !is_safe_relative_path(file.path.as_str(), windows) {
        return Err(
            MinecraftInstallError::Validation(
                concat2("pack file path is not safe: ", file.path.as_str()),
            ),
        );
    }
    Ok(join_path(game_dir, file.path.as_str()))
}

/// A pack file that is installed only if missing is left alone where it
/// exists; any other is downloaded (unless already valid).
pub fn pack_file_is_kept(policy: &UpdatePolicy, exists: bool) -> (r: bool)
    ensures
        r == (*policy is InstallIfMissing && exists),
{
    match policy {
        UpdatePolicy::InstallIfMissing => exists,
        UpdatePolicy::Replace => false,
    }
}

/// The pack file manifest must be the one of this instance and version.
pub fn validate_pack_manifest_for_install(instance: &InstanceManifest, pack: &PackFileManifest) -> (r: Result<(), MinecraftInstallError>)
    ensures
        pack.instance_id@ != instance.id@ ==> (r matches Err(MinecraftInstallError::InvalidManifest(m))
            && m@ == "pack file manifest instance id '"@ + pack.instance_id@ + "' does not match '"@
            + instance.id@ + "'"@),
        pack.instance_id@ == instance.id@ && pack.pack_version@ != instance.pack_version@ ==> (r matches Err(
            MinecraftInstallError::InvalidManifest(m),
        ) && m@ == "pack file manifest version '"@ + pack.pack_version@ + "' does not match '"@
            + instance.pack_version@ + "'"@),
        pack.instance_id@ == instance.id@ && pack.pack_version@ == instance.pack_version@ ==> r is Ok,
{
    if !str_eq(pack.instance_id.as_str(), instance.id.as_str()) {
        return Err(
            MinecraftInstallError::InvalidManifest(
                concat5(
                    "pack file manifest instance id '",
                    pack.instance_id.as_str(),
                    "' does not match '",
                    instance.id.as_str(),
                    "'",
                ),
            ),
        );
    }
    if !str_eq(pack.pack_version.as_str(), instance.pack_version.as_str()) {
        return Err(
            MinecraftInstallError::InvalidManifest(
                concat5(
                    "pack file manifest version '",
                    pack.pack_version.as_str(),
                    "' does not match '",
                    instance.pack_version.as_str(),
                    "'",
                ),
            ),
        );
    }
    Ok(())
}

/// The mod loader an instance needs installed: the NeoForge version, none
/// without a loader; other loaders are refused.
pub fn mod_loader_step(instance: &InstanceManifest) -> (r: Result<Option<String>, MinecraftInstallError>)
    ensures
        match instance.loader {
            None => r matches Ok(None),
            Some(l) => match l.loader_type {
                ModLoaderType::NeoForge => r matches Ok(Some(v)) && v@ == l.version@,
                ModLoaderType::Forge => r matches Err(MinecraftInstallError::Validation(m)) && m@
                    == "unsupported mod loader for instance install: Forge"@,
                ModLoaderType::Fabric => r matches Err(MinecraftInstallError::Validation(m)) && m@
                    == "unsupported mod loader for instance install: Fabric"@,
            },
        },
{
    match &instance.loader {
        None => Ok(None),
        Some(l) => match l.loader_type {
            ModLoaderType::NeoForge => Ok(Some(l.version.clone())),
            ModLoaderType::Forge => Err(
                MinecraftInstallError::Validation(
                    str_to_string("unsupported mod loader for instance install: Forge"),
                ),
            ),
            ModLoaderType::Fabric => Err(
                MinecraftInstallError::Validation(
                    str_to_string("unsupported mod loader for instance install: Fabric"),
                ),
            ),
        },
    }
}

/// The manifest of an installed instance.
pub fn installed_instance_manifest(reg: &InstanceRegistry, instance_id: &str) -> (r: Result<InstanceManifest, MinecraftInstallError>)
    ensures
        match find_entry(reg.instances@, instance_id@) {
            Some(e) if e.instance_manifest is Some => r matches Ok(m) && Some(m) == e.instance_manifest,
            _ => r matches Err(MinecraftInstallError::Validation(m)) && m@ == "instance is not installed: "@
                + instance_id@,
        },
{
    match get_instance_manifest(reg, instance_id) {
        Some(m) => Ok(m),
        None => Err(MinecraftInstallError::Validation(concat2("instance is not installed: ", instance_id))),
    }
}

/// A Minecraft version to install must be named.
pub fn check_minecraft_version(version: &str) -> (r: Result<(), MinecraftInstallError>)
    ensures
        trim(version@).len() == 0 ==> (r matches Err(MinecraftInstallError::Validation(m)) && m@
            == "Minecraft version cannot be empty"@),
        trim(version@).len() > 0 ==> r is Ok,
{
    let t = trim_str(version);
    if t.len() == 0 {
        Err(MinecraftInstallError::Validation(str_to_string("Minecraft version cannot be empty")))
    } else {
        Ok(())
    }
}

/// The first version of the version manifest with the id `version`.
pub fn find_version(versions: &Vec<VersionSummary>, version: &str) -> (r: Result<usize, MinecraftInstallError>)
    ensures
        match r {
            Ok(i) => i < versions.len() && versions@[i as int].id@ == version@ && forall|k: int|
                0 <= k < i ==> #[trigger] versions@[k].id@ != version@,
            Err(e) => (e matches MinecraftInstallError::MissingVersion(v) && v@ == version@)
                && forall|k: int| 0 <= k < versions.len() ==> #[trigger] versions@[k].id@ != version@,
        },
{
    let mut i: usize = 0;
    while i < versions.len()
        invariant
            i <= versions.len(),
            forall|k: int| 0 <= k < i ==> #[trigger] versions@[k].id@ != version@,
        decreases versions.len() - i,
    {
        if str_eq(versions[i].id.as_str(), version) {
            return Ok(i);
        }
        i = i + 1;
    }
    Err(MinecraftInstallError::MissingVersion(str_to_string(version)))
}

/// The directories an install fills, in the data directory of `config`:
/// assets, libraries, versions and runtimes.
pub fn installation_dirs(config: &Config, base: &str, windows: bool) -> (r: Result<Vec<String>, MinecraftInstallError>)
    ensures
        match resolved_path(config.data_dir@, base@, windows) {
            Err(e) => r matches Err(MinecraftInstallError::Io(m)) && m@ == path_error_message(e),
            Ok(d) => r matches Ok(v) && crate::minecraft::launch::strs(v@) == seq![
                path_join(d, "assets"@),
                path_join(d, "libraries"@),
                path_join(d, "versions"@),
                path_join(d, "runtimes"@),
            ],
        },
{
    match config.resolved_data_dir(base, windows) {
        Err(e) => Err(MinecraftInstallError::Io(e.message())),
        Ok(d) => {
            let mut v: Vec<String> = Vec::new();
            v.push(join_path(d.as_str(), "assets"));
            v.push(join_path(d.as_str(), "libraries"));
            v.push(join_path(d.as_str(), "versions"));
            v.push(join_path(d.as_str(), "runtimes"));
            assert(crate::minecraft::launch::strs(v@) =~= seq![
                path_join(d@, "assets"@),
                path_join(d@, "libraries"@),
                path_join(d@, "versions"@),
                path_join(d@, "runtimes"@),
            ]);
            Ok(v)
        },
    }
}

/// The directory of a version in the data directory of `config`.
pub fn version_dir(config: &Config, base: &str, windows: bool, version: &str) -> (r: Result<String, MinecraftInstallError>)
    ensures
        match resolved_path(config.data_dir@, base@, windows) {
            Err(e) => r matches Err(MinecraftInstallError::Io(m)) && m@ == path_error_message(e),
            Ok(d) => r matches Ok(p) && p@ == path_join(path_join(d, "versions"@), version@),
        },
{
    match config.resolved_data_dir(base, windows) {
        Err(e) => Err(MinecraftInstallError::Io(e.message())),
        Ok(d) => {
            let versions = join_path(d.as_str(), "versions");
            Ok(join_path(versions.as_str(), version))
        },
    }
}

// ---------------------------------------------------------------------------
// Downloads
// ---------------------------------------------------------------------------
/// A file to fetch: from `url` to `destination`, of `size` bytes with the
/// digest `hash` (SHA-1, or SHA-256 for pack files), reported under
/// `phase` with `label` and `current_file`.
#[derive(Debug)]
pub struct PlannedDownload {
    pub url: String,
    pub destination: String,
    pub size: u64,
    pub hash: String,
    pub phase: InstallPhase,
    pub label: String,
    pub current_file: String,
}

pub type DownloadView = (Seq<char>, Seq<char>, u64, Seq<char>, InstallPhase, Seq<char>, Seq<char>);

impl View for PlannedDownload {
    type V = DownloadView;

    open spec fn view(&self) -> DownloadView {
        (
            self.url@,
            self.destination@,
            self.size,
            self.hash@,
            self.phase,
            self.label@,
            self.current_file@,
        )
    }
}

pub open spec fn download_views(v: Seq<PlannedDownload>) -> Seq<DownloadView> {
    Seq::new(v.len(), |i: int| v[i]@)
}

/// The client jar of a version.
pub fn client_jar_download(data_dir: &str, details: &VersionDetails) -> (r: PlannedDownload)
    ensures
        r@ == ({
            let jar = version_file(data_dir@, details.id@, details.id@ + ".jar"@);
            (
                details.client.url@,
                jar,
                details.client.size,
                details.client.sha1@,
                InstallPhase::MinecraftClient,
                "Downloading Minecraft "@ + details.id@,
                jar,
            )
        }),
{
    let versions = join_path(data_dir, "versions");
    let dir = join_path(versions.as_str(), details.id.as_str());
    let name = concat2(details.id.as_str(), ".jar");
    let jar = join_path(dir.as_str(), name.as_str());
    PlannedDownload {
        url: details.client.url.clone(),
        destination: jar.clone(),
        size: details.client.size,
        hash: details.client.sha1.clone(),
        phase: InstallPhase::MinecraftClient,
        label: concat2("Downloading Minecraft ", details.id.as_str()),
        current_file: jar,
    }
}

/// The asset index of a version, into `assets_dir/indexes`.
pub fn asset_index_download(assets_dir: &str, details: &VersionDetails) -> (r: PlannedDownload)
    ensures
        r@ == ({
            let index = path_join(path_join(assets_dir@, "indexes"@), details.asset_index.id@ + ".json"@);
            (
                details.asset_index.url@,
                index,
                details.asset_index.size,
                details.asset_index.sha1@,
                InstallPhase::MinecraftAssets,
                "Downloading Minecraft asset index "@ + details.asset_index.id@,
                index,
            )
        }),
{
    let indexes = join_path(assets_dir, "indexes");
    let name = concat2(details.asset_index.id.as_str(), ".json");
    let index = join_path(indexes.as_str(), name.as_str());
    PlannedDownload {
        url: details.asset_index.url.clone(),
        destination: index.clone(),
        size: details.asset_index.size,
        hash: details.asset_index.sha1.clone(),
        phase: InstallPhase::MinecraftAssets,
        label: concat2("Downloading Minecraft asset index ", details.asset_index.id.as_str()),
        current_file: index,
    }
}

/// The artifact download of a library whose artifact names a path.
pub open spec fn library_download(lib: Library, d: DownloadInfo, p: Seq<char>, libraries_dir: Seq<char>) -> DownloadView {
    (
        d.url@,
        path_join(libraries_dir, p),
        d.size,
        d.sha1@,
        InstallPhase::MinecraftLibraries,
        "Downloading Minecraft library "@ + lib.name@,
        p,
    )
}

/// The library downloads from the `i`-th library on, in order, up to the
/// first allowed library whose artifact has no path (whose name comes as the
/// error): libraries that are not allowed here, or have no artifact, are
/// passed over.
pub open spec fn library_plan(libs: Seq<Library>, i: int, libraries_dir: Seq<char>, platform: Platform) -> (
    Seq<DownloadView>,
    Option<Seq<char>>,
)
    decreases libs.len() - i,
{
    if i < 0 || i >= libs.len() {
        (Seq::empty(), None)
    } else {
        let lib = libs[i];
        let rest = library_plan(libs, i + 1, libraries_dir, platform);
        if !library_allowed(lib, platform) {
            rest
        } else {
            match lib.downloads {
                None => rest,
                Some(dl) => match dl.artifact {
                    None => rest,
                    Some(a) => match a.path {
                        None => (Seq::empty(), Some(lib.name@)),
                        Some(p) => (seq![library_download(lib, a, p@, libraries_dir)] + rest.0, rest.1),
                    },
                },
            }
        }
    }
}

/// Whether `d` is the download that the artifact of `lib`, allowed on
/// `platform`, asks for.
pub open spec fn download_of_allowed_library(
    lib: Library,
    d: DownloadView,
    libraries_dir: Seq<char>,
    platform: Platform,
) -> bool {
    &&& library_allowed(lib, platform)
    &&& lib.downloads matches Some(dl)
    &&& dl.artifact matches Some(a)
    &&& a.path matches Some(p)
    &&& d == library_download(lib, a, p@, libraries_dir)
}

/// Where planning succeeds, every library allowed on the platform whose
/// artifact names a path is downloaded: its artifact's download is in the
/// plan.
pub proof fn law_allowed_libraries_are_downloaded(
    libs: Seq<Library>,
    i: int,
    libraries_dir: Seq<char>,
    platform: Platform,
    j: int,
    d: DownloadView,
)
    requires
        0 <= i <= j < libs.len(),
        library_plan(libs, i, libraries_dir, platform).1 is None,
        download_of_allowed_library(libs[j], d, libraries_dir, platform),
    ensures
        library_plan(libs, i, libraries_dir, platform).0.contains(d),
    decreases j - i,
{
    let plan = library_plan(libs, i, libraries_dir, platform);
    let rest = library_plan(libs, i + 1, libraries_dir, platform);
    if i == j {
        assert(plan.0[0] == d);
    } else {
        if rest.1 is Some {
            assert(plan.1 is Some);
        }
        law_allowed_libraries_are_downloaded(libs, i + 1, libraries_dir, platform, j, d);
        let k = choose|k: int| 0 <= k < rest.0.len() && rest.0[k] == d;
        if plan.0 == rest.0 {
            assert(plan.0[k] == d);
        } else {
            assert(plan.0[k + 1] == d);
        }
    }
}

/// Every library download planned comes from a library of the version that
/// is allowed on the platform, and is that library's artifact: a library
/// whose rules disallow the platform contributes nothing.
pub proof fn law_library_downloads_are_allowed(
    libs: Seq<Library>,
    i: int,
    libraries_dir: Seq<char>,
    platform: Platform,
)
    ensures
        forall|k: int|
            #![trigger library_plan(libs, i, libraries_dir, platform).0[k]]
            0 <= k < library_plan(libs, i, libraries_dir, platform).0.len() ==> exists|j: int|
                i <= j < libs.len() && download_of_allowed_library(
                    #[trigger] libs[j],
                    library_plan(libs, i, libraries_dir, platform).0[k],
                    libraries_dir,
                    platform,
                ),
    decreases libs.len() - i,
{
    if 0 <= i < libs.len() {
        law_library_downloads_are_allowed(libs, i + 1, libraries_dir, platform);
        let plan = library_plan(libs, i, libraries_dir, platform).0;
        let rest = library_plan(libs, i + 1, libraries_dir, platform).0;
        assert forall|k: int| #![trigger plan[k]] 0 <= k < plan.len() implies exists|j: int|
            i <= j < libs.len() && download_of_allowed_library(
                #[trigger] libs[j],
                plan[k],
                libraries_dir,
                platform,
            ) by {
            if plan == rest {
                let j = choose|j: int|
                    i + 1 <= j < libs.len() && download_of_allowed_library(
                        #[trigger] libs[j],
                        rest[k],
                        libraries_dir,
                        platform,
                    );
                assert(download_of_allowed_library(libs[j], plan[k], libraries_dir, platform));
            } else if k == 0 {
                assert(download_of_allowed_library(libs[i], plan[k], libraries_dir, platform));
            } else {
                assert(plan[k] == rest[k - 1]);
                let j = choose|j: int|
                    i + 1 <= j < libs.len() && download_of_allowed_library(
                        #[trigger] libs[j],
                        rest[k - 1],
                        libraries_dir,
                        platform,
                    );
                assert(download_of_allowed_library(libs[j], plan[k], libraries_dir, platform));
            }
        }
    }
}

/// The last rule that matches the platform decides whether a library is
/// installed: it is where that rule allows and not where it disallows, and
/// where no rule matches it is not; a library without rules is installed
/// everywhere.
pub proof fn law_last_matching_rule_decides(lib: Library, platform: Platform)
    ensures
        lib.rules is None ==> library_allowed(lib, platform),
        lib.rules matches Some(rs) ==> {
            let r = rs@;
            &&& (forall|i: int| 0 <= i < r.len() ==> !install_rule_matches(#[trigger] r[i], platform))
                ==> !library_allowed(lib, platform)
            &&& forall|k: int|
                0 <= k < r.len() && install_rule_matches(#[trigger] r[k], platform) && (forall|i: int|
                    k < i < r.len() ==> !install_rule_matches(#[trigger] r[i], platform)) ==> (library_allowed(
                    lib,
                    platform,
                ) <==> r[k].action == RuleAction::Allow)
        },
{
    if let Some(rs) = lib.rules {
        let r = rs@;
        lemma_no_rule_matches(r, platform);
        assert forall|k: int|
            0 <= k < r.len() && install_rule_matches(#[trigger] r[k], platform) && (forall|i: int|
                k < i < r.len() ==> !install_rule_matches(#[trigger] r[i], platform)) implies (library_allowed(
            lib,
            platform,
        ) <==> r[k].action == RuleAction::Allow) by {
            lemma_last_matching_rule(r, platform, k);
        }
    }
}

proof fn lemma_no_rule_matches(r: Seq<Rule>, platform: Platform)
    ensures
        (forall|i: int| 0 <= i < r.len() ==> !install_rule_matches(#[trigger] r[i], platform))
            ==> !install_rules_allow(r, platform),
    decreases r.len(),
{
    if r.len() > 0 {
        if forall|i: int| 0 <= i < r.len() ==> !install_rule_matches(#[trigger] r[i], platform) {
            assert(r.last() == r[r.len() - 1]);
            assert forall|i: int| 0 <= i < r.drop_last().len() implies !install_rule_matches(
                #[trigger] r.drop_last()[i],
                platform,
            ) by {
                assert(r.drop_last()[i] == r[i]);
            }
        }
        lemma_no_rule_matches(r.drop_last(), platform);
    }
}

proof fn lemma_last_matching_rule(r: Seq<Rule>, platform: Platform, k: int)
    requires
        0 <= k < r.len(),
        install_rule_matches(r[k], platform),
        forall|i: int| k < i < r.len() ==> !install_rule_matches(#[trigger] r[i], platform),
    ensures
        install_rules_allow(r, platform) == (r[k].action == RuleAction::Allow),
    decreases r.len(),
{
    assert(r.last() == r[r.len() - 1]);
    if k < r.len() - 1 {
        assert(!install_rule_matches(r[r.len() - 1], platform));
        assert forall|i: int| k < i < r.drop_last().len() implies !install_rule_matches(
            #[trigger] r.drop_last()[i],
            platform,
        ) by {
            assert(r.drop_last()[i] == r[i]);
        }
        assert(r.drop_last()[k] == r[k]);
        lemma_last_matching_rule(r.drop_last(), platform, k);
    }
}

/// A library is installed only where a rule that allows it matches the
/// platform: a library whose allowing rules all name another operating
/// system (as `osx` names macOS) is not installed.
pub proof fn law_rules_for_other_systems_disallow(rules: Seq<Rule>, platform: Platform)
    requires
        forall|i: int|
            0 <= i < rules.len() && (#[trigger] rules[i]).action == RuleAction::Allow ==> (rules[i].os matches Some(
                o,
            ) && o.name matches Some(n) && n@ != minecraft_os_name(platform.os@)),
    ensures
        !install_rules_allow(rules, platform),
    decreases rules.len(),
{
    if rules.len() > 0 {
        assert(rules.last() == rules[rules.len() - 1]);
        assert forall|i: int|
            0 <= i < rules.drop_last().len() && (#[trigger] rules.drop_last()[i]).action == RuleAction::Allow implies (
            rules.drop_last()[i].os matches Some(o) && o.name matches Some(n) && n@ != minecraft_os_name(
                platform.os@,
            )) by {
            assert(rules.drop_last()[i] == rules[i]);
        }
        law_rules_for_other_systems_disallow(rules.drop_last(), platform);
    }
}

/// The library downloads of a version, and the error that stops them.
pub fn library_downloads(details: &VersionDetails, libraries_dir: &str, platform: &Platform) -> (r: (
    Vec<PlannedDownload>,
    Option<MinecraftInstallError>,
))
    ensures
        ({
            let plan = library_plan(details.libraries@, 0, libraries_dir@, *platform);
            &&& download_views(r.0@) == plan.0
            &&& match plan.1 {
                None => r.1 is None,
                Some(name) => r.1 matches Some(MinecraftInstallError::MissingDownload { version, artifact })
                    && version@ == details.id@ && artifact@ == name,
            }
        }),
{
    let libs = &details.libraries;
    let ghost all = library_plan(libs@, 0, libraries_dir@, *platform);
    let mut out: Vec<PlannedDownload> = Vec::new();
    let mut i: usize = 0;
    while i < libs.len()
        invariant
            i <= libs.len(),
            libs@ == details.libraries@,
            all == library_plan(libs@, 0, libraries_dir@, *platform),
            all == ({
                let rest = library_plan(libs@, i as int, libraries_dir@, *platform);
                (download_views(out@) + rest.0, rest.1)
            }),
        decreases libs.len() - i,
    {
        let lib = &libs[i];
        let ghost rest = library_plan(libs@, i + 1, libraries_dir@, *platform);
        let ghost before = out@;
        if library_is_allowed(lib, platform) {
            if let Some(dl) = &lib.downloads {
                if let Some(a) = &dl.artifact {
                    match &a.path {
                        None => {
                            assert(download_views(out@) =~= download_views(out@) + Seq::<DownloadView>::empty());
                            let e = MinecraftInstallError::MissingDownload {
                                version: details.id.clone(),
                                artifact: lib.name.clone(),
                            };
                            return (out, Some(e));
                        },
                        Some(p) => {
                            out.push(
                                PlannedDownload {
                                    url: a.url.clone(),
                                    destination: join_path(libraries_dir, p.as_str()),
                                    size: a.size,
                                    hash: a.sha1.clone(),
                                    phase: InstallPhase::MinecraftLibraries,
                                    label: concat2("Downloading Minecraft library ", lib.name.as_str()),
                                    current_file: p.clone(),
                                },
                            );
                            assert(download_views(out@) =~= download_views(before).push(
                                library_download(*lib, *a, p@, libraries_dir@),
                            ));
                            assert(download_views(before) + (seq![library_download(*lib, *a, p@, libraries_dir@)] + rest.0)
                                =~= download_views(out@) + rest.0);
                        },
                    }
                }
            }
        }
        i = i + 1;
    }
    assert(download_views(out@) =~= download_views(out@) + Seq::<DownloadView>::empty());
    (out, None)
}

/// The download of an asset whose digest is valid.
pub open spec fn asset_download(obj: AssetObject, assets_dir: Seq<char>) -> DownloadView {
    let prefix = obj.hash@.take(2);
    (
        "https://resources.download.minecraft.net/"@ + prefix + "/"@ + obj.hash@,
        path_join(path_join(path_join(assets_dir, "objects"@), prefix), obj.hash@),
        obj.size,
        obj.hash@,
        InstallPhase::MinecraftAssets,
        "Downloading Minecraft asset "@ + obj.name@,
        obj.name@,
    )
}

/// The asset downloads from the `i`-th asset on, up to the first asset whose
/// digest is not valid (whose name and digest come as the error).
pub open spec fn asset_plan(objs: Seq<AssetObject>, i: int, assets_dir: Seq<char>) -> (
    Seq<DownloadView>,
    Option<(Seq<char>, Seq<char>)>,
)
    decreases objs.len() - i,
{
    if i < 0 || i >= objs.len() {
        (Seq::empty(), None)
    } else if !valid_sha1_hash(objs[i].hash@) {
        (Seq::empty(), Some((objs[i].name@, objs[i].hash@)))
    } else {
        let rest = asset_plan(objs, i + 1, assets_dir);
        (seq![asset_download(objs[i], assets_dir)] + rest.0, rest.1)
    }
}

/// The downloads of the assets of an asset index, in the order given, and
/// the error that stops them.
pub fn asset_downloads(assets_dir: &str, objects: &Vec<AssetObject>) -> (r: (
    Vec<PlannedDownload>,
    Option<MinecraftInstallError>,
))
    ensures
        ({
            let plan = asset_plan(objects@, 0, assets_dir@);
            &&& download_views(r.0@) == plan.0
            &&& match plan.1 {
                None => r.1 is None,
                Some((name, hash)) => r.1 matches Some(MinecraftInstallError::Validation(m)) && m@
                    == "asset "@ + name + " has an invalid SHA-1 hash: "@ + hash,
            }
        }),
{
    let ghost all = asset_plan(objects@, 0, assets_dir@);
    let mut out: Vec<PlannedDownload> = Vec::new();
    let mut i: usize = 0;
    while i < objects.len()
        invariant
            i <= objects.len(),
            all == asset_plan(objects@, 0, assets_dir@),
            all == ({
                let rest = asset_plan(objects@, i as int, assets_dir@);
                (download_views(out@) + rest.0, rest.1)
            }),
        decreases objects.len() - i,
    {
        let obj = &objects[i];
        let ghost rest = asset_plan(objects@, i + 1, assets_dir@);
        let ghost before = out@;
        let prefix = match sha1_prefix(obj.hash.as_str(), obj.name.as_str()) {
            Ok(p) => p,
            Err(e) => {
                assert(download_views(out@) =~= download_views(out@) + Seq::<DownloadView>::empty());
                return (out, Some(e));
            },
        };
        let objects_dir = join_path(assets_dir, "objects");
        let dir = join_path(objects_dir.as_str(), prefix.as_str());
        let mut url = concat3("https://resources.download.minecraft.net/", prefix.as_str(), "/");
        url.append(obj.hash.as_str());
        out.push(
            PlannedDownload {
                url,
                destination: join_path(dir.as_str(), obj.hash.as_str()),
                size: obj.size,
                hash: obj.hash.clone(),
                phase: InstallPhase::MinecraftAssets,
                label: concat2("Downloading Minecraft asset ", obj.name.as_str()),
                current_file: obj.name.clone(),
            },
        );
        assert(download_views(out@) =~= download_views(before).push(asset_download(*obj, assets_dir@)));
        assert(download_views(before) + (seq![asset_download(*obj, assets_dir@)] + rest.0)
            =~= download_views(out@) + rest.0);
        i = i + 1;
    }
    assert(download_views(out@) =~= download_views(out@) + Seq::<DownloadView>::empty());
    (out, None)
}

/// The text of a download error: too few or too many bytes.
pub open spec fn size_mismatch_message(destination: Seq<char>, expected: u64, actual: nat) -> Seq<char> {
    "downloaded file size mismatch for "@ + destination + ": expected "@ + decimal(expected as nat)
        + ", got "@ + decimal(actual)
}

/// Checks downloaded bytes against the size and SHA-1 digest expected.
pub fn verify_download(bytes: &[u8], destination: &str, expected_size: u64, expected_sha1: &str) -> (r: Result<(), MinecraftInstallError>)
    ensures
        bytes@.len() != expected_size ==> (r matches Err(MinecraftInstallError::Validation(m)) && m@
            == size_mismatch_message(destination@, expected_size, bytes@.len())),
        bytes@.len() == expected_size && !crate::text::eq_ignore_ascii_case(
            hex_lower(sha1_digest(bytes@)),
            expected_sha1@,
        ) ==> (r matches Err(MinecraftInstallError::ChecksumMismatch { path, expected, actual })
            && path@ == destination@ && expected@ == expected_sha1@ && actual@ == hex_lower(
            sha1_digest(bytes@),
        )),
        bytes@.len() == expected_size && crate::text::eq_ignore_ascii_case(
            hex_lower(sha1_digest(bytes@)),
            expected_sha1@,
        ) ==> r is Ok,
{
    let len = bytes.len() as u64;
    if len != expected_size {
        let mut m = concat3("downloaded file size mismatch for ", destination, ": expected ");
        m.append(u64_to_string(expected_size).as_str());
        m.append(", got ");
        m.append(u64_to_string(len).as_str());
        return Err(MinecraftInstallError::Validation(m));
    }
    let actual = sha1_hex(bytes);
    let a = chars_of(actual.as_str());
    let e = chars_of(expected_sha1);
    if !crate::text::eq_ignore_ascii_case_exec(&a, &e) {
        return Err(
            MinecraftInstallError::ChecksumMismatch {
                path: str_to_string(destination),
                expected: str_to_string(expected_sha1),
                actual,
            },
        );
    }
    Ok(())
}

/// Checks downloaded bytes against the size and SHA-256 digest expected.
pub fn verify_sha256_download(bytes: &[u8], destination: &str, expected_size: u64, expected_sha256: &str) -> (r: Result<(), MinecraftInstallError>)
    ensures
        bytes@.len() != expected_size ==> (r matches Err(MinecraftInstallError::Validation(m)) && m@
            == size_mismatch_message(destination@, expected_size, bytes@.len())),
        bytes@.len() == expected_size && !crate::text::eq_ignore_ascii_case(
            hex_lower(sha256_digest(bytes@)),
            expected_sha256@,
        ) ==> (r matches Err(MinecraftInstallError::ChecksumMismatch { path, expected, actual })
            && path@ == destination@ && expected@ == expected_sha256@ && actual@ == hex_lower(
            sha256_digest(bytes@),
        )),
        bytes@.len() == expected_size && crate::text::eq_ignore_ascii_case(
            hex_lower(sha256_digest(bytes@)),
            expected_sha256@,
        ) ==> r is Ok,
{
    let len = bytes.len() as u64;
    if len != expected_size {
        let mut m = concat3("downloaded file size mismatch for ", destination, ": expected ");
        m.append(u64_to_string(expected_size).as_str());
        m.append(", got ");
        m.append(u64_to_string(len).as_str());
        return Err(MinecraftInstallError::Validation(m));
    }
    let actual = sha256_hex(bytes);
    let a = chars_of(actual.as_str());
    let e = chars_of(expected_sha256);
    if !crate::text::eq_ignore_ascii_case_exec(&a, &e) {
        return Err(
            MinecraftInstallError::ChecksumMismatch {
                path: str_to_string(destination),
                expected: str_to_string(expected_sha256),
                actual,
            },
        );
    }
    Ok(())
}

/// What a download does about what is already at its destination.
#[derive(Debug, PartialEq, Eq, Structural, Clone, Copy)]
pub enum DownloadStep {
    /// Read the file there and check its digest, then ask again.
    CheckDigest,
    /// The file there is valid: keep it and download nothing.
    Skip,
    /// Download the file.
    Download,
}

/// Whether a file found at a destination may already be the download: it
/// is a file, and of the expected size where one is known.
pub open spec fn worth_checking(existing: Option<(bool, u64)>, expected_size: Option<u64>) -> bool {
    existing matches Some((is_file, len)) && is_file && match expected_size {
        Some(size) => len == size,
        None => true,
    }
}

/// The next step of a download, from what is at its destination (`None`
/// where nothing is; else whether it is a file, and its length), the size
/// expected where one is known, and the outcome of the digest check where
/// it was made. A file is read and checked only where it may be the
/// download; it is kept only where its digest matches.
pub fn download_step(existing: Option<(bool, u64)>, expected_size: Option<u64>, digest_matches: Option<bool>) -> (r: DownloadStep)
    ensures
        !worth_checking(existing, expected_size) ==> r == DownloadStep::Download,
        worth_checking(existing, expected_size) ==> r == match digest_matches {
            None => DownloadStep::CheckDigest,
            Some(true) => DownloadStep::Skip,
            Some(false) => DownloadStep::Download,
        },
{
    let worth = match existing {
        Some((is_file, len)) => is_file && match expected_size {
            Some(size) => len == size,
            None => true,
        },
        None => false,
    };
    if !worth {
        return DownloadStep::Download;
    }
    match digest_matches {
        None => DownloadStep::CheckDigest,
        Some(true) => DownloadStep::Skip,
        Some(false) => DownloadStep::Download,
    }
}

/// The download of a pack file into the game directory.
pub fn pack_file_download(game_dir: &str, file: &PackFile, windows: bool) -> (r: Result<PlannedDownload, MinecraftInstallError>)
    ensures
        trim(file.path@).len() == 0 ==> (r matches Err(MinecraftInstallError::Validation(m)) && m@
            == "pack file path cannot be empty"@),
        trim(file.path@).len() > 0 && !safe_relative(file.path@, windows) ==> (r matches Err(
            MinecraftInstallError::Validation(m),
        ) && m@ == "pack file path is not safe: "@ + file.path@),
        trim(file.path@).len() > 0 && safe_relative(file.path@, windows) ==> (r matches Ok(d) && d@ == (
            file.url@,
            path_join(game_dir@, file.path@),
            file.size,
            file.sha256@,
            InstallPhase::ModpackFiles,
            "Downloading modpack file "@ + file.path@,
            file.path@,
        )),
{
    let destination = match pack_file_destination(game_dir, file, windows) {
        Ok(d) => d,
        Err(e) => return Err(e),
    };
    Ok(
        PlannedDownload {
            url: file.url.clone(),
            destination,
            size: file.size,
            hash: file.sha256.clone(),
            phase: InstallPhase::ModpackFiles,
            label: concat2("Downloading modpack file ", file.path.as_str()),
            current_file: file.path.clone(),
        },
    )
}

// ---------------------------------------------------------------------------
// Native libraries
// ---------------------------------------------------------------------------
/// The native archive download of a library, from `d` whose path is `p`.
pub open spec fn native_download(lib: Library, d: DownloadInfo, p: Seq<char>, libraries_dir: Seq<char>) -> DownloadView {
    (
        d.url@,
        path_join(libraries_dir, p),
        d.size,
        d.sha1@,
        InstallPhase::MinecraftNatives,
        "Downloading Minecraft native "@ + lib.name@,
        p,
    )
}

/// A native archive to fetch and extract: the download, its classifier and
/// the index of its library (whose extract rules apply).
#[derive(Debug)]
pub struct NativeArchive {
    pub download: PlannedDownload,
    pub classifier: String,
    pub library: usize,
}

pub type ArchiveView = (DownloadView, Seq<char>, int);

impl View for NativeArchive {
    type V = ArchiveView;

    open spec fn view(&self) -> ArchiveView {
        (self.download@, self.classifier@, self.library as int)
    }
}

pub open spec fn archive_views(v: Seq<NativeArchive>) -> Seq<ArchiveView> {
    Seq::new(v.len(), |i: int| v[i]@)
}

/// The download given for classifier `key`.
pub open spec fn classifier_download(pairs: Seq<(String, DownloadInfo)>, key: Seq<char>) -> Option<
    DownloadInfo,
>
    decreases pairs.len(),
{
    if pairs.len() == 0 {
        None
    } else if pairs[0].0@ == key {
        Some(pairs[0].1)
    } else {
        classifier_download(pairs.drop_first(), key)
    }
}

/// How a missing native download is named: the library and the classifier.
pub open spec fn missing_native(lib: Library, c: Seq<char>) -> Seq<char> {
    lib.name@ + " ("@ + c + ")"@
}

/// The archive of the library's natives for the platform's OS, if it names
/// a classifier for it; the text of the missing download where the download
/// or its path is not given.
pub open spec fn os_native_archive(lib: Library, i: int, libraries_dir: Seq<char>, platform: Platform) -> Result<
    Option<ArchiveView>,
    Seq<char>,
> {
    match native_classifier_of(lib, platform) {
        None => Ok(None),
        Some(c) => match lib.downloads {
            None => Err(missing_native(lib, c)),
            Some(dl) => match dl.classifiers {
                None => Err(missing_native(lib, c)),
                Some(cs) => match classifier_download(cs@, c) {
                    None => Err(missing_native(lib, c)),
                    Some(d) => match d.path {
                        None => Err(missing_native(lib, c)),
                        Some(p) => Ok(Some((native_download(lib, d, p@, libraries_dir), c, i))),
                    },
                },
            },
        },
    }
}

/// The archive of a library that is itself a native artifact (its name's
/// classifier starts with `natives-`).
pub open spec fn artifact_native_archive(lib: Library, i: int, libraries_dir: Seq<char>) -> Result<
    Option<ArchiveView>,
    Seq<char>,
> {
    match native_artifact_classifier_of(lib.name@) {
        None => Ok(None),
        Some(c) => match lib.downloads {
            None => Err(missing_native(lib, c)),
            Some(dl) => match dl.artifact {
                None => Err(missing_native(lib, c)),
                Some(d) => match d.path {
                    None => Err(missing_native(lib, c)),
                    Some(p) => Ok(Some((native_download(lib, d, p@, libraries_dir), c, i))),
                },
            },
        },
    }
}

pub open spec fn opt_seq<A>(o: Option<A>) -> Seq<A> {
    match o {
        Some(a) => seq![a],
        None => Seq::empty(),
    }
}

/// The native archives from the `i`-th library on, in order: for each
/// allowed library its OS archive, then its artifact archive; up to the
/// first that is missing, whose text comes as the error.
pub open spec fn natives_plan(libs: Seq<Library>, i: int, libraries_dir: Seq<char>, platform: Platform) -> (
    Seq<ArchiveView>,
    Option<Seq<char>>,
)
    decreases libs.len() - i,
{
    if i < 0 || i >= libs.len() {
        (Seq::empty(), None)
    } else if !library_allowed(libs[i], platform) {
        natives_plan(libs, i + 1, libraries_dir, platform)
    } else {
        match os_native_archive(libs[i], i, libraries_dir, platform) {
            Err(m) => (Seq::empty(), Some(m)),
            Ok(a) => match artifact_native_archive(libs[i], i, libraries_dir) {
                Err(m) => (opt_seq(a), Some(m)),
                Ok(b) => {
                    let rest = natives_plan(libs, i + 1, libraries_dir, platform);
                    (opt_seq(a) + opt_seq(b) + rest.0, rest.1)
                },
            },
        }
    }
}

fn classifier_index(pairs: &Vec<(String, DownloadInfo)>, key: &str) -> (r: usize)
    ensures
        r <= pairs.len(),
        r < pairs.len() ==> classifier_download(pairs@, key@) == Some(pairs@[r as int].1),
        r == pairs.len() ==> classifier_download(pairs@, key@) is None,
{
    let mut i: usize = 0;
    assert(pairs@.skip(0) =~= pairs@);
    while i < pairs.len()
        invariant
            i <= pairs.len(),
            classifier_download(pairs@, key@) == classifier_download(pairs@.skip(i as int), key@),
        decreases pairs.len() - i,
    {
        assert(pairs@.skip(i as int)[0] == pairs@[i as int]);
        assert(pairs@.skip(i as int).drop_first() =~= pairs@.skip(i + 1));
        if str_eq(pairs[i].0.as_str(), key) {
            return i;
        }
        i = i + 1;
    }
    i
}

fn missing_native_exec(lib: &Library, c: &str) -> (r: String)
    ensures
        r@ == missing_native(*lib, c@),
{
    let mut r = concat3(lib.name.as_str(), " (", c);
    r.append(")");
    r
}

fn native_archive_of(lib: &Library, i: usize, d: &DownloadInfo, p: &String, c: String, libraries_dir: &str) -> (r: NativeArchive)
    ensures
        r@ == (native_download(*lib, *d, p@, libraries_dir@), c@, i as int),
{
    NativeArchive {
        download: PlannedDownload {
            url: d.url.clone(),
            destination: join_path(libraries_dir, p.as_str()),
            size: d.size,
            hash: d.sha1.clone(),
            phase: InstallPhase::MinecraftNatives,
            label: concat2("Downloading Minecraft native ", lib.name.as_str()),
            current_file: p.clone(),
        },
        classifier: c,
        library: i,
    }
}

fn os_native_archive_exec(lib: &Library, i: usize, libraries_dir: &str, platform: &Platform) -> (r: Result<
    Option<NativeArchive>,
    String,
>)
    ensures
        match os_native_archive(*lib, i as int, libraries_dir@, *platform) {
            Ok(None) => r matches Ok(None),
            Ok(Some(a)) => r matches Ok(Some(x)) && x@ == a,
            Err(m) => r matches Err(x) && x@ == m,
        },
{
    let c = match native_classifier_for_current_os(lib, platform) {
        None => return Ok(None),
        Some(c) => c,
    };
    let dl = match &lib.downloads {
        None => return Err(missing_native_exec(lib, c.as_str())),
        Some(dl) => dl,
    };
    let cs = match &dl.classifiers {
        None => return Err(missing_native_exec(lib, c.as_str())),
        Some(cs) => cs,
    };
    let k = classifier_index(cs, c.as_str());
    if k == cs.len() {
        return Err(missing_native_exec(lib, c.as_str()));
    }
    let d = &cs[k].1;
    match &d.path {
        None => Err(missing_native_exec(lib, c.as_str())),
        Some(p) => Ok(Some(native_archive_of(lib, i, d, p, c, libraries_dir))),
    }
}

fn artifact_native_archive_exec(lib: &Library, i: usize, libraries_dir: &str) -> (r: Result<
    Option<NativeArchive>,
    String,
>)
    ensures
        match artifact_native_archive(*lib, i as int, libraries_dir@) {
            Ok(None) => r matches Ok(None),
            Ok(Some(a)) => r matches Ok(Some(x)) && x@ == a,
            Err(m) => r matches Err(x) && x@ == m,
        },
{
    let c = match native_artifact_classifier(lib) {
        None => return Ok(None),
        Some(c) => c,
    };
    let dl = match &lib.downloads {
        None => return Err(missing_native_exec(lib, c.as_str())),
        Some(dl) => dl,
    };
    let d = match &dl.artifact {
        None => return Err(missing_native_exec(lib, c.as_str())),
        Some(d) => d,
    };
    match &d.path {
        None => Err(missing_native_exec(lib, c.as_str())),
        Some(p) => Ok(Some(native_archive_of(lib, i, d, p, c, libraries_dir))),
    }
}

fn push_archive(out: &mut Vec<NativeArchive>, a: Option<NativeArchive>)
    ensures
        archive_views(final(out)@) == archive_views(old(out)@) + opt_seq(
            match a {
                Some(x) => Some(x@),
                None => None,
            },
        ),
{
    let ghost before = out@;
    match a {
        Some(x) => {
            let ghost v = x@;
            out.push(x);
            assert(archive_views(out@) =~= archive_views(before) + seq![v]);
        },
        None => {
            assert(archive_views(out@) =~= archive_views(before) + Seq::<ArchiveView>::empty());
        },
    }
}

pub open spec fn no_natives_message(platform: Platform) -> Seq<char> {
    "no Minecraft native libraries were found for "@ + minecraft_os_name(platform.os@) + " "@
        + platform.arch@
}

/// The native archives of a version, in order, and the error that stops
/// them: a missing download, or, where no library gives natives for the
/// platform, an unsupported platform.
pub fn native_archives(details: &VersionDetails, libraries_dir: &str, platform: &Platform) -> (r: (
    Vec<NativeArchive>,
    Option<MinecraftInstallError>,
))
    ensures
        ({
            let plan = natives_plan(details.libraries@, 0, libraries_dir@, *platform);
            &&& archive_views(r.0@) == plan.0
            &&& match plan.1 {
                Some(m) => r.1 matches Some(MinecraftInstallError::MissingDownload { version, artifact })
                    && version@ == details.id@ && artifact@ == m,
                None => if plan.0.len() == 0 {
                    r.1 matches Some(MinecraftInstallError::UnsupportedPlatform(m)) && m@
                        == no_natives_message(*platform)
                } else {
                    r.1 is None
                },
            }
        }),
{
    let libs = &details.libraries;
    let ghost all = natives_plan(libs@, 0, libraries_dir@, *platform);
    let mut out: Vec<NativeArchive> = Vec::new();
    let mut i: usize = 0;
    while i < libs.len()
        invariant
            i <= libs.len(),
            libs@ == details.libraries@,
            all == natives_plan(libs@, 0, libraries_dir@, *platform),
            all == ({
                let rest = natives_plan(libs@, i as int, libraries_dir@, *platform);
                (archive_views(out@) + rest.0, rest.1)
            }),
        decreases libs.len() - i,
    {
        let lib = &libs[i];
        let ghost rest = natives_plan(libs@, i + 1, libraries_dir@, *platform);
        let ghost start = out@;
        if library_is_allowed(lib, platform) {
            let a = match os_native_archive_exec(lib, i, libraries_dir, platform) {
                Ok(a) => a,
                Err(m) => {
                    assert(archive_views(out@) =~= archive_views(out@) + Seq::<ArchiveView>::empty());
                    let e = MinecraftInstallError::MissingDownload { version: details.id.clone(), artifact: m };
                    return (out, Some(e));
                },
            };
            let b = artifact_native_archive_exec(lib, i, libraries_dir);
            push_archive(&mut out, a);
            match b {
                Err(m) => {
                    assert(archive_views(out@) =~= archive_views(out@) + Seq::<ArchiveView>::empty());
                    let e = MinecraftInstallError::MissingDownload { version: details.id.clone(), artifact: m };
                    return (out, Some(e));
                },
                Ok(b) => {
                    push_archive(&mut out, b);
                    assert(archive_views(start) + (
                        natives_plan(libs@, i as int, libraries_dir@, *platform).0
                    ) =~= archive_views(out@) + rest.0);
                },
            }
        }
        i = i + 1;
    }
    assert(archive_views(out@) =~= archive_views(out@) + Seq::<ArchiveView>::empty());
    if out.len() == 0 {
        let os = platform.current_minecraft_os_name();
        let mut m = concat3("no Minecraft native libraries were found for ", os.as_str(), " ");
        m.append(platform.arch.as_str());
        return (out, Some(MinecraftInstallError::UnsupportedPlatform(m)));
    }
    (out, None)
}

/// A pack file that is accepted goes right below the game directory: its
/// destination is the game directory, a separator where one is missing,
/// and the file's relative path, none of whose components is `..`.
pub proof fn law_pack_files_stay_in_game_dir(game_dir: Seq<char>, path: Seq<char>, windows: bool)
    requires
        trim(path).len() > 0,
        safe_relative(path, windows),
    ensures
        path_join(game_dir, path) == game_dir + (if game_dir.len() > 0 && game_dir.last() != '/' {
            seq!['/']
        } else {
            Seq::<char>::empty()
        }) + path,
        forall|i: int|
            0 <= i < path_pieces(path, windows).len() ==> #[trigger] path_pieces(path, windows)[i] != ".."@,
{
    if game_dir.len() == 0 {
        assert(game_dir + Seq::<char>::empty() + path =~= path);
    } else if game_dir.last() == '/' {
        assert(game_dir + Seq::<char>::empty() + path =~= game_dir + path);
    }
}

} // verus!
