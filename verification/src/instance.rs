//! Modpack instances: their manifests and settings, the checks that a
//! manifest from disk or from the CDN must pass, and the launcher's record
//! of which instances exist and in which state.
use std::cmp::Ordering;
use vstd::prelude::*;

use crate::http::{status_text, HttpStatus};
use crate::json::JsonValue;
use crate::text::{
    chars_eq, chars_of, concat2, concat3, concat5, contains_char, contains_char_exec,
    copy_strings, decimal, is_control, is_control_char, is_whitespace, is_whitespace_char,
    non_empty, str_eq, str_to_string, string_of, string_views, strings_of, trim, trim_chars,
    trim_str, u64_to_string, views,
};
use crate::utils::{compare_semver, semver_order, sha256_digest, hex_lower, sha256_matches};
use crate::text::{eq_ignore_ascii_case, insert_sorted, sorted_strictly};
use crate::auth::{service_url, service_url_exec};
use crate::config::{has_drive, join_path, path_join};

verus! {

pub open spec fn supported_schema_version() -> u32 {
    0
}

#[derive(Debug)]
pub enum ModLoaderType {
    NeoForge,
    Forge,
    Fabric,
}

#[derive(Debug)]
pub struct ModLoader {
    pub loader_type: ModLoaderType,
    pub version: String,
}

/// Where an instance's pack file manifest is, and its SHA-256.
#[derive(Debug)]
pub struct FileManifestReference {
    pub url: String,
    pub sha256: String,
}

/// An instance's manifest (`instance.json`).
#[derive(Debug)]
pub struct InstanceManifest {
    pub schema_version: u32,
    pub id: String,
    pub name: String,
    pub pack_version: String,
    pub minecraft_version: String,
    pub loader: Option<ModLoader>,
    pub server_address: String,
    pub minimum_ram_mb: u64,
    pub recommended_ram_mb: u64,
    pub file_manifest: FileManifestReference,
}

/// The files of one version of a modpack.
#[derive(Debug)]
pub struct PackFileManifest {
    pub schema_version: u32,
    pub instance_id: String,
    pub pack_version: String,
    pub files: Vec<PackFile>,
}

#[derive(Debug)]
pub struct PackFile {
    pub path: String,
    pub url: String,
    pub sha256: String,
    pub size: u64,
    pub update_policy: UpdatePolicy,
}

#[derive(Debug)]
pub enum UpdatePolicy {
    Replace,
    InstallIfMissing,
}

/// An instance the launcher knows of.
#[derive(Debug)]
pub struct InstanceEntry {
    pub id: String,
    pub state: InstanceState,
    pub instance_manifest: Option<InstanceManifest>,
}

/// The user's settings for one instance (`instance-settings.json`).
#[derive(Debug)]
pub struct InstanceSettings {
    pub maximum_ram_mb: u64,
    pub additional_jvm_args: Vec<String>,
}

#[derive(Debug, PartialEq, Eq, Structural, Clone, Copy)]
pub enum InstanceState {
    Unknown,
    NotDownloaded,
    Downloading,
    RequiresUpdate,
    Updating,
    Ready,
    Launched,
    Broken,
}

/// The event that tells the window an instance's state changed.
#[derive(Debug)]
pub struct InstanceStateChanged {
    pub id: String,
    pub state: InstanceState,
    pub state_code: u8,
}

/// Why fetching an instance's manifest from the CDN failed.
#[derive(Debug)]
pub enum RemoteInstanceError {
    Request(String),
    HttpStatus(HttpStatus),
    InvalidManifest(String),
    Validation(String),
}

pub open spec fn remote_instance_error_message(e: RemoteInstanceError) -> Seq<char> {
    match e {
        RemoteInstanceError::Request(m) => "failed to retrieve remote instance: "@ + m@,
        RemoteInstanceError::HttpStatus(s) => "remote instance request failed with status "@
            + status_text(s),
        RemoteInstanceError::InvalidManifest(m) => "failed to parse remote instance manifest: "@
            + m@,
        RemoteInstanceError::Validation(m) => "invalid remote instance manifest: "@ + m@,
    }
}

impl RemoteInstanceError {
    /// The error's text.
    pub fn message(&self) -> (m: String)
        ensures
            m@ == remote_instance_error_message(*self),
    {
        match self {
            RemoteInstanceError::Request(m) => concat2(
                "failed to retrieve remote instance: ",
                m.as_str(),
            ),
            RemoteInstanceError::HttpStatus(s) => {
                let t = s.text();
                concat2("remote instance request failed with status ", t.as_str())
            },
            RemoteInstanceError::InvalidManifest(m) => concat2(
                "failed to parse remote instance manifest: ",
                m.as_str(),
            ),
            RemoteInstanceError::Validation(m) => concat2(
                "invalid remote instance manifest: ",
                m.as_str(),
            ),
        }
    }
}

/// The number by which the window knows a state.
pub open spec fn state_code_of(state: InstanceState) -> u8 {
    match state {
        InstanceState::Unknown => 0,
        InstanceState::NotDownloaded => 1,
        InstanceState::Downloading => 2,
        InstanceState::RequiresUpdate => 3,
        InstanceState::Updating => 4,
        InstanceState::Ready => 5,
        InstanceState::Launched => 6,
        InstanceState::Broken => 7,
    }
}

pub fn state_code(state: InstanceState) -> (c: u8)
    ensures
        c == state_code_of(state),
{
    match state {
        InstanceState::Unknown => 0,
        InstanceState::NotDownloaded => 1,
        InstanceState::Downloading => 2,
        InstanceState::RequiresUpdate => 3,
        InstanceState::Updating => 4,
        InstanceState::Ready => 5,
        InstanceState::Launched => 6,
        InstanceState::Broken => 7,
    }
}

// ---------------------------------------------------------------------------
// Copies
// ---------------------------------------------------------------------------
fn copy_loader_type(t: &ModLoaderType) -> (r: ModLoaderType)
    ensures
        r == *t,
{
    match t {
        ModLoaderType::NeoForge => ModLoaderType::NeoForge,
        ModLoaderType::Forge => ModLoaderType::Forge,
        ModLoaderType::Fabric => ModLoaderType::Fabric,
    }
}

pub fn copy_manifest(m: &InstanceManifest) -> (r: InstanceManifest)
    ensures
        r == *m,
{
    InstanceManifest {
        schema_version: m.schema_version,
        id: m.id.clone(),
        name: m.name.clone(),
        pack_version: m.pack_version.clone(),
        minecraft_version: m.minecraft_version.clone(),
        loader: match &m.loader {
            Some(l) => Some(
                ModLoader { loader_type: copy_loader_type(&l.loader_type), version: l.version.clone() },
            ),
            None => None,
        },
        server_address: m.server_address.clone(),
        minimum_ram_mb: m.minimum_ram_mb,
        recommended_ram_mb: m.recommended_ram_mb,
        file_manifest: FileManifestReference {
            url: m.file_manifest.url.clone(),
            sha256: m.file_manifest.sha256.clone(),
        },
    }
}

pub fn copy_entry(e: &InstanceEntry) -> (r: InstanceEntry)
    ensures
        r == *e,
{
    InstanceEntry {
        id: e.id.clone(),
        state: e.state,
        instance_manifest: match &e.instance_manifest {
            Some(m) => Some(copy_manifest(m)),
            None => None,
        },
    }
}

pub fn copy_entries(v: &Vec<InstanceEntry>) -> (r: Vec<InstanceEntry>)
    ensures
        r@ == v@,
{
    let mut r: Vec<InstanceEntry> = Vec::new();
    let mut i: usize = 0;
    while i < v.len()
        invariant
            i <= v.len(),
            r@ == v@.take(i as int),
        decreases v.len() - i,
    {
        r.push(copy_entry(&v[i]));
        i = i + 1;
        assert(r@ =~= v@.take(i as int));
    }
    assert(v@.take(v.len() as int) =~= v@);
    r
}

// ---------------------------------------------------------------------------
// Checks on manifests
// ---------------------------------------------------------------------------
pub open spec fn has_control_char(s: Seq<char>) -> bool {
    exists|i: int| 0 <= i < s.len() && is_control_char(s[i])
}

fn has_control_char_exec(s: &Vec<char>) -> (r: bool)
    ensures
        r == has_control_char(s@),
{
    let mut i: usize = 0;
    while i < s.len()
        invariant
            i <= s.len(),
            forall|k: int| 0 <= k < i ==> !is_control_char(s@[k]),
        decreases s.len() - i,
    {
        if is_control(s[i]) {
            return true;
        }
        i = i + 1;
    }
    false
}

/// Why `id` cannot name an instance's folder, if it cannot: it must be one
/// plain folder name (not `.` or `..`), without surrounding whitespace,
/// separators or control characters.
pub open spec fn instance_id_error(id: Seq<char>, windows: bool) -> Option<Seq<char>> {
    if trim(id).len() == 0 {
        Some("instance id cannot be empty"@)
    } else if trim(id) != id {
        Some("instance id cannot start or end with whitespace"@)
    } else if contains_char(id, '/') || contains_char(id, '\\') {
        Some("instance id must not contain path separators"@)
    } else if has_control_char(id) {
        Some("instance id cannot contain control characters"@)
    } else if id == seq!['.'] || id == seq!['.', '.'] || (windows && has_drive(id)) {
        Some("instance id must be a single folder name"@)
    } else {
        None
    }
}

pub fn validate_instance_id_path_component(id: &str, windows: bool) -> (r: Result<(), String>)
    ensures
        match r {
            Ok(()) => instance_id_error(id@, windows) is None,
            Err(m) => instance_id_error(id@, windows) == Some(m@),
        },
{
    let v = chars_of(id);
    let t = trim_chars(&v);
    if t.len() == 0 {
        return Err(str_to_string("instance id cannot be empty"));
    }
    if !chars_eq(&t, &v) {
        return Err(str_to_string("instance id cannot start or end with whitespace"));
    }
    if contains_char_exec(&v, '/') || contains_char_exec(&v, '\\') {
        return Err(str_to_string("instance id must not contain path separators"));
    }
    if has_control_char_exec(&v) {
        return Err(str_to_string("instance id cannot contain control characters"));
    }
    let dot = vec!['.'];
    let dotdot = vec!['.', '.'];
    assert(dot@ =~= seq!['.']);
    assert(dotdot@ =~= seq!['.', '.']);
    let drive = windows && v.len() >= 2 && (('a' <= v[0] && v[0] <= 'z') || ('A' <= v[0] && v[0] <= 'Z'))
        && v[1] == ':';
    if chars_eq(&v, &dot) || chars_eq(&v, &dotdot) || drive {
        return Err(str_to_string("instance id must be a single folder name"));
    }
    Ok(())
}

/// Why a manifest's fields are refused, if they are.
pub open spec fn instance_fields_error(m: InstanceManifest, windows: bool) -> Option<Seq<char>> {
    if m.schema_version != supported_schema_version() {
        Some("unsupported instance schema version: "@ + decimal(m.schema_version as nat))
    } else if instance_id_error(m.id@, windows) is Some {
        instance_id_error(m.id@, windows)
    } else if m.minimum_ram_mb > m.recommended_ram_mb {
        Some("minimum RAM cannot be greater than recommended RAM"@)
    } else {
        None
    }
}

pub fn validate_instance_fields(instance: &InstanceManifest, windows: bool) -> (r: Result<(), String>)
    ensures
        match r {
            Ok(()) => instance_fields_error(*instance, windows) is None,
            Err(m) => instance_fields_error(*instance, windows) == Some(m@),
        },
{
    if instance.schema_version != 0 {
        let v = u64_to_string(instance.schema_version as u64);
        return Err(concat2("unsupported instance schema version: ", v.as_str()));
    }
    validate_instance_id_path_component(instance.id.as_str(), windows)?;
    if instance.minimum_ram_mb > instance.recommended_ram_mb {
        return Err(str_to_string("minimum RAM cannot be greater than recommended RAM"));
    }
    Ok(())
}

/// Why a manifest read from the folder named `folder` is refused, if it is.
/// `folder` is `None` where the folder's name is not valid UTF-8.
pub open spec fn local_manifest_error(folder: Option<Seq<char>>, m: InstanceManifest, windows: bool) -> Option<
    Seq<char>,
> {
    if instance_fields_error(m, windows) is Some {
        instance_fields_error(m, windows)
    } else {
        match folder {
            None => Some("instance folder name is not valid UTF-8"@),
            Some(f) => if f != m.id@ {
                Some("instance id '"@ + m.id@ + "' does not match folder name '"@ + f + "'"@)
            } else {
                None
            },
        }
    }
}

pub fn validate_instance_manifest(folder: Option<&str>, instance: &InstanceManifest, windows: bool) -> (r: Result<
    (),
    String,
>)
    ensures
        match r {
            Ok(()) => local_manifest_error(
                match folder {
                    Some(f) => Some(f@),
                    None => None,
                },
                *instance, windows,
            ) is None,
            Err(m) => local_manifest_error(
                match folder {
                    Some(f) => Some(f@),
                    None => None,
                },
                *instance, windows,
            ) == Some(m@),
        },
{
    validate_instance_fields(instance, windows)?;
    match folder {
        None => Err(str_to_string("instance folder name is not valid UTF-8")),
        Some(f) => {
            if !str_eq(f, instance.id.as_str()) {
                Err(concat5(
                    "instance id '",
                    instance.id.as_str(),
                    "' does not match folder name '",
                    f,
                    "'",
                ))
            } else {
                Ok(())
            }
        },
    }
}

/// The entry for an instance found on disk in the folder named `folder`.
pub fn read_local_instance(folder: Option<&str>, instance: InstanceManifest, windows: bool) -> (r: Result<
    InstanceEntry,
    String,
>)
    ensures
        match r {
            Ok(e) => local_manifest_error(
                match folder {
                    Some(f) => Some(f@),
                    None => None,
                },
                instance, windows,
            ) is None && e.id@ == instance.id@ && e.state == InstanceState::NotDownloaded
                && e.instance_manifest == Some(instance),
            Err(m) => local_manifest_error(
                match folder {
                    Some(f) => Some(f@),
                    None => None,
                },
                instance, windows,
            ) == Some(m@),
        },
{
    validate_instance_manifest(folder, &instance, windows)?;
    Ok(
        InstanceEntry {
            id: instance.id.clone(),
            state: InstanceState::NotDownloaded,
            instance_manifest: Some(instance),
        },
    )
}

/// Why a manifest fetched for `instance_id` is refused, if it is.
pub open spec fn remote_manifest_error(instance_id: Seq<char>, m: InstanceManifest, windows: bool) -> Option<
    Seq<char>,
> {
    if instance_fields_error(m, windows) is Some {
        instance_fields_error(m, windows)
    } else if m.id@ != instance_id {
        Some(
            "remote instance id '"@ + m.id@ + "' does not match requested id '"@ + instance_id
                + "'"@,
        )
    } else {
        None
    }
}

pub fn validate_remote_instance(instance_id: &str, instance: &InstanceManifest, windows: bool) -> (r: Result<
    (),
    String,
>)
    ensures
        match r {
            Ok(()) => remote_manifest_error(instance_id@, *instance, windows) is None,
            Err(m) => remote_manifest_error(instance_id@, *instance, windows) == Some(m@),
        },
{
    validate_instance_fields(instance, windows)?;
    if !str_eq(instance.id.as_str(), instance_id) {
        return Err(concat5(
            "remote instance id '",
            instance.id.as_str(),
            "' does not match requested id '",
            instance_id,
            "'",
        ));
    }
    Ok(())
}

/// Why a pack file manifest does not belong to `instance`, if it does not.
pub open spec fn pack_manifest_error(instance: InstanceManifest, pack: PackFileManifest) -> Option<
    Seq<char>,
> {
    if pack.schema_version != supported_schema_version() {
        Some("unsupported pack file manifest schema version: "@ + decimal(pack.schema_version as nat))
    } else if pack.instance_id@ != instance.id@ {
        Some(
            "pack file manifest instance id '"@ + pack.instance_id@
                + "' does not match instance id '"@ + instance.id@ + "'"@,
        )
    } else if pack.pack_version@ != instance.pack_version@ {
        Some(
            "pack file manifest version '"@ + pack.pack_version@
                + "' does not match instance version '"@ + instance.pack_version@ + "'"@,
        )
    } else {
        None
    }
}

pub fn validate_pack_file_manifest(instance: &InstanceManifest, pack: &PackFileManifest) -> (r: Result<
    (),
    String,
>)
    ensures
        match r {
            Ok(()) => pack_manifest_error(*instance, *pack) is None,
            Err(m) => pack_manifest_error(*instance, *pack) == Some(m@),
        },
{
    if pack.schema_version != 0 {
        let v = u64_to_string(pack.schema_version as u64);
        return Err(concat2("unsupported pack file manifest schema version: ", v.as_str()));
    }
    if !str_eq(pack.instance_id.as_str(), instance.id.as_str()) {
        return Err(concat5(
            "pack file manifest instance id '",
            pack.instance_id.as_str(),
            "' does not match instance id '",
            instance.id.as_str(),
            "'",
        ));
    }
    if !str_eq(pack.pack_version.as_str(), instance.pack_version.as_str()) {
        return Err(concat5(
            "pack file manifest version '",
            pack.pack_version.as_str(),
            "' does not match instance version '",
            instance.pack_version.as_str(),
            "'",
        ));
    }
    Ok(())
}

/// What fetching a pack file manifest yields from the downloaded `data` and
/// what parsing it gave: a checksum that does not match the instance's is
/// refused first, then a parse error, then a manifest of another instance.
pub open spec fn fetched_pack_manifest(
    instance: InstanceManifest,
    data: Seq<u8>,
    parsed: Result<PackFileManifest, String>,
) -> Result<PackFileManifest, Seq<char>> {
    if !eq_ignore_ascii_case(hex_lower(sha256_digest(data)), instance.file_manifest.sha256@) {
        Err("pack file manifest checksum mismatch"@)
    } else {
        match parsed {
            Err(e) => Err("failed to parse pack file manifest: "@ + e@),
            Ok(pack) => match pack_manifest_error(instance, pack) {
                Some(e) => Err(e),
                None => Ok(pack),
            },
        }
    }
}

/// Checks a downloaded pack file manifest: its SHA-256 against the one the
/// instance's manifest names, then the parse, then that it belongs to the
/// instance.
pub fn fetch_pack_file_manifest(
    instance: &InstanceManifest,
    data: &[u8],
    parsed: Result<PackFileManifest, String>,
) -> (r: Result<PackFileManifest, String>)
    ensures
        match r {
            Ok(p) => fetched_pack_manifest(*instance, data@, parsed) == Ok::<
                PackFileManifest,
                Seq<char>,
            >(p),
            Err(m) => fetched_pack_manifest(*instance, data@, parsed) == Err::<
                PackFileManifest,
                Seq<char>,
            >(m@),
        },
{
    if !sha256_matches(data, instance.file_manifest.sha256.as_str()) {
        return Err(str_to_string("pack file manifest checksum mismatch"));
    }
    match parsed {
        Err(e) => Err(concat2("failed to parse pack file manifest: ", e.as_str())),
        Ok(pack) => {
            validate_pack_file_manifest(instance, &pack)?;
            Ok(pack)
        },
    }
}

// ---------------------------------------------------------------------------
// Instance settings
// ---------------------------------------------------------------------------
pub open spec fn max_u64(a: u64, b: u64) -> u64 {
    if a >= b {
        a
    } else {
        b
    }
}

/// The settings an instance starts with: the recommended RAM (never under
/// the minimum, never zero) and no extra JVM arguments.
pub fn default_instance_settings(instance: &InstanceManifest) -> (s: InstanceSettings)
    ensures
        s.maximum_ram_mb == max_u64(
            max_u64(instance.recommended_ram_mb, instance.minimum_ram_mb),
            1,
        ),
        s.additional_jvm_args@.len() == 0,
{
    let a = if instance.recommended_ram_mb >= instance.minimum_ram_mb {
        instance.recommended_ram_mb
    } else {
        instance.minimum_ram_mb
    };
    let m = if a >= 1 {
        a
    } else {
        1
    };
    InstanceSettings { maximum_ram_mb: m, additional_jvm_args: Vec::new() }
}

pub open spec fn jvm_args_error(args: Seq<Seq<char>>) -> Option<Seq<char>> {
    if exists|i: int| 0 <= i < args.len() && has_control_char(#[trigger] args[i]) {
        Some("additional JVM arguments cannot contain control characters"@)
    } else {
        None
    }
}

pub fn validate_jvm_args(args: &Vec<String>) -> (r: Result<(), String>)
    ensures
        match r {
            Ok(()) => jvm_args_error(string_views(args@)) is None,
            Err(m) => jvm_args_error(string_views(args@)) == Some(m@),
        },
{
    let mut i: usize = 0;
    while i < args.len()
        invariant
            i <= args.len(),
            forall|k: int| 0 <= k < i ==> !has_control_char(#[trigger] string_views(args@)[k]),
        decreases args.len() - i,
    {
        let a = chars_of(args[i].as_str());
        if has_control_char_exec(&a) {
            assert(has_control_char(string_views(args@)[i as int]));
            return Err(str_to_string("additional JVM arguments cannot contain control characters"));
        }
        i = i + 1;
    }
    Ok(())
}

/// Why settings are refused for `instance`, if they are.
pub open spec fn settings_error(max_ram: u64, args: Seq<Seq<char>>, instance: InstanceManifest) -> Option<
    Seq<char>,
> {
    if max_ram == 0 {
        Some("maximum RAM must be greater than zero"@)
    } else if max_ram < instance.minimum_ram_mb {
        Some(
            "maximum RAM cannot be lower than the instance minimum of "@ + decimal(
                instance.minimum_ram_mb as nat,
            ) + " MB"@,
        )
    } else {
        jvm_args_error(args)
    }
}

pub fn validate_instance_settings(settings: &InstanceSettings, instance: &InstanceManifest) -> (r: Result<
    (),
    String,
>)
    ensures
        match r {
            Ok(()) => settings_error(
                settings.maximum_ram_mb,
                string_views(settings.additional_jvm_args@),
                *instance,
            ) is None,
            Err(m) => settings_error(
                settings.maximum_ram_mb,
                string_views(settings.additional_jvm_args@),
                *instance,
            ) == Some(m@),
        },
{
    if settings.maximum_ram_mb == 0 {
        return Err(str_to_string("maximum RAM must be greater than zero"));
    }
    if settings.maximum_ram_mb < instance.minimum_ram_mb {
        let n = u64_to_string(instance.minimum_ram_mb);
        return Err(concat3(
            "maximum RAM cannot be lower than the instance minimum of ",
            n.as_str(),
            " MB",
        ));
    }
    validate_jvm_args(&settings.additional_jvm_args)
}

/// Each argument trimmed.
pub open spec fn trimmed_all(args: Seq<Seq<char>>) -> Seq<Seq<char>> {
    Seq::new(args.len(), |i: int| trim(args[i]))
}

/// The arguments trimmed, the empty ones dropped.
pub open spec fn normalized_jvm_args(args: Seq<Seq<char>>) -> Seq<Seq<char>> {
    non_empty(trimmed_all(args))
}

pub fn normalize_jvm_args(args: Vec<String>) -> (r: Vec<String>)
    ensures
        string_views(r@) == normalized_jvm_args(string_views(args@)),
{
    let mut kept: Vec<Vec<char>> = Vec::new();
    let mut i: usize = 0;
    let ghost all = string_views(args@);
    while i < args.len()
        invariant
            i <= args.len(),
            all == string_views(args@),
            views(kept@) == non_empty(trimmed_all(all.take(i as int))),
        decreases args.len() - i,
    {
        let t = trim_str(args[i].as_str());
        assert(trimmed_all(all.take(i + 1)).drop_last() =~= trimmed_all(all.take(i as int)));
        assert(trimmed_all(all.take(i + 1)).last() == t@);
        if t.len() > 0 {
            let ghost before = kept@;
            kept.push(t);
            assert(views(kept@) =~= views(before).push(t@));
        }
        i = i + 1;
    }
    assert(all.take(args.len() as int) =~= all);
    strings_of(&kept)
}

/// The state of splitting a JVM argument line: the arguments so far, the one
/// being read, and the quote it is inside, if any.
pub open spec fn jvm_scan_step(
    state: (Seq<Seq<char>>, Seq<char>, Option<char>),
    c: char,
) -> (Seq<Seq<char>>, Seq<char>, Option<char>) {
    let (args, cur, quote) = state;
    match quote {
        Some(q) => if c == q {
            (args, cur, None)
        } else {
            (args, cur.push(c), Some(q))
        },
        None => if c == '"' || c == '\'' {
            (args, cur, Some(c))
        } else if is_whitespace_char(c) {
            if cur.len() > 0 {
                (args.push(cur), Seq::empty(), None)
            } else {
                (args, cur, None)
            }
        } else {
            (args, cur.push(c), None)
        },
    }
}

pub open spec fn jvm_scan(s: Seq<char>) -> (Seq<Seq<char>>, Seq<char>, Option<char>)
    decreases s.len(),
{
    if s.len() == 0 {
        (Seq::empty(), Seq::empty(), None)
    } else {
        jvm_scan_step(jvm_scan(s.drop_last()), s.last())
    }
}

/// The arguments of a JVM argument line: split at whitespace outside
/// quotes; single or double quotes group text and are dropped.
pub open spec fn parsed_jvm_args(s: Seq<char>) -> Seq<Seq<char>> {
    let (args, cur, _) = jvm_scan(s);
    if cur.len() > 0 {
        args.push(cur)
    } else {
        args
    }
}

/// While a line holds no `other` quote, the scan of it is inside no quote
/// but `q`, and neither the arguments so far nor the current one hold `q`.
proof fn lemma_scan_drops_quote(s: Seq<char>, q: char, other: char)
    requires
        (q == '"' && other == '\'') || (q == '\'' && other == '"'),
        !contains_char(s, other),
    ensures
        jvm_scan(s).2 is None || jvm_scan(s).2 == Some(q),
        !contains_char(jvm_scan(s).1, q),
        forall|i: int| 0 <= i < jvm_scan(s).0.len() ==> !contains_char(#[trigger] jvm_scan(s).0[i], q),
    decreases s.len(),
{
    if s.len() > 0 {
        let pre = s.drop_last();
        assert forall|i: int| 0 <= i < pre.len() implies pre[i] != other by {
            assert(pre[i] == s[i]);
        }
        lemma_scan_drops_quote(pre, q, other);
        let c = s.last();
        assert(c == s[s.len() - 1]);
        let (args, cur, quote) = jvm_scan(pre);
        let (args2, cur2, quote2) = jvm_scan(s);
        assert forall|i: int| 0 <= i < args2.len() implies !contains_char(#[trigger] args2[i], q) by {
            if i < args.len() {
                assert(args2[i] == args[i]);
            } else {
                assert(args2[i] == cur);
            }
        }
        if !(cur2 == cur) {
            if cur2.len() > 0 {
                assert forall|x: int| 0 <= x < cur2.len() implies cur2[x] != q by {
                    if x < cur.len() {
                        assert(cur2[x] == cur[x]);
                    }
                }
            }
        }
    }
}

/// A quote outside quotes opens a quoted span and is dropped, wherever it
/// stands: the arguments of a line never hold a quote character that was
/// not itself inside the other kind of quote. So a line without single
/// quotes gives arguments without double quotes, and the other way round.
pub proof fn law_jvm_quotes_are_dropped(line: Seq<char>, q: char, other: char)
    requires
        (q == '"' && other == '\'') || (q == '\'' && other == '"'),
        !contains_char(line, other),
    ensures
        forall|i: int| 0 <= i < parsed_jvm_args(line).len() ==> !contains_char(#[trigger] parsed_jvm_args(line)[i], q),
{
    lemma_scan_drops_quote(line, q, other);
    let (args, cur, _) = jvm_scan(line);
    assert forall|i: int| 0 <= i < parsed_jvm_args(line).len() implies !contains_char(#[trigger] parsed_jvm_args(line)[i], q) by {
        if i < args.len() {
            assert(parsed_jvm_args(line)[i] == args[i]);
        } else {
            assert(parsed_jvm_args(line)[i] == cur);
        }
    }
}

/// Through a scan, no argument is empty; and while the line holds no quote
/// character, neither the arguments nor the one being read hold whitespace.
proof fn lemma_scan_splits_at_whitespace(s: Seq<char>)
    ensures
        forall|i: int| 0 <= i < jvm_scan(s).0.len() ==> (#[trigger] jvm_scan(s).0[i]).len() > 0,
        !contains_char(s, '"') && !contains_char(s, '\'') ==> {
            &&& jvm_scan(s).2 is None
            &&& forall|x: int| 0 <= x < jvm_scan(s).1.len() ==> !is_whitespace_char(#[trigger] jvm_scan(s).1[x])
            &&& forall|i: int, x: int|
                0 <= i < jvm_scan(s).0.len() && 0 <= x < jvm_scan(s).0[i].len() ==> !is_whitespace_char(
                    #[trigger] jvm_scan(s).0[i][x],
                )
        },
    decreases s.len(),
{
    if s.len() > 0 {
        let pre = s.drop_last();
        lemma_scan_splits_at_whitespace(pre);
        let (args, cur, quote) = jvm_scan(pre);
        let (args2, cur2, quote2) = jvm_scan(s);
        assert forall|i: int| 0 <= i < args2.len() implies (#[trigger] args2[i]).len() > 0 by {
            if i < args.len() {
                assert(args2[i] == args[i]);
            } else {
                assert(args2[i] == cur);
            }
        }
        if !contains_char(s, '"') && !contains_char(s, '\'') {
            assert forall|k: int| 0 <= k < pre.len() implies pre[k] != '"' && pre[k] != '\'' by {
                assert(pre[k] == s[k]);
            }
            let c = s.last();
            assert(c == s[s.len() - 1]);
            assert forall|x: int| 0 <= x < cur2.len() implies !is_whitespace_char(#[trigger] cur2[x]) by {
                if x < cur.len() {
                    assert(cur2[x] == cur[x]);
                }
            }
            assert forall|i: int, x: int| 0 <= i < args2.len() && 0 <= x < args2[i].len() implies !is_whitespace_char(
                #[trigger] args2[i][x],
            ) by {
                if i < args.len() {
                    assert(args2[i] == args[i]);
                } else {
                    assert(args2[i] == cur);
                }
            }
        }
    }
}

/// Arguments are never empty, and whitespace outside quotes separates them:
/// a line without quote characters gives arguments without whitespace.
pub proof fn law_jvm_args_split_at_whitespace(line: Seq<char>)
    ensures
        forall|i: int| 0 <= i < parsed_jvm_args(line).len() ==> (#[trigger] parsed_jvm_args(line)[i]).len() > 0,
        !contains_char(line, '"') && !contains_char(line, '\'') ==> forall|i: int, x: int|
            0 <= i < parsed_jvm_args(line).len() && 0 <= x < parsed_jvm_args(line)[i].len()
                ==> !is_whitespace_char(#[trigger] parsed_jvm_args(line)[i][x]),
{
    lemma_scan_splits_at_whitespace(line);
    let (args, cur, _) = jvm_scan(line);
    assert forall|i: int| 0 <= i < parsed_jvm_args(line).len() implies (#[trigger] parsed_jvm_args(line)[i]).len() > 0 by {
        if i < args.len() {
            assert(parsed_jvm_args(line)[i] == args[i]);
        } else {
            assert(parsed_jvm_args(line)[i] == cur);
        }
    }
    if !contains_char(line, '"') && !contains_char(line, '\'') {
        assert forall|i: int, x: int|
            0 <= i < parsed_jvm_args(line).len() && 0 <= x < parsed_jvm_args(line)[i].len() implies !is_whitespace_char(
            #[trigger] parsed_jvm_args(line)[i][x],
        ) by {
            if i < args.len() {
                assert(parsed_jvm_args(line)[i] == args[i]);
            } else {
                assert(parsed_jvm_args(line)[i] == cur);
            }
        }
    }
}

/// Inside an open double quote, every character but the closing quote is
/// kept as text, whitespace included.
proof fn lemma_scan_inside_quote(t: Seq<char>, k: int)
    requires
        0 <= k <= t.len(),
        !contains_char(t, '"'),
    ensures
        jvm_scan(seq!['"'] + t.take(k)) == (Seq::<Seq<char>>::empty(), t.take(k), Some('"')),
    decreases k,
{
    let line = seq!['"'] + t.take(k);
    if k == 0 {
        assert(line =~= seq!['"']);
        assert(line.drop_last() =~= Seq::<char>::empty());
        assert(t.take(0) =~= Seq::<char>::empty());
        assert(jvm_scan(line) == jvm_scan_step(jvm_scan(line.drop_last()), line.last()));
    } else {
        lemma_scan_inside_quote(t, k - 1);
        assert(line.drop_last() =~= seq!['"'] + t.take(k - 1));
        assert(line.last() == t[k - 1]);
        assert(t[k - 1] != '"');
        assert(t.take(k - 1).push(t[k - 1]) =~= t.take(k));
        assert(jvm_scan(line) == jvm_scan_step(jvm_scan(line.drop_last()), line.last()));
    }
}

/// A double-quoted span is one argument with the quotes dropped, however
/// much whitespace it holds: `"a b"` gives the single argument `a b`.
pub proof fn law_jvm_quoted_span_is_one_argument(t: Seq<char>)
    requires
        t.len() > 0,
        !contains_char(t, '"'),
    ensures
        parsed_jvm_args(seq!['"'] + t + seq!['"']) == seq![t],
{
    lemma_scan_inside_quote(t, t.len() as int);
    assert(t.take(t.len() as int) =~= t);
    let line = seq!['"'] + t + seq!['"'];
    assert(line.drop_last() =~= seq!['"'] + t);
    assert(line.last() == '"');
}

fn parse_jvm_args_chars(s: &Vec<char>) -> (r: Vec<Vec<char>>)
    ensures
        views(r@) == parsed_jvm_args(s@),
{
    let mut args: Vec<Vec<char>> = Vec::new();
    let mut cur: Vec<char> = Vec::new();
    let mut quote: Option<char> = None;
    let mut i: usize = 0;
    while i < s.len()
        invariant
            i <= s.len(),
            (views(args@), cur@, quote) == jvm_scan(s@.take(i as int)),
        decreases s.len() - i,
    {
        let c = s[i];
        assert(s@.take(i + 1).drop_last() =~= s@.take(i as int));
        assert(s@.take(i + 1).last() == c);
        match quote {
            Some(q) => {
                if c == q {
                    quote = None;
                } else {
                    cur.push(c);
                }
            },
            None => {
                if c == '"' || c == '\'' {
                    quote = Some(c);
                } else if is_whitespace(c) {
                    if cur.len() > 0 {
                        let ghost before = views(args@);
                        let done = cur;
                        args.push(done);
                        cur = Vec::new();
                        assert(views(args@) =~= before.push(done@));
                        assert(cur@ =~= Seq::<char>::empty());
                    }
                } else {
                    cur.push(c);
                }
            },
        }
        i = i + 1;
    }
    assert(s@.take(s.len() as int) =~= s@);
    if cur.len() > 0 {
        let ghost before = views(args@);
        let done = cur;
        args.push(done);
        assert(views(args@) =~= before.push(done@));
    }
    args
}

/// Splits a JVM argument line typed by the user into arguments.
pub fn parse_jvm_args(value: &str) -> (r: Vec<String>)
    ensures
        string_views(r@) == parsed_jvm_args(value@),
{
    let v = chars_of(value);
    let parts = parse_jvm_args_chars(&v);
    strings_of(&parts)
}

/// All items are JSON strings.
pub open spec fn all_strings(items: Seq<JsonValue>) -> bool {
    forall|i: int| 0 <= i < items.len() ==> (#[trigger] items[i]).str_view() is Some
}

pub open spec fn item_strings(items: Seq<JsonValue>) -> Seq<Seq<char>> {
    Seq::new(items.len(), |i: int| items[i].str_view()->0)
}

/// The JVM arguments a settings value stands for: an array of strings, or
/// one string that is split like a command line; trimmed, empty ones
/// dropped.
pub open spec fn jvm_args_of_value(value: JsonValue) -> Result<Seq<Seq<char>>, Seq<char>> {
    match value {
        JsonValue::Array(items) => if all_strings(items@) {
            Ok(normalized_jvm_args(item_strings(items@)))
        } else {
            Err("additional_jvm_args must be an array of strings"@)
        },
        JsonValue::Str(s) => Ok(normalized_jvm_args(parsed_jvm_args(s@))),
        _ => Err("additional_jvm_args must be an array of strings"@),
    }
}

pub fn jvm_args_from_value(value: JsonValue) -> (r: Result<Vec<String>, String>)
    ensures
        match r {
            Ok(a) => jvm_args_of_value(value) == Ok::<Seq<Seq<char>>, Seq<char>>(
                string_views(a@),
            ),
            Err(m) => jvm_args_of_value(value) == Err::<Seq<Seq<char>>, Seq<char>>(m@),
        },
{
    let ghost original = value;
    match value {
        JsonValue::Array(items) => {
            let mut args: Vec<String> = Vec::new();
            let mut i: usize = 0;
            while i < items.len()
                invariant
                    original == JsonValue::Array(items),
                    original == value,
                    i <= items.len(),
                    all_strings(items@.take(i as int)),
                    string_views(args@) == item_strings(items@.take(i as int)),
                decreases items.len() - i,
            {
                match &items[i] {
                    JsonValue::Str(s) => {
                        let ghost before = args@;
                        assert(items@[i as int].str_view() == Some(s@));
                        args.push(s.clone());
                        assert(string_views(args@) =~= string_views(before).push(s@));
                        assert(item_strings(items@.take(i + 1)) =~= item_strings(
                            items@.take(i as int),
                        ).push(s@));
                        assert(all_strings(items@.take(i + 1))) by {
                            assert forall|k: int| 0 <= k < i + 1 implies (#[trigger] items@.take(
                                i + 1,
                            )[k]).str_view() is Some by {
                                if k < i {
                                    assert(items@.take(i + 1)[k] == items@.take(i as int)[k]);
                                }
                            }
                        }
                    },
                    _ => {
                        assert(!all_strings(items@)) by {
                            assert(items@[i as int].str_view() is None);
                        }
                        assert(jvm_args_of_value(original) is Err);
                        return Err(str_to_string("additional_jvm_args must be an array of strings"));
                    },
                }
                i = i + 1;
            }
            assert(items@.take(items.len() as int) =~= items@);
            Ok(normalize_jvm_args(args))
        },
        JsonValue::Str(s) => Ok(normalize_jvm_args(parse_jvm_args(s.as_str()))),
        _ => {
            assert(jvm_args_of_value(original) is Err);
            Err(str_to_string("additional_jvm_args must be an array of strings"))
        },
    }
}

/// The settings read from an instance's settings file, trimmed and checked;
/// where there is no file yet, the defaults (which are then written).
pub open spec fn stored_settings_result(
    instance: InstanceManifest,
    stored: Option<(u64, Seq<Seq<char>>)>,
) -> Result<(u64, Seq<Seq<char>>), Seq<char>> {
    let (max, args) = match stored {
        Some((m, a)) => (m, normalized_jvm_args(a)),
        None => (max_u64(max_u64(instance.recommended_ram_mb, instance.minimum_ram_mb), 1), Seq::<Seq<char>>::empty()),
    };
    match settings_error(max, args, instance) {
        Some(e) => Err(e),
        None => Ok((max, args)),
    }
}

pub open spec fn settings_view(s: InstanceSettings) -> (u64, Seq<Seq<char>>) {
    (s.maximum_ram_mb, string_views(s.additional_jvm_args@))
}

/// An instance's settings, from what its settings file holds (`None` where
/// there is no file, so the defaults apply and are to be written).
pub fn get_instance_settings(instance: &InstanceManifest, stored: Option<InstanceSettings>) -> (r: Result<
    InstanceSettings,
    String,
>)
    ensures
        match r {
            Ok(s) => stored_settings_result(
                *instance,
                match stored {
                    Some(t) => Some(settings_view(t)),
                    None => None,
                },
            ) == Ok::<(u64, Seq<Seq<char>>), Seq<char>>(settings_view(s)),
            Err(m) => stored_settings_result(
                *instance,
                match stored {
                    Some(t) => Some(settings_view(t)),
                    None => None,
                },
            ) == Err::<(u64, Seq<Seq<char>>), Seq<char>>(m@),
        },
{
    let settings = match stored {
        Some(s) => InstanceSettings {
            maximum_ram_mb: s.maximum_ram_mb,
            additional_jvm_args: normalize_jvm_args(s.additional_jvm_args),
        },
        None => {
            let d = default_instance_settings(instance);
            assert(string_views(d.additional_jvm_args@) =~= Seq::<Seq<char>>::empty());
            d
        },
    };
    validate_instance_settings(&settings, instance)?;
    Ok(settings)
}

/// The settings after setting `key` to `value`, or why not.
pub open spec fn settings_with_field(
    instance: InstanceManifest,
    settings: (u64, Seq<Seq<char>>),
    key: Seq<char>,
    value: JsonValue,
) -> Result<(u64, Seq<Seq<char>>), Seq<char>> {
    let updated: Result<(u64, Seq<Seq<char>>), Seq<char>> = if key == "maximum_ram_mb"@ {
        match value.u64_view() {
            Some(n) => Ok((n, settings.1)),
            None => Err("maximum_ram_mb must be an unsigned integer"@),
        }
    } else if key == "additional_jvm_args"@ {
        match jvm_args_of_value(value) {
            Ok(a) => Ok((settings.0, a)),
            Err(e) => Err(e),
        }
    } else {
        Err("Unknown instance settings key: "@ + key)
    };
    match updated {
        Err(e) => Err(e),
        Ok((max, args)) => match settings_error(max, args, instance) {
            Some(e) => Err(e),
            None => Ok((max, args)),
        },
    }
}

/// Sets one of an instance's settings; the result is checked before it is
/// returned (to be written by the caller).
pub fn update_instance_settings_field(
    instance: &InstanceManifest,
    settings: InstanceSettings,
    key: &str,
    value: JsonValue,
) -> (r: Result<InstanceSettings, String>)
    ensures
        match r {
            Ok(s) => settings_with_field(*instance, settings_view(settings), key@, value) == Ok::<
                (u64, Seq<Seq<char>>),
                Seq<char>,
            >(settings_view(s)),
            Err(m) => settings_with_field(*instance, settings_view(settings), key@, value) == Err::<
                (u64, Seq<Seq<char>>),
                Seq<char>,
            >(m@),
        },
{
    let mut settings = settings;
    if str_eq(key, "maximum_ram_mb") {
        match value.as_u64() {
            Some(n) => {
                settings.maximum_ram_mb = n;
            },
            None => {
                return Err(str_to_string("maximum_ram_mb must be an unsigned integer"));
            },
        }
    } else if str_eq(key, "additional_jvm_args") {
        settings.additional_jvm_args = jvm_args_from_value(value)?;
    } else {
        return Err(concat2("Unknown instance settings key: ", key));
    }
    validate_instance_settings(&settings, instance)?;
    Ok(settings)
}

// ---------------------------------------------------------------------------
// Instance folders
// ---------------------------------------------------------------------------
/// Why an instance's folder cannot be used or removed, by the kind of I/O
/// error it is reported as: a request that is refused (an invalid id, an
/// active instance, a symbolic link), a folder that is not what it should
/// be, or an instance or folder that is not there.
#[derive(Debug)]
pub enum InstanceDirError {
    InvalidInput(String),
    InvalidData(String),
    NotFound(String),
}

impl InstanceDirError {
    /// The error's text.
    pub fn message(&self) -> (m: String)
        ensures
            m@ == match *self {
                InstanceDirError::InvalidInput(t) => t@,
                InstanceDirError::InvalidData(t) => t@,
                InstanceDirError::NotFound(t) => t@,
            },
    {
        match self {
            InstanceDirError::InvalidInput(t) => t.clone(),
            InstanceDirError::InvalidData(t) => t.clone(),
            InstanceDirError::NotFound(t) => t.clone(),
        }
    }
}

/// The folder of the instance `id` inside the instances directory, where
/// `id` can name a folder; where it cannot, the refusal is an invalid
/// input.
pub fn local_instance_dir(install_dir: &str, id: &str, windows: bool) -> (r: Result<String, String>)
    ensures
        match r {
            Ok(p) => instance_id_error(id@, windows) is None && p@ == path_join(install_dir@, id@),
            Err(m) => instance_id_error(id@, windows) == Some(m@),
        },
{
    validate_instance_id_path_component(id, windows)?;
    Ok(join_path(install_dir, id))
}

// ---------------------------------------------------------------------------
// The record of instances
// ---------------------------------------------------------------------------
/// The instances the launcher knows of, and the states that an install or
/// a launch in progress puts over them.
#[derive(Debug)]
pub struct InstanceRegistry {
    pub instances: Vec<InstanceEntry>,
    pub overrides: Vec<(String, InstanceState)>,
}

impl InstanceRegistry {
    pub fn new() -> (r: Self)
        ensures
            r.instances@.len() == 0,
            r.overrides@.len() == 0,
    {
        InstanceRegistry { instances: Vec::new(), overrides: Vec::new() }
    }
}

/// The index of the first entry with `id`, or the number of entries.
pub open spec fn entry_index(entries: Seq<InstanceEntry>, id: Seq<char>) -> int
    decreases entries.len(),
{
    if entries.len() == 0 {
        0
    } else if entries[0].id@ == id {
        0
    } else {
        1 + entry_index(entries.drop_first(), id)
    }
}

pub open spec fn has_id(entries: Seq<InstanceEntry>, id: Seq<char>) -> bool {
    exists|i: int| 0 <= i < entries.len() && (#[trigger] entries[i]).id@ == id
}

pub proof fn lemma_entry_index(entries: Seq<InstanceEntry>, id: Seq<char>)
    ensures
        0 <= entry_index(entries, id) <= entries.len(),
        entry_index(entries, id) < entries.len() ==> entries[entry_index(entries, id)].id@ == id,
        forall|k: int| 0 <= k < entry_index(entries, id) ==> (#[trigger] entries[k]).id@ != id,
        entry_index(entries, id) < entries.len() <==> has_id(entries, id),
    decreases entries.len(),
{
    if entries.len() > 0 && entries[0].id@ != id {
        lemma_entry_index(entries.drop_first(), id);
        assert forall|k: int| 0 <= k < entry_index(entries, id) implies (#[trigger] entries[k]).id@
            != id by {
            if k > 0 {
                assert(entries[k] == entries.drop_first()[k - 1]);
            }
        }
        if has_id(entries, id) {
            let w = choose|i: int| 0 <= i < entries.len() && (#[trigger] entries[i]).id@ == id;
            assert(entries.drop_first()[w - 1].id@ == id);
        }
        if has_id(entries.drop_first(), id) {
            let w = choose|i: int|
                0 <= i < entries.drop_first().len() && (#[trigger] entries.drop_first()[i]).id@
                    == id;
            assert(entries[w + 1].id@ == id);
        }
    } else if entries.len() > 0 {
        assert(entries[0].id@ == id);
    }
}

/// The first entry with `id`.
pub open spec fn find_entry(entries: Seq<InstanceEntry>, id: Seq<char>) -> Option<InstanceEntry> {
    if entry_index(entries, id) < entries.len() {
        Some(entries[entry_index(entries, id)])
    } else {
        None
    }
}

fn entry_index_exec(entries: &Vec<InstanceEntry>, id: &str) -> (r: usize)
    ensures
        r == entry_index(entries@, id@),
{
    let mut i: usize = 0;
    assert(entries@.skip(0) =~= entries@);
    while i < entries.len() && !str_eq(entries[i].id.as_str(), id)
        invariant
            i <= entries.len(),
            entry_index(entries@, id@) == i + entry_index(entries@.skip(i as int), id@),
        decreases entries.len() - i,
    {
        assert(entries@.skip(i as int).drop_first() =~= entries@.skip(i + 1));
        i = i + 1;
    }
    proof {
        if i < entries.len() {
            assert(entries@.skip(i as int)[0] == entries@[i as int]);
        }
    }
    i
}

/// The override for `id`: the last one set.
pub open spec fn override_of(overrides: Seq<(String, InstanceState)>, id: Seq<char>) -> Option<
    InstanceState,
>
    decreases overrides.len(),
{
    if overrides.len() == 0 {
        None
    } else if overrides.last().0@ == id {
        Some(overrides.last().1)
    } else {
        override_of(overrides.drop_last(), id)
    }
}

/// The overrides without those for `id`.
pub open spec fn overrides_without(overrides: Seq<(String, InstanceState)>, id: Seq<char>) -> Seq<
    (String, InstanceState),
>
    decreases overrides.len(),
{
    if overrides.len() == 0 {
        overrides
    } else if overrides.last().0@ == id {
        overrides_without(overrides.drop_last(), id)
    } else {
        overrides_without(overrides.drop_last(), id).push(overrides.last())
    }
}

proof fn lemma_overrides_without(overrides: Seq<(String, InstanceState)>, id: Seq<char>, k: Seq<char>)
    ensures
        override_of(overrides_without(overrides, id), k) == if k == id {
            None
        } else {
            override_of(overrides, k)
        },
    decreases overrides.len(),
{
    if overrides.len() > 0 {
        lemma_overrides_without(overrides.drop_last(), id, k);
        let rest = overrides_without(overrides.drop_last(), id);
        if overrides.last().0@ != id {
            assert(rest.push(overrides.last()).drop_last() =~= rest);
            assert(rest.push(overrides.last()).last() == overrides.last());
        }
    }
}

/// The state of `id`: its override, else its entry's state, else unknown.
pub open spec fn state_of(reg: InstanceRegistry, id: Seq<char>) -> InstanceState {
    match override_of(reg.overrides@, id) {
        Some(s) => s,
        None => match find_entry(reg.instances@, id) {
            Some(e) => e.state,
            None => InstanceState::Unknown,
        },
    }
}

/// The instances the launcher knows of.
pub fn get_instances(reg: &InstanceRegistry) -> (r: Vec<InstanceEntry>)
    ensures
        r@ == reg.instances@,
{
    copy_entries(&reg.instances)
}

/// The manifest of the first instance with `id`.
pub fn get_instance_manifest(reg: &InstanceRegistry, id: &str) -> (r: Option<InstanceManifest>)
    ensures
        r == match find_entry(reg.instances@, id@) {
            Some(e) => e.instance_manifest,
            None => None,
        },
{
    let k = entry_index_exec(&reg.instances, id);
    if k < reg.instances.len() {
        match &reg.instances[k].instance_manifest {
            Some(m) => Some(copy_manifest(m)),
            None => None,
        }
    } else {
        None
    }
}

/// The pack version of an instance that has a manifest.
pub fn get_instance_version(reg: &InstanceRegistry, id: &str) -> (r: Result<String, String>)
    ensures
        match r {
            Ok(v) => (find_entry(reg.instances@, id@) matches Some(e) && (e.instance_manifest matches Some(m) && m.pack_version@ == v@)),
            Err(m) => !(find_entry(reg.instances@, id@) matches Some(e) && e.instance_manifest is Some) && m@ == "Instance '"@ + id@ + "' was not found"@,
        },
{
    match get_instance_manifest(reg, id) {
        Some(m) => Ok(m.pack_version),
        None => Err(concat3("Instance '", id, "' was not found")),
    }
}

fn override_exec(overrides: &Vec<(String, InstanceState)>, id: &str) -> (r: Option<InstanceState>)
    ensures
        r == override_of(overrides@, id@),
{
    let mut i = overrides.len();
    assert(overrides@.take(i as int) =~= overrides@);
    while i > 0
        invariant
            i <= overrides.len(),
            override_of(overrides@, id@) == override_of(overrides@.take(i as int), id@),
        decreases i,
    {
        assert(overrides@.take(i as int).drop_last() =~= overrides@.take(i - 1));
        assert(overrides@.take(i as int).last() == overrides@[i - 1]);
        if str_eq(overrides[i - 1].0.as_str(), id) {
            return Some(overrides[i - 1].1);
        }
        i = i - 1;
    }
    None
}

/// The state the window shows for `id`.
pub fn get_instance_state(reg: &InstanceRegistry, id: &str) -> (r: InstanceState)
    ensures
        r == state_of(*reg, id@),
{
    if let Some(s) = override_exec(&reg.overrides, id) {
        return s;
    }
    let k = entry_index_exec(&reg.instances, id);
    if k < reg.instances.len() {
        reg.instances[k].state
    } else {
        InstanceState::Unknown
    }
}

fn state_changed(id: &str, state: InstanceState) -> (e: InstanceStateChanged)
    ensures
        e.id@ == id@,
        e.state == state,
        e.state_code == state_code_of(state),
{
    InstanceStateChanged { id: str_to_string(id), state, state_code: state_code(state) }
}

fn remove_override(reg: &mut InstanceRegistry, id: &str) -> (r: Option<InstanceState>)
    ensures
        r == override_of(old(reg).overrides@, id@),
        final(reg).overrides@ == overrides_without(old(reg).overrides@, id@),
        final(reg).instances@ == old(reg).instances@,
{
    let found = override_exec(&reg.overrides, id);
    let mut kept: Vec<(String, InstanceState)> = Vec::new();
    let mut i: usize = 0;
    let ghost all = reg.overrides@;
    while i < reg.overrides.len()
        invariant
            i <= reg.overrides.len(),
            all == reg.overrides@,
            kept@ == overrides_without(all.take(i as int), id@),
        decreases reg.overrides.len() - i,
    {
        assert(all.take(i + 1).drop_last() =~= all.take(i as int));
        assert(all.take(i + 1).last() == all[i as int]);
        if !str_eq(reg.overrides[i].0.as_str(), id) {
            kept.push((reg.overrides[i].0.clone(), reg.overrides[i].1));
        }
        i = i + 1;
    }
    assert(all.take(all.len() as int) =~= all);
    reg.overrides = kept;
    found
}

/// Puts `state` over the instance `id` (while it installs or runs), and
/// gives the event to send where the state the window shows changes.
pub fn set_instance_state_override(reg: &mut InstanceRegistry, id: &str, state: InstanceState) -> (r: Option<
    InstanceStateChanged,
>)
    ensures
        final(reg).instances@ == old(reg).instances@,
        forall|k: Seq<char>|
            #![trigger override_of(final(reg).overrides@, k)]
            override_of(final(reg).overrides@, k) == if k == id@ {
                Some(state)
            } else {
                override_of(old(reg).overrides@, k)
            },
        state_of(*final(reg), id@) == state,
        match r {
            Some(e) => state_of(*old(reg), id@) != state && e.id@ == id@ && e.state == state
                && e.state_code == state_code_of(state),
            None => state_of(*old(reg), id@) == state,
        },
{
    let previous = get_instance_state(reg, id);
    let _ = remove_override(reg, id);
    reg.overrides.push((str_to_string(id), state));
    proof {
        assert forall|k: Seq<char>| #![trigger override_of(reg.overrides@, k)]
            override_of(reg.overrides@, k) == if k == id@ {
                Some(state)
            } else {
                override_of(old(reg).overrides@, k)
            } by {
            assert(reg.overrides@.drop_last() == overrides_without(old(reg).overrides@, id@));
            lemma_overrides_without(old(reg).overrides@, id@, k);
        }
        assert(override_of(reg.overrides@, id@) == Some(state));
    }
    if previous != state {
        Some(state_changed(id, state))
    } else {
        None
    }
}

/// Takes the override off the instance `id`, and gives the event to send
/// where there was one.
pub fn clear_instance_state_override(reg: &mut InstanceRegistry, id: &str) -> (r: Option<
    InstanceStateChanged,
>)
    ensures
        final(reg).instances@ == old(reg).instances@,
        forall|k: Seq<char>|
            #![trigger override_of(final(reg).overrides@, k)]
            override_of(final(reg).overrides@, k) == if k == id@ {
                None
            } else {
                override_of(old(reg).overrides@, k)
            },
        match r {
            Some(e) => override_of(old(reg).overrides@, id@) is Some && e.id@ == id@ && e.state
                == state_of(*final(reg), id@) && e.state_code == state_code_of(e.state),
            None => override_of(old(reg).overrides@, id@) is None,
        },
{
    let removed = remove_override(reg, id);
    proof {
        assert forall|k: Seq<char>| #![trigger override_of(reg.overrides@, k)]
            override_of(reg.overrides@, k) == if k == id@ {
                None
            } else {
                override_of(old(reg).overrides@, k)
            } by {
            lemma_overrides_without(old(reg).overrides@, id@, k);
        }
    }
    if removed.is_some() {
        let s = get_instance_state(reg, id);
        Some(state_changed(id, s))
    } else {
        None
    }
}

/// A new entry is a change where no entry with its id was there, or the
/// first one had another state.
pub open spec fn entry_changed(old: Seq<InstanceEntry>, e: InstanceEntry) -> bool {
    match find_entry(old, e.id@) {
        Some(c) => c.state != e.state,
        None => true,
    }
}

/// The ids whose state the window must be told of when the entries `old`
/// are replaced by `new`: those of changed new entries, and those that are
/// gone.
pub open spec fn is_changed(old: Seq<InstanceEntry>, new: Seq<InstanceEntry>, id: Seq<char>) -> bool {
    (exists|i: int| 0 <= i < new.len() && (#[trigger] new[i]).id@ == id && entry_changed(old, new[i]))
        || (has_id(old, id) && !has_id(new, id))
}

pub open spec fn event_ids(events: Seq<InstanceStateChanged>) -> Seq<Seq<char>> {
    Seq::new(events.len(), |i: int| events[i].id@)
}

/// The events sent after the record of instances went from `before` to
/// `after` by putting in the entries `new`: one per changed id, in the order
/// of the ids, each with the state the window now shows.
pub open spec fn events_for_replacement(
    before: InstanceRegistry,
    after: InstanceRegistry,
    new: Seq<InstanceEntry>,
    events: Seq<InstanceStateChanged>,
) -> bool {
    &&& after.instances@ == new
    &&& after.overrides@ == before.overrides@
    &&& sorted_strictly(event_ids(events))
    &&& forall|k: Seq<char>| event_ids(events).contains(k) <==> is_changed(before.instances@, new, k)
    &&& forall|i: int|
        0 <= i < events.len() ==> (#[trigger] events[i]).state == state_of(after, events[i].id@)
            && events[i].state_code == state_code_of(events[i].state)
}

fn entry_is_changed(old: &Vec<InstanceEntry>, e: &InstanceEntry) -> (r: bool)
    ensures
        r == entry_changed(old@, *e),
{
    let k = entry_index_exec(old, e.id.as_str());
    k >= old.len() || old[k].state != e.state
}

/// Puts in a new list of entries and gives the events to send.
pub fn replace_instances(reg: &mut InstanceRegistry, instances: Vec<InstanceEntry>) -> (r: Vec<
    InstanceStateChanged,
>)
    ensures
        events_for_replacement(*old(reg), *final(reg), instances@, r@),
{
    let ghost old_entries = reg.instances@;
    let ghost new_entries = instances@;
    let mut ids: Vec<String> = Vec::new();
    let mut i: usize = 0;
    while i < instances.len()
        invariant
            i <= instances.len(),
            old_entries == reg.instances@,
            new_entries == instances@,
            sorted_strictly(string_views(ids@)),
            forall|k: Seq<char>|
                string_views(ids@).contains(k) <==> (exists|j: int|
                    0 <= j < i && (#[trigger] new_entries[j]).id@ == k && entry_changed(
                        old_entries,
                        new_entries[j],
                    )),
        decreases instances.len() - i,
    {
        let ghost before = string_views(ids@);
        if entry_is_changed(&reg.instances, &instances[i]) {
            insert_sorted(&mut ids, instances[i].id.clone());
        }
        assert forall|k: Seq<char>| string_views(ids@).contains(k) <==> (exists|j: int|
            0 <= j < i + 1 && (#[trigger] new_entries[j]).id@ == k && entry_changed(
                old_entries,
                new_entries[j],
            )) by {
            if k == new_entries[i as int].id@ && entry_changed(old_entries, new_entries[i as int]) {
                assert(new_entries[i as int].id@ == k);
            }
            if exists|j: int|
                0 <= j < i + 1 && (#[trigger] new_entries[j]).id@ == k && entry_changed(
                    old_entries,
                    new_entries[j],
                ) {
                let j = choose|j: int|
                    0 <= j < i + 1 && (#[trigger] new_entries[j]).id@ == k && entry_changed(
                        old_entries,
                        new_entries[j],
                    );
                if j < i {
                    assert(before.contains(k));
                }
            }
        }
        i = i + 1;
    }
    let mut j: usize = 0;
    while j < reg.instances.len()
        invariant
            j <= reg.instances.len(),
            old_entries == reg.instances@,
            new_entries == instances@,
            sorted_strictly(string_views(ids@)),
            forall|k: Seq<char>|
                string_views(ids@).contains(k) <==> ((exists|m: int|
                    0 <= m < new_entries.len() && (#[trigger] new_entries[m]).id@ == k
                        && entry_changed(old_entries, new_entries[m])) || (exists|m: int|
                    0 <= m < j && (#[trigger] old_entries[m]).id@ == k && !has_id(
                        new_entries,
                        k,
                    ))),
        decreases reg.instances.len() - j,
    {
        let ghost before = string_views(ids@);
        let k = entry_index_exec(&instances, reg.instances[j].id.as_str());
        proof {
            lemma_entry_index(new_entries, old_entries[j as int].id@);
        }
        if k >= instances.len() {
            insert_sorted(&mut ids, reg.instances[j].id.clone());
        }
        assert forall|key: Seq<char>| string_views(ids@).contains(key) <==> ((exists|m: int|
            0 <= m < new_entries.len() && (#[trigger] new_entries[m]).id@ == key && entry_changed(
                old_entries,
                new_entries[m],
            )) || (exists|m: int|
            0 <= m < j + 1 && (#[trigger] old_entries[m]).id@ == key && !has_id(
                new_entries,
                key,
            ))) by {
            if key == old_entries[j as int].id@ && !has_id(new_entries, key) {
                assert(old_entries[j as int].id@ == key);
            }
            if exists|m: int|
                0 <= m < j + 1 && (#[trigger] old_entries[m]).id@ == key && !has_id(
                    new_entries,
                    key,
                ) {
                let m = choose|m: int|
                    0 <= m < j + 1 && (#[trigger] old_entries[m]).id@ == key && !has_id(
                        new_entries,
                        key,
                    );
                if m < j {
                    assert(before.contains(key));
                }
            }
        }
        j = j + 1;
    }
    assert forall|k: Seq<char>| string_views(ids@).contains(k) <==> is_changed(
        old_entries,
        new_entries,
        k,
    ) by {
        if has_id(old_entries, k) && !has_id(new_entries, k) {
            let m = choose|m: int| 0 <= m < old_entries.len() && (#[trigger] old_entries[m]).id@ == k;
            assert(old_entries[m].id@ == k);
        }
    }
    reg.instances = instances;
    let mut events: Vec<InstanceStateChanged> = Vec::new();
    let mut e: usize = 0;
    while e < ids.len()
        invariant
            e <= ids.len(),
            events@.len() == e,
            forall|m: int| 0 <= m < e ==> (#[trigger] events@[m]).id@ == string_views(ids@)[m],
            forall|m: int|
                0 <= m < e ==> (#[trigger] events@[m]).state == state_of(*reg, events@[m].id@)
                    && events@[m].state_code == state_code_of(events@[m].state),
        decreases ids.len() - e,
    {
        let st = get_instance_state(reg, ids[e].as_str());
        events.push(state_changed(ids[e].as_str(), st));
        e = e + 1;
    }
    assert(event_ids(events@) =~= string_views(ids@));
    events
}

/// Whether `id` names an instance offered by the CDN.
pub open spec fn is_remote_id(id: Seq<char>) -> bool {
    id == "saykocraft-earth"@
}

pub fn is_remote_instance_id(id: &str) -> (b: bool)
    ensures
        b == is_remote_id(id@),
{
    str_eq(id, "saykocraft-earth")
}

/// The instances offered by the CDN.
pub fn remote_instance_ids() -> (r: Vec<String>)
    ensures
        r@.len() == 1,
        r@[0]@ == "saykocraft-earth"@,
{
    let mut r = Vec::new();
    r.push(str_to_string("saykocraft-earth"));
    r
}

pub fn empty_instance_entry(id: &str, state: InstanceState) -> (e: InstanceEntry)
    ensures
        e.id@ == id@,
        e.state == state,
        e.instance_manifest is None,
{
    InstanceEntry { id: str_to_string(id), state, instance_manifest: None }
}

/// The entries without those with `id`.
pub open spec fn entries_without(entries: Seq<InstanceEntry>, id: Seq<char>) -> Seq<InstanceEntry>
    decreases entries.len(),
{
    if entries.len() == 0 {
        entries
    } else if entries.last().id@ == id {
        entries_without(entries.drop_last(), id)
    } else {
        entries_without(entries.drop_last(), id).push(entries.last())
    }
}

/// Whether `after` is `before` with the instance `id` forgotten, `events`
/// the changes announced: the override of `id` goes, its entries go, an
/// instance of the CDN comes back as a not downloaded entry without a
/// manifest, and the events are those of replacing the list.
pub open spec fn forgets(
    before: InstanceRegistry,
    after: InstanceRegistry,
    id: Seq<char>,
    events: Seq<InstanceStateChanged>,
) -> bool {
    &&& forall|k: Seq<char>|
        #![trigger override_of(after.overrides@, k)]
        override_of(after.overrides@, k) == if k == id {
            None
        } else {
            override_of(before.overrides@, k)
        }
    &&& if is_remote_id(id) {
        after.instances@.len() == entries_without(before.instances@, id).len() + 1
            && after.instances@.drop_last() == entries_without(before.instances@, id)
            && after.instances@.last().id@ == id && after.instances@.last().state
            == InstanceState::NotDownloaded && after.instances@.last().instance_manifest is None
    } else {
        after.instances@ == entries_without(before.instances@, id)
    }
    &&& exists|mid: InstanceRegistry|
        events_for_replacement(mid, after, after.instances@, events) && mid.instances@
            == before.instances@
}

/// Forgets a removed instance: its override goes, its entries go, and an
/// instance of the CDN comes back as not downloaded.
pub fn mark_instance_removed(reg: &mut InstanceRegistry, id: &str) -> (r: Vec<InstanceStateChanged>)
    ensures
        forgets(*old(reg), *final(reg), id@, r@),
{
    let _ = remove_override(reg, id);
    proof {
        assert forall|k: Seq<char>| #![trigger override_of(reg.overrides@, k)]
            override_of(reg.overrides@, k) == if k == id@ {
                None
            } else {
                override_of(old(reg).overrides@, k)
            } by {
            lemma_overrides_without(old(reg).overrides@, id@, k);
        }
    }
    let mut kept: Vec<InstanceEntry> = Vec::new();
    let mut i: usize = 0;
    let ghost all = reg.instances@;
    while i < reg.instances.len()
        invariant
            i <= reg.instances.len(),
            all == reg.instances@,
            kept@ == entries_without(all.take(i as int), id@),
        decreases reg.instances.len() - i,
    {
        assert(all.take(i + 1).drop_last() =~= all.take(i as int));
        assert(all.take(i + 1).last() == all[i as int]);
        if !str_eq(reg.instances[i].id.as_str(), id) {
            kept.push(copy_entry(&reg.instances[i]));
        }
        i = i + 1;
    }
    assert(all.take(all.len() as int) =~= all);
    if is_remote_instance_id(id) {
        kept.push(empty_instance_entry(id, InstanceState::NotDownloaded));
    }
    let ghost mid = *reg;
    let events = replace_instances(reg, kept);
    proof {
        if is_remote_id(id@) {
            assert(reg.instances@.drop_last() =~= entries_without(all, id@));
        }
    }
    events
}

/// Why the instance `id` cannot be removed now, if it cannot.
pub open spec fn removal_error(reg: InstanceRegistry, id: Seq<char>, windows: bool) -> Option<Seq<char>> {
    if instance_id_error(id, windows) is Some {
        instance_id_error(id, windows)
    } else if state_of(reg, id) == InstanceState::Downloading || state_of(reg, id)
        == InstanceState::Updating || state_of(reg, id) == InstanceState::Launched {
        Some("cannot remove instance '"@ + id + "' while it is active"@)
    } else {
        None
    }
}

pub fn ensure_instance_can_be_removed(reg: &InstanceRegistry, id: &str, windows: bool) -> (r: Result<(), InstanceDirError>)
    ensures
        match r {
            Ok(()) => removal_error(*reg, id@, windows) is None,
            Err(e) => e matches InstanceDirError::InvalidInput(m) && removal_error(*reg, id@, windows) == Some(m@),
        },
{
    if let Err(m) = validate_instance_id_path_component(id, windows) {
        return Err(InstanceDirError::InvalidInput(m));
    }
    let st = get_instance_state(reg, id);
    match st {
        InstanceState::Downloading | InstanceState::Updating | InstanceState::Launched => Err(
            InstanceDirError::InvalidInput(concat3("cannot remove instance '", id, "' while it is active")),
        ),
        _ => Ok(()),
    }
}

/// Finishes removing the instance `id` once its folder was dealt with:
/// `removal` is whether a folder was removed, or the refusal that stopped
/// it. On a refusal nothing changes; else the instance is forgotten (see
/// `mark_instance_removed`) and the events of that are returned.
pub fn remove_local_instance(reg: &mut InstanceRegistry, id: &str, removal: Result<bool, InstanceDirError>) -> (r: Result<
    (bool, Vec<InstanceStateChanged>),
    InstanceDirError,
>)
    ensures
        match removal {
            Err(e) => r == Err::<(bool, Vec<InstanceStateChanged>), InstanceDirError>(e) && *final(reg)
                == *old(reg),
            Ok(removed) => r matches Ok((b, events)) && b == removed && forgets(
                *old(reg),
                *final(reg),
                id@,
                events@,
            ),
        },
{
    match removal {
        Err(e) => Err(e),
        Ok(removed) => {
            let events = mark_instance_removed(reg, id);
            Ok((removed, events))
        },
    }
}

/// The folder of an instance that has a manifest (whether it exists on disk
/// is for the caller to check).
pub fn installed_instance_dir(reg: &InstanceRegistry, install_dir: &str, id: &str, windows: bool) -> (r: Result<
    String,
    InstanceDirError,
>)
    ensures
        match r {
            Ok(p) => (find_entry(reg.instances@, id@) matches Some(e) && (e.instance_manifest matches Some(m) && instance_id_error(m.id@, windows) is None && p@ == path_join(install_dir@, m.id@))),
            Err(err) => match find_entry(reg.instances@, id@) {
                Some(e) => match e.instance_manifest {
                    Some(m) => err matches InstanceDirError::InvalidInput(msg) && instance_id_error(m.id@, windows) == Some(msg@),
                    None => err matches InstanceDirError::NotFound(msg) && msg@ == "Instance '"@ + id@ + "' is not installed"@,
                },
                None => err matches InstanceDirError::NotFound(msg) && msg@ == "Instance '"@ + id@ + "' is not installed"@,
            },
        },
{
    match get_instance_manifest(reg, id) {
        None => Err(InstanceDirError::NotFound(concat3("Instance '", id, "' is not installed"))),
        Some(m) => match local_instance_dir(install_dir, m.id.as_str(), windows) {
            Ok(p) => Ok(p),
            Err(msg) => Err(InstanceDirError::InvalidInput(msg)),
        },
    }
}

/// The state an install moves an instance into: an update where one is due
/// or under way, else a download.
pub fn install_state(current: InstanceState) -> (r: InstanceState)
    ensures
        r == if current == InstanceState::RequiresUpdate || current == InstanceState::Updating {
            InstanceState::Updating
        } else {
            InstanceState::Downloading
        },
{
    match current {
        InstanceState::RequiresUpdate | InstanceState::Updating => InstanceState::Updating,
        _ => InstanceState::Downloading,
    }
}

/// The state of an instance from the CDN's manifest and the one on disk: a
/// newer pack version on the CDN means an update is due, the same version
/// is ready, anything else (an older CDN version, a version that does not
/// parse) is unknown.
pub open spec fn state_for_versions(remote: InstanceManifest, local: Option<InstanceManifest>) -> InstanceState {
    match local {
        None => InstanceState::NotDownloaded,
        Some(l) => match semver_order(remote.pack_version@, l.pack_version@) {
            Some(Ordering::Greater) => InstanceState::RequiresUpdate,
            Some(Ordering::Equal) => InstanceState::Ready,
            _ => InstanceState::Unknown,
        },
    }
}

pub fn determine_instance_state(
    instance_id: &str,
    remote_instance: &InstanceManifest,
    local_instance: Option<&InstanceManifest>,
) -> (r: InstanceState)
    ensures
        r == state_for_versions(
            *remote_instance,
            match local_instance {
                Some(l) => Some(*l),
                None => None,
            },
        ),
{
    let Some(local) = local_instance else {
        return InstanceState::NotDownloaded;
    };
    match compare_semver(remote_instance.pack_version.as_str(), local.pack_version.as_str()) {
        Some(Ordering::Greater) => InstanceState::RequiresUpdate,
        Some(Ordering::Equal) => InstanceState::Ready,
        _ => InstanceState::Unknown,
    }
}

/// One CDN instance applied to the entries: a new entry where there was none
/// (not downloaded, or unknown where the CDN did not answer), else the first
/// entry's state set from the two manifests (unknown without an answer).
pub open spec fn remote_applied(
    entries: Seq<InstanceEntry>,
    remote: (String, Option<InstanceManifest>),
) -> Seq<InstanceEntry> {
    let k = entry_index(entries, remote.0@);
    if k >= entries.len() {
        entries.push(
            InstanceEntry {
                id: remote.0,
                state: if remote.1 is Some {
                    InstanceState::NotDownloaded
                } else {
                    InstanceState::Unknown
                },
                instance_manifest: None,
            },
        )
    } else {
        entries.update(
            k,
            InstanceEntry {
                state: match remote.1 {
                    Some(r) => state_for_versions(r, entries[k].instance_manifest),
                    None => InstanceState::Unknown,
                },
                ..entries[k]
            },
        )
    }
}

pub open spec fn remotes_applied(
    entries: Seq<InstanceEntry>,
    remotes: Seq<(String, Option<InstanceManifest>)>,
) -> Seq<InstanceEntry>
    decreases remotes.len(),
{
    if remotes.len() == 0 {
        entries
    } else {
        remotes_applied(remote_applied(entries, remotes[0]), remotes.drop_first())
    }
}

fn apply_remote(entries: &mut Vec<InstanceEntry>, remote: &(String, Option<InstanceManifest>))
    ensures
        final(entries)@ == remote_applied(old(entries)@, *remote),
{
    let k = entry_index_exec(entries, remote.0.as_str());
    proof {
        lemma_entry_index(entries@, remote.0@);
    }
    if k >= entries.len() {
        let state = if remote.1.is_some() {
            InstanceState::NotDownloaded
        } else {
            InstanceState::Unknown
        };
        entries.push(InstanceEntry { id: remote.0.clone(), state, instance_manifest: None });
    } else {
        let state = match &remote.1 {
            Some(r) => determine_instance_state(
                remote.0.as_str(),
                r,
                match &entries[k].instance_manifest {
                    Some(m) => Some(m),
                    None => None,
                },
            ),
            None => InstanceState::Unknown,
        };
        let mut e = copy_entry(&entries[k]);
        e.state = state;
        entries.set(k, e);
    }
}

/// Sets up the record of instances at start: the instances found on disk,
/// with each CDN instance applied in turn (`remotes` pairs each CDN id with
/// its manifest, or `None` where fetching it failed).
pub fn init_instances(
    reg: &mut InstanceRegistry,
    local: Vec<InstanceEntry>,
    remotes: Vec<(String, Option<InstanceManifest>)>,
) -> (r: Vec<InstanceStateChanged>)
    ensures
        events_for_replacement(*old(reg), *final(reg), remotes_applied(local@, remotes@), r@),
{
    let mut entries = local;
    let mut i: usize = 0;
    let ghost start = entries@;
    assert(remotes@.skip(0) =~= remotes@);
    while i < remotes.len()
        invariant
            i <= remotes.len(),
            remotes_applied(start, remotes@) == remotes_applied(entries@, remotes@.skip(i as int)),
        decreases remotes.len() - i,
    {
        let ghost before = entries@;
        apply_remote(&mut entries, &remotes[i]);
        assert(remotes@.skip(i as int)[0] == remotes@[i as int]);
        assert(remotes@.skip(i as int).drop_first() =~= remotes@.skip(i + 1));
        i = i + 1;
    }
    assert(remotes@.skip(remotes.len() as int).len() == 0);
    replace_instances(reg, entries)
}

proof fn lemma_entry_index_is(s: Seq<InstanceEntry>, id: Seq<char>, k: int)
    requires
        0 <= k <= s.len(),
        forall|j: int| 0 <= j < k ==> (#[trigger] s[j]).id@ != id,
        k < s.len() ==> s[k].id@ == id,
    ensures
        entry_index(s, id) == k,
    decreases s.len(),
{
    if s.len() > 0 && k > 0 {
        assert(s[0].id@ != id);
        assert forall|j: int| 0 <= j < k - 1 implies (#[trigger] s.drop_first()[j]).id@ != id by {
            assert(s.drop_first()[j] == s[j + 1]);
        }
        if k - 1 < s.drop_first().len() {
            assert(s.drop_first()[k - 1] == s[k]);
        }
        lemma_entry_index_is(s.drop_first(), id, k - 1);
    }
}

/// Applying the answer for another instance leaves an instance's entry as
/// it was.
proof fn lemma_remote_leaves_others(
    entries: Seq<InstanceEntry>,
    remote: (String, Option<InstanceManifest>),
    id: Seq<char>,
)
    requires
        remote.0@ != id,
    ensures
        find_entry(remote_applied(entries, remote), id) == find_entry(entries, id),
{
    lemma_entry_index(entries, remote.0@);
    lemma_entry_index(entries, id);
    let k = entry_index(entries, remote.0@);
    let ki = entry_index(entries, id);
    let new = remote_applied(entries, remote);
    if k >= entries.len() {
        let target: int = if ki < entries.len() { ki } else { entries.len() as int + 1 };
        assert forall|j: int| 0 <= j < target implies (#[trigger] new[j]).id@ != id by {
            if j < entries.len() {
                assert(new[j] == entries[j]);
            }
        }
        if target < new.len() {
            assert(new[target] == entries[target]);
        }
        lemma_entry_index_is(new, id, target);
        if ki < entries.len() {
            assert(new[ki] == entries[ki]);
        }
    } else {
        assert forall|j: int| 0 <= j < new.len() implies (#[trigger] new[j]).id@ == entries[j].id@ by {
        }
        assert forall|j: int| 0 <= j < ki implies (#[trigger] new[j]).id@ != id by {
            assert(new[j].id@ == entries[j].id@);
        }
        if ki < new.len() {
            assert(new[ki].id@ == entries[ki].id@);
        }
        lemma_entry_index_is(new, id, ki);
        if ki < entries.len() {
            assert(ki != k);
            assert(new[ki] == entries[ki]);
        }
    }
}

/// Answers for other instances leave an instance's entry as it was.
proof fn lemma_remotes_leave_others(
    entries: Seq<InstanceEntry>,
    remotes: Seq<(String, Option<InstanceManifest>)>,
    id: Seq<char>,
)
    requires
        forall|i: int| 0 <= i < remotes.len() ==> (#[trigger] remotes[i]).0@ != id,
    ensures
        find_entry(remotes_applied(entries, remotes), id) == find_entry(entries, id),
    decreases remotes.len(),
{
    if remotes.len() > 0 {
        assert(remotes[0].0@ != id);
        lemma_remote_leaves_others(entries, remotes[0], id);
        assert forall|i: int| 0 <= i < remotes.drop_first().len() implies (#[trigger] remotes.drop_first()[i]).0@
            != id by {
            assert(remotes.drop_first()[i] == remotes[i + 1]);
        }
        lemma_remotes_leave_others(remote_applied(entries, remotes[0]), remotes.drop_first(), id);
    }
}

/// The state an instance shows after start-up, from its entry on disk (if
/// any) and the CDN's answer for it (`None` where the CDN did not answer):
/// an instance the CDN knows and the disk does not is not downloaded; one
/// on disk without a manifest is not downloaded either; one on disk with a
/// manifest needs an update where the CDN's pack version is newer, is ready
/// where the two versions are equal, and is unknown otherwise; without an
/// answer it is unknown.
pub open spec fn start_up_state(on_disk: Option<InstanceEntry>, answer: Option<InstanceManifest>) -> InstanceState {
    match answer {
        None => InstanceState::Unknown,
        Some(m) => match on_disk {
            None => InstanceState::NotDownloaded,
            Some(e) => match e.instance_manifest {
                None => InstanceState::NotDownloaded,
                Some(l) => if semver_order(m.pack_version@, l.pack_version@) == Some(Ordering::Greater) {
                    InstanceState::RequiresUpdate
                } else if semver_order(m.pack_version@, l.pack_version@) == Some(Ordering::Equal) {
                    InstanceState::Ready
                } else {
                    InstanceState::Unknown
                },
            },
        },
    }
}

proof fn lemma_start_up_entry(
    local: Seq<InstanceEntry>,
    remotes: Seq<(String, Option<InstanceManifest>)>,
    j: int,
)
    requires
        0 <= j < remotes.len(),
        forall|i: int| 0 <= i < remotes.len() && i != j ==> (#[trigger] remotes[i]).0@ != remotes[j].0@,
    ensures
        find_entry(remotes_applied(local, remotes), remotes[j].0@) matches Some(e) && e.id@
            == remotes[j].0@ && e.state == start_up_state(find_entry(local, remotes[j].0@), remotes[j].1)
            && e.instance_manifest == match find_entry(local, remotes[j].0@) {
            Some(l) => l.instance_manifest,
            None => None,
        },
    decreases j,
{
    let id = remotes[j].0@;
    let rest = remotes.drop_first();
    if j == 0 {
        let r = remotes[0];
        let after = remote_applied(local, r);
        lemma_entry_index(local, id);
        let k = entry_index(local, id);
        if k >= local.len() {
            assert forall|x: int| 0 <= x < local.len() implies (#[trigger] after[x]).id@ != id by {
                assert(after[x] == local[x]);
            }
            lemma_entry_index_is(after, id, local.len() as int);
        } else {
            assert forall|x: int| 0 <= x < k implies (#[trigger] after[x]).id@ != id by {
                assert(after[x] == local[x]);
            }
            lemma_entry_index_is(after, id, k);
        }
        assert forall|i: int| 0 <= i < rest.len() implies (#[trigger] rest[i]).0@ != id by {
            assert(rest[i] == remotes[i + 1]);
        }
        lemma_remotes_leave_others(after, rest, id);
    } else {
        assert(remotes[0].0@ != id);
        lemma_remote_leaves_others(local, remotes[0], id);
        assert(rest[j - 1] == remotes[j]);
        assert forall|i: int| 0 <= i < rest.len() && i != j - 1 implies (#[trigger] rest[i]).0@
            != rest[j - 1].0@ by {
            assert(rest[i] == remotes[i + 1]);
        }
        lemma_start_up_entry(remote_applied(local, remotes[0]), rest, j - 1);
    }
}

/// At start-up each instance the CDN was asked about (once) shows the state
/// its entry on disk and the CDN's answer give (see `start_up_state`):
/// notably, an instance the CDN answered for and that is not on disk is not
/// downloaded.
pub proof fn law_start_up_states(
    before: InstanceRegistry,
    after: InstanceRegistry,
    local: Seq<InstanceEntry>,
    remotes: Seq<(String, Option<InstanceManifest>)>,
    events: Seq<InstanceStateChanged>,
    j: int,
)
    requires
        events_for_replacement(before, after, remotes_applied(local, remotes), events),
        override_of(before.overrides@, remotes[j].0@) is None,
        0 <= j < remotes.len(),
        forall|i: int| 0 <= i < remotes.len() && i != j ==> (#[trigger] remotes[i]).0@ != remotes[j].0@,
    ensures
        state_of(after, remotes[j].0@) == start_up_state(find_entry(local, remotes[j].0@), remotes[j].1),
        !has_id(local, remotes[j].0@) && remotes[j].1 is Some ==> state_of(after, remotes[j].0@)
            == InstanceState::NotDownloaded,
{
    lemma_start_up_entry(local, remotes, j);
    lemma_entry_index(local, remotes[j].0@);
}

/// The entries found on disk after fetching `instance` from the CDN, with
/// the first entry of that instance set from the two manifests.
pub open spec fn fetched_entries(scanned: Seq<InstanceEntry>, instance: InstanceManifest) -> Seq<InstanceEntry> {
    let k = entry_index(scanned, instance.id@);
    if k < scanned.len() {
        scanned.update(
            k,
            InstanceEntry {
                state: state_for_versions(instance, scanned[k].instance_manifest),
                ..scanned[k]
            },
        )
    } else {
        scanned
    }
}

/// Updates the record after an instance's manifest was fetched from the CDN
/// and written: `scanned` is what reading the instances folder gave.
pub fn fetch_remote_instance(
    reg: &mut InstanceRegistry,
    instance: &InstanceManifest,
    scanned: Vec<InstanceEntry>,
) -> (r: Vec<InstanceStateChanged>)
    ensures
        events_for_replacement(*old(reg), *final(reg), fetched_entries(scanned@, *instance), r@),
{
    let mut entries = scanned;
    let k = entry_index_exec(&entries, instance.id.as_str());
    if k < entries.len() {
        let state = determine_instance_state(
            instance.id.as_str(),
            instance,
            match &entries[k].instance_manifest {
                Some(m) => Some(m),
                None => None,
            },
        );
        let mut e = copy_entry(&entries[k]);
        e.state = state;
        entries.set(k, e);
    }
    replace_instances(reg, entries)
}

/// The first entry of each id, in order.
pub open spec fn first_of_each_id(entries: Seq<InstanceEntry>) -> Seq<InstanceEntry>
    decreases entries.len(),
{
    if entries.len() == 0 {
        entries
    } else if has_id(first_of_each_id(entries.drop_last()), entries.last().id@) {
        first_of_each_id(entries.drop_last())
    } else {
        first_of_each_id(entries.drop_last()).push(entries.last())
    }
}

fn has_id_exec(entries: &Vec<InstanceEntry>, id: &str) -> (r: bool)
    ensures
        r == has_id(entries@, id@),
{
    let k = entry_index_exec(entries, id);
    proof {
        lemma_entry_index(entries@, id@);
    }
    k < entries.len()
}

/// The entry of a folder found in the instances folder: its name (`None`
/// where it is not valid UTF-8) and its manifest, where one was read and
/// parsed. It is an instance where the manifest is valid for that folder.
pub open spec fn local_entry(folder: Option<String>, manifest: Option<InstanceManifest>, windows: bool) -> Option<InstanceEntry> {
    match manifest {
        Some(m) => if local_manifest_error(
            match folder {
                Some(f) => Some(f@),
                None => None,
            },
            m, windows,
        ) is None {
            Some(InstanceEntry { id: m.id, state: InstanceState::NotDownloaded, instance_manifest: Some(m) })
        } else {
            None
        },
        None => None,
    }
}

/// The entries of the folders found, in order, folders without a valid
/// manifest left out.
pub open spec fn local_entries(found: Seq<(Option<String>, Option<InstanceManifest>)>, windows: bool) -> Seq<InstanceEntry>
    decreases found.len(),
{
    if found.len() == 0 {
        Seq::empty()
    } else {
        match local_entry(found.last().0, found.last().1, windows) {
            Some(e) => local_entries(found.drop_last(), windows).push(e),
            None => local_entries(found.drop_last(), windows),
        }
    }
}

/// The instances of the folders found in the instances folder, in the
/// order they were read: each folder's name and its manifest where one was
/// read and parsed. Folders without a valid manifest for their name are
/// skipped, and each id is kept once (the first found).
pub fn read_local_instances(found: Vec<(Option<String>, Option<InstanceManifest>)>, windows: bool) -> (r: Vec<InstanceEntry>)
    ensures
        r@ == first_of_each_id(local_entries(found@, windows)),
{
    let mut valid: Vec<InstanceEntry> = Vec::new();
    let mut i: usize = 0;
    while i < found.len()
        invariant
            i <= found.len(),
            valid@ == local_entries(found@.take(i as int), windows),
        decreases found.len() - i,
    {
        assert(found@.take(i + 1).drop_last() =~= found@.take(i as int));
        assert(found@.take(i + 1).last() == found@[i as int]);
        let folder = &found[i].0;
        if let Some(m) = &found[i].1 {
            let name: Option<&str> = match folder {
                Some(f) => Some(f.as_str()),
                None => None,
            };
            if validate_instance_manifest(name, m, windows).is_ok() {
                let copy = copy_manifest(m);
                valid.push(
                    InstanceEntry {
                        id: copy.id.clone(),
                        state: InstanceState::NotDownloaded,
                        instance_manifest: Some(copy),
                    },
                );
            }
        }
        i = i + 1;
    }
    assert(found@.take(found.len() as int) =~= found@);
    first_of_each_entry(valid)
}

/// The entries, each id kept once (the first found).
fn first_of_each_entry(found: Vec<InstanceEntry>) -> (r: Vec<InstanceEntry>)
    ensures
        r@ == first_of_each_id(found@),
{
    let mut kept: Vec<InstanceEntry> = Vec::new();
    let mut i: usize = 0;
    while i < found.len()
        invariant
            i <= found.len(),
            kept@ == first_of_each_id(found@.take(i as int)),
        decreases found.len() - i,
    {
        assert(found@.take(i + 1).drop_last() =~= found@.take(i as int));
        assert(found@.take(i + 1).last() == found@[i as int]);
        if !has_id_exec(&kept, found[i].id.as_str()) {
            kept.push(copy_entry(&found[i]));
        }
        i = i + 1;
    }
    assert(found@.take(found.len() as int) =~= found@);
    kept
}

proof fn lemma_first_of_each_id_from(entries: Seq<InstanceEntry>, e: InstanceEntry)
    requires
        first_of_each_id(entries).contains(e),
    ensures
        entries.contains(e),
    decreases entries.len(),
{
    if entries.len() > 0 {
        let pre = first_of_each_id(entries.drop_last());
        if pre.contains(e) {
            lemma_first_of_each_id_from(entries.drop_last(), e);
            let k = choose|k: int| 0 <= k < entries.drop_last().len() && entries.drop_last()[k] == e;
            assert(entries[k] == e);
        } else {
            assert(entries[entries.len() - 1] == e);
        }
    }
}

proof fn lemma_local_entries_valid(found: Seq<(Option<String>, Option<InstanceManifest>)>, e: InstanceEntry, windows: bool)
    requires
        local_entries(found, windows).contains(e),
    ensures
        e.state == InstanceState::NotDownloaded,
        e.instance_manifest matches Some(m) && m.id == e.id && local_manifest_error(Some(e.id@), m, windows) is None,
    decreases found.len(),
{
    if found.len() > 0 {
        let pre = local_entries(found.drop_last(), windows);
        if pre.contains(e) {
            lemma_local_entries_valid(found.drop_last(), e, windows);
        } else {
            let last = found.last();
            assert(local_entry(last.0, last.1, windows) == Some(e));
        }
    }
}

/// Every instance read from the instances folder is not downloaded and has
/// a valid manifest whose id is its folder's name.
pub proof fn law_local_instances_valid(found: Seq<(Option<String>, Option<InstanceManifest>)>, e: InstanceEntry, windows: bool)
    requires
        first_of_each_id(local_entries(found, windows)).contains(e),
    ensures
        e.state == InstanceState::NotDownloaded,
        e.instance_manifest matches Some(m) && m.id == e.id && local_manifest_error(Some(e.id@), m, windows) is None,
{
    lemma_first_of_each_id_from(local_entries(found, windows), e);
    lemma_local_entries_valid(found, e, windows);
}

/// No two entries share an id.
pub open spec fn ids_unique(entries: Seq<InstanceEntry>) -> bool {
    forall|i: int, j: int|
        0 <= i < j < entries.len() ==> (#[trigger] entries[i]).id@ != (#[trigger] entries[j]).id@
}

/// Reading the instances folder never yields two entries for one id.
pub proof fn law_local_instances_unique(found: Seq<InstanceEntry>)
    ensures
        ids_unique(first_of_each_id(found)),
    decreases found.len(),
{
    if found.len() > 0 {
        law_local_instances_unique(found.drop_last());
        let pre = first_of_each_id(found.drop_last());
        if !has_id(pre, found.last().id@) {
            let cur = pre.push(found.last());
            assert forall|i: int, j: int| 0 <= i < j < cur.len() implies (#[trigger] cur[i]).id@
                != (#[trigger] cur[j]).id@ by {
                if j == pre.len() {
                    assert(cur[i] == pre[i]);
                } else {
                    assert(cur[i] == pre[i] && cur[j] == pre[j]);
                }
            }
        }
    }
}

/// Putting back the entries the launcher already holds, each id once, tells
/// the window of no change.
pub proof fn law_same_entries_change_nothing(entries: Seq<InstanceEntry>, k: Seq<char>)
    requires
        ids_unique(entries),
    ensures
        !is_changed(entries, entries, k),
{
    assert forall|i: int| 0 <= i < entries.len() && (#[trigger] entries[i]).id@ == k implies !entry_changed(
        entries,
        entries[i],
    ) by {
        lemma_entry_index(entries, k);
        let x = entry_index(entries, k);
        assert(has_id(entries, k));
        if x < i {
            assert(entries[x].id@ == entries[i].id@);
        }
        assert(x == i);
    }
}

/// Clearing the override of an instance after setting one gives every
/// other instance the state it showed before; the instance itself shows the
/// state of its own entry again (unknown without one), whatever override it
/// had before.
pub proof fn law_clear_after_set(
    r0: InstanceRegistry,
    r1: InstanceRegistry,
    r2: InstanceRegistry,
    id: Seq<char>,
    s: InstanceState,
)
    requires
        r1.instances@ == r0.instances@,
        r2.instances@ == r1.instances@,
        forall|k: Seq<char>|
            #![trigger override_of(r1.overrides@, k)]
            override_of(r1.overrides@, k) == if k == id {
                Some(s)
            } else {
                override_of(r0.overrides@, k)
            },
        forall|k: Seq<char>|
            #![trigger override_of(r2.overrides@, k)]
            override_of(r2.overrides@, k) == if k == id {
                None
            } else {
                override_of(r1.overrides@, k)
            },
    ensures
        state_of(r1, id) == s,
        forall|k: Seq<char>| k != id ==> #[trigger] state_of(r2, k) == state_of(r0, k),
        state_of(r2, id) == match find_entry(r0.instances@, id) {
            Some(e) => e.state,
            None => InstanceState::Unknown,
        },
{
    assert(override_of(r1.overrides@, id) == Some(s));
    assert(override_of(r2.overrides@, id) is None);
    assert forall|k: Seq<char>| k != id implies #[trigger] state_of(r2, k) == state_of(r0, k) by {
        assert(override_of(r2.overrides@, k) == override_of(r1.overrides@, k));
        assert(override_of(r1.overrides@, k) == override_of(r0.overrides@, k));
    }
}

// ---------------------------------------------------------------------------
// Addresses and files
// ---------------------------------------------------------------------------
pub open spec fn default_cdn_url() -> Seq<char> {
    "https://nf.blacksmith-ent.com/saykocraft-cdn"@
}

/// The CDN's address, given the `FORCE_CDN_URL` override where one is set.
pub fn cdn_url(forced: Option<&str>) -> (r: String)
    ensures
        r@ == service_url(
            match forced {
                Some(f) => Some(f@),
                None => None,
            },
            default_cdn_url(),
        ),
{
    service_url_exec(forced, "https://nf.blacksmith-ent.com/saykocraft-cdn")
}

/// Where the CDN serves the manifest of the instance `id`.
pub fn remote_instance_url(cdn: &str, id: &str) -> (r: String)
    ensures
        r@ == cdn@ + "/instances/"@ + id@ + "/instance.json"@,
{
    let mut r = concat3(cdn, "/instances/", id);
    r.append("/instance.json");
    r
}

/// The manifest file of an instance folder.
pub fn instance_manifest_path(instance_dir: &str) -> (r: String)
    ensures
        r@ == path_join(instance_dir@, "instance.json"@),
{
    join_path(instance_dir, "instance.json")
}

/// The settings file of an instance folder.
pub fn instance_settings_path(instance_dir: &str) -> (r: String)
    ensures
        r@ == path_join(instance_dir@, "instance-settings.json"@),
{
    join_path(instance_dir, "instance-settings.json")
}

/// What removing an instance folder does, from what is at its path: nothing
/// where nothing is there (`false`), removal of a real directory (`true`);
/// a symbolic link or anything else is refused.
pub fn instance_dir_removal(path: &str, exists: bool, is_symlink: bool, is_dir: bool) -> (r: Result<
    bool,
    InstanceDirError,
>)
    ensures
        !exists ==> r == Ok::<bool, InstanceDirError>(false),
        exists && is_symlink ==> (r matches Err(InstanceDirError::InvalidInput(m)) && m@
            == "refusing to remove symlinked instance path: "@ + path@),
        exists && !is_symlink && !is_dir ==> (r matches Err(InstanceDirError::InvalidData(m)) && m@
            == "instance path is not a directory: "@ + path@),
        exists && !is_symlink && is_dir ==> r == Ok::<bool, InstanceDirError>(true),
{
    if !exists {
        Ok(false)
    } else if is_symlink {
        Err(InstanceDirError::InvalidInput(concat2("refusing to remove symlinked instance path: ", path)))
    } else if !is_dir {
        Err(InstanceDirError::InvalidData(concat2("instance path is not a directory: ", path)))
    } else {
        Ok(true)
    }
}

/// An installed instance's folder must exist as a directory.
pub fn existing_instance_dir(path: String, is_dir: bool) -> (r: Result<String, InstanceDirError>)
    ensures
        is_dir ==> r == Ok::<String, InstanceDirError>(path),
        !is_dir ==> (r matches Err(InstanceDirError::NotFound(m)) && m@ == "Instance folder does not exist: "@
            + path@),
{
    if is_dir {
        Ok(path)
    } else {
        Err(InstanceDirError::NotFound(concat2("Instance folder does not exist: ", path.as_str())))
    }
}

} // verus!
