//! What a Minecraft launch runs: the Java executable, the class path and the
//! JVM and game arguments, from an installed version's metadata.
//!
//! The metadata is read and parsed by the caller; the files this module names
//! are checked by the caller, in the order the steps below give them.
use vstd::prelude::*;

use crate::config::{join_path, path_error_message, path_join, resolved_path, Config};
use crate::instance::InstanceManifest;
use crate::minecraft::error::{install_error_message, MinecraftInstallError};
use crate::minecraft::platform::{minecraft_os_name, Platform};
use crate::minecraft::java::{executable_path, java_file_name, runtime_dir};
use crate::minecraft::paths::instance_game_dir;
use crate::text::{
    chars_of, concat2, concat3, decimal, is_ascii_hexdigit_char, replace_all, replace_chars,
    split_whitespace, str_eq, str_to_string, string_of, sub_chars, trim, trim_str, u64_to_string,
    words,
};
use crate::utils::{hex_lower, sha1_digest, sha1_hex};
use vstd::utf8::encode_utf8;

verus! {

/// The offline name used when none is given.
pub open spec fn default_offline_username() -> Seq<char> {
    "SayKOPlayer"@
}

/// What the caller asks of a launch.
#[derive(Debug)]
pub struct LaunchOptions {
    pub username: Option<String>,
    pub uuid: Option<String>,
    pub min_memory_mb: Option<u64>,
    pub max_memory_mb: Option<u64>,
    pub extra_jvm_args: Vec<String>,
    pub extra_game_args: Vec<String>,
}

impl Default for LaunchOptions {
    fn default() -> (o: Self)
        ensures
            o.username is None,
            o.uuid is None,
            o.min_memory_mb is None,
            o.max_memory_mb is None,
            o.extra_jvm_args@.len() == 0,
            o.extra_game_args@.len() == 0,
    {
        LaunchOptions {
            username: None,
            uuid: None,
            min_memory_mb: None,
            max_memory_mb: None,
            extra_jvm_args: Vec::new(),
            extra_game_args: Vec::new(),
        }
    }
}

#[derive(Debug)]
pub enum MinecraftLaunchError {
    Install(MinecraftInstallError),
    /// A filesystem error, by its message.
    Io(String),
    InvalidManifest(String),
    Validation(String),
    MissingFile(String),
}

pub open spec fn launch_error_message(e: MinecraftLaunchError) -> Seq<char> {
    match e {
        MinecraftLaunchError::Install(e) => install_error_message(e),
        MinecraftLaunchError::Io(m) => "filesystem error during Minecraft launch: "@ + m@,
        MinecraftLaunchError::InvalidManifest(m) => "invalid Minecraft launch manifest: "@ + m@,
        MinecraftLaunchError::Validation(m) => "invalid Minecraft launch request: "@ + m@,
        MinecraftLaunchError::MissingFile(p) => "Minecraft launch file is missing: "@ + p@,
    }
}

impl MinecraftLaunchError {
    /// The error's text.
    pub fn message(&self) -> (m: String)
        ensures
            m@ == launch_error_message(*self),
    {
        match self {
            MinecraftLaunchError::Install(e) => e.message(),
            MinecraftLaunchError::Io(m) => concat2(
                "filesystem error during Minecraft launch: ",
                m.as_str(),
            ),
            MinecraftLaunchError::InvalidManifest(m) => concat2(
                "invalid Minecraft launch manifest: ",
                m.as_str(),
            ),
            MinecraftLaunchError::Validation(m) => concat2(
                "invalid Minecraft launch request: ",
                m.as_str(),
            ),
            MinecraftLaunchError::MissingFile(p) => concat2(
                "Minecraft launch file is missing: ",
                p.as_str(),
            ),
        }
    }
}

// ---------------------------------------------------------------------------
// Version metadata, as far as a launch reads it
// ---------------------------------------------------------------------------
#[derive(Debug, Clone, Copy, PartialEq, Eq, Structural)]
pub enum RuleAction {
    Allow,
    Disallow,
}

/// The operating system a rule names: Minecraft's OS name and the
/// architecture, each optional.
#[derive(Debug)]
pub struct RuleOs {
    pub name: Option<String>,
    pub arch: Option<String>,
}

/// A rule of the metadata; `features` lists the launcher features it asks
/// for, each once, with the value asked.
#[derive(Debug)]
pub struct Rule {
    pub action: RuleAction,
    pub os: Option<RuleOs>,
    pub features: Option<Vec<(String, bool)>>,
}

#[derive(Debug)]
pub enum ArgumentValue {
    Single(String),
    List(Vec<String>),
}

#[derive(Debug)]
pub enum Argument {
    Plain(String),
    Ruled { rules: Vec<Rule>, value: ArgumentValue },
}

#[derive(Debug)]
pub struct Arguments {
    pub game: Vec<Argument>,
    pub jvm: Vec<Argument>,
}

/// A library; `artifact_path` is its download artifact's path, where the
/// metadata gives downloads, an artifact and a path.
#[derive(Debug)]
pub struct Library {
    pub artifact_path: Option<String>,
    pub rules: Option<Vec<Rule>>,
}

/// An installed version's metadata: `asset_index_id` is the id of its asset
/// index, `java_major_version` the major version of the Java it asks for.
#[derive(Debug)]
pub struct VersionDetails {
    pub id: String,
    pub arguments: Option<Arguments>,
    pub minecraft_arguments: Option<String>,
    pub main_class: String,
    pub libraries: Vec<Library>,
    pub asset_index_id: String,
    pub java_major_version: Option<u32>,
    pub version_type: Option<String>,
}

// ---------------------------------------------------------------------------
// Rules
// ---------------------------------------------------------------------------
/// The value given for `key` among the launcher's features; false where it
/// is not given.
pub open spec fn feature_value(features: Seq<(String, bool)>, key: Seq<char>) -> bool
    decreases features.len(),
{
    if features.len() == 0 {
        false
    } else if features[0].0@ == key {
        features[0].1
    } else {
        feature_value(features.drop_first(), key)
    }
}

/// Each feature a rule asks for has the value it asks.
pub open spec fn features_match(required: Seq<(String, bool)>, features: Seq<(String, bool)>) -> bool {
    forall|i: int|
        0 <= i < required.len() ==> feature_value(features, #[trigger] required[i].0@)
            == required[i].1
}

pub open spec fn os_rule_matches(os: RuleOs, platform: Platform) -> bool {
    (os.name matches Some(n) ==> n@ == minecraft_os_name(platform.os@)) && (os.arch matches Some(
        a,
    ) ==> a@ == platform.arch@)
}

pub open spec fn rule_matches(rule: Rule, features: Seq<(String, bool)>, platform: Platform) -> bool {
    (rule.os matches Some(os) ==> os_rule_matches(os, platform)) && (rule.features matches Some(
        req,
    ) ==> features_match(req@, features))
}

/// The action of the last rule that matches; none matching disallows.
pub open spec fn rules_allow(rules: Seq<Rule>, features: Seq<(String, bool)>, platform: Platform) -> bool
    decreases rules.len(),
{
    if rules.len() == 0 {
        false
    } else if rule_matches(rules.last(), features, platform) {
        rules.last().action == RuleAction::Allow
    } else {
        rules_allow(rules.drop_last(), features, platform)
    }
}

/// Rules allow unless some are given and they do not.
pub open spec fn rules_permit(rules: Option<Vec<Rule>>, features: Seq<(String, bool)>, platform: Platform) -> bool {
    match rules {
        None => true,
        Some(r) => rules_allow(r@, features, platform),
    }
}

fn feature_value_exec(features: &Vec<(String, bool)>, key: &str) -> (r: bool)
    ensures
        r == feature_value(features@, key@),
{
    let mut i: usize = 0;
    assert(features@.skip(0) =~= features@);
    while i < features.len()
        invariant
            i <= features.len(),
            feature_value(features@, key@) == feature_value(features@.skip(i as int), key@),
        decreases features.len() - i,
    {
        assert(features@.skip(i as int)[0] == features@[i as int]);
        assert(features@.skip(i as int).drop_first() =~= features@.skip(i + 1));
        if str_eq(features[i].0.as_str(), key) {
            return features[i].1;
        }
        i = i + 1;
    }
    false
}

fn feature_rules_match(required: &Vec<(String, bool)>, features: &Vec<(String, bool)>) -> (r: bool)
    ensures
        r == features_match(required@, features@),
{
    let mut i: usize = 0;
    while i < required.len()
        invariant
            i <= required.len(),
            forall|j: int|
                0 <= j < i ==> feature_value(features@, #[trigger] required@[j].0@)
                    == required@[j].1,
        decreases required.len() - i,
    {
        if feature_value_exec(features, required[i].0.as_str()) != required[i].1 {
            return false;
        }
        i = i + 1;
    }
    true
}

fn os_rule_matches_exec(os: &RuleOs, platform: &Platform) -> (r: bool)
    ensures
        r == os_rule_matches(*os, *platform),
{
    let name_ok = match &os.name {
        Some(n) => {
            let current = platform.current_minecraft_os_name();
            str_eq(n.as_str(), current.as_str())
        },
        None => true,
    };
    let arch_ok = match &os.arch {
        Some(a) => str_eq(a.as_str(), platform.arch.as_str()),
        None => true,
    };
    name_ok && arch_ok
}

fn rule_matches_exec(rule: &Rule, features: &Vec<(String, bool)>, platform: &Platform) -> (r: bool)
    ensures
        r == rule_matches(*rule, features@, *platform),
{
    let os_ok = match &rule.os {
        Some(os) => os_rule_matches_exec(os, platform),
        None => true,
    };
    let features_ok = match &rule.features {
        Some(req) => feature_rules_match(req, features),
        None => true,
    };
    os_ok && features_ok
}

/// Whether `rules` allow something on `platform` with the launcher's
/// `features`.
pub fn evaluate_rules(rules: Option<&Vec<Rule>>, features: &Vec<(String, bool)>, platform: &Platform) -> (r: bool)
    ensures
        r == match rules {
            None => true,
            Some(rs) => rules_allow(rs@, features@, *platform),
        },
{
    match rules {
        None => true,
        Some(rs) => {
            let mut allowed = false;
            let mut i: usize = 0;
            while i < rs.len()
                invariant
                    i <= rs.len(),
                    allowed == rules_allow(rs@.take(i as int), features@, *platform),
                decreases rs.len() - i,
            {
                assert(rs@.take(i + 1).drop_last() =~= rs@.take(i as int));
                assert(rs@.take(i + 1).last() == rs@[i as int]);
                if rule_matches_exec(&rs[i], features, platform) {
                    allowed = rs[i].action == RuleAction::Allow;
                }
                i = i + 1;
            }
            assert(rs@.take(rs.len() as int) =~= rs@);
            allowed
        },
    }
}

// ---------------------------------------------------------------------------
// Variables
// ---------------------------------------------------------------------------
/// How a variable is written in an argument: `${key}`.
pub open spec fn var_pattern(key: Seq<char>) -> Seq<char> {
    "${"@ + key + "}"@
}

/// Name and value pairs as plain values.
pub open spec fn pair_views(v: Seq<(String, String)>) -> Seq<(Seq<char>, Seq<char>)> {
    Seq::new(v.len(), |i: int| (v[i].0@, v[i].1@))
}

/// `s` with each variable replaced in turn, in the order of `vars`.
pub open spec fn replace_each(s: Seq<char>, vars: Seq<(Seq<char>, Seq<char>)>) -> Seq<char>
    decreases vars.len(),
{
    if vars.len() == 0 {
        s
    } else {
        replace_all(replace_each(s, vars.drop_last()), var_pattern(vars.last().0), vars.last().1)
    }
}

/// Replaces each `${key}` in `value` with the key's value, one variable after
/// another in the order of `variables`.
pub fn replace_variables(value: &str, variables: &Vec<(String, String)>) -> (r: String)
    ensures
        r@ == replace_each(value@, pair_views(variables@)),
{
    let ghost pv = pair_views(variables@);
    let mut resolved = chars_of(value);
    let mut i: usize = 0;
    while i < variables.len()
        invariant
            i <= variables.len(),
            pv == pair_views(variables@),
            resolved@ == replace_each(value@, pv.take(i as int)),
        decreases variables.len() - i,
    {
        assert(pv.take(i + 1).drop_last() =~= pv.take(i as int));
        assert(pv.take(i + 1).last() == pv[i as int]);
        let pattern = concat3("${", variables[i].0.as_str(), "}");
        proof {
            reveal_strlit("${");
            reveal_strlit("}");
        }
        let p = chars_of(pattern.as_str());
        let r = chars_of(variables[i].1.as_str());
        assert(p@.len() > 0) by {
            assert(p@ == var_pattern(variables@[i as int].0@));
        }
        resolved = replace_chars(&resolved, &p, &r);
        i = i + 1;
    }
    assert(pv.take(variables.len() as int) =~= pv);
    string_of(&resolved)
}

// ---------------------------------------------------------------------------
// Arguments
// ---------------------------------------------------------------------------
/// The strings an argument value gives, with variables replaced.
pub open spec fn value_strings(value: ArgumentValue, vars: Seq<(Seq<char>, Seq<char>)>) -> Seq<Seq<char>> {
    match value {
        ArgumentValue::Single(v) => seq![replace_each(v@, vars)],
        ArgumentValue::List(vs) => Seq::new(vs@.len(), |i: int| replace_each(vs@[i]@, vars)),
    }
}

/// The strings an argument gives on `platform`: a ruled argument gives
/// nothing unless its rules allow it with no launcher feature set.
pub open spec fn argument_strings(a: Argument, vars: Seq<(Seq<char>, Seq<char>)>, platform: Platform) -> Seq<
    Seq<char>,
> {
    match a {
        Argument::Plain(v) => seq![replace_each(v@, vars)],
        Argument::Ruled { rules, value } => if rules_allow(rules@, Seq::empty(), platform) {
            value_strings(value, vars)
        } else {
            Seq::empty()
        },
    }
}

pub open spec fn resolved_arguments(args: Seq<Argument>, vars: Seq<(Seq<char>, Seq<char>)>, platform: Platform) -> Seq<
    Seq<char>,
>
    decreases args.len(),
{
    if args.len() == 0 {
        Seq::empty()
    } else {
        resolved_arguments(args.drop_last(), vars, platform) + argument_strings(
            args.last(),
            vars,
            platform,
        )
    }
}

pub open spec fn strs(v: Seq<String>) -> Seq<Seq<char>> {
    Seq::new(v.len(), |i: int| v[i]@)
}

fn push_argument_value(value: &ArgumentValue, variables: &Vec<(String, String)>, arguments: &mut Vec<String>)
    ensures
        strs(final(arguments)@) == strs(old(arguments)@) + value_strings(*value, pair_views(variables@)),
{
    match value {
        ArgumentValue::Single(v) => {
            let ghost before = arguments@;
            arguments.push(replace_variables(v.as_str(), variables));
            assert(strs(arguments@) =~= strs(before) + value_strings(*value, pair_views(variables@)));
        },
        ArgumentValue::List(vs) => {
            let ghost start = arguments@;
            let mut i: usize = 0;
            while i < vs.len()
                invariant
                    i <= vs.len(),
                    arguments@.len() == start.len() + i,
                    strs(arguments@) == strs(start) + Seq::new(
                        i as nat,
                        |k: int| replace_each(vs@[k]@, pair_views(variables@)),
                    ),
                decreases vs.len() - i,
            {
                let ghost before = arguments@;
                arguments.push(replace_variables(vs[i].as_str(), variables));
                assert(strs(arguments@) =~= strs(before).push(arguments@.last()@));
                assert(strs(arguments@) =~= strs(start) + Seq::new(
                    (i + 1) as nat,
                    |k: int| replace_each(vs@[k]@, pair_views(variables@)),
                ));
                i = i + 1;
            }
            assert(strs(arguments@) =~= strs(start) + value_strings(*value, pair_views(variables@)));
        },
    }
}

/// The arguments that apply on `platform`, in order, with variables replaced.
pub fn resolve_arguments(arguments: &Vec<Argument>, variables: &Vec<(String, String)>, platform: &Platform) -> (r: Vec<String>)
    ensures
        strs(r@) == resolved_arguments(arguments@, pair_views(variables@), *platform),
{
    let features: Vec<(String, bool)> = Vec::new();
    let mut resolved: Vec<String> = Vec::new();
    let mut i: usize = 0;
    while i < arguments.len()
        invariant
            i <= arguments.len(),
            features@.len() == 0,
            strs(resolved@) == resolved_arguments(arguments@.take(i as int), pair_views(variables@), *platform),
        decreases arguments.len() - i,
    {
        assert(arguments@.take(i + 1).drop_last() =~= arguments@.take(i as int));
        assert(arguments@.take(i + 1).last() == arguments@[i as int]);
        assert(features@ =~= Seq::<(String, bool)>::empty());
        match &arguments[i] {
            Argument::Plain(v) => {
                let ghost before = resolved@;
                resolved.push(replace_variables(v.as_str(), variables));
                assert(strs(resolved@) =~= strs(before) + seq![replace_each(v@, pair_views(variables@))]);
            },
            Argument::Ruled { rules, value } => {
                if evaluate_rules(Some(rules), &features, platform) {
                    push_argument_value(value, variables, &mut resolved);
                } else {
                    assert(strs(resolved@) =~= strs(resolved@) + Seq::<Seq<char>>::empty());
                }
            },
        }
        i = i + 1;
    }
    assert(arguments@.take(arguments.len() as int) =~= arguments@);
    resolved
}

/// The value of the variable `key`; empty where there is none.
pub open spec fn var_value(vars: Seq<(Seq<char>, Seq<char>)>, key: Seq<char>) -> Seq<char>
    decreases vars.len(),
{
    if vars.len() == 0 {
        Seq::empty()
    } else if vars[0].0 == key {
        vars[0].1
    } else {
        var_value(vars.drop_first(), key)
    }
}

fn var_value_exec(vars: &Vec<(String, String)>, key: &str) -> (r: String)
    ensures
        r@ == var_value(pair_views(vars@), key@),
{
    let ghost pv = pair_views(vars@);
    let mut i: usize = 0;
    assert(pv.skip(0) =~= pv);
    while i < vars.len()
        invariant
            i <= vars.len(),
            pv == pair_views(vars@),
            var_value(pv, key@) == var_value(pv.skip(i as int), key@),
        decreases vars.len() - i,
    {
        assert(pv.skip(i as int)[0] == pv[i as int]);
        assert(pv.skip(i as int).drop_first() =~= pv.skip(i + 1));
        if str_eq(vars[i].0.as_str(), key) {
            return vars[i].1.clone();
        }
        i = i + 1;
    }
    String::new()
}

/// The JVM arguments of a version: its own where it lists them, else the
/// native library path and the class path.
pub open spec fn jvm_arguments(details: VersionDetails, vars: Seq<(Seq<char>, Seq<char>)>, platform: Platform) -> Seq<
    Seq<char>,
> {
    match details.arguments {
        None => seq![
            "-Djava.library.path="@ + var_value(vars, "natives_directory"@),
            "-cp"@,
            var_value(vars, "classpath"@),
        ],
        Some(a) => resolved_arguments(a.jvm@, vars, platform),
    }
}

pub fn resolve_jvm_arguments(details: &VersionDetails, variables: &Vec<(String, String)>, platform: &Platform) -> (r: Vec<String>)
    ensures
        strs(r@) == jvm_arguments(*details, pair_views(variables@), *platform),
{
    match &details.arguments {
        None => {
            let natives = var_value_exec(variables, "natives_directory");
            let classpath = var_value_exec(variables, "classpath");
            let mut r: Vec<String> = Vec::new();
            r.push(concat2("-Djava.library.path=", natives.as_str()));
            r.push(str_to_string("-cp"));
            r.push(classpath);
            assert(strs(r@) =~= jvm_arguments(*details, pair_views(variables@), *platform));
            r
        },
        Some(a) => resolve_arguments(&a.jvm, variables, platform),
    }
}

/// The game arguments of a version: its own list where it has one, else its
/// legacy argument string split at whitespace; none where it has neither.
pub open spec fn game_arguments(details: VersionDetails, vars: Seq<(Seq<char>, Seq<char>)>, platform: Platform) -> Option<
    Seq<Seq<char>>,
> {
    match details.arguments {
        Some(a) => Some(resolved_arguments(a.game@, vars, platform)),
        None => match details.minecraft_arguments {
            Some(s) => Some(
                Seq::new(words(s@).len(), |i: int| replace_each(words(s@)[i], vars)),
            ),
            None => None,
        },
    }
}

pub open spec fn missing_arguments_message(id: Seq<char>) -> Seq<char> {
    "Minecraft version "@ + id + " has neither modern nor legacy launch arguments"@
}

pub fn resolve_game_arguments(details: &VersionDetails, variables: &Vec<(String, String)>, platform: &Platform) -> (r: Result<Vec<String>, MinecraftLaunchError>)
    ensures
        match game_arguments(*details, pair_views(variables@), *platform) {
            Some(args) => r matches Ok(v) && strs(v@) == args,
            None => r matches Err(MinecraftLaunchError::InvalidManifest(m)) && m@
                == missing_arguments_message(details.id@),
        },
{
    if let Some(a) = &details.arguments {
        return Ok(resolve_arguments(&a.game, variables, platform));
    }
    match &details.minecraft_arguments {
        None => Err(
            MinecraftLaunchError::InvalidManifest(
                concat3(
                    "Minecraft version ",
                    details.id.as_str(),
                    " has neither modern nor legacy launch arguments",
                ),
            ),
        ),
        Some(s) => {
            let chars = chars_of(s.as_str());
            let parts = split_whitespace(&chars);
            let ghost ws = words(s@);
            let mut out: Vec<String> = Vec::new();
            let mut i: usize = 0;
            while i < parts.len()
                invariant
                    i <= parts.len(),
                    parts@.len() == ws.len(),
                    out@.len() == i,
                    forall|k: int| 0 <= k < parts@.len() ==> #[trigger] parts@[k]@ == ws[k],
                    strs(out@) == Seq::new(i as nat, |k: int| replace_each(ws[k], pair_views(variables@))),
                decreases parts.len() - i,
            {
                let part = string_of(&parts[i]);
                let ghost before = out@;
                out.push(replace_variables(part.as_str(), variables));
                assert(strs(out@) =~= strs(before).push(out@.last()@));
                assert(strs(out@) =~= Seq::new(
                    (i + 1) as nat,
                    |k: int| replace_each(ws[k], pair_views(variables@)),
                ));
                i = i + 1;
            }
            Ok(out)
        },
    }
}

// ---------------------------------------------------------------------------
// Player
// ---------------------------------------------------------------------------
/// A byte an offline name may hold: an ASCII letter or digit, or `_`.
pub open spec fn is_name_byte(b: u8) -> bool {
    (48 <= b <= 57) || (65 <= b <= 90) || (97 <= b <= 122) || b == 95
}

/// The name asked for, trimmed; the default where none or only whitespace
/// is given.
pub open spec fn chosen_username(username: Option<Seq<char>>) -> Seq<char> {
    match username {
        Some(u) => if trim(u).len() > 0 {
            trim(u)
        } else {
            default_offline_username()
        },
        None => default_offline_username(),
    }
}

/// At most 16 bytes, each an ASCII letter or digit or `_`.
pub open spec fn valid_username(name: Seq<char>) -> bool {
    encode_utf8(name).len() <= 16 && forall|i: int|
        0 <= i < encode_utf8(name).len() ==> is_name_byte(#[trigger] encode_utf8(name)[i])
}

/// The offline name to play under.
pub fn launch_username(username: Option<&str>) -> (r: Result<String, MinecraftLaunchError>)
    ensures
        ({
            let name = chosen_username(
                match username {
                    Some(u) => Some(u@),
                    None => None,
                },
            );
            if valid_username(name) {
                r matches Ok(n) && n@ == name
            } else {
                r matches Err(MinecraftLaunchError::Validation(m)) && m@
                    == "invalid offline Minecraft username: "@ + name
            }
        }),
{
    let name = match username {
        Some(u) => {
            let t = trim_str(u);
            if t.len() > 0 {
                string_of(&t)
            } else {
                str_to_string("SayKOPlayer")
            }
        },
        None => str_to_string("SayKOPlayer"),
    };
    let bytes = name.as_str().as_bytes();
    let mut ok = bytes.len() <= 16;
    let mut i: usize = 0;
    while ok && i < bytes.len()
        invariant
            i <= bytes@.len(),
            bytes@ == encode_utf8(name@),
            ok ==> forall|k: int| 0 <= k < i ==> is_name_byte(#[trigger] bytes@[k]),
            ok ==> bytes@.len() <= 16,
            !ok ==> !valid_username(name@),
        decreases bytes.len() - i,
    {
        let b = bytes[i];
        if !((48 <= b && b <= 57) || (65 <= b && b <= 90) || (97 <= b && b <= 122) || b == 95) {
            ok = false;
        }
        i = i + 1;
    }
    if ok {
        Ok(name)
    } else {
        Err(MinecraftLaunchError::Validation(concat2("invalid offline Minecraft username: ", name.as_str())))
    }
}

/// `uuid` without its hyphens.
pub open spec fn without_hyphens(uuid: Seq<char>) -> Seq<char> {
    replace_all(uuid, seq!['-'], Seq::empty())
}

/// 32 bytes, each an ASCII hexadecimal digit.
pub open spec fn valid_uuid(n: Seq<char>) -> bool {
    encode_utf8(n).len() == 32 && forall|i: int|
        0 <= i < encode_utf8(n).len() ==> is_hex_byte(#[trigger] encode_utf8(n)[i])
}

pub open spec fn is_hex_byte(b: u8) -> bool {
    (48 <= b <= 57) || (65 <= b <= 70) || (97 <= b <= 102)
}

/// A player UUID without hyphens.
pub fn normalize_uuid(uuid: &str) -> (r: Result<String, MinecraftLaunchError>)
    ensures
        valid_uuid(without_hyphens(uuid@)) ==> (r matches Ok(n) && n@ == without_hyphens(uuid@)),
        !valid_uuid(without_hyphens(uuid@)) ==> (r matches Err(MinecraftLaunchError::Validation(m))
            && m@ == "invalid Minecraft UUID: "@ + uuid@),
{
    let chars = chars_of(uuid);
    let mut hyphen: Vec<char> = Vec::new();
    hyphen.push('-');
    let none: Vec<char> = Vec::new();
    let n = replace_chars(&chars, &hyphen, &none);
    assert(hyphen@ =~= seq!['-']);
    assert(none@ =~= Seq::<char>::empty());
    let normalized = string_of(&n);
    let bytes = normalized.as_str().as_bytes();
    let mut ok = bytes.len() == 32;
    let mut i: usize = 0;
    while ok && i < bytes.len()
        invariant
            i <= bytes@.len(),
            bytes@ == encode_utf8(normalized@),
            ok ==> forall|k: int| 0 <= k < i ==> is_hex_byte(#[trigger] bytes@[k]),
            ok ==> bytes@.len() == 32,
            !ok ==> !valid_uuid(normalized@),
        decreases bytes.len() - i,
    {
        let b = bytes[i];
        if !((48 <= b && b <= 57) || (65 <= b && b <= 70) || (97 <= b && b <= 102)) {
            ok = false;
        }
        i = i + 1;
    }
    if ok {
        Ok(normalized)
    } else {
        Err(MinecraftLaunchError::Validation(concat2("invalid Minecraft UUID: ", uuid)))
    }
}

/// The UUID of an offline player: the first 32 hexadecimal digits of the
/// SHA-1 digest of `OfflinePlayer:` and the name.
pub open spec fn offline_uuid_of(username: Seq<char>) -> Seq<char> {
    hex_lower(sha1_digest(encode_utf8("OfflinePlayer:"@ + username))).take(32)
}

pub fn offline_uuid(username: &str) -> (r: String)
    ensures
        r@ == offline_uuid_of(username@),
{
    let seed = concat2("OfflinePlayer:", username);
    let hash = sha1_hex(seed.as_str().as_bytes());
    let chars = chars_of(hash.as_str());
    let head = sub_chars(&chars, 0, 32);
    assert(head@ =~= hash@.take(32));
    string_of(&head)
}

// ---------------------------------------------------------------------------
// Memory
// ---------------------------------------------------------------------------
/// The heap bounds in MiB: those asked for, else the instance's minimum and
/// recommended amounts.
pub open spec fn memory_bounds(manifest: InstanceManifest, options: LaunchOptions) -> (u64, u64) {
    (
        match options.min_memory_mb {
            Some(m) => m,
            None => manifest.minimum_ram_mb,
        },
        match options.max_memory_mb {
            Some(m) => m,
            None => manifest.recommended_ram_mb,
        },
    )
}

pub fn memory_settings(manifest: &InstanceManifest, options: &LaunchOptions) -> (r: Result<(u64, u64), MinecraftLaunchError>)
    ensures
        ({
            let (lo, hi) = memory_bounds(*manifest, *options);
            if lo == 0 || hi == 0 {
                r matches Err(MinecraftLaunchError::Validation(m)) && m@
                    == "memory values must be greater than zero"@
            } else if lo > hi {
                r matches Err(MinecraftLaunchError::Validation(m)) && m@
                    == "minimum memory cannot be greater than maximum memory"@
            } else {
                r == Ok::<(u64, u64), MinecraftLaunchError>((lo, hi))
            }
        }),
{
    let lo = match options.min_memory_mb {
        Some(m) => m,
        None => manifest.minimum_ram_mb,
    };
    let hi = match options.max_memory_mb {
        Some(m) => m,
        None => manifest.recommended_ram_mb,
    };
    if lo == 0 || hi == 0 {
        return Err(MinecraftLaunchError::Validation(str_to_string("memory values must be greater than zero")));
    }
    if lo > hi {
        return Err(
            MinecraftLaunchError::Validation(
                str_to_string("minimum memory cannot be greater than maximum memory"),
            ),
        );
    }
    Ok((lo, hi))
}

// ---------------------------------------------------------------------------
// Files and directories
// ---------------------------------------------------------------------------
/// The separator between class path entries on `platform`.
pub open spec fn classpath_separator_of(platform: Platform) -> Seq<char> {
    if platform.os@ == "windows"@ {
        ";"@
    } else {
        ":"@
    }
}

pub fn classpath_separator(platform: &Platform) -> (r: &'static str)
    ensures
        r@ == classpath_separator_of(*platform),
{
    if platform.is_windows() {
        ";"
    } else {
        ":"
    }
}

/// `parts` joined with `sep` between each two.
pub open spec fn join_with(parts: Seq<Seq<char>>, sep: Seq<char>) -> Seq<char>
    decreases parts.len(),
{
    if parts.len() == 0 {
        Seq::empty()
    } else if parts.len() == 1 {
        parts[0]
    } else {
        join_with(parts.drop_last(), sep) + sep + parts.last()
    }
}

/// The class path entries joined with the separator of `platform`.
pub fn join_classpath(classpath: &Vec<String>, platform: &Platform) -> (r: String)
    ensures
        r@ == join_with(strs(classpath@), classpath_separator_of(*platform)),
{
    let sep = classpath_separator(platform);
    let ghost parts = strs(classpath@);
    let mut out: Vec<char> = Vec::new();
    let mut i: usize = 0;
    while i < classpath.len()
        invariant
            i <= classpath.len(),
            parts == strs(classpath@),
            sep@ == classpath_separator_of(*platform),
            out@ == join_with(parts.take(i as int), sep@),
        decreases classpath.len() - i,
    {
        assert(parts.take(i + 1).drop_last() =~= parts.take(i as int));
        assert(parts.take(i + 1).last() == classpath@[i as int]@);
        if i > 0 {
            let s = chars_of(sep);
            crate::text::push_chars(&mut out, &s);
        }
        let c = chars_of(classpath[i].as_str());
        crate::text::push_chars(&mut out, &c);
        proof {
            if i == 0 {
                assert(out@ =~= parts.take(1)[0]);
            }
        }
        i = i + 1;
    }
    assert(parts.take(classpath.len() as int) =~= parts);
    string_of(&out)
}

/// `data_dir/versions/version/name`.
pub open spec fn version_file(data_dir: Seq<char>, version: Seq<char>, name: Seq<char>) -> Seq<char> {
    path_join(path_join(path_join(data_dir, "versions"@), version), name)
}

/// The directory the native libraries of `version` are unpacked to.
pub fn natives_dir(data_dir: &str, version: &str, platform: &Platform) -> (r: String)
    ensures
        r@ == path_join(
            version_file(data_dir@, version@, "natives"@),
            minecraft_os_name(platform.os@) + "-"@ + platform.arch@,
        ),
{
    let versions = join_path(data_dir, "versions");
    let dir = join_path(versions.as_str(), version);
    let natives = join_path(dir.as_str(), "natives");
    let name = platform.current_native_platform_dir_name();
    join_path(natives.as_str(), name.as_str())
}

fn version_file_exec(data_dir: &str, version: &str, name: &str) -> (r: String)
    ensures
        r@ == version_file(data_dir@, version@, name@),
{
    let versions = join_path(data_dir, "versions");
    let dir = join_path(versions.as_str(), version);
    join_path(dir.as_str(), name)
}

/// The metadata file of an installed version, in the data directory of
/// `config`.
pub fn version_metadata_path(config: &Config, base: &str, windows: bool, version: &str) -> (r: Result<String, MinecraftLaunchError>)
    ensures
        match resolved_path(config.data_dir@, base@, windows) {
            Ok(data) => r matches Ok(p) && p@ == version_file(data, version@, version@ + ".json"@),
            Err(e) => r matches Err(MinecraftLaunchError::Io(m)) && m@ == path_error_message(e),
        },
{
    match config.resolved_data_dir(base, windows) {
        Ok(data) => {
            let name = concat2(version, ".json");
            Ok(version_file_exec(data.as_str(), version, name.as_str()))
        },
        Err(e) => Err(MinecraftLaunchError::Io(e.message())),
    }
}

/// The class path entries of the libraries that apply on `platform` and
/// name an artifact path, in order.
pub open spec fn library_paths(libs: Seq<Library>, libraries_dir: Seq<char>, platform: Platform) -> Seq<
    Seq<char>,
>
    decreases libs.len(),
{
    if libs.len() == 0 {
        Seq::empty()
    } else {
        let pre = library_paths(libs.drop_last(), libraries_dir, platform);
        match libs.last().artifact_path {
            Some(p) => if rules_permit(libs.last().rules, Seq::empty(), platform) {
                pre.push(path_join(libraries_dir, p@))
            } else {
                pre
            },
            None => pre,
        }
    }
}

/// The class path: the libraries' artifacts, then the client jar.
pub open spec fn classpath_of(data_dir: Seq<char>, details: VersionDetails, platform: Platform) -> Seq<
    Seq<char>,
> {
    library_paths(details.libraries@, path_join(data_dir, "libraries"@), platform).push(
        version_file(data_dir, details.id@, details.id@ + ".jar"@),
    )
}

/// The class path entries, each of which the caller checks is a file.
pub fn classpath_entries(data_dir: &str, details: &VersionDetails, platform: &Platform) -> (r: Vec<String>)
    ensures
        strs(r@) == classpath_of(data_dir@, *details, *platform),
{
    let features: Vec<(String, bool)> = Vec::new();
    let libraries_dir = join_path(data_dir, "libraries");
    let libs = &details.libraries;
    let mut out: Vec<String> = Vec::new();
    let mut i: usize = 0;
    while i < libs.len()
        invariant
            i <= libs.len(),
            features@.len() == 0,
            strs(out@) == library_paths(libs@.take(i as int), libraries_dir@, *platform),
        decreases libs.len() - i,
    {
        assert(libs@.take(i + 1).drop_last() =~= libs@.take(i as int));
        assert(libs@.take(i + 1).last() == libs@[i as int]);
        assert(features@ =~= Seq::<(String, bool)>::empty());
        if let Some(p) = &libs[i].artifact_path {
            let rules = match &libs[i].rules {
                Some(r) => Some(r),
                None => None,
            };
            if evaluate_rules(rules, &features, platform) {
                let ghost before = out@;
                out.push(join_path(libraries_dir.as_str(), p.as_str()));
                assert(strs(out@) =~= strs(before).push(out@.last()@));
            }
        }
        i = i + 1;
    }
    assert(libs@.take(libs.len() as int) =~= libs@);
    let jar = concat2(details.id.as_str(), ".jar");
    let ghost before = out@;
    out.push(version_file_exec(data_dir, details.id.as_str(), jar.as_str()));
    assert(strs(out@) =~= strs(before).push(out@.last()@));
    out
}

/// The data directory and the instance's game directory, from `config`.
pub fn launch_directories(config: &Config, base: &str, windows: bool, instance_id: &str) -> (r: Result<(String, String), MinecraftLaunchError>)
    ensures
        match resolved_path(config.data_dir@, base@, windows) {
            Err(e) => r matches Err(MinecraftLaunchError::Io(m)) && m@ == path_error_message(e),
            Ok(data) => match resolved_path(config.install_dir@, base@, windows) {
                Err(e) => r matches Err(MinecraftLaunchError::Io(m)) && m@ == path_error_message(e),
                Ok(install) => r matches Ok((d, w)) && d@ == data && w@ == path_join(
                    path_join(install, instance_id@),
                    "game"@,
                ),
            },
        },
{
    let data = match config.resolved_data_dir(base, windows) {
        Ok(d) => d,
        Err(e) => return Err(MinecraftLaunchError::Io(e.message())),
    };
    match instance_game_dir(config, base, windows, instance_id) {
        Ok(w) => Ok((data, w)),
        Err(e) => Err(MinecraftLaunchError::Io(e.message())),
    }
}

/// The files a launch needs, each of which the caller checks exists: the
/// Java executable, the natives directory and the class path entries.
#[derive(Debug)]
pub struct LaunchFiles {
    pub java_path: String,
    pub natives_dir: String,
    pub classpath: Vec<String>,
}

pub open spec fn missing_java_message(id: Seq<char>) -> Seq<char> {
    "Minecraft version "@ + id + " is missing javaVersion"@
}

/// The files of a launch of the version `details` from `data_dir`.
pub fn launch_files(config: &Config, base: &str, windows: bool, details: &VersionDetails, data_dir: &str, platform: &Platform) -> (r: Result<LaunchFiles, MinecraftLaunchError>)
    ensures
        match details.java_major_version {
            None => r matches Err(MinecraftLaunchError::InvalidManifest(m)) && m@
                == missing_java_message(details.id@),
            Some(major) => match resolved_path(config.data_dir@, base@, windows) {
                Err(e) => r matches Err(MinecraftLaunchError::Install(MinecraftInstallError::Io(m)))
                    && m@ == path_error_message(e),
                Ok(data) => r matches Ok(f) && f.java_path@ == path_join(
                    path_join(
                        path_join(
                            path_join(
                                path_join(data, "runtimes"@),
                                "temurin-"@ + decimal(major as nat) + "-jre"@,
                            ),
                            platform.os@ + "-"@ + platform.arch@,
                        ),
                        "bin"@,
                    ),
                    java_file_name(*platform),
                ) && f.natives_dir@ == path_join(
                    version_file(data_dir@, details.id@, "natives"@),
                    minecraft_os_name(platform.os@) + "-"@ + platform.arch@,
                ) && strs(f.classpath@) == classpath_of(data_dir@, *details, *platform),
            },
        },
{
    let major = match details.java_major_version {
        Some(m) => m,
        None => {
            return Err(
                MinecraftLaunchError::InvalidManifest(
                    concat3("Minecraft version ", details.id.as_str(), " is missing javaVersion"),
                ),
            )
        },
    };
    let runtime = match runtime_dir(config, base, windows, major, platform) {
        Ok(d) => d,
        Err(e) => return Err(MinecraftLaunchError::Install(e)),
    };
    let java_path = executable_path(runtime.as_str(), platform);
    let natives = natives_dir(data_dir, details.id.as_str(), platform);
    let classpath = classpath_entries(data_dir, details, platform);
    Ok(LaunchFiles { java_path, natives_dir: natives, classpath })
}

// ---------------------------------------------------------------------------
// The launch
// ---------------------------------------------------------------------------
/// The variables an argument may name, in the order they are replaced.
pub open spec fn launch_variables_of(
    details: VersionDetails,
    username: Seq<char>,
    uuid: Seq<char>,
    working_dir: Seq<char>,
    data_dir: Seq<char>,
    natives_dir: Seq<char>,
    classpath: Seq<Seq<char>>,
    platform: Platform,
    launcher_version: Seq<char>,
) -> Seq<(Seq<char>, Seq<char>)> {
    seq![
        ("auth_player_name"@, username),
        ("auth_uuid"@, uuid),
        ("auth_access_token"@, "0"@),
        ("clientid"@, Seq::empty()),
        ("auth_xuid"@, Seq::empty()),
        ("user_type"@, "legacy"@),
        ("version_name"@, details.id@),
        ("version_type"@, match details.version_type {
            Some(t) => t@,
            None => "release"@,
        }),
        ("game_directory"@, working_dir),
        ("assets_root"@, path_join(data_dir, "assets"@)),
        ("assets_index_name"@, details.asset_index_id@),
        ("natives_directory"@, natives_dir),
        ("launcher_name"@, "saykocraft-launcher"@),
        ("launcher_version"@, launcher_version),
        ("classpath"@, join_with(classpath, classpath_separator_of(platform))),
        ("classpath_separator"@, classpath_separator_of(platform)),
    ]
}

proof fn lemma_var_value_at(vars: Seq<(Seq<char>, Seq<char>)>, key: Seq<char>, k: int)
    requires
        0 <= k < vars.len(),
        vars[k].0 == key,
        forall|j: int| 0 <= j < k ==> (#[trigger] vars[j]).0 != key,
    ensures
        var_value(vars, key) == vars[k].1,
    decreases k,
{
    if k > 0 {
        assert(vars[0].0 != key);
        assert forall|j: int| 0 <= j < k - 1 implies (#[trigger] vars.drop_first()[j]).0 != key by {
            assert(vars.drop_first()[j] == vars[j + 1]);
        }
        lemma_var_value_at(vars.drop_first(), key, k - 1);
    }
}

/// Each variable an argument may name stands for what the launch gives it:
/// the player's name and UUID, the version's id and type (`release` where
/// the version names none), the instance's own game directory (where the
/// game keeps its saves, mods and options), the assets under the shared
/// data directory, the version's asset index, the natives directory, the
/// launcher's name and version, the class path joined with the platform's
/// separator (`;` on Windows, `:` elsewhere), and the fixed values of an
/// offline session (access token `0`, no client id or XUID, a legacy user).
pub proof fn law_launch_variable_values(
    details: VersionDetails,
    username: Seq<char>,
    uuid: Seq<char>,
    working_dir: Seq<char>,
    data_dir: Seq<char>,
    natives_dir: Seq<char>,
    classpath: Seq<Seq<char>>,
    platform: Platform,
    launcher_version: Seq<char>,
)
    ensures
        ({
            let vars = launch_variables_of(
                details,
                username,
                uuid,
                working_dir,
                data_dir,
                natives_dir,
                classpath,
                platform,
                launcher_version,
            );
            &&& var_value(vars, "auth_player_name"@) == username
            &&& var_value(vars, "auth_uuid"@) == uuid
            &&& var_value(vars, "version_name"@) == details.id@
            &&& var_value(vars, "game_directory"@) == working_dir
            &&& var_value(vars, "assets_root"@) == path_join(data_dir, "assets"@)
            &&& var_value(vars, "assets_index_name"@) == details.asset_index_id@
            &&& var_value(vars, "natives_directory"@) == natives_dir
            &&& var_value(vars, "launcher_version"@) == launcher_version
            &&& var_value(vars, "auth_access_token"@) == "0"@
            &&& var_value(vars, "clientid"@) == Seq::<char>::empty()
            &&& var_value(vars, "auth_xuid"@) == Seq::<char>::empty()
            &&& var_value(vars, "user_type"@) == "legacy"@
            &&& var_value(vars, "version_type"@) == match details.version_type {
                Some(t) => t@,
                None => "release"@,
            }
            &&& var_value(vars, "launcher_name"@) == "saykocraft-launcher"@
            &&& var_value(vars, "classpath_separator"@) == (if platform.os@ == "windows"@ {
                ";"@
            } else {
                ":"@
            })
            &&& var_value(vars, "classpath"@) == join_with(classpath, var_value(vars, "classpath_separator"@))
        }),
{
    reveal_strlit("auth_player_name");
    reveal_strlit("auth_uuid");
    reveal_strlit("auth_access_token");
    reveal_strlit("clientid");
    reveal_strlit("auth_xuid");
    reveal_strlit("user_type");
    reveal_strlit("version_name");
    reveal_strlit("version_type");
    reveal_strlit("game_directory");
    reveal_strlit("assets_root");
    reveal_strlit("assets_index_name");
    reveal_strlit("natives_directory");
    reveal_strlit("launcher_name");
    reveal_strlit("launcher_version");
    reveal_strlit("classpath");
    reveal_strlit("classpath_separator");
    let vars = launch_variables_of(
        details,
        username,
        uuid,
        working_dir,
        data_dir,
        natives_dir,
        classpath,
        platform,
        launcher_version,
    );
    assert("auth_player_name"@.len() == 16);
    assert("auth_uuid"@.len() == 9);
    assert("auth_access_token"@.len() == 17);
    assert("clientid"@.len() == 8);
    assert("auth_xuid"@.len() == 9);
    assert("user_type"@.len() == 9);
    assert("version_name"@.len() == 12);
    assert("version_type"@.len() == 12);
    assert("game_directory"@.len() == 14);
    assert("assets_root"@.len() == 11);
    assert("assets_index_name"@.len() == 17);
    assert("natives_directory"@.len() == 17);
    assert("launcher_name"@.len() == 13);
    assert("launcher_version"@.len() == 16);
    assert("classpath"@.len() == 9);
    assert("classpath_separator"@.len() == 19);
    assert("assets_index_name"@[1] != "auth_access_token"@[1]);
    assert("natives_directory"@[0] != "auth_access_token"@[0]);
    assert("natives_directory"@[0] != "assets_index_name"@[0]);
    assert("launcher_version"@[0] != "auth_player_name"@[0]);
    assert("auth_xuid"@[5] != "auth_uuid"@[5]);
    assert("user_type"@[0] != "auth_uuid"@[0]);
    assert("user_type"@[0] != "auth_xuid"@[0]);
    assert("classpath"@[0] != "auth_uuid"@[0]);
    assert("classpath"@[0] != "auth_xuid"@[0]);
    assert("classpath"@[0] != "user_type"@[0]);
    assert("version_type"@[0] != "version_name"@[0] || "version_type"@[8] != "version_name"@[8]);
    lemma_var_value_at(vars, "auth_player_name"@, 0);
    lemma_var_value_at(vars, "auth_uuid"@, 1);
    lemma_var_value_at(vars, "version_name"@, 6);
    lemma_var_value_at(vars, "game_directory"@, 8);
    lemma_var_value_at(vars, "assets_root"@, 9);
    lemma_var_value_at(vars, "assets_index_name"@, 10);
    lemma_var_value_at(vars, "natives_directory"@, 11);
    lemma_var_value_at(vars, "launcher_version"@, 13);
    lemma_var_value_at(vars, "auth_access_token"@, 2);
    lemma_var_value_at(vars, "clientid"@, 3);
    lemma_var_value_at(vars, "auth_xuid"@, 4);
    lemma_var_value_at(vars, "user_type"@, 5);
    lemma_var_value_at(vars, "version_type"@, 7);
    lemma_var_value_at(vars, "launcher_name"@, 12);
    lemma_var_value_at(vars, "classpath"@, 14);
    lemma_var_value_at(vars, "classpath_separator"@, 15);
}

fn push_pair(v: &mut Vec<(String, String)>, key: &str, value: String)
    ensures
        pair_views(final(v)@) == pair_views(old(v)@).push((key@, value@)),
{
    let ghost before = v@;
    v.push((str_to_string(key), value));
    assert(pair_views(v@) =~= pair_views(before).push((key@, value@)));
}

/// The variables of a launch.
pub fn launch_variables(
    details: &VersionDetails,
    username: &str,
    uuid: &str,
    working_dir: &str,
    data_dir: &str,
    natives_dir: &str,
    classpath: &Vec<String>,
    platform: &Platform,
    launcher_version: &str,
) -> (r: Vec<(String, String)>)
    ensures
        pair_views(r@) == launch_variables_of(
            *details,
            username@,
            uuid@,
            working_dir@,
            data_dir@,
            natives_dir@,
            strs(classpath@),
            *platform,
            launcher_version@,
        ),
{
    let mut v: Vec<(String, String)> = Vec::new();
    push_pair(&mut v, "auth_player_name", str_to_string(username));
    push_pair(&mut v, "auth_uuid", str_to_string(uuid));
    push_pair(&mut v, "auth_access_token", str_to_string("0"));
    push_pair(&mut v, "clientid", String::new());
    push_pair(&mut v, "auth_xuid", String::new());
    push_pair(&mut v, "user_type", str_to_string("legacy"));
    push_pair(&mut v, "version_name", details.id.clone());
    let version_type = match &details.version_type {
        Some(t) => t.clone(),
        None => str_to_string("release"),
    };
    push_pair(&mut v, "version_type", version_type);
    push_pair(&mut v, "game_directory", str_to_string(working_dir));
    push_pair(&mut v, "assets_root", join_path(data_dir, "assets"));
    push_pair(&mut v, "assets_index_name", details.asset_index_id.clone());
    push_pair(&mut v, "natives_directory", str_to_string(natives_dir));
    push_pair(&mut v, "launcher_name", str_to_string("saykocraft-launcher"));
    push_pair(&mut v, "launcher_version", str_to_string(launcher_version));
    push_pair(&mut v, "classpath", join_classpath(classpath, platform));
    push_pair(&mut v, "classpath_separator", str_to_string(classpath_separator(platform)));
    assert(pair_views(v@) =~= launch_variables_of(
        *details,
        username@,
        uuid@,
        working_dir@,
        data_dir@,
        natives_dir@,
        strs(classpath@),
        *platform,
        launcher_version@,
    ));
    v
}

/// What is started: `java_path` with `jvm_args`, `main_class` and
/// `game_args`, in `working_dir`.
#[derive(Debug)]
pub struct LaunchContext {
    pub java_path: String,
    pub working_dir: String,
    pub main_class: String,
    pub jvm_args: Vec<String>,
    pub game_args: Vec<String>,
}

fn append_strings(out: &mut Vec<String>, more: &Vec<String>)
    ensures
        strs(final(out)@) == strs(old(out)@) + strs(more@),
{
    let ghost start = out@;
    let mut i: usize = 0;
    while i < more.len()
        invariant
            i <= more.len(),
            strs(out@) == strs(start) + strs(more@.take(i as int)),
        decreases more.len() - i,
    {
        let ghost before = out@;
        out.push(more[i].clone());
        assert(strs(out@) =~= strs(before).push(more@[i as int]@));
        assert(strs(more@.take(i + 1)) =~= strs(more@.take(i as int)).push(more@[i as int]@));
        i = i + 1;
    }
    assert(more@.take(more.len() as int) =~= more@);
}

/// The UUID asked for, without hyphens, where one is given.
pub open spec fn uuid_of(uuid: Option<String>, username: Seq<char>) -> Seq<char> {
    match uuid {
        Some(u) => without_hyphens(u@),
        None => offline_uuid_of(username),
    }
}

pub open spec fn opt_view(s: Option<String>) -> Option<Seq<char>> {
    match s {
        Some(v) => Some(v@),
        None => None,
    }
}

/// The heap flag `prefix` with `mb` MiB, as the JVM takes it.
pub open spec fn memory_flag(prefix: Seq<char>, mb: u64) -> Seq<char> {
    prefix + decimal(mb as nat) + "M"@
}

/// Everything a launch needs besides the files: the offline player, the
/// memory and the arguments. Fails as the first of these checks fails: the
/// player name, the UUID, the memory bounds, the game arguments.
pub fn build_launch_context(
    manifest: &InstanceManifest,
    options: LaunchOptions,
    details: &VersionDetails,
    working_dir: &str,
    data_dir: &str,
    files: LaunchFiles,
    platform: &Platform,
    launcher_version: &str,
) -> (r: Result<LaunchContext, MinecraftLaunchError>)
    ensures
        ({
            let name = chosen_username(opt_view(options.username));
            let uuid = uuid_of(options.uuid, name);
            let (lo, hi) = memory_bounds(*manifest, options);
            let vars = launch_variables_of(
                *details,
                name,
                uuid,
                working_dir@,
                data_dir@,
                files.natives_dir@,
                strs(files.classpath@),
                *platform,
                launcher_version@,
            );
            if !valid_username(name) {
                r matches Err(MinecraftLaunchError::Validation(m)) && m@
                    == "invalid offline Minecraft username: "@ + name
            } else if options.uuid matches Some(u) && !valid_uuid(without_hyphens(u@)) {
                r matches Err(MinecraftLaunchError::Validation(m)) && m@ == "invalid Minecraft UUID: "@
                    + options.uuid->0@
            } else if lo == 0 || hi == 0 {
                r matches Err(MinecraftLaunchError::Validation(m)) && m@
                    == "memory values must be greater than zero"@
            } else if lo > hi {
                r matches Err(MinecraftLaunchError::Validation(m)) && m@
                    == "minimum memory cannot be greater than maximum memory"@
            } else {
                match game_arguments(*details, vars, *platform) {
                    None => r matches Err(MinecraftLaunchError::InvalidManifest(m)) && m@
                        == missing_arguments_message(details.id@),
                    Some(game) => r matches Ok(c) && c.java_path@ == files.java_path@
                        && c.working_dir@ == working_dir@ && c.main_class@ == details.main_class@
                        && strs(c.jvm_args@) == seq![memory_flag("-Xms"@, lo), memory_flag("-Xmx"@, hi)]
                        + strs(options.extra_jvm_args@) + jvm_arguments(*details, vars, *platform)
                        && strs(c.game_args@) == game + strs(options.extra_game_args@),
                }
            }
        }),
{
    let username = match &options.username {
        Some(u) => launch_username(Some(u.as_str())),
        None => launch_username(None),
    };
    let username = match username {
        Ok(u) => u,
        Err(e) => return Err(e),
    };
    let uuid = match &options.uuid {
        Some(u) => match normalize_uuid(u.as_str()) {
            Ok(n) => n,
            Err(e) => return Err(e),
        },
        None => offline_uuid(username.as_str()),
    };
    let (lo, hi) = match memory_settings(manifest, &options) {
        Ok(b) => b,
        Err(e) => return Err(e),
    };
    let variables = launch_variables(
        details,
        username.as_str(),
        uuid.as_str(),
        working_dir,
        data_dir,
        files.natives_dir.as_str(),
        &files.classpath,
        platform,
        launcher_version,
    );
    let mut jvm_args: Vec<String> = Vec::new();
    let lo_text = u64_to_string(lo);
    let hi_text = u64_to_string(hi);
    jvm_args.push(concat3("-Xms", lo_text.as_str(), "M"));
    jvm_args.push(concat3("-Xmx", hi_text.as_str(), "M"));
    let ghost flags = jvm_args@;
    assert(strs(flags) =~= seq![memory_flag("-Xms"@, lo), memory_flag("-Xmx"@, hi)]);
    append_strings(&mut jvm_args, &options.extra_jvm_args);
    let resolved_jvm = resolve_jvm_arguments(details, &variables, platform);
    append_strings(&mut jvm_args, &resolved_jvm);
    let mut game_args = match resolve_game_arguments(details, &variables, platform) {
        Ok(g) => g,
        Err(e) => return Err(e),
    };
    append_strings(&mut game_args, &options.extra_game_args);
    Ok(
        LaunchContext {
            java_path: files.java_path,
            working_dir: str_to_string(working_dir),
            main_class: details.main_class.clone(),
            jvm_args,
            game_args,
        },
    )
}

} // verus!
