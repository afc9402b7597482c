//! Launcher settings: where instances and game data live, and the rules for
//! the paths a user may give.
use vstd::prelude::*;

use crate::json::JsonValue;
use crate::text::{
    chars_of, concat2, contains_char, contains_char_exec, contains_seq, contains_seq_exec, is_control,
    is_control_char, is_sep_in, lemma_split_by_pieces, push_chars, split_by, split_on, starts_with, starts_with_chars,
    str_eq, str_to_string, string_of, sub_chars, trim, trim_str, views,
};

verus! {

/// The word that stands for the launcher's own data directory at the start
/// of a configured path.
pub open spec fn launcher_variable() -> Seq<char> {
    "$SAYKOCRAFT"@
}

/// The launcher's settings.
#[derive(Debug)]
pub struct Config {
    pub install_dir: String,
    pub data_dir: String,
    pub language: String,
    pub keep_launcher_open: bool,
    pub prefer_discrete_gpu: bool,
}

impl Default for Config {
    fn default() -> (c: Self)
        ensures
            c.install_dir@ == "$SAYKOCRAFT/instances"@,
            c.data_dir@ == "$SAYKOCRAFT/data"@,
            c.language@ == "tr-TR"@,
            !c.keep_launcher_open,
            c.prefer_discrete_gpu,
    {
        Config {
            install_dir: str_to_string("$SAYKOCRAFT/instances"),
            data_dir: str_to_string("$SAYKOCRAFT/data"),
            language: str_to_string("tr-TR"),
            keep_launcher_open: false,
            prefer_discrete_gpu: prefer_discrete_gpu_default(),
        }
    }
}

/// What `prefer_discrete_gpu` is when a settings file does not say.
pub fn prefer_discrete_gpu_default() -> (b: bool)
    ensures
        b,
{
    true
}

/// The settings as mathematical values.
pub ghost struct ConfigView {
    pub install_dir: Seq<char>,
    pub data_dir: Seq<char>,
    pub language: Seq<char>,
    pub keep_launcher_open: bool,
    pub prefer_discrete_gpu: bool,
}

impl View for Config {
    type V = ConfigView;

    open spec fn view(&self) -> ConfigView {
        ConfigView {
            install_dir: self.install_dir@,
            data_dir: self.data_dir@,
            language: self.language@,
            keep_launcher_open: self.keep_launcher_open,
            prefer_discrete_gpu: self.prefer_discrete_gpu,
        }
    }
}

fn copy_config(c: &Config) -> (r: Config)
    ensures
        r@ == c@,
{
    Config {
        install_dir: c.install_dir.clone(),
        data_dir: c.data_dir.clone(),
        language: c.language.clone(),
        keep_launcher_open: c.keep_launcher_open,
        prefer_discrete_gpu: c.prefer_discrete_gpu,
    }
}

// ---------------------------------------------------------------------------
// Paths
// ---------------------------------------------------------------------------
/// `PathBuf::push` on a Unix path: an absolute `part` replaces the path,
/// otherwise a `/` goes between the two unless the path is empty or already
/// ends with one.
pub open spec fn path_join(base: Seq<char>, part: Seq<char>) -> Seq<char> {
    if part.len() > 0 && part[0] == '/' {
        part
    } else if base.len() == 0 {
        part
    } else if base.last() == '/' {
        base + part
    } else {
        base + seq!['/'] + part
    }
}

pub fn join_chars(base: &Vec<char>, part: &Vec<char>) -> (r: Vec<char>)
    ensures
        r@ == path_join(base@, part@),
{
    if part.len() > 0 && part[0] == '/' {
        return sub_chars(part, 0, part.len());
    }
    let mut r = sub_chars(base, 0, base.len());
    if base.len() > 0 && base[base.len() - 1] != '/' {
        r.push('/');
    }
    push_chars(&mut r, part);
    proof {
        if base@.len() == 0 {
            assert(r@ =~= part@);
        }
    }
    r
}

/// `Path::join` of a path and one more part.
pub fn join_path(base: &str, part: &str) -> (r: String)
    ensures
        r@ == path_join(base@, part@),
{
    let b = chars_of(base);
    let p = chars_of(part);
    let r = join_chars(&b, &p);
    string_of(&r)
}

/// Why a configured path is refused.
#[derive(Debug)]
pub enum PathError {
    Empty,
    NullByte,
    MissingSeparator,
    ParentComponent,
    InvalidComponent,
    MisplacedVariable,
    NotAbsolute,
}

pub open spec fn path_error_message(e: PathError) -> Seq<char> {
    match e {
        PathError::Empty => "path cannot be empty"@,
        PathError::NullByte => "path cannot contain null bytes"@,
        PathError::MissingSeparator => "$SAYKOCRAFT must be followed by '/' or '\\'"@,
        PathError::ParentComponent => "$SAYKOCRAFT paths cannot contain '..'"@,
        PathError::InvalidComponent => "$SAYKOCRAFT paths contain an invalid path component"@,
        PathError::MisplacedVariable => "$SAYKOCRAFT may only appear at the beginning of a path"@,
        PathError::NotAbsolute => "path must be absolute or start with $SAYKOCRAFT"@,
    }
}

impl PathError {
    /// The error's text.
    pub fn message(&self) -> (m: String)
        ensures
            m@ == path_error_message(*self),
    {
        match self {
            PathError::Empty => str_to_string("path cannot be empty"),
            PathError::NullByte => str_to_string("path cannot contain null bytes"),
            PathError::MissingSeparator => str_to_string(
                "$SAYKOCRAFT must be followed by '/' or '\\'",
            ),
            PathError::ParentComponent => str_to_string("$SAYKOCRAFT paths cannot contain '..'"),
            PathError::InvalidComponent => str_to_string(
                "$SAYKOCRAFT paths contain an invalid path component",
            ),
            PathError::MisplacedVariable => str_to_string(
                "$SAYKOCRAFT may only appear at the beginning of a path",
            ),
            PathError::NotAbsolute => str_to_string(
                "path must be absolute or start with $SAYKOCRAFT",
            ),
        }
    }
}

pub open spec fn is_path_separator(c: char) -> bool {
    c == '/' || c == '\\'
}

pub open spec fn path_separators() -> Seq<char> {
    seq!['/', '\\']
}

/// A character that may not appear in a component of a `$SAYKOCRAFT` path.
pub open spec fn is_forbidden_component_char(c: char) -> bool {
    is_control_char(c) || c == '<' || c == '>' || c == ':' || c == '"' || c == '|' || c == '?'
        || c == '*'
}

pub open spec fn valid_component(part: Seq<char>) -> bool {
    forall|i: int| 0 <= i < part.len() ==> !is_forbidden_component_char(#[trigger] part[i])
}

/// Adds the components of a `$SAYKOCRAFT` path to `base`, from the left:
/// empty and `.` components are skipped, `..` and components with forbidden
/// characters are refused.
pub open spec fn resolve_components(base: Seq<char>, parts: Seq<Seq<char>>) -> Result<
    Seq<char>,
    PathError,
>
    decreases parts.len(),
{
    if parts.len() == 0 {
        Ok(base)
    } else {
        let part = parts[0];
        if part.len() == 0 || part == seq!['.'] {
            resolve_components(base, parts.drop_first())
        } else if part == seq!['.', '.'] {
            Err(PathError::ParentComponent)
        } else if !valid_component(part) {
            Err(PathError::InvalidComponent)
        } else {
            resolve_components(path_join(base, part), parts.drop_first())
        }
    }
}

pub open spec fn is_ascii_letter(c: char) -> bool {
    ('a' <= c <= 'z') || ('A' <= c <= 'Z')
}

/// A drive prefix: a letter and `:`.
pub open spec fn has_drive(p: Seq<char>) -> bool {
    p.len() >= 2 && is_ascii_letter(p[0]) && p[1] == ':'
}

/// Whether `p` is absolute as `Path::is_absolute` reads it. On Unix a path
/// is absolute where it starts with `/`. On Windows it needs a prefix and a
/// root: a drive followed by a separator (`C:\games`), or a prefix that
/// starts with two separators and brings its own root: a verbatim (`\\?\`)
/// or device (`\\.\`) prefix, or a UNC prefix naming a server and a share.
pub open spec fn absolute_path(p: Seq<char>, windows: bool) -> bool {
    if !windows {
        p.len() > 0 && p[0] == '/'
    } else if has_drive(p) {
        p.len() >= 3 && is_path_separator(p[2])
    } else if p.len() >= 2 && is_path_separator(p[0]) && is_path_separator(p[1]) {
        let rest = p.skip(2);
        let parts = split_by(rest, is_sep_in(path_separators()));
        (rest.len() >= 2 && (rest[0] == '?' || rest[0] == '.') && is_path_separator(rest[1])) || (
        parts.len() >= 2 && parts[0].len() > 0 && parts[1].len() > 0)
    } else {
        false
    }
}

/// The path that a configured `value` stands for, given the launcher's data
/// directory `base`; `windows` says whether paths are read as Windows
/// reads them.
pub open spec fn resolved_path(value: Seq<char>, base: Seq<char>, windows: bool) -> Result<Seq<char>, PathError> {
    let var = launcher_variable();
    if trim(value).len() == 0 {
        Err(PathError::Empty)
    } else if contains_char(value, '\0') {
        Err(PathError::NullByte)
    } else if value == var {
        Ok(base)
    } else if starts_with(value, var) {
        let rest = value.skip(var.len() as int);
        if !(rest.len() > 0 && is_path_separator(rest[0])) {
            Err(PathError::MissingSeparator)
        } else {
            resolve_components(base, split_by(rest, is_sep_in(path_separators())))
        }
    } else if contains_seq(value, var) {
        Err(PathError::MisplacedVariable)
    } else if !absolute_path(value, windows) {
        Err(PathError::NotAbsolute)
    } else {
        Ok(value)
    }
}

fn validate_launcher_component(part: &Vec<char>) -> (r: bool)
    ensures
        r == valid_component(part@),
{
    let mut i: usize = 0;
    while i < part.len()
        invariant
            i <= part.len(),
            forall|k: int| 0 <= k < i ==> !is_forbidden_component_char(#[trigger] part@[k]),
        decreases part.len() - i,
    {
        let c = part[i];
        if is_control(c) || c == '<' || c == '>' || c == ':' || c == '"' || c == '|' || c == '?'
            || c == '*' {
            assert(!valid_component(part@) && is_forbidden_component_char(part@[i as int]));
            return false;
        }
        i = i + 1;
    }
    true
}

fn resolve_components_exec(base: &Vec<char>, parts: &Vec<Vec<char>>) -> (r: Result<
    Vec<char>,
    PathError,
>)
    ensures
        match r {
            Ok(p) => resolve_components(base@, views(parts@)) == Ok::<Seq<char>, PathError>(p@),
            Err(e) => resolve_components(base@, views(parts@)) == Err::<Seq<char>, PathError>(e),
        },
{
    let mut resolved = sub_chars(base, 0, base.len());
    assert(resolved@ =~= base@);
    let mut i: usize = 0;
    assert(views(parts@).skip(0) =~= views(parts@));
    let dot = vec!['.'];
    let dotdot = vec!['.', '.'];
    assert(dot@ =~= seq!['.']);
    assert(dotdot@ =~= seq!['.', '.']);
    while i < parts.len()
        invariant
            i <= parts.len(),
            dot@ == seq!['.'],
            dotdot@ == seq!['.', '.'],
            resolve_components(base@, views(parts@)) == resolve_components(
                resolved@,
                views(parts@).skip(i as int),
            ),
        decreases parts.len() - i,
    {
        let part = &parts[i];
        let ghost rest = views(parts@).skip(i as int);
        assert(rest[0] == part@);
        assert(rest.drop_first() =~= views(parts@).skip(i + 1));
        if part.len() == 0 || chars_eq_lit(part, &dot) {
        } else if chars_eq_lit(part, &dotdot) {
            return Err(PathError::ParentComponent);
        } else if !validate_launcher_component(part) {
            return Err(PathError::InvalidComponent);
        } else {
            resolved = join_chars(&resolved, part);
        }
        i = i + 1;
    }
    assert(views(parts@).skip(parts.len() as int).len() == 0);
    Ok(resolved)
}

fn is_separator(c: char) -> (r: bool)
    ensures
        r == is_path_separator(c),
{
    c == '/' || c == '\\'
}

/// Whether `p` is absolute, as `absolute_path` says.
pub fn is_absolute_path(p: &Vec<char>, windows: bool) -> (r: bool)
    ensures
        r == absolute_path(p@, windows),
{
    if !windows {
        return p.len() > 0 && p[0] == '/';
    }
    if p.len() >= 2 && (('a' <= p[0] && p[0] <= 'z') || ('A' <= p[0] && p[0] <= 'Z')) && p[1] == ':' {
        return p.len() >= 3 && is_separator(p[2]);
    }
    if p.len() >= 2 && is_separator(p[0]) && is_separator(p[1]) {
        let rest = sub_chars(p, 2, p.len());
        assert(rest@ =~= p@.skip(2));
        if rest.len() >= 2 && (rest[0] == '?' || rest[0] == '.') && is_separator(rest[1]) {
            return true;
        }
        let seps = vec!['/', '\\'];
        assert(seps@ =~= path_separators());
        let parts = split_on(&rest, &seps);
        if parts.len() >= 2 {
            assert(views(parts@)[0] == parts@[0]@ && views(parts@)[1] == parts@[1]@);
        }
        return parts.len() >= 2 && parts[0].len() > 0 && parts[1].len() > 0;
    }
    false
}

fn chars_eq_lit(a: &Vec<char>, b: &Vec<char>) -> (r: bool)
    ensures
        r == (a@ == b@),
{
    crate::text::chars_eq(a, b)
}

/// Resolves a configured path against the launcher's data directory `base`:
/// `$SAYKOCRAFT` alone is `base`; `$SAYKOCRAFT/...` adds the components after
/// it to `base`; any other path must be absolute and is taken as it is.
pub fn resolve_path(value: &str, base: &str, windows: bool) -> (r: Result<String, PathError>)
    ensures
        match r {
            Ok(p) => resolved_path(value@, base@, windows) == Ok::<Seq<char>, PathError>(p@),
            Err(e) => resolved_path(value@, base@, windows) == Err::<Seq<char>, PathError>(e),
        },
{
    let v = chars_of(value);
    let var = chars_of("$SAYKOCRAFT");
    assert(var@ == launcher_variable());
    let trimmed = trim_str(value);
    if trimmed.len() == 0 {
        return Err(PathError::Empty);
    }
    if contains_char_exec(&v, '\0') {
        return Err(PathError::NullByte);
    }
    if chars_eq_lit(&v, &var) {
        return Ok(str_to_string(base));
    }
    if starts_with_chars(&v, &var) {
        let rest = sub_chars(&v, var.len(), v.len());
        assert(rest@ =~= v@.skip(var@.len() as int));
        if !(rest.len() > 0 && (rest[0] == '/' || rest[0] == '\\')) {
            return Err(PathError::MissingSeparator);
        }
        let seps = vec!['/', '\\'];
        assert(seps@ =~= path_separators());
        let parts = split_on(&rest, &seps);
        let b = chars_of(base);
        return match resolve_components_exec(&b, &parts) {
            Ok(p) => Ok(string_of(&p)),
            Err(e) => Err(e),
        };
    }
    if contains_seq_exec(&v, &var) {
        return Err(PathError::MisplacedVariable);
    }
    if !is_absolute_path(&v, windows) {
        return Err(PathError::NotAbsolute);
    }
    Ok(str_to_string(value))
}

/// A configured path that cannot be resolved: the launcher's data
/// directory could not be found (the lookup's text), or the path is
/// refused.
#[derive(Debug)]
pub enum LauncherPathError {
    NotFound(String),
    Invalid(PathError),
}

impl LauncherPathError {
    /// The error's text.
    pub fn message(&self) -> (m: String)
        ensures
            m@ == match *self {
                LauncherPathError::NotFound(t) => t@,
                LauncherPathError::Invalid(e) => path_error_message(e),
            },
    {
        match self {
            LauncherPathError::NotFound(t) => t.clone(),
            LauncherPathError::Invalid(e) => e.message(),
        }
    }
}

/// Resolves a configured path given the outcome of looking up the
/// launcher's data directory: a failed lookup fails every path, whatever
/// it is; else the path is resolved against the directory found.
pub fn resolve_launcher_path(value: &str, data_dir: &Result<String, String>, windows: bool) -> (r: Result<
    String,
    LauncherPathError,
>)
    ensures
        match *data_dir {
            Err(m) => r matches Err(LauncherPathError::NotFound(t)) && t@ == m@,
            Ok(b) => match resolved_path(value@, b@, windows) {
                Ok(p) => r matches Ok(q) && q@ == p,
                Err(e) => r matches Err(LauncherPathError::Invalid(f)) && f == e,
            },
        },
        (r is Ok) <==> path_problem(value@, lookup_view(*data_dir), windows) is None,
        r matches Err(e) ==> path_problem(value@, lookup_view(*data_dir), windows) matches Some(t) && t == match e {
            LauncherPathError::NotFound(t) => t@,
            LauncherPathError::Invalid(e) => path_error_message(e),
        },
{
    match data_dir {
        Err(m) => Err(LauncherPathError::NotFound(m.clone())),
        Ok(b) => match resolve_path(value, b.as_str(), windows) {
            Ok(p) => Ok(p),
            Err(e) => Err(LauncherPathError::Invalid(e)),
        },
    }
}

proof fn lemma_join_keeps_base(base: Seq<char>, part: Seq<char>)
    requires
        part.len() == 0 || part[0] != '/',
    ensures
        starts_with(path_join(base, part), base),
{
    let j = path_join(base, part);
    if base.len() == 0 {
        assert(j.take(0) =~= base);
    } else if base.last() == '/' {
        assert(j.take(base.len() as int) =~= base);
    } else {
        assert(j.take(base.len() as int) =~= base);
    }
}

proof fn lemma_resolve_components_keeps_base(base: Seq<char>, parts: Seq<Seq<char>>)
    requires
        forall|i: int, j: int|
            0 <= i < parts.len() && 0 <= j < parts[i].len() ==> #[trigger] parts[i][j] != '/',
    ensures
        resolve_components(base, parts) matches Ok(p) ==> starts_with(p, base),
    decreases parts.len(),
{
    if parts.len() == 0 {
        assert(base.take(base.len() as int) =~= base);
    } else {
        let part = parts[0];
        assert forall|i: int, j: int|
            0 <= i < parts.drop_first().len() && 0 <= j < parts.drop_first()[i].len() implies #[trigger] parts.drop_first()[i][j]
            != '/' by {
            assert(parts.drop_first()[i] == parts[i + 1]);
        }
        if part.len() == 0 || part == seq!['.'] {
            lemma_resolve_components_keeps_base(base, parts.drop_first());
        } else if part == seq!['.', '.'] {
        } else if !valid_component(part) {
        } else {
            assert(part[0] != '/') by {
                assert(parts[0][0] != '/');
            }
            lemma_join_keeps_base(base, part);
            let next = path_join(base, part);
            lemma_resolve_components_keeps_base(next, parts.drop_first());
            if let Ok(p) = resolve_components(next, parts.drop_first()) {
                assert(p.take(base.len() as int) =~= next.take(base.len() as int));
            }
        }
    }
}

/// A path written from `$SAYKOCRAFT` never leaves the launcher's data
/// directory: where it resolves, the result starts with `base`.
pub proof fn law_launcher_paths_stay_in_base(value: Seq<char>, base: Seq<char>, windows: bool)
    requires
        starts_with(value, launcher_variable()),
    ensures
        resolved_path(value, base, windows) matches Ok(p) ==> starts_with(p, base),
{
    let var = launcher_variable();
    let rest = value.skip(var.len() as int);
    let f = is_sep_in(path_separators());
    let parts = split_by(rest, f);
    lemma_split_by_pieces(rest, f);
    assert forall|i: int, j: int| 0 <= i < parts.len() && 0 <= j < parts[i].len() implies #[trigger] parts[i][j]
        != '/' by {
        assert(!f(parts[i][j]));
        assert(path_separators().contains('/')) by {
            assert(path_separators()[0] == '/');
        }
    }
    lemma_resolve_components_keeps_base(base, parts);
    if value == var {
        assert(base.take(base.len() as int) =~= base);
    }
}

/// The launcher's log directory inside its data directory `base`.
pub fn launcher_log_dir(base: &str) -> (r: String)
    ensures
        r@ == path_join(base@, "logs"@),
{
    join_path(base, "logs")
}

/// The configuration file inside the launcher's data directory `base`.
pub fn config_file_path(base: &str) -> (r: String)
    ensures
        r@ == path_join(base@, "config.json"@),
{
    join_path(base, "config.json")
}

impl Config {
    /// The directory that holds the instances.
    pub fn resolved_install_dir(&self, base: &str, windows: bool) -> (r: Result<String, PathError>)
        ensures
            match r {
                Ok(p) => resolved_path(self.install_dir@, base@, windows) == Ok::<Seq<char>, PathError>(
                    p@,
                ),
                Err(e) => resolved_path(self.install_dir@, base@, windows) == Err::<Seq<char>, PathError>(
                    e,
                ),
            },
    {
        resolve_path(self.install_dir.as_str(), base, windows)
    }

    /// The directory that holds game data shared by the instances.
    pub fn resolved_data_dir(&self, base: &str, windows: bool) -> (r: Result<String, PathError>)
        ensures
            match r {
                Ok(p) => resolved_path(self.data_dir@, base@, windows) == Ok::<Seq<char>, PathError>(p@),
                Err(e) => resolved_path(self.data_dir@, base@, windows) == Err::<Seq<char>, PathError>(e),
            },
    {
        resolve_path(self.data_dir.as_str(), base, windows)
    }

    pub fn keep_launcher_open(&self) -> (b: bool)
        ensures
            b == self.keep_launcher_open,
    {
        self.keep_launcher_open
    }

    pub fn prefer_discrete_gpu(&self) -> (b: bool)
        ensures
            b == self.prefer_discrete_gpu,
    {
        self.prefer_discrete_gpu
    }
}

// ---------------------------------------------------------------------------
// The settings in effect
// ---------------------------------------------------------------------------
/// The settings in effect, once a settings file has been read.
#[derive(Debug)]
pub struct ConfigStore {
    pub config: Option<Config>,
}

impl ConfigStore {
    pub fn new() -> (s: Self)
        ensures
            s.config is None,
    {
        ConfigStore { config: None }
    }
}

/// What reading a settings file makes of the parsed `config`: refused with
/// the first directory that does not resolve, else taken.
pub open spec fn config_file_error(config: ConfigView, base: Seq<char>, windows: bool) -> Option<Seq<char>> {
    match resolved_path(config.install_dir, base, windows) {
        Err(e) => Some("invalid install_dir: "@ + path_error_message(e)),
        Ok(_) => match resolved_path(config.data_dir, base, windows) {
            Err(e) => Some("invalid data_dir: "@ + path_error_message(e)),
            Ok(_) => None,
        },
    }
}

fn prefixed(prefix: &str, message: String) -> (r: String)
    ensures
        r@ == prefix@ + message@,
{
    let mut r = str_to_string(prefix);
    r.append(message.as_str());
    r
}

/// Checks the directories of a parsed settings file and makes it the
/// settings in effect.
pub fn read_config_file(store: &mut ConfigStore, config: Config, base: &str, windows: bool) -> (r: Result<
    (),
    String,
>)
    ensures
        match r {
            Ok(()) => config_file_error(config@, base@, windows) is None && (final(store).config matches Some(
                c,
            ) && c@ == config@),
            Err(m) => config_file_error(config@, base@, windows) == Some(m@) && *final(store) == *old(
                store,
            ),
        },
{
    if let Err(e) = config.resolved_install_dir(base, windows) {
        return Err(prefixed("invalid install_dir: ", e.message()));
    }
    if let Err(e) = config.resolved_data_dir(base, windows) {
        return Err(prefixed("invalid data_dir: ", e.message()));
    }
    store.config = Some(config);
    Ok(())
}

/// The settings in effect.
pub fn get_config(store: &ConfigStore) -> (c: Config)
    requires
        store.config is Some,
    ensures
        c@ == store.config->0@,
{
    match &store.config {
        Some(c) => copy_config(c),
        None => {
            proof {
                assert(false);
            }
            Config::default()
        },
    }
}

/// The outcome of looking up the launcher's data directory, as values: the
/// directory, or the lookup's error text.
pub open spec fn lookup_view(d: Result<String, String>) -> Result<Seq<char>, Seq<char>> {
    match d {
        Ok(b) => Ok(b@),
        Err(m) => Err(m@),
    }
}

/// Why a configured path does not resolve, given the outcome of looking up
/// the launcher's data directory; `None` where it resolves.
pub open spec fn path_problem(value: Seq<char>, data_dir: Result<Seq<char>, Seq<char>>, windows: bool) -> Option<Seq<char>> {
    match data_dir {
        Err(m) => Some(m),
        Ok(b) => match resolved_path(value, b, windows) {
            Ok(_) => None,
            Err(e) => Some(path_error_message(e)),
        },
    }
}

/// The settings after setting `key` to `value`, or the error that refuses it,
/// given the outcome of looking up the launcher's data directory.
pub open spec fn config_with_field(
    c: ConfigView,
    key: Seq<char>,
    value: JsonValue,
    data_dir: Result<Seq<char>, Seq<char>>,
    windows: bool,
) -> Result<ConfigView, Seq<char>> {
    if key == "install_dir"@ {
        match value.str_view() {
            Some(s) => match path_problem(s, data_dir, windows) {
                None => Ok(ConfigView { install_dir: s, ..c }),
                Some(m) => Err("invalid install_dir: "@ + m),
            },
            None => Err("install_dir must be a string"@),
        }
    } else if key == "data_dir"@ {
        match value.str_view() {
            Some(s) => match path_problem(s, data_dir, windows) {
                None => Ok(ConfigView { data_dir: s, ..c }),
                Some(m) => Err("invalid data_dir: "@ + m),
            },
            None => Err("data_dir must be a string"@),
        }
    } else if key == "language"@ {
        match value.str_view() {
            Some(s) => Ok(ConfigView { language: s, ..c }),
            None => Err("language must be a string"@),
        }
    } else if key == "keep_launcher_open"@ {
        match value.bool_view() {
            Some(b) => Ok(ConfigView { keep_launcher_open: b, ..c }),
            None => Err("keep_launcher_open must be a boolean"@),
        }
    } else if key == "prefer_discrete_gpu"@ {
        match value.bool_view() {
            Some(b) => Ok(ConfigView { prefer_discrete_gpu: b, ..c }),
            None => Err("prefer_discrete_gpu must be a boolean"@),
        }
    } else {
        Err("Unknown config key: "@ + key)
    }
}

/// Sets one setting, checking its type and, for the directories, that the
/// path resolves. On success the new settings are in effect and returned;
/// on an error nothing changes. (Saving them is the caller's part.)
pub fn update_field(
    store: &mut ConfigStore,
    key: &str,
    value: JsonValue,
    data_dir: &Result<String, String>,
    windows: bool,
) -> (r: Result<
    Config,
    String,
>)
    ensures
        match old(store).config {
            None => (r matches Err(m) && m@ == "Config not initialized"@) && *final(store) == *old(
                store,
            ),
            Some(c) => match config_with_field(c@, key@, value, lookup_view(*data_dir), windows) {
                Ok(n) => (r matches Ok(rc) && rc@ == n) && (final(store).config matches Some(fc)
                    && fc@ == n),
                Err(m) => (r matches Err(rm) && rm@ == m) && *final(store) == *old(store),
            },
        },
{
    let current = match &store.config {
        Some(c) => copy_config(c),
        None => {
            return Err(str_to_string("Config not initialized"));
        },
    };
    let mut cfg = current;
    if str_eq(key, "install_dir") {
        match value {
            JsonValue::Str(s) => {
                if let Err(e) = resolve_launcher_path(s.as_str(), data_dir, windows) {
                    return Err(prefixed("invalid install_dir: ", e.message()));
                }
                cfg.install_dir = s;
            },
            _ => {
                return Err(str_to_string("install_dir must be a string"));
            },
        }
    } else if str_eq(key, "data_dir") {
        match value {
            JsonValue::Str(s) => {
                if let Err(e) = resolve_launcher_path(s.as_str(), data_dir, windows) {
                    return Err(prefixed("invalid data_dir: ", e.message()));
                }
                cfg.data_dir = s;
            },
            _ => {
                return Err(str_to_string("data_dir must be a string"));
            },
        }
    } else if str_eq(key, "language") {
        match value {
            JsonValue::Str(s) => {
                cfg.language = s;
            },
            _ => {
                return Err(str_to_string("language must be a string"));
            },
        }
    } else if str_eq(key, "keep_launcher_open") {
        match value {
            JsonValue::Bool(b) => {
                cfg.keep_launcher_open = b;
            },
            _ => {
                return Err(str_to_string("keep_launcher_open must be a boolean"));
            },
        }
    } else if str_eq(key, "prefer_discrete_gpu") {
        match value {
            JsonValue::Bool(b) => {
                cfg.prefer_discrete_gpu = b;
            },
            _ => {
                return Err(str_to_string("prefer_discrete_gpu must be a boolean"));
            },
        }
    } else {
        return Err(prefixed("Unknown config key: ", str_to_string(key)));
    }
    let result = copy_config(&cfg);
    store.config = Some(cfg);
    Ok(result)
}

/// Whether the setting named `key` of `n` holds `value`.
pub open spec fn holds_setting(n: ConfigView, key: Seq<char>, value: JsonValue) -> bool {
    if key == "install_dir"@ {
        value.str_view() == Some(n.install_dir)
    } else if key == "data_dir"@ {
        value.str_view() == Some(n.data_dir)
    } else if key == "language"@ {
        value.str_view() == Some(n.language)
    } else if key == "keep_launcher_open"@ {
        value.bool_view() == Some(n.keep_launcher_open)
    } else if key == "prefer_discrete_gpu"@ {
        value.bool_view() == Some(n.prefer_discrete_gpu)
    } else {
        false
    }
}

/// Whether `n` keeps every setting of `c` but the one named `key`.
pub open spec fn keeps_others(c: ConfigView, n: ConfigView, key: Seq<char>) -> bool {
    &&& key != "install_dir"@ ==> n.install_dir == c.install_dir
    &&& key != "data_dir"@ ==> n.data_dir == c.data_dir
    &&& key != "language"@ ==> n.language == c.language
    &&& key != "keep_launcher_open"@ ==> n.keep_launcher_open == c.keep_launcher_open
    &&& key != "prefer_discrete_gpu"@ ==> n.prefer_discrete_gpu == c.prefer_discrete_gpu
}

/// A setting that `update_field` accepts reads back as written, the other
/// settings are kept, and writing the same value again changes nothing.
pub proof fn law_update_reads_back(
    c: ConfigView,
    key: Seq<char>,
    value: JsonValue,
    base: Result<Seq<char>, Seq<char>>,
    windows: bool,
)
    requires
        config_with_field(c, key, value, base, windows) is Ok,
    ensures
        holds_setting(config_with_field(c, key, value, base, windows)->Ok_0, key, value),
        keeps_others(c, config_with_field(c, key, value, base, windows)->Ok_0, key),
        config_with_field(config_with_field(c, key, value, base, windows)->Ok_0, key, value, base, windows)
            == config_with_field(c, key, value, base, windows),
{
}

/// A setting that `update_field` accepts from settings whose directories
/// resolve leaves settings whose directories resolve: a settings file saved
/// after an update is read back by `read_config_file` without error.
pub proof fn law_update_keeps_settings_readable(
    c: ConfigView,
    key: Seq<char>,
    value: JsonValue,
    base: Seq<char>,
    windows: bool,
)
    requires
        config_file_error(c, base, windows) is None,
        config_with_field(c, key, value, Ok(base), windows) is Ok,
    ensures
        config_file_error(config_with_field(c, key, value, Ok(base), windows)->Ok_0, base, windows) is None,
{
}

/// The end of an update, once its settings were saved or not: a saved
/// update stays in effect and is answered with its settings; an update
/// whose save failed is undone, the settings `previous` from before it put
/// back, and answered with the save's error.
pub fn finish_update(store: &mut ConfigStore, previous: Config, updated: Config, saved: Result<(), String>) -> (r: Result<
    Config,
    String,
>)
    ensures
        saved is Ok ==> *final(store) == *old(store) && r == Ok::<Config, String>(updated),
        saved matches Err(e) ==> final(store).config == Some(previous) && (r matches Err(m) && m@
            == "Config saving failed: "@ + e@),
{
    match saved {
        Ok(()) => Ok(updated),
        Err(e) => {
            store.config = Some(previous);
            Err(concat2("Config saving failed: ", e.as_str()))
        },
    }
}

/// How the settings in effect are saved: the settings, the temporary file
/// they are written to first, and the settings file it is then renamed to.
#[derive(Debug)]
pub struct ConfigSave {
    pub config: Config,
    pub temp_path: String,
    pub path: String,
}

/// The save of the settings in effect into the launcher's data directory
/// `base`.
pub fn save_config(store: &ConfigStore, base: &str) -> (r: ConfigSave)
    requires
        store.config is Some,
    ensures
        r.config@ == store.config->0@,
        r.path@ == path_join(base@, "config.json"@),
        r.temp_path@ == path_join(base@, "config.json.tmp"@),
{
    ConfigSave {
        config: get_config(store),
        temp_path: join_path(base, "config.json.tmp"),
        path: config_file_path(base),
    }
}

} // verus!
