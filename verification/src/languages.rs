//! Language configurations: their shape, how a configuration file's path
//! names its language and version, the checks a configuration must pass,
//! and the registry that maps `name:version` keys to configurations.
use vstd::prelude::*;
use crate::text::{
    chars_eq, chars_of, ends_with, has_suffix, slice_chars, string_from_chars, views,
};

verus! {

/// Resource limits for one sandboxed step.
#[derive(Clone, Copy, Debug, PartialEq, Eq, Structural)]
pub struct ResourceLimits {
    pub time_s: u64,
    pub memory_kb: u64,
    pub processes: u64,
}

impl Default for ResourceLimits {
    fn default() -> (r: ResourceLimits)
        ensures
            r == (ResourceLimits { time_s: 0, memory_kb: 0, processes: 0 }),
    {
        ResourceLimits { time_s: 0, memory_kb: 0, processes: 0 }
    }
}

/// A command line and the limits it runs under, if any.
#[derive(Clone, Debug)]
pub struct CommandConfig {
    pub command: Vec<String>,
    pub limits: Option<ResourceLimits>,
}

/// The contents of one language configuration file.
#[derive(Clone, Debug)]
pub struct TomlConfig {
    pub is_compiled: bool,
    pub source_filename: String,
    pub executable_filename: String,
    pub chroot_path: Option<String>,
    pub env_vars: Vec<(String, String)>,
    pub mount_paths: Vec<String>,
    pub compile: CommandConfig,
    pub run: CommandConfig,
    pub limits: ResourceLimits,
}

/// The full, validated configuration of one language version.
#[derive(Clone, Debug)]
pub struct LanguageConfig {
    pub name: String,
    pub version: String,
    pub is_compiled: bool,
    pub source_filename: String,
    pub executable_filename: String,
    pub chroot_path: Option<String>,
    pub env_vars: Vec<(String, String)>,
    pub mount_paths: Vec<String>,
    pub compile: CommandConfig,
    pub run: CommandConfig,
    pub limits: ResourceLimits,
}

/// The mathematical content of a [`CommandConfig`].
pub struct CommandConfigView {
    pub command: Seq<Seq<char>>,
    pub limits: Option<ResourceLimits>,
}

/// The mathematical content of a [`TomlConfig`].
pub struct TomlConfigView {
    pub is_compiled: bool,
    pub source_filename: Seq<char>,
    pub executable_filename: Seq<char>,
    pub chroot_path: Option<Seq<char>>,
    pub env_vars: Seq<(Seq<char>, Seq<char>)>,
    pub mount_paths: Seq<Seq<char>>,
    pub compile: CommandConfigView,
    pub run: CommandConfigView,
    pub limits: ResourceLimits,
}

/// The mathematical content of a [`LanguageConfig`].
pub struct LanguageConfigView {
    pub name: Seq<char>,
    pub version: Seq<char>,
    pub is_compiled: bool,
    pub source_filename: Seq<char>,
    pub executable_filename: Seq<char>,
    pub chroot_path: Option<Seq<char>>,
    pub env_vars: Seq<(Seq<char>, Seq<char>)>,
    pub mount_paths: Seq<Seq<char>>,
    pub compile: CommandConfigView,
    pub run: CommandConfigView,
    pub limits: ResourceLimits,
}

/// The view of an optional string.
pub open spec fn opt_view(o: Option<String>) -> Option<Seq<char>> {
    match o {
        Some(s) => Some(s@),
        None => None,
    }
}

/// The views of a list of string pairs.
pub open spec fn pair_views(v: Seq<(String, String)>) -> Seq<(Seq<char>, Seq<char>)> {
    v.map_values(|kv: (String, String)| (kv.0@, kv.1@))
}

impl View for CommandConfig {
    type V = CommandConfigView;

    open spec fn view(&self) -> CommandConfigView {
        CommandConfigView { command: views(self.command@), limits: self.limits }
    }
}

impl View for TomlConfig {
    type V = TomlConfigView;

    open spec fn view(&self) -> TomlConfigView {
        TomlConfigView {
            is_compiled: self.is_compiled,
            source_filename: self.source_filename@,
            executable_filename: self.executable_filename@,
            chroot_path: opt_view(self.chroot_path),
            env_vars: pair_views(self.env_vars@),
            mount_paths: views(self.mount_paths@),
            compile: self.compile@,
            run: self.run@,
            limits: self.limits,
        }
    }
}

impl View for LanguageConfig {
    type V = LanguageConfigView;

    open spec fn view(&self) -> LanguageConfigView {
        LanguageConfigView {
            name: self.name@,
            version: self.version@,
            is_compiled: self.is_compiled,
            source_filename: self.source_filename@,
            executable_filename: self.executable_filename@,
            chroot_path: opt_view(self.chroot_path),
            env_vars: pair_views(self.env_vars@),
            mount_paths: views(self.mount_paths@),
            compile: self.compile@,
            run: self.run@,
            limits: self.limits,
        }
    }
}

/// The configuration that a file's contents give a language version.
pub open spec fn config_from(name: Seq<char>, version: Seq<char>, t: TomlConfigView) -> LanguageConfigView {
    LanguageConfigView {
        name,
        version,
        is_compiled: t.is_compiled,
        source_filename: t.source_filename,
        executable_filename: t.executable_filename,
        chroot_path: t.chroot_path,
        env_vars: t.env_vars,
        mount_paths: t.mount_paths,
        compile: t.compile,
        run: t.run,
        limits: t.limits,
    }
}

/// The registry key of a language version: `name:version`.
pub open spec fn config_key(name: Seq<char>, version: Seq<char>) -> Seq<char> {
    name + seq![':'] + version
}

/// Copies a list of strings.
pub fn copy_strings(v: &Vec<String>) -> (r: Vec<String>)
    ensures
        views(r@) == views(v@),
{
    let mut r: Vec<String> = Vec::new();
    let mut i: usize = 0;
    while i < v.len()
        invariant
            i <= v.len(),
            r@.len() == i,
            forall|j: int| 0 <= j < i ==> (#[trigger] r@[j])@ == v@[j]@,
        decreases v.len() - i,
    {
        let s = v[i].clone();
        r.push(s);
        i = i + 1;
    }
    assert(views(r@) =~= views(v@));
    r
}

/// Copies a list of string pairs.
pub fn copy_pairs(v: &Vec<(String, String)>) -> (r: Vec<(String, String)>)
    ensures
        pair_views(r@) == pair_views(v@),
{
    let mut r: Vec<(String, String)> = Vec::new();
    let mut i: usize = 0;
    while i < v.len()
        invariant
            i <= v.len(),
            r@.len() == i,
            forall|j: int| 0 <= j < i ==> (#[trigger] r@[j]).0@ == v@[j].0@ && r@[j].1@ == v@[j].1@,
        decreases v.len() - i,
    {
        let a = v[i].0.clone();
        let b = v[i].1.clone();
        r.push((a, b));
        i = i + 1;
    }
    assert(pair_views(r@) =~= pair_views(v@));
    r
}

/// Copies an optional string.
pub fn copy_opt(o: &Option<String>) -> (r: Option<String>)
    ensures
        opt_view(r) == opt_view(*o),
{
    match o {
        Some(s) => Some(s.clone()),
        None => None,
    }
}

impl CommandConfig {
    /// A copy with the same content.
    pub fn copy(&self) -> (r: CommandConfig)
        ensures
            r@ == self@,
    {
        CommandConfig { command: copy_strings(&self.command), limits: self.limits }
    }
}

impl LanguageConfig {
    /// A copy with the same content.
    pub fn copy(&self) -> (r: LanguageConfig)
        ensures
            r@ == self@,
    {
        LanguageConfig {
            name: self.name.clone(),
            version: self.version.clone(),
            is_compiled: self.is_compiled,
            source_filename: self.source_filename.clone(),
            executable_filename: self.executable_filename.clone(),
            chroot_path: copy_opt(&self.chroot_path),
            env_vars: copy_pairs(&self.env_vars),
            mount_paths: copy_strings(&self.mount_paths),
            compile: self.compile.copy(),
            run: self.run.copy(),
            limits: self.limits,
        }
    }
}

// ---------------------------------------------------------------------
// Paths of configuration files
// ---------------------------------------------------------------------

/// Ends the path component being read: empty pieces and `.` are not
/// components of a path.
pub open spec fn flush_component(done: Seq<Seq<char>>, cur: Seq<char>) -> Seq<Seq<char>> {
    if cur.len() == 0 || cur == seq!['.'] {
        done
    } else {
        done.push(cur)
    }
}

/// The components finished so far and the one being read, after reading `p`.
pub open spec fn scan_components(p: Seq<char>) -> (Seq<Seq<char>>, Seq<char>)
    decreases p.len(),
{
    if p.len() == 0 {
        (Seq::empty(), Seq::empty())
    } else {
        let (done, cur) = scan_components(p.drop_last());
        if p.last() == '/' {
            (flush_component(done, cur), Seq::empty())
        } else {
            (done, cur.push(p.last()))
        }
    }
}

/// The components of a Unix path: the pieces between slashes, leaving out
/// empty pieces and `.`.
pub open spec fn path_components(p: Seq<char>) -> Seq<Seq<char>> {
    let (done, cur) = scan_components(p);
    flush_component(done, cur)
}

/// The index of the last `.` in `s`, if any.
pub open spec fn last_dot(s: Seq<char>) -> Option<int>
    decreases s.len(),
{
    if s.len() == 0 {
        None
    } else if s.last() == '.' {
        Some(s.len() - 1)
    } else {
        last_dot(s.drop_last())
    }
}

/// A file name without its extension, as `Path::file_stem` gives it: the
/// part before the last `.`, unless that part would be empty.
pub open spec fn file_stem(name: Seq<char>) -> Seq<char> {
    match last_dot(name) {
        Some(k) => if k == 0 { name } else { name.subrange(0, k) },
        None => name,
    }
}

/// The language and version that a configuration file's path names:
/// `.../<name>_language/v<version>.toml`, where the configuration of
/// Java 11 is named `java11`.
pub open spec fn parse_path_spec(p: Seq<char>) -> Option<(Seq<char>, Seq<char>)> {
    let comps = path_components(p);
    if comps.len() < 2 {
        None
    } else {
        let file = comps.last();
        let dir = comps[comps.len() - 2];
        if file == seq!['.', '.'] || dir == seq!['.', '.'] {
            None
        } else {
            let stem = file_stem(file);
            let suffix = seq!['_', 'l', 'a', 'n', 'g', 'u', 'a', 'g', 'e'];
            if !(stem.len() > 0 && stem[0] == 'v') || !has_suffix(dir, suffix) {
                None
            } else {
                let version = stem.drop_first();
                let lang = dir.subrange(0, dir.len() - suffix.len());
                let name = if lang == seq!['j', 'a', 'v', 'a'] && version == seq!['1', '1'] {
                    seq!['j', 'a', 'v', 'a', '1', '1']
                } else {
                    lang
                };
                Some((name, version))
            }
        }
    }
}

/// What a configuration file's path names: its directory is
/// `<language>_language` and its file name starts with `v<version>`; the
/// configuration's name is the directory's language, except that Java in
/// version 11, and only that pair, is named `java11`.
pub proof fn lemma_parse_path_names(p: Seq<char>)
    ensures
        parse_path_spec(p) matches Some((n, v)) ==> ({
            let comps = path_components(p);
            let dir = comps[comps.len() - 2];
            let file = comps[comps.len() - 1];
            let lang = dir.subrange(0, dir.len() - 9);
            &&& comps.len() >= 2
            &&& dir.len() >= 9
            &&& dir.subrange(dir.len() - 9, dir.len() as int) == "_language"@
            &&& file.len() > v.len()
            &&& file.subrange(0, v.len() + 1int) == seq!['v'] + v
            &&& n == (if lang == "java"@ && v == "11"@ {
                "java11"@
            } else {
                lang
            })
        }),
{
    reveal_strlit("_language");
    reveal_strlit("java");
    reveal_strlit("11");
    reveal_strlit("java11");
    let comps = path_components(p);
    if comps.len() >= 2 {
        let file = comps.last();
        lemma_last_dot_bound(file);
        let stem = file_stem(file);
        if let Some((n, v)) = parse_path_spec(p) {
            assert(file == comps[comps.len() - 1]);
            assert(stem.len() <= file.len());
            assert(stem == file.subrange(0, stem.len() as int));
            assert(v == stem.drop_first());
            assert(file.subrange(0, v.len() + 1int) =~= seq!['v'] + v);
            assert("_language"@ =~= seq!['_', 'l', 'a', 'n', 'g', 'u', 'a', 'g', 'e']);
            assert("java"@ =~= seq!['j', 'a', 'v', 'a']);
            assert("11"@ =~= seq!['1', '1']);
            assert("java11"@ =~= seq!['j', 'a', 'v', 'a', '1', '1']);
        }
    }
}

/// The views of a list of character vectors.
pub open spec fn vec_views(v: Seq<Vec<char>>) -> Seq<Seq<char>> {
    v.map_values(|c: Vec<char>| c@)
}

fn flush_into(done: &mut Vec<Vec<char>>, cur: Vec<char>)
    ensures
        vec_views(final(done)@) == flush_component(vec_views(old(done)@), cur@),
{
    let dot = vec!['.'];
    assert(dot@ == seq!['.']);
    if cur.len() == 0 {
        assert(cur@ =~= Seq::<char>::empty());
    } else if chars_eq(&cur, &dot) {
    } else {
        done.push(cur);
        assert(vec_views(done@) =~= vec_views(old(done)@).push(cur@));
    }
}

/// The components of a Unix path.
pub fn path_components_of(p: &Vec<char>) -> (r: Vec<Vec<char>>)
    ensures
        vec_views(r@) == path_components(p@),
{
    let mut done: Vec<Vec<char>> = Vec::new();
    let mut cur: Vec<char> = Vec::new();
    let mut i: usize = 0;
    assert(p@.subrange(0, 0) =~= Seq::<char>::empty());
    assert(vec_views(done@) =~= Seq::<Seq<char>>::empty());
    while i < p.len()
        invariant
            i <= p.len(),
            (vec_views(done@), cur@) == scan_components(p@.subrange(0, i as int)),
        decreases p.len() - i,
    {
        let c = p[i];
        proof {
            assert(p@.subrange(0, i + 1).drop_last() =~= p@.subrange(0, i as int));
        }
        if c == '/' {
            let mut finished: Vec<char> = Vec::new();
            std::mem::swap(&mut finished, &mut cur);
            flush_into(&mut done, finished);
        } else {
            cur.push(c);
        }
        i = i + 1;
    }
    assert(p@.subrange(0, i as int) =~= p@);
    flush_into(&mut done, cur);
    done
}

/// The index of the last `.` in `s`, if any.
fn last_dot_of(s: &Vec<char>) -> (r: Option<usize>)
    ensures
        match r {
            Some(k) => last_dot(s@) == Some(k as int),
            None => last_dot(s@) is None,
        },
{
    let mut j: usize = s.len();
    assert(s@.subrange(0, j as int) =~= s@);
    while j > 0
        invariant
            j <= s.len(),
            last_dot(s@) == last_dot(s@.subrange(0, j as int)),
        decreases j,
    {
        if s[j - 1] == '.' {
            return Some(j - 1);
        }
        assert(s@.subrange(0, j as int).drop_last() =~= s@.subrange(0, j - 1));
        j = j - 1;
    }
    None
}

proof fn lemma_last_dot_bound(s: Seq<char>)
    ensures
        last_dot(s) matches Some(k) ==> 0 <= k < s.len(),
    decreases s.len(),
{
    if s.len() > 0 && s.last() != '.' {
        lemma_last_dot_bound(s.drop_last());
    }
}

/// The language and version that a configuration file's path names, as
/// `LanguageRegistry::parse_path` reads them.
pub fn parse_path_chars(path: &Vec<char>) -> (r: Option<(Vec<char>, Vec<char>)>)
    ensures
        match r {
            Some((n, v)) => parse_path_spec(path@) == Some((n@, v@)),
            None => parse_path_spec(path@) is None,
        },
{
    let comps = path_components_of(path);
    let n = comps.len();
    if n < 2 {
        return None;
    }
    let file = &comps[n - 1];
    let dir = &comps[n - 2];
    proof {
        assert(vec_views(comps@).last() == file@);
        assert(vec_views(comps@)[n - 2] == dir@);
    }
    let dotdot = vec!['.', '.'];
    if chars_eq(file, &dotdot) || chars_eq(dir, &dotdot) {
        return None;
    }
    proof {
        lemma_last_dot_bound(file@);
    }
    let stem = match last_dot_of(file) {
        Some(k) => if k == 0 { slice_chars(file, 0, file.len()) } else { slice_chars(file, 0, k) },
        None => slice_chars(file, 0, file.len()),
    };
    assert(stem@ == file_stem(file@)) by {
        assert(file@.subrange(0, file@.len() as int) =~= file@);
    }
    let suffix = vec!['_', 'l', 'a', 'n', 'g', 'u', 'a', 'g', 'e'];
    if !(stem.len() > 0 && stem[0] == 'v') || !ends_with(dir, &suffix) {
        return None;
    }
    let version = slice_chars(&stem, 1, stem.len());
    let lang = slice_chars(dir, 0, dir.len() - suffix.len());
    assert(version@ =~= stem@.drop_first());
    let java = vec!['j', 'a', 'v', 'a'];
    let eleven = vec!['1', '1'];
    let name = if chars_eq(&lang, &java) && chars_eq(&version, &eleven) {
        vec!['j', 'a', 'v', 'a', '1', '1']
    } else {
        lang
    };
    Some((name, version))
}

// ---------------------------------------------------------------------
// Checks on configurations
// ---------------------------------------------------------------------

/// Why a configuration is refused.
#[derive(Clone, Copy, Debug, PartialEq, Eq, Structural)]
pub enum ConfigError {
    EmptySourceFilename,
    EmptyRunCommand,
    EmptyExecutableFilename,
    EmptyCompileCommand,
    TimeLimitOutOfRange,
}

/// The first rule that a configuration breaks, if any: a source file name
/// and a run command are always needed, a compiled language also needs an
/// executable file name and a compile command, and every time limit (the
/// default one and those of the compile and run steps that set their own)
/// is between 1 and 60 seconds.
pub open spec fn validate_config_spec(t: TomlConfigView) -> Result<(), ConfigError> {
    if t.source_filename.len() == 0 {
        Err(ConfigError::EmptySourceFilename)
    } else if t.run.command.len() == 0 {
        Err(ConfigError::EmptyRunCommand)
    } else if t.is_compiled && t.executable_filename.len() == 0 {
        Err(ConfigError::EmptyExecutableFilename)
    } else if t.is_compiled && t.compile.command.len() == 0 {
        Err(ConfigError::EmptyCompileCommand)
    } else if !time_limit_in_range(t.limits) || !step_time_limit_in_range(t.compile.limits)
        || !step_time_limit_in_range(t.run.limits) {
        Err(ConfigError::TimeLimitOutOfRange)
    } else {
        Ok(())
    }
}

/// Whether a limits table's time limit is between 1 and 60 seconds.
pub open spec fn time_limit_in_range(l: ResourceLimits) -> bool {
    1 <= l.time_s && l.time_s <= 60
}

/// Whether a step's own limits, when it has any, keep the time limit
/// between 1 and 60 seconds.
pub open spec fn step_time_limit_in_range(l: Option<ResourceLimits>) -> bool {
    match l {
        Some(l) => time_limit_in_range(l),
        None => true,
    }
}

/// The placeholder compile command of interpreted languages.
pub open spec fn echo_command() -> Seq<char> {
    seq!['e', 'c', 'h', 'o']
}

/// The paths that a configuration names on the host, in the order they are
/// checked: the compiler (unless it is the `echo` placeholder), the run
/// executable, the mount paths and the chroot directory.
pub open spec fn named_paths(t: TomlConfigView) -> Seq<Seq<char>> {
    (if t.compile.command.len() > 0 && t.compile.command[0] != echo_command() {
        seq![t.compile.command[0]]
    } else {
        Seq::empty()
    }) + (if t.run.command.len() > 0 {
        seq![t.run.command[0]]
    } else {
        Seq::empty()
    }) + t.mount_paths + (match t.chroot_path {
        Some(p) => seq![p],
        None => Seq::empty(),
    })
}

/// The absolute paths among `s`, in order.
pub open spec fn absolute_paths(s: Seq<Seq<char>>) -> Seq<Seq<char>>
    decreases s.len(),
{
    if s.len() == 0 {
        s
    } else if s.last().len() > 0 && s.last()[0] == '/' {
        absolute_paths(s.drop_last()).push(s.last())
    } else {
        absolute_paths(s.drop_last())
    }
}

/// The host paths that must exist for a configuration to be usable: the
/// absolute ones among those it names.
pub open spec fn host_paths(t: TomlConfigView) -> Seq<Seq<char>> {
    absolute_paths(named_paths(t))
}


/// Checks a configuration against the rules of [`validate_config_spec`].
pub fn validate_config_of(t: &TomlConfig) -> (r: Result<(), ConfigError>)
    ensures
        r == validate_config_spec(t@),
{
    if t.source_filename.as_str().is_empty() {
        return Err(ConfigError::EmptySourceFilename);
    }
    if t.run.command.len() == 0 {
        return Err(ConfigError::EmptyRunCommand);
    }
    if t.is_compiled {
        if t.executable_filename.as_str().is_empty() {
            return Err(ConfigError::EmptyExecutableFilename);
        }
        if t.compile.command.len() == 0 {
            return Err(ConfigError::EmptyCompileCommand);
        }
    }
    if !(1 <= t.limits.time_s && t.limits.time_s <= 60) {
        return Err(ConfigError::TimeLimitOutOfRange);
    }
    if let Some(l) = t.compile.limits {
        if !(1 <= l.time_s && l.time_s <= 60) {
            return Err(ConfigError::TimeLimitOutOfRange);
        }
    }
    if let Some(l) = t.run.limits {
        if !(1 <= l.time_s && l.time_s <= 60) {
            return Err(ConfigError::TimeLimitOutOfRange);
        }
    }
    Ok(())
}

proof fn lemma_absolute_paths_push(s: Seq<Seq<char>>, x: Seq<char>)
    ensures
        absolute_paths(s.push(x)) == (if x.len() > 0 && x[0] == '/' {
            absolute_paths(s).push(x)
        } else {
            absolute_paths(s)
        }),
{
    assert(s.push(x).drop_last() =~= s);
}

/// The names that a configuration gives host paths, in checking order.
fn named_paths_of(t: &TomlConfig) -> (r: Vec<String>)
    ensures
        views(r@) == named_paths(t@),
{
    let mut r: Vec<String> = Vec::new();
    let echo = "echo".to_owned();
    proof {
        reveal_strlit("echo");
        assert(echo@ =~= echo_command());
    }
    let ghost first: Seq<Seq<char>> = if t@.compile.command.len() > 0 && t@.compile.command[0]
        != echo_command() {
        seq![t@.compile.command[0]]
    } else {
        Seq::empty()
    };
    if t.compile.command.len() > 0 && !t.compile.command[0].eq(&echo) {
        r.push(t.compile.command[0].clone());
    }
    assert(views(r@) =~= first);
    let ghost second: Seq<Seq<char>> = if t@.run.command.len() > 0 {
        seq![t@.run.command[0]]
    } else {
        Seq::empty()
    };
    if t.run.command.len() > 0 {
        r.push(t.run.command[0].clone());
    }
    assert(views(r@) =~= first + second);
    let mut mounts = copy_strings(&t.mount_paths);
    r.append(&mut mounts);
    assert(views(r@) =~= first + second + t@.mount_paths);
    match &t.chroot_path {
        Some(p) => {
            r.push(p.clone());
        },
        None => {},
    }
    assert(views(r@) =~= named_paths(t@));
    r
}

/// Whether `s` begins with `/`.
fn is_absolute(s: &String) -> (r: bool)
    ensures
        r == (s@.len() > 0 && s@[0] == '/'),
{
    let c = chars_of(s.as_str());
    c.len() > 0 && c[0] == '/'
}

/// The host paths that must exist for a configuration to be usable.
pub fn host_paths_of(t: &TomlConfig) -> (r: Vec<String>)
    ensures
        views(r@) == host_paths(t@),
{
    let named = named_paths_of(t);
    let mut r: Vec<String> = Vec::new();
    let mut i: usize = 0;
    assert(views(named@).subrange(0, 0) =~= Seq::<Seq<char>>::empty());
    assert(views(r@) =~= Seq::<Seq<char>>::empty());
    while i < named.len()
        invariant
            i <= named.len(),
            views(r@) == absolute_paths(views(named@).subrange(0, i as int)),
        decreases named.len() - i,
    {
        proof {
            assert(views(named@).subrange(0, i + 1) =~= views(named@).subrange(0, i as int).push(
                named@[i as int]@,
            ));
            lemma_absolute_paths_push(views(named@).subrange(0, i as int), named@[i as int]@);
        }
        if is_absolute(&named[i]) {
            r.push(named[i].clone());
            assert(views(r@) =~= absolute_paths(views(named@).subrange(0, i as int)).push(
                named@[i as int]@,
            ));
        }
        i = i + 1;
    }
    assert(views(named@).subrange(0, i as int) =~= views(named@));
    r
}

/// The first of `paths` that `absent` lists, if any.
pub open spec fn first_absent(paths: Seq<Seq<char>>, absent: Seq<Seq<char>>) -> Option<Seq<char>>
    decreases paths.len(),
{
    if paths.len() == 0 {
        None
    } else if absent.contains(paths[0]) {
        Some(paths[0])
    } else {
        first_absent(paths.drop_first(), absent)
    }
}

/// Whether `list` holds a string equal to `s`.
fn contains_string(list: &Vec<String>, s: &String) -> (r: bool)
    ensures
        r == views(list@).contains(s@),
{
    let mut i: usize = 0;
    while i < list.len()
        invariant
            i <= list.len(),
            forall|j: int| 0 <= j < i ==> list@[j]@ != s@,
        decreases list.len() - i,
    {
        if list[i].eq(s) {
            assert(views(list@)[i as int] == s@);
            return true;
        }
        i = i + 1;
    }
    proof {
        if views(list@).contains(s@) {
            let j = choose|j: int| 0 <= j < views(list@).len() && views(list@)[j] == s@;
            assert(list@[j]@ == s@);
        }
    }
    false
}

/// The first of `paths` that `absent` lists, if any.
fn first_absent_of(paths: &Vec<String>, absent: &Vec<String>) -> (r: Option<String>)
    ensures
        opt_view(r) == first_absent(views(paths@), views(absent@)),
{
    let mut i: usize = 0;
    assert(views(paths@).subrange(0, views(paths@).len() as int) =~= views(paths@));
    while i < paths.len()
        invariant
            i <= paths.len(),
            first_absent(views(paths@), views(absent@)) == first_absent(
                views(paths@).subrange(i as int, paths.len() as int),
                views(absent@),
            ),
        decreases paths.len() - i,
    {
        let ghost rest = views(paths@).subrange(i as int, paths.len() as int);
        assert(rest[0] == paths@[i as int]@);
        if contains_string(absent, &paths[i]) {
            return Some(paths[i].clone());
        }
        assert(rest.drop_first() =~= views(paths@).subrange(i + 1, paths.len() as int));
        i = i + 1;
    }
    None
}

/// How reading a configuration file went.
#[derive(Clone, Debug)]
pub enum ConfigContent {
    /// The file could not be read.
    Unreadable,
    /// The file was read but is not a valid configuration document.
    Unparsable,
    /// The file holds this configuration.
    Parsed(TomlConfig),
}

/// A configuration file found at startup, with what the host knows of it.
#[derive(Clone, Debug)]
pub struct ConfigFile {
    /// Where the file is.
    pub path: String,
    /// What reading and parsing it gave.
    pub content: ConfigContent,
    /// Which of the host paths that the configuration needs do not exist.
    pub absent_host_paths: Vec<String>,
}

/// Why loading the configurations failed.
#[derive(Clone, Debug)]
pub enum LoadError {
    Unreadable { path: String },
    Unparsable { path: String },
    MissingHostPath { config_path: String, missing: String },
}

/// The mathematical content of a [`LoadError`].
pub enum LoadErrorView {
    Unreadable { path: Seq<char> },
    Unparsable { path: Seq<char> },
    MissingHostPath { config_path: Seq<char>, missing: Seq<char> },
}

impl View for LoadError {
    type V = LoadErrorView;

    open spec fn view(&self) -> LoadErrorView {
        match self {
            LoadError::Unreadable { path } => LoadErrorView::Unreadable { path: path@ },
            LoadError::Unparsable { path } => LoadErrorView::Unparsable { path: path@ },
            LoadError::MissingHostPath { config_path, missing } => LoadErrorView::MissingHostPath {
                config_path: config_path@,
                missing: missing@,
            },
        }
    }
}

/// The registry after considering one more configuration file: files whose
/// path names no language version are skipped, as are invalid
/// configurations; an unreadable or unparsable file, or a missing host
/// path, ends the loading; otherwise the configuration is registered under
/// its key, replacing any earlier one.
pub open spec fn load_step(
    acc: Result<Map<Seq<char>, LanguageConfigView>, LoadErrorView>,
    f: ConfigFile,
) -> Result<Map<Seq<char>, LanguageConfigView>, LoadErrorView> {
    match acc {
        Err(e) => Err(e),
        Ok(m) => match parse_path_spec(f.path@) {
            None => Ok(m),
            Some((name, version)) => match f.content {
                ConfigContent::Unreadable => Err(LoadErrorView::Unreadable { path: f.path@ }),
                ConfigContent::Unparsable => Err(LoadErrorView::Unparsable { path: f.path@ }),
                ConfigContent::Parsed(t) => if validate_config_spec(t@) is Err {
                    Ok(m)
                } else {
                    match first_absent(host_paths(t@), views(f.absent_host_paths@)) {
                        Some(missing) => Err(
                            LoadErrorView::MissingHostPath { config_path: f.path@, missing },
                        ),
                        None => Ok(
                            m.insert(config_key(name, version), config_from(name, version, t@)),
                        ),
                    }
                },
            },
        },
    }
}

/// The registry that a sequence of configuration files gives, in order.
pub open spec fn load_spec(files: Seq<ConfigFile>) -> Result<
    Map<Seq<char>, LanguageConfigView>,
    LoadErrorView,
>
    decreases files.len(),
{
    if files.len() == 0 {
        Ok(Map::empty())
    } else {
        load_step(load_spec(files.drop_last()), files.last())
    }
}

/// The contents of a registered configuration, without its name and
/// version.
pub open spec fn config_toml(c: LanguageConfigView) -> TomlConfigView {
    TomlConfigView {
        is_compiled: c.is_compiled,
        source_filename: c.source_filename,
        executable_filename: c.executable_filename,
        chroot_path: c.chroot_path,
        env_vars: c.env_vars,
        mount_paths: c.mount_paths,
        compile: c.compile,
        run: c.run,
        limits: c.limits,
    }
}

/// Every configuration that loading registers sits under its own
/// `name:version` key and passes the checks of [`validate_config_spec`].
pub proof fn lemma_loaded_configs_valid(files: Seq<ConfigFile>)
    ensures
        load_spec(files) matches Ok(m) ==> forall|k: Seq<char>| #[trigger] m.contains_key(k) ==> k
            == config_key(m[k].name, m[k].version) && validate_config_spec(config_toml(m[k])) is Ok,
    decreases files.len(),
{
    if files.len() > 0 {
        lemma_loaded_configs_valid(files.drop_last());
        let f = files.last();
        if let Ok(m) = load_spec(files) {
            let prev = load_spec(files.drop_last());
            assert(prev is Ok);
            let pm = prev->Ok_0;
            assert forall|k: Seq<char>| #[trigger] m.contains_key(k) implies k == config_key(
                m[k].name,
                m[k].version,
            ) && validate_config_spec(config_toml(m[k])) is Ok by {
                if let Some((name, version)) = parse_path_spec(f.path@) {
                    if let ConfigContent::Parsed(t) = f.content {
                        if k == config_key(name, version) && m != pm {
                            assert(config_toml(config_from(name, version, t@)) == t@);
                        } else {
                            assert(pm.contains_key(k));
                        }
                    }
                }
            }
        }
    }
}

impl TomlConfig {
    /// A copy with the same content.
    pub fn copy(&self) -> (r: TomlConfig)
        ensures
            r@ == self@,
    {
        TomlConfig {
            is_compiled: self.is_compiled,
            source_filename: self.source_filename.clone(),
            executable_filename: self.executable_filename.clone(),
            chroot_path: copy_opt(&self.chroot_path),
            env_vars: copy_pairs(&self.env_vars),
            mount_paths: copy_strings(&self.mount_paths),
            compile: self.compile.copy(),
            run: self.run.copy(),
            limits: self.limits,
        }
    }
}

/// The map from keys to configurations that a list of entries gives, later
/// entries taking precedence.
pub open spec fn entry_map(s: Seq<(String, LanguageConfig)>) -> Map<Seq<char>, LanguageConfigView>
    decreases s.len(),
{
    if s.len() == 0 {
        Map::empty()
    } else {
        entry_map(s.drop_last()).insert(s.last().0@, s.last().1@)
    }
}

/// Whether the keys of a list of entries are pairwise distinct.
pub open spec fn distinct_keys(s: Seq<(String, LanguageConfig)>) -> bool {
    forall|i: int, j: int| 0 <= i < j < s.len() ==> (#[trigger] s[i]).0@ != (#[trigger] s[j]).0@
}

proof fn lemma_entry_map_lookup(s: Seq<(String, LanguageConfig)>)
    requires
        distinct_keys(s),
    ensures
        forall|i: int| #![trigger s[i]] 0 <= i < s.len() ==> entry_map(s).contains_key(s[i].0@)
            && entry_map(s)[s[i].0@] == s[i].1@,
        forall|k: Seq<char>| #[trigger] entry_map(s).contains_key(k) ==> exists|i: int|
            0 <= i < s.len() && (#[trigger] s[i]).0@ == k,
    decreases s.len(),
{
    if s.len() > 0 {
        let t = s.drop_last();
        assert forall|i: int, j: int| 0 <= i < j < t.len() implies (#[trigger] t[i]).0@ != (
        #[trigger] t[j]).0@ by {
            assert(t[i] == s[i] && t[j] == s[j]);
        }
        lemma_entry_map_lookup(t);
        assert forall|i: int| #![trigger s[i]] 0 <= i < s.len() implies entry_map(s).contains_key(
            s[i].0@,
        ) && entry_map(s)[s[i].0@] == s[i].1@ by {
            if i < s.len() - 1 {
                assert(t[i] == s[i]);
                assert(s[i].0@ != s[s.len() - 1].0@);
            }
        }
        assert forall|k: Seq<char>| #[trigger] entry_map(s).contains_key(k) implies exists|i: int|
            0 <= i < s.len() && (#[trigger] s[i]).0@ == k by {
            if k != s.last().0@ {
                assert(entry_map(t).contains_key(k));
                let i = choose|i: int| 0 <= i < t.len() && (#[trigger] t[i]).0@ == k;
                assert(s[i] == t[i]);
            } else {
                assert(s[s.len() - 1].0@ == k);
            }
        }
    }
}

proof fn lemma_entry_map_size(s: Seq<(String, LanguageConfig)>)
    requires
        distinct_keys(s),
    ensures
        entry_map(s).dom().finite(),
        entry_map(s).dom().len() == s.len(),
    decreases s.len(),
{
    if s.len() > 0 {
        let t = s.drop_last();
        assert forall|i: int, j: int| 0 <= i < j < t.len() implies (#[trigger] t[i]).0@ != (
        #[trigger] t[j]).0@ by {
            assert(t[i] == s[i] && t[j] == s[j]);
        }
        lemma_entry_map_size(t);
        lemma_entry_map_lookup(t);
        let k = s.last().0@;
        if entry_map(t).contains_key(k) {
            let i = choose|i: int| 0 <= i < t.len() && (#[trigger] t[i]).0@ == k;
            assert(s[i] == t[i]);
            assert(s[i].0@ != s[s.len() - 1].0@);
        }
        assert(entry_map(s).dom() =~= entry_map(t).dom().insert(k));
    }
}

proof fn lemma_entry_map_update(s: Seq<(String, LanguageConfig)>, i: int, e: (String, LanguageConfig))
    requires
        distinct_keys(s),
        0 <= i < s.len(),
        s[i].0@ == e.0@,
    ensures
        entry_map(s.update(i, e)) == entry_map(s).insert(e.0@, e.1@),
    decreases s.len(),
{
    let u = s.update(i, e);
    if i == s.len() - 1 {
        assert(u.drop_last() =~= s.drop_last());
        assert(entry_map(u) =~= entry_map(s).insert(e.0@, e.1@));
    } else {
        let t = s.drop_last();
        assert forall|a: int, b: int| 0 <= a < b < t.len() implies (#[trigger] t[a]).0@ != (
        #[trigger] t[b]).0@ by {
            assert(t[a] == s[a] && t[b] == s[b]);
        }
        assert(u.drop_last() =~= t.update(i, e));
        lemma_entry_map_update(t, i, e);
        assert(s.last().0@ != e.0@) by {
            assert(s[i].0@ != s[s.len() - 1].0@);
        }
        assert(entry_map(u) =~= entry_map(s).insert(e.0@, e.1@));
    }
}

/// The position of the entry with key `key`, if any.
fn find_key(entries: &Vec<(String, LanguageConfig)>, key: &String) -> (r: Option<usize>)
    ensures
        match r {
            Some(i) => i < entries@.len() && entries@[i as int].0@ == key@,
            None => forall|j: int| 0 <= j < entries@.len() ==> entries@[j].0@ != key@,
        },
{
    let mut i: usize = 0;
    while i < entries.len()
        invariant
            i <= entries.len(),
            forall|j: int| 0 <= j < i ==> entries@[j].0@ != key@,
        decreases entries.len() - i,
    {
        if entries[i].0.eq(key) {
            return Some(i);
        }
        i = i + 1;
    }
    None
}

/// All configured language versions, by `name:version` key.
pub struct LanguageRegistry {
    entries: Vec<(String, LanguageConfig)>,
}

impl View for LanguageRegistry {
    type V = Map<Seq<char>, LanguageConfigView>;

    closed spec fn view(&self) -> Map<Seq<char>, LanguageConfigView> {
        entry_map(self.entries@)
    }
}

impl LanguageRegistry {
    /// Each entry sits under its configuration's key, and no key occurs twice.
    #[verifier::type_invariant]
    closed spec fn well_keyed(self) -> bool {
        &&& distinct_keys(self.entries@)
        &&& forall|i: int| #![trigger self.entries@[i]] 0 <= i < self.entries@.len()
            ==> self.entries@[i].0@ == config_key(
            self.entries@[i].1.name@,
            self.entries@[i].1.version@,
        )
    }

    /// The empty registry.
    pub fn empty() -> (r: LanguageRegistry)
        ensures
            r@ == Map::<Seq<char>, LanguageConfigView>::empty(),
    {
        LanguageRegistry { entries: Vec::new() }
    }

    /// Registers `t` as the configuration of `name` in `version`, replacing
    /// any configuration registered under the same key.
    pub fn insert_config(&mut self, name: String, version: String, t: TomlConfig)
        ensures
            final(self)@ == old(self)@.insert(
                config_key(name@, version@),
                config_from(name@, version@, t@),
            ),
    {
        proof {
            use_type_invariant(&*self);
        }
        let mut key = name.clone();
        key.append(":");
        key.append(version.as_str());
        proof {
            reveal_strlit(":");
            assert(key@ =~= config_key(name@, version@));
        }
        let config = LanguageConfig {
            name,
            version,
            is_compiled: t.is_compiled,
            source_filename: t.source_filename,
            executable_filename: t.executable_filename,
            chroot_path: t.chroot_path,
            env_vars: t.env_vars,
            mount_paths: t.mount_paths,
            compile: t.compile,
            run: t.run,
            limits: t.limits,
        };
        let mut entries: Vec<(String, LanguageConfig)> = Vec::new();
        std::mem::swap(&mut entries, &mut self.entries);
        let ghost old_entries = entries@;
        let found = find_key(&entries, &key);
        proof {
            lemma_entry_map_lookup(old_entries);
        }
        if let Some(i) = found {
            let ghost e = (key, config);
            proof {
                lemma_entry_map_update(old_entries, i as int, e);
            }
            entries.set(i, (key, config));
            assert(entries@ == old_entries.update(i as int, e));
            proof {
                assert forall|a: int| 0 <= a < entries@.len() implies (#[trigger] entries@[a]).0@
                    == old_entries[a].0@ by {
                    if a == i {
                        assert(entries@[a] == e);
                    } else {
                        assert(entries@[a] == old_entries[a]);
                    }
                }
                assert forall|a: int, b: int| 0 <= a < b < entries@.len() implies (
                #[trigger] entries@[a]).0@ != (#[trigger] entries@[b]).0@ by {
                    assert(entries@[a].0@ == old_entries[a].0@);
                    assert(entries@[b].0@ == old_entries[b].0@);
                    assert(old_entries[a].0@ != old_entries[b].0@);
                }
            }
        } else {
            entries.push((key, config));
            assert(entries@.drop_last() =~= old_entries);
        }
        self.entries = entries;
    }

    /// The configuration registered under `key`, if any.
    pub fn get(&self, key: &str) -> (r: Option<LanguageConfig>)
        ensures
            match r {
                Some(c) => self@.contains_key(key@) && c@ == self@[key@] && key@ == config_key(
                    c@.name,
                    c@.version,
                ),
                None => !self@.contains_key(key@),
            },
    {
        proof {
            use_type_invariant(self);
            lemma_entry_map_lookup(self.entries@);
        }
        let k = key.to_owned();
        let mut i: usize = 0;
        while i < self.entries.len()
            invariant
                k@ == key@,
                i <= self.entries.len(),
                forall|j: int| 0 <= j < i ==> self.entries@[j].0@ != key@,
            decreases self.entries.len() - i,
        {
            if self.entries[i].0.eq(&k) {
                assert(self.entries@[i as int].0@ == key@);
                let c = self.entries[i].1.copy();
                assert(c@.name == self.entries@[i as int].1.name@);
                assert(c@.version == self.entries@[i as int].1.version@);
                proof {
                    use_type_invariant(self);
                    lemma_entry_map_lookup(self.entries@);
                }
                return Some(c);
            }
            i = i + 1;
        }
        None
    }

    /// Every registered configuration, once each, in no particular order: as
    /// many as there are keys.
    pub fn list_all(&self) -> (r: Vec<LanguageConfig>)
        ensures
            forall|i: int| #![trigger r@[i]] 0 <= i < r@.len() ==> self@.contains_key(
                config_key(r@[i]@.name, r@[i]@.version),
            ) && self@[config_key(r@[i]@.name, r@[i]@.version)] == r@[i]@,
            forall|k: Seq<char>| #[trigger] self@.contains_key(k) ==> exists|i: int|
                0 <= i < r@.len() && config_key((#[trigger] r@[i])@.name, r@[i]@.version) == k,
            forall|i: int, j: int| 0 <= i < j < r@.len() ==> config_key(
                (#[trigger] r@[i])@.name,
                r@[i]@.version,
            ) != config_key((#[trigger] r@[j])@.name, r@[j]@.version),
            r@.len() == self@.dom().len(),
    {
        proof {
            use_type_invariant(self);
            lemma_entry_map_lookup(self.entries@);
            lemma_entry_map_size(self.entries@);
        }
        let mut r: Vec<LanguageConfig> = Vec::new();
        let mut i: usize = 0;
        while i < self.entries.len()
            invariant
                i <= self.entries.len(),
                r@.len() == i,
                forall|j: int| 0 <= j < i ==> (#[trigger] r@[j])@ == self.entries@[j].1@,
            decreases self.entries.len() - i,
        {
            r.push(self.entries[i].1.copy());
            i = i + 1;
        }
        proof {
            assert forall|k: Seq<char>| #[trigger] self@.contains_key(k) implies exists|i: int|
                0 <= i < r@.len() && config_key((#[trigger] r@[i])@.name, r@[i]@.version) == k by {
                let j = choose|j: int| 0 <= j < self.entries@.len() && (
                #[trigger] self.entries@[j]).0@ == k;
                assert(r@[j]@ == self.entries@[j].1@);
            }
            assert forall|a: int, b: int| 0 <= a < b < r@.len() implies config_key(
                (#[trigger] r@[a])@.name,
                r@[a]@.version,
            ) != config_key((#[trigger] r@[b])@.name, r@[b]@.version) by {
                assert(r@[a]@ == self.entries@[a].1@);
                assert(r@[b]@ == self.entries@[b].1@);
                assert(self.entries@[a].0@ != self.entries@[b].0@);
            }
        }
        r
    }

    /// The language and version that a configuration file's path names:
    /// `.../<name>_language/v<version>.toml`, where Java 11 is `java11`.
    pub fn parse_path(path: &str) -> (r: Option<(String, String)>)
        ensures
            match r {
                Some((n, v)) => parse_path_spec(path@) == Some((n@, v@)),
                None => parse_path_spec(path@) is None,
            },
    {
        let p = chars_of(path);
        match parse_path_chars(&p) {
            Some((n, v)) => Some((string_from_chars(&n), string_from_chars(&v))),
            None => None,
        }
    }

    /// Checks that a configuration has what running its language needs.
    pub fn validate_config(config: &TomlConfig) -> (r: Result<(), ConfigError>)
        ensures
            r == validate_config_spec(config@),
    {
        validate_config_of(config)
    }

    /// The host paths that must exist for `config` to be usable, in the
    /// order they are checked: the absolute ones among the compiler (unless
    /// it is the `echo` placeholder), the run executable, the mount paths
    /// and the chroot directory.
    pub fn validate_paths(config: &TomlConfig) -> (r: Vec<String>)
        ensures
            views(r@) == host_paths(config@),
    {
        host_paths_of(config)
    }

    /// Builds the registry from the configuration files found at startup,
    /// in the order they were found, as [`load_spec`] describes.
    pub fn new(files: Vec<ConfigFile>) -> (r: Result<LanguageRegistry, LoadError>)
        ensures
            match r {
                Ok(reg) => load_spec(files@) == Ok::<_, LoadErrorView>(reg@),
                Err(e) => load_spec(files@) == Err::<Map<Seq<char>, LanguageConfigView>, _>(e@),
            },
    {
        let mut reg = LanguageRegistry::empty();
        let mut i: usize = 0;
        assert(files@.subrange(0, 0) =~= Seq::<ConfigFile>::empty());
        while i < files.len()
            invariant
                i <= files.len(),
                load_spec(files@.subrange(0, i as int)) == Ok::<_, LoadErrorView>(reg@),
            decreases files.len() - i,
        {
            let f = &files[i];
            proof {
                assert(files@.subrange(0, i + 1).drop_last() =~= files@.subrange(0, i as int));
            }
            let p = chars_of(f.path.as_str());
            match parse_path_chars(&p) {
                None => {},
                Some((n, v)) => {
                    match &f.content {
                        ConfigContent::Unreadable => {
                            proof {
                                lemma_load_error_sticks(files@, i as int + 1);
                            }
                            return Err(LoadError::Unreadable { path: f.path.clone() });
                        },
                        ConfigContent::Unparsable => {
                            proof {
                                lemma_load_error_sticks(files@, i as int + 1);
                            }
                            return Err(LoadError::Unparsable { path: f.path.clone() });
                        },
                        ConfigContent::Parsed(t) => {
                            if validate_config_of(t).is_ok() {
                                let hosts = host_paths_of(t);
                                match first_absent_of(&hosts, &f.absent_host_paths) {
                                    Some(missing) => {
                                        proof {
                                            lemma_load_error_sticks(files@, i as int + 1);
                                        }
                                        return Err(
                                            LoadError::MissingHostPath {
                                                config_path: f.path.clone(),
                                                missing,
                                            },
                                        );
                                    },
                                    None => {
                                        reg.insert_config(
                                            string_from_chars(&n),
                                            string_from_chars(&v),
                                            t.copy(),
                                        );
                                    },
                                }
                            }
                        },
                    }
                },
            }
            i = i + 1;
        }
        assert(files@.subrange(0, i as int) =~= files@);
        Ok(reg)
    }
}

/// Once loading has failed, later files do not change the outcome.
proof fn lemma_load_error_sticks(files: Seq<ConfigFile>, k: int)
    requires
        0 <= k <= files.len(),
        load_spec(files.subrange(0, k)) is Err,
    ensures
        load_spec(files) == load_spec(files.subrange(0, k)),
    decreases files.len() - k,
{
    if k < files.len() {
        assert(files.subrange(0, k + 1).drop_last() =~= files.subrange(0, k));
        lemma_load_error_sticks(files, k + 1);
    } else {
        assert(files.subrange(0, k) =~= files);
    }
}

} // verus!
