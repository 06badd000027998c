use vstd::prelude::*;
use crate::strings::{
    chars_eq, chars_of, contains, contains_lit, ends_with, ends_with_lit, lower, lower_chars, owned,
    owned_list, slashes, slashes_exec, split, split_chars, string_of, strs, trim, trim_chars,
    lemma_strs_push,
};
use crate::globs::{glob_accepted, glob_compiles, globset_build_ok, globset_builds, globset_hit, globset_is_match};
use crate::ignore::accepted_globs;

verus! {

/// How strict the checks are.
#[derive(Clone, Copy, Debug, PartialEq, Eq, Structural)]
pub enum Sensitivity {
    Low,
    Medium,
    High,
}

/// Where the hooks run.
#[derive(Clone, Copy, Debug, PartialEq, Eq, Structural)]
pub enum Environment {
    Production,
    Test,
}

/// The settings of the checks: strictness, the paths to leave alone (the
/// glob patterns of the set, when there is one), the environment, and the
/// name fragments that mark test data.
#[derive(Clone, Debug)]
pub struct Config {
    pub sensitivity: Sensitivity,
    pub ignore_globs: Option<Vec<String>>,
    pub env: Environment,
    pub allowlist_vars: Vec<String>,
}

/// A configuration seen as values.
pub struct ConfigModel {
    pub sensitivity: Sensitivity,
    pub ignore_globs: Option<Seq<Seq<char>>>,
    pub env: Environment,
    pub allowlist_vars: Seq<Seq<char>>,
}

pub open spec fn config_model(c: Config) -> ConfigModel {
    ConfigModel {
        sensitivity: c.sensitivity,
        ignore_globs: match c.ignore_globs {
            Some(v) => Some(strs(v@)),
            None => None,
        },
        env: c.env,
        allowlist_vars: strs(c.allowlist_vars@),
    }
}

/// The name fragments that mark test data by default.
pub open spec fn default_allowlist() -> Seq<Seq<char>> {
    seq!["default_"@, "example_"@, "sample_"@, "mock_"@, "test_"@, "dummy_"@]
}

/// Medium strictness, nothing ignored, production, the default fragments.
pub open spec fn default_model() -> ConfigModel {
    ConfigModel {
        sensitivity: Sensitivity::Medium,
        ignore_globs: None,
        env: Environment::Production,
        allowlist_vars: default_allowlist(),
    }
}

impl Default for Config {
    fn default() -> (r: Config)
        ensures
            config_model(r) == default_model(),
    {
        let items: [&str; 6] = ["default_", "example_", "sample_", "mock_", "test_", "dummy_"];
        assert(items@.map_values(|x: &str| x@) =~= default_allowlist());
        Config {
            sensitivity: Sensitivity::Medium,
            ignore_globs: None,
            env: Environment::Production,
            allowlist_vars: owned_list(&items),
        }
    }
}

// ---------------------------------------------------------------------------
// Reading settings
// ---------------------------------------------------------------------------

/// A strictness by name, in any ASCII case: `low`, `high`, else medium.
pub open spec fn sensitivity_named(v: Seq<char>) -> Sensitivity {
    if lower(v) == "low"@ {
        Sensitivity::Low
    } else if lower(v) == "high"@ {
        Sensitivity::High
    } else {
        Sensitivity::Medium
    }
}

/// An environment by name, in any ASCII case: `test`, else production.
pub open spec fn environment_named(v: Seq<char>) -> Environment {
    if lower(v) == "test"@ {
        Environment::Test
    } else {
        Environment::Production
    }
}

/// The trimmed, non-empty pieces of a text split at commas, in order.
pub open spec fn nonempty_trimmed(pieces: Seq<Seq<char>>) -> Seq<Seq<char>>
    decreases pieces.len(),
{
    if pieces.len() == 0 {
        Seq::empty()
    } else if trim(pieces.last()).len() > 0 {
        nonempty_trimmed(pieces.drop_last()).push(trim(pieces.last()))
    } else {
        nonempty_trimmed(pieces.drop_last())
    }
}

pub open spec fn comma_list(v: Seq<char>) -> Seq<Seq<char>> {
    nonempty_trimmed(split(v, ','))
}

/// The glob set of some patterns: the accepted ones, when the set builds.
pub open spec fn glob_set_of(patterns: Seq<Seq<char>>) -> Option<Seq<Seq<char>>> {
    if globset_builds(accepted_globs(patterns)) {
        Some(accepted_globs(patterns))
    } else {
        None
    }
}

/// The settings given by environment variables (each one that is set).
pub open spec fn with_env_values(
    c: ConfigModel,
    sensitivity: Option<Seq<char>>,
    environment: Option<Seq<char>>,
    allowlist: Option<Seq<char>>,
    ignore_globs: Option<Seq<char>>,
) -> ConfigModel {
    let c1 = match sensitivity {
        Some(v) => ConfigModel { sensitivity: sensitivity_named(v), ..c },
        None => c,
    };
    let c2 = match environment {
        Some(v) => ConfigModel { env: environment_named(v), ..c1 },
        None => c1,
    };
    let c3 = match allowlist {
        Some(v) => if comma_list(v).len() > 0 {
            ConfigModel { allowlist_vars: comma_list(v), ..c2 }
        } else {
            c2
        },
        None => c2,
    };
    match ignore_globs {
        Some(v) => match glob_set_of(comma_list(v)) {
            Some(set) => ConfigModel { ignore_globs: Some(set), ..c3 },
            None => c3,
        },
        None => c3,
    }
}

/// The fields of a JSON settings file that the configuration reads: the
/// strings under `sensitivity` and `environment`, and the items of the
/// arrays under `allowlist_vars` and `ignore_globs` (each a string or not).
pub struct FileSettings {
    pub sensitivity: Option<String>,
    pub environment: Option<String>,
    pub allowlist_vars: Option<Vec<Option<String>>>,
    pub ignore_globs: Option<Vec<Option<String>>>,
}

/// The texts of optional strings.
pub open spec fn opt_strs(v: Seq<Option<String>>) -> Seq<Option<Seq<char>>> {
    v.map_values(|o: Option<String>| match o {
        Some(s) => Some(s@),
        None => None,
    })
}

pub open spec fn opt_text(o: Option<String>) -> Option<Seq<char>> {
    match o {
        Some(s) => Some(s@),
        None => None,
    }
}

pub open spec fn opt_list(o: Option<Vec<Option<String>>>) -> Option<Seq<Option<Seq<char>>>> {
    match o {
        Some(v) => Some(opt_strs(v@)),
        None => None,
    }
}

/// The file's fields as values.
pub open spec fn file_model(f: FileSettings) -> (
    Option<Seq<char>>,
    Option<Seq<char>>,
    Option<Seq<Option<Seq<char>>>>,
    Option<Seq<Option<Seq<char>>>>,
) {
    (opt_text(f.sensitivity), opt_text(f.environment), opt_list(f.allowlist_vars), opt_list(f.ignore_globs))
}

/// What `serde_json` reads from a settings file: `None` when the text is
/// not JSON, else the fields as `file_model` shows them.
pub uninterp spec fn json_settings(text: Seq<char>) -> Option<
    (
        Option<Seq<char>>,
        Option<Seq<char>>,
        Option<Seq<Option<Seq<char>>>>,
        Option<Seq<Option<Seq<char>>>>,
    ),
>;

/// Parses the settings file with `serde_json::from_str` into a
/// `serde_json::Value` and reads its fields with `Value::get`,
/// `Value::as_str` and `Value::as_array`. What the parse gives is named,
/// not spelled out.
#[verifier::external_body]
pub fn read_settings_json(text: &str) -> (r: Option<FileSettings>)
    ensures
        match r {
            Some(f) => json_settings(text@) == Some(file_model(f)),
            None => json_settings(text@) is None,
        },
{
    let json = serde_json::from_str::<serde_json::Value>(text).ok()?;
    let field = |k: &str| json.get(k).and_then(|v| v.as_str()).map(|s| s.to_string());
    let list = |k: &str| {
        json.get(k).and_then(|v| v.as_array()).map(|a| a.iter().map(|it| it.as_str().map(|s| s.to_string())).collect())
    };
    Some(FileSettings {
        sensitivity: field("sensitivity"),
        environment: field("environment"),
        allowlist_vars: list("allowlist_vars"),
        ignore_globs: list("ignore_globs"),
    })
}

/// The strings among some items, in order.
pub open spec fn present(items: Seq<Option<Seq<char>>>) -> Seq<Seq<char>>
    decreases items.len(),
{
    if items.len() == 0 {
        Seq::empty()
    } else {
        match items.last() {
            Some(s) => present(items.drop_last()).push(s),
            None => present(items.drop_last()),
        }
    }
}

/// The settings given by a settings file, when it was JSON.
pub open spec fn with_file_values(
    c: ConfigModel,
    f: Option<(Option<Seq<char>>, Option<Seq<char>>, Option<Seq<Option<Seq<char>>>>, Option<Seq<Option<Seq<char>>>>)>,
) -> ConfigModel {
    match f {
        None => c,
        Some((sensitivity, environment, allowlist, globs)) => {
            let c1 = match sensitivity {
                Some(v) => ConfigModel { sensitivity: sensitivity_named(v), ..c },
                None => c,
            };
            let c2 = match environment {
                Some(v) => ConfigModel { env: environment_named(v), ..c1 },
                None => c1,
            };
            let c3 = match allowlist {
                Some(items) => if present(items).len() > 0 {
                    ConfigModel { allowlist_vars: present(items), ..c2 }
                } else {
                    c2
                },
                None => c2,
            };
            match globs {
                Some(items) => match glob_set_of(present(items)) {
                    Some(set) => ConfigModel { ignore_globs: Some(set), ..c3 },
                    None => c3,
                },
                None => c3,
            }
        },
    }
}

pub open spec fn opt_str_text(o: Option<&str>) -> Option<Seq<char>> {
    match o {
        Some(s) => Some(s@),
        None => None,
    }
}

/// A strictness by name.
pub fn parse_sensitivity(v: &str) -> (r: Sensitivity)
    ensures
        r == sensitivity_named(v@),
{
    let l = lower_chars(chars_of(v).as_slice());
    if chars_eq(l.as_slice(), chars_of("low").as_slice()) {
        Sensitivity::Low
    } else if chars_eq(l.as_slice(), chars_of("high").as_slice()) {
        Sensitivity::High
    } else {
        Sensitivity::Medium
    }
}

/// An environment by name.
pub fn parse_environment(v: &str) -> (r: Environment)
    ensures
        r == environment_named(v@),
{
    let l = lower_chars(chars_of(v).as_slice());
    if chars_eq(l.as_slice(), chars_of("test").as_slice()) {
        Environment::Test
    } else {
        Environment::Production
    }
}

/// The trimmed, non-empty items of a comma-separated list.
pub fn parse_comma_list(v: &str) -> (r: Vec<String>)
    ensures
        strs(r@) == comma_list(v@),
{
    let pieces = split_chars(chars_of(v).as_slice(), ',');
    let ghost pv = split(v@, ',');
    let mut out: Vec<String> = Vec::new();
    let mut i: usize = 0;
    while i < pieces.len()
        invariant
            i <= pieces@.len(),
            pv == split(v@, ','),
            pieces@.len() == pv.len(),
            forall|j: int| 0 <= j < pieces@.len() ==> (#[trigger] pieces@[j])@ == pv[j],
            strs(out@) == nonempty_trimmed(pv.take(i as int)),
        decreases pieces@.len() - i,
    {
        assert(pv.take(i + 1).drop_last() == pv.take(i as int));
        assert(pv.take(i + 1).last() == pv[i as int]);
        let t = trim_chars(pieces[i].as_slice());
        if t.len() > 0 {
            let ghost before = out@;
            let s = string_of(t.as_slice());
            out.push(s);
            proof {
                lemma_strs_push(before, s);
            }
        }
        i = i + 1;
    }
    assert(pv.take(pieces@.len() as int) == pv);
    out
}

/// The glob set of some patterns, when it builds.
pub fn glob_set(patterns: &Vec<String>) -> (r: Option<Vec<String>>)
    ensures
        match r {
            Some(v) => glob_set_of(strs(patterns@)) == Some(strs(v@)),
            None => glob_set_of(strs(patterns@)) is None,
        },
{
    let ghost ps = strs(patterns@);
    let mut acc: Vec<String> = Vec::new();
    let mut i: usize = 0;
    while i < patterns.len()
        invariant
            i <= patterns@.len(),
            ps == strs(patterns@),
            strs(acc@) == accepted_globs(ps.take(i as int)),
        decreases patterns@.len() - i,
    {
        assert(ps.take(i + 1).drop_last() == ps.take(i as int));
        assert(ps.take(i + 1).last() == patterns@[i as int]@);
        if glob_compiles(patterns[i].as_str()) {
            let ghost before = acc@;
            let s = owned(patterns[i].as_str());
            acc.push(s);
            proof {
                lemma_strs_push(before, s);
            }
        }
        i = i + 1;
    }
    assert(ps.take(patterns@.len() as int) == ps);
    proof {
        crate::strings::lemma_deep_view_strs(acc);
    }
    assert(acc.deep_view() == strs(acc@));
    if globset_build_ok(&acc) {
        Some(acc)
    } else {
        None
    }
}

/// The strings among some items, in order.
pub fn present_items(items: &Vec<Option<String>>) -> (r: Vec<String>)
    ensures
        strs(r@) == present(opt_strs(items@)),
{
    let ghost iv = opt_strs(items@);
    let mut out: Vec<String> = Vec::new();
    let mut i: usize = 0;
    while i < items.len()
        invariant
            i <= items@.len(),
            iv == opt_strs(items@),
            strs(out@) == present(iv.take(i as int)),
        decreases items@.len() - i,
    {
        assert(iv.take(i + 1).drop_last() == iv.take(i as int));
        assert(iv.take(i + 1).last() == iv[i as int]);
        match &items[i] {
            Some(s) => {
                let ghost before = out@;
                let o = owned(s.as_str());
                out.push(o);
                proof {
                    lemma_strs_push(before, o);
                }
            },
            None => {},
        }
        i = i + 1;
    }
    assert(iv.take(items@.len() as int) == iv);
    out
}

/// The configuration: the defaults, then what the environment variables
/// `SENSITIVITY`, `AST_ENV`, `AST_ALLOWLIST_VARS` and `AST_IGNORE_GLOBS`
/// set (their values are given here, `None` for one that is not set), then
/// what the settings file sets (its text is given here, `None` when it
/// could not be read). A list replaces the default only when it has an
/// item; a glob list sets the ignored paths when its set builds.
pub fn load_config(
    sensitivity: Option<&str>,
    environment: Option<&str>,
    allowlist: Option<&str>,
    ignore_globs: Option<&str>,
    settings_file: Option<&str>,
) -> (r: Config)
    ensures
        config_model(r) == with_file_values(
            with_env_values(
                default_model(),
                opt_str_text(sensitivity),
                opt_str_text(environment),
                opt_str_text(allowlist),
                opt_str_text(ignore_globs),
            ),
            match settings_file {
                Some(t) => json_settings(t@),
                None => None,
            },
        ),
{
    let mut cfg = Config::default();
    match sensitivity {
        Some(v) => {
            cfg.sensitivity = parse_sensitivity(v);
        },
        None => {},
    }
    match environment {
        Some(v) => {
            cfg.env = parse_environment(v);
        },
        None => {},
    }
    match allowlist {
        Some(v) => {
            let list = parse_comma_list(v);
            if list.len() > 0 {
                cfg.allowlist_vars = list;
            }
        },
        None => {},
    }
    match ignore_globs {
        Some(v) => {
            let list = parse_comma_list(v);
            match glob_set(&list) {
                Some(set) => {
                    cfg.ignore_globs = Some(set);
                },
                None => {},
            }
        },
        None => {},
    }
    let ghost after_env = config_model(cfg);
    match settings_file {
        Some(text) => {
            match read_settings_json(text) {
                Some(f) => {
                    match &f.sensitivity {
                        Some(v) => {
                            cfg.sensitivity = parse_sensitivity(v.as_str());
                        },
                        None => {},
                    }
                    match &f.environment {
                        Some(v) => {
                            cfg.env = parse_environment(v.as_str());
                        },
                        None => {},
                    }
                    match &f.allowlist_vars {
                        Some(items) => {
                            let vars = present_items(items);
                            if vars.len() > 0 {
                                cfg.allowlist_vars = vars;
                            }
                        },
                        None => {},
                    }
                    match &f.ignore_globs {
                        Some(items) => {
                            let pats = present_items(items);
                            match glob_set(&pats) {
                                Some(set) => {
                                    cfg.ignore_globs = Some(set);
                                },
                                None => {},
                            }
                        },
                        None => {},
                    }
                },
                None => {},
            }
        },
        None => {},
    }
    cfg
}

// ---------------------------------------------------------------------------
// Questions about paths and code
// ---------------------------------------------------------------------------

/// A non-empty path that the ignore set (when there is one) matches.
pub fn should_ignore_path(cfg: &Config, path: &str) -> (r: bool)
    ensures
        r == (path@.len() > 0 && match config_model(*cfg).ignore_globs {
            Some(set) => globset_hit(set, path@),
            None => false,
        }),
{
    let pc = chars_of(path);
    if pc.len() == 0 {
        return false;
    }
    match &cfg.ignore_globs {
        Some(set) => {
            proof {
                crate::strings::lemma_deep_view_strs(*set);
            }
            globset_is_match(set, path)
        },
        None => false,
    }
}

/// Path marks of test code, looked for in the lower-cased path with `/`
/// separators.
pub open spec fn test_path(path: Seq<char>) -> bool {
    let l = lower(slashes(path));
    ||| contains(l, "/test/"@)
    ||| contains(l, "/tests/"@)
    ||| contains(l, "__tests__"@)
    ||| contains(l, "/spec/"@)
    ||| ends_with(l, "_test.rs"@)
    ||| ends_with(l, ".spec.ts"@)
}

/// Test code: the test environment, or a path that marks test code.
pub fn is_test_context(cfg: &Config, path: &str) -> (r: bool)
    ensures
        r == (cfg.env == Environment::Test || test_path(path@)),
{
    if cfg.env == Environment::Test {
        return true;
    }
    let l = lower_chars(slashes_exec(chars_of(path).as_slice()).as_slice());
    contains_lit(l.as_slice(), "/test/") || contains_lit(l.as_slice(), "/tests/") || contains_lit(
        l.as_slice(),
        "__tests__",
    ) || contains_lit(l.as_slice(), "/spec/") || ends_with_lit(l.as_slice(), "_test.rs")
        || ends_with_lit(l.as_slice(), ".spec.ts")
}

/// The lower-cased code holds one of the allow-listed fragments.
pub fn code_contains_allowlisted_vars(cfg: &Config, code: &str) -> (r: bool)
    ensures
        r == exists|k: int|
            0 <= k < cfg.allowlist_vars@.len() && contains(lower(code@), #[trigger] cfg.allowlist_vars@[k]@),
{
    let low = lower_chars(chars_of(code).as_slice());
    let mut k: usize = 0;
    while k < cfg.allowlist_vars.len()
        invariant
            k <= cfg.allowlist_vars@.len(),
            low@ == lower(code@),
            forall|j: int| 0 <= j < k ==> !contains(lower(code@), #[trigger] cfg.allowlist_vars@[j]@),
        decreases cfg.allowlist_vars@.len() - k,
    {
        if contains_lit(low.as_slice(), cfg.allowlist_vars[k].as_str()) {
            return true;
        }
        k = k + 1;
    }
    false
}

} // verus!
