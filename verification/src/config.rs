//! Layered configuration: command line over environment over config
//! file over defaults, validated into an immutable `Config`.

use vstd::prelude::*;
use crate::conf_file::{entry_views, lookup, map_get};
use crate::errors::ConfigError;
use crate::size::{parse_size, size_of_text};
use crate::text::{has_prefix, split_char, split_on, starts_with_str, views_of};
use vstd::utf8::is_ascii_chars;

verus! {

/// Default maximum upload size in bytes.
pub const DEFAULT_MAX_FILE_SIZE: u64 = 4096;

/// Default base URL when no layer provides one.
pub open spec fn default_base_url_spec() -> Seq<char> {
    "http://localhost:8000"@
}

/// The optional values the command line provided.
pub struct CliArgs {
    /// Positional argument: a path, `-` for stdin, or absent for clipboard.
    pub file: Option<String>,
    pub base_url: Option<String>,
    pub api_key: Option<String>,
    pub config_path: Option<String>,
    pub max_file_size: Option<u64>,
}

/// The values found in the process environment, already read by the caller.
pub struct EnvConfig {
    pub base_url: Option<String>,
    pub api_key: Option<String>,
    pub max_file_size: Option<String>,
}

/// The validated configuration; constructed once, never mutated.
pub struct Config {
    pub base_url: String,
    pub api_key: String,
    pub max_file_size: u64,
}

/// The base URL names an HTTP or HTTPS endpoint.
pub open spec fn scheme_ok(url: Seq<char>) -> bool {
    has_prefix(url, "http://"@) || has_prefix(url, "https://"@)
}

impl Config {
    /// Validity: established at construction, preserved ever after.
    pub open spec fn wf(self) -> bool {
        &&& scheme_ok(self.base_url@)
        &&& self.api_key@.len() > 0
        &&& self.max_file_size > 0
    }
}

/// The view of an optional string layer value.
pub open spec fn opt_view(o: Option<String>) -> Option<Seq<char>> {
    match o {
        Some(s) => Some(s@),
        None => None,
    }
}

/// The view of the optional parsed config file.
pub open spec fn file_layer_view(file: Option<&Vec<(String, String)>>) -> Option<
    Seq<(Seq<char>, Seq<char>)>,
> {
    match file {
        Some(m) => Some(entry_views(m@)),
        None => None,
    }
}

/// A key's value in the file layer, if that layer and the key are present.
pub open spec fn file_get(file: Option<Seq<(Seq<char>, Seq<char>)>>, key: Seq<char>) -> Option<
    Seq<char>,
> {
    match file {
        Some(es) => map_get(es, key),
        None => None,
    }
}

/// The highest-present layer's value: CLI, else environment, else file,
/// else the default.
pub open spec fn pick_str(
    cli: Option<Seq<char>>,
    env: Option<Seq<char>>,
    file: Option<Seq<char>>,
    def: Seq<char>,
) -> Seq<char> {
    match cli {
        Some(v) => v,
        None => match env {
            Some(v) => v,
            None => match file {
                Some(v) => v,
                None => def,
            },
        },
    }
}

/// What one size layer's text yields: the parsed byte count when the
/// text is ASCII and parses to a positive value; the default otherwise.
/// Zero is invalid as a size, so a zero from a text layer falls back
/// to the default like any other unparseable value; non-ASCII text is
/// treated as unparseable without consulting the parser.
pub open spec fn size_layer_value(text: Seq<char>) -> u64 {
    if is_ascii_chars(text) {
        match size_of_text(text) {
            Some(v) => if v > 0 {
                v
            } else {
                DEFAULT_MAX_FILE_SIZE
            },
            None => DEFAULT_MAX_FILE_SIZE,
        }
    } else {
        DEFAULT_MAX_FILE_SIZE
    }
}

/// The resolved size: the CLI value; else what the environment string
/// yields; else what the file string yields; else the default.
pub open spec fn pick_size(
    cli: Option<u64>,
    env: Option<Seq<char>>,
    file: Option<Seq<char>>,
) -> u64 {
    match cli {
        Some(v) => v,
        None => match env {
            Some(e) => size_layer_value(e),
            None => match file {
                Some(f) => size_layer_value(f),
                None => DEFAULT_MAX_FILE_SIZE,
            },
        },
    }
}

/// Law: for a string field, the highest-present layer's value is the
/// resolved one — the CLI wins over everything, the environment over
/// file and default, the file over the default, and the default stands
/// only when every layer is absent.
pub proof fn lemma_layer_precedence(
    cli: Option<Seq<char>>,
    env: Option<Seq<char>>,
    file: Option<Seq<char>>,
    def: Seq<char>,
)
    ensures
        cli is Some ==> pick_str(cli, env, file, def) == cli->0,
        cli is None && env is Some ==> pick_str(cli, env, file, def) == env->0,
        cli is None && env is None && file is Some ==> pick_str(cli, env, file, def)
            == file->0,
        cli is None && env is None && file is None ==> pick_str(cli, env, file, def) == def,
{
}

/// Law: the size field obeys the same precedence, except that a present
/// but malformed, non-ASCII or zero environment or file value yields
/// the built-in default instead of falling through to a lower layer.
pub proof fn lemma_size_precedence(
    cli: Option<u64>,
    env: Option<Seq<char>>,
    file: Option<Seq<char>>,
)
    ensures
        cli is Some ==> pick_size(cli, env, file) == cli->0,
        cli is None && env is Some ==> pick_size(cli, env, file) == size_layer_value(env->0),
        cli is None && env is None && file is Some ==> pick_size(cli, env, file)
            == size_layer_value(file->0),
        cli is None && env is None && file is None ==> pick_size(cli, env, file)
            == DEFAULT_MAX_FILE_SIZE,
{
}

/// The base URL the layers resolve to.
pub open spec fn resolved_base_url(
    cli: &CliArgs,
    env: &EnvConfig,
    file: Option<Seq<(Seq<char>, Seq<char>)>>,
) -> Seq<char> {
    pick_str(
        opt_view(cli.base_url),
        opt_view(env.base_url),
        file_get(file, "base_url"@),
        default_base_url_spec(),
    )
}

/// The API key the layers resolve to (empty when absent everywhere).
pub open spec fn resolved_api_key(
    cli: &CliArgs,
    env: &EnvConfig,
    file: Option<Seq<(Seq<char>, Seq<char>)>>,
) -> Seq<char> {
    pick_str(
        opt_view(cli.api_key),
        opt_view(env.api_key),
        file_get(file, "api_key"@),
        Seq::empty(),
    )
}

/// The maximum file size the layers resolve to.
pub open spec fn resolved_max_file_size(
    cli: &CliArgs,
    env: &EnvConfig,
    file: Option<Seq<(Seq<char>, Seq<char>)>>,
) -> u64 {
    pick_size(
        cli.max_file_size,
        opt_view(env.max_file_size),
        file_get(file, "max_file_size"@),
    )
}

/// Picks the highest-present string layer.
fn pick_string_value(
    cli: &Option<String>,
    env: &Option<String>,
    file_val: Option<String>,
    def: &str,
) -> (r: String)
    ensures
        r@ == pick_str(opt_view(*cli), opt_view(*env), opt_view(file_val), def@),
{
    match cli {
        Some(v) => v.clone(),
        None => match env {
            Some(v) => v.clone(),
            None => match file_val {
                Some(v) => v,
                None => def.to_owned(),
            },
        },
    }
}

/// Parses one size layer's text, yielding the default for non-ASCII,
/// malformed or zero values. The ASCII test guards the parser, whose
/// contract admits only ASCII text.
fn size_layer(s: &str) -> (r: u64)
    ensures
        r == size_layer_value(s@),
{
    if s.is_ascii() {
        match parse_size(s) {
            Some(v) => if v > 0 {
                v
            } else {
                DEFAULT_MAX_FILE_SIZE
            },
            None => DEFAULT_MAX_FILE_SIZE,
        }
    } else {
        DEFAULT_MAX_FILE_SIZE
    }
}

/// Looks a key up in the optional file layer.
fn file_value(file: Option<&Vec<(String, String)>>, key: &str) -> (r: Option<String>)
    ensures
        opt_view(r) == file_get(file_layer_view(file), key@),
{
    match file {
        Some(m) => lookup(m, key),
        None => None,
    }
}

/// Merges the four layers per field and validates the result.
///
/// Precedence per field, highest first: CLI, environment, file, default.
/// Validation order: a missing (empty) API key, then a base URL without
/// an `http://` or `https://` prefix, then a zero maximum size; the
/// first failure is the error.
pub fn resolve(cli: &CliArgs, env: &EnvConfig, file: Option<&Vec<(String, String)>>) -> (r:
    Result<Config, ConfigError>)
    ensures
        ({
            let fl = file_layer_view(file);
            let bu = resolved_base_url(cli, env, fl);
            let key = resolved_api_key(cli, env, fl);
            let sz = resolved_max_file_size(cli, env, fl);
            &&& (r is Ok <==> key.len() > 0 && scheme_ok(bu) && sz != 0)
            &&& (r matches Ok(c) ==> c.base_url@ == bu && c.api_key@ == key
                && c.max_file_size == sz && c.wf())
            &&& (r matches Err(e) ==> match e {
                ConfigError::ApiKeyMissing => key.len() == 0,
                ConfigError::BadScheme(u) => u@ == bu && key.len() > 0 && !scheme_ok(bu),
                ConfigError::ZeroMaxFileSize => key.len() > 0 && scheme_ok(bu) && sz == 0,
                ConfigError::MalformedLine(_) => false,
            })
        }),
{
    let base_url = pick_string_value(
        &cli.base_url,
        &env.base_url,
        file_value(file, "base_url"),
        "http://localhost:8000",
    );
    let api_key = pick_string_value(&cli.api_key, &env.api_key, file_value(file, "api_key"), "");
    proof {
        reveal_strlit("");
        assert(""@ =~= Seq::<char>::empty());
    }
    if api_key.as_str().is_empty() {
        return Err(ConfigError::ApiKeyMissing);
    }
    if !starts_with_str(base_url.as_str(), "http://") && !starts_with_str(
        base_url.as_str(),
        "https://",
    ) {
        return Err(ConfigError::BadScheme(base_url));
    }
    let max_file_size: u64 = match &cli.max_file_size {
        Some(v) => *v,
        None => match &env.max_file_size {
            Some(s) => size_layer(s.as_str()),
            None => match file_value(file, "max_file_size") {
                Some(s) => size_layer(s.as_str()),
                None => DEFAULT_MAX_FILE_SIZE,
            },
        },
    };
    if max_file_size == 0 {
        return Err(ConfigError::ZeroMaxFileSize);
    }
    Ok(Config { base_url, api_key, max_file_size })
}

/// The explicitly named config path: the CLI flag, else the environment
/// variable, else none (which triggers discovery).
pub fn choose_config_path(cli_path: &Option<String>, env_path: &Option<String>) -> (r: Option<
    String,
>)
    ensures
        opt_view(r) == pick_opt(opt_view(*cli_path), opt_view(*env_path)),
{
    match cli_path {
        Some(p) => Some(p.clone()),
        None => match env_path {
            Some(p) => Some(p.clone()),
            None => None,
        },
    }
}

/// The first of two optional values.
pub open spec fn pick_opt(a: Option<Seq<char>>, b: Option<Seq<char>>) -> Option<Seq<char>> {
    match a {
        Some(v) => Some(v),
        None => b,
    }
}

/// The per-user config directory: `$XDG_CONFIG_HOME`, falling back to
/// `$HOME/.config`.
pub open spec fn xdg_base(home: Option<Seq<char>>, xdg_config_home: Option<Seq<char>>) -> Option<
    Seq<char>,
> {
    match xdg_config_home {
        Some(x) => Some(x),
        None => match home {
            Some(h) => Some(h + "/.config"@),
            None => None,
        },
    }
}

/// One candidate per non-empty directory, in order.
pub open spec fn dir_candidates(dirs: Seq<Seq<char>>) -> Seq<Seq<char>>
    decreases dirs.len(),
{
    if dirs.len() == 0 {
        Seq::empty()
    } else {
        let rest = dir_candidates(dirs.drop_last());
        if dirs.last().len() == 0 {
            rest
        } else {
            rest.push(dirs.last() + "/bpaste/bpaste.conf"@)
        }
    }
}

/// Every path where a config file may sit, highest priority first:
/// the per-user directory, then each directory of `$XDG_CONFIG_DIRS`
/// (default `/etc/xdg`), each with `/bpaste/bpaste.conf` appended.
pub open spec fn candidates_spec(
    home: Option<Seq<char>>,
    xdg_config_home: Option<Seq<char>>,
    xdg_config_dirs: Option<Seq<char>>,
) -> Seq<Seq<char>> {
    let first = match xdg_base(home, xdg_config_home) {
        Some(b) => seq![b + "/bpaste/bpaste.conf"@],
        None => Seq::empty(),
    };
    let dirs = match xdg_config_dirs {
        Some(d) => d,
        None => "/etc/xdg"@,
    };
    first + dir_candidates(split_char(dirs, ':'))
}

/// Builds the discovery candidate list; the caller checks which of
/// them exists, in order, and stops at the first.
pub fn config_candidates(
    home: &Option<String>,
    xdg_config_home: &Option<String>,
    xdg_config_dirs: &Option<String>,
) -> (v: Vec<String>)
    ensures
        views_of(v@) == candidates_spec(
            opt_view(*home),
            opt_view(*xdg_config_home),
            opt_view(*xdg_config_dirs),
        ),
{
    let ghost gspec = candidates_spec(
        opt_view(*home),
        opt_view(*xdg_config_home),
        opt_view(*xdg_config_dirs),
    );
    let mut v: Vec<String> = Vec::new();
    match xdg_config_home {
        Some(x) => {
            let c = x.clone().concat("/bpaste/bpaste.conf");
            v.push(c);
        },
        None => match home {
            Some(h) => {
                let mut b = h.clone();
                b.append("/.config");
                let c = b.concat("/bpaste/bpaste.conf");
                v.push(c);
            },
            None => {},
        },
    }
    let ghost head = views_of(v@);
    let dirs: &str = match xdg_config_dirs {
        Some(d) => d.as_str(),
        None => "/etc/xdg",
    };
    let parts = split_on(dirs, ':');
    let ghost gp = views_of(parts@);
    let mut i: usize = 0;
    proof {
        match xdg_base(opt_view(*home), opt_view(*xdg_config_home)) {
            Some(b) => {
                assert(head =~= seq![b + "/bpaste/bpaste.conf"@]);
            },
            None => {
                assert(head =~= Seq::<Seq<char>>::empty());
            },
        }
        assert(head + dir_candidates(gp) == gspec);
        assert(gp.take(0) =~= Seq::<Seq<char>>::empty());
        assert(head + dir_candidates(gp.take(0)) =~= head);
    }
    while i < parts.len()
        invariant
            gp == views_of(parts@),
            head + dir_candidates(gp) == gspec,
            0 <= i <= parts.len(),
            gp.len() == parts.len(),
            views_of(v@) == head + dir_candidates(gp.take(i as int)),
        decreases parts.len() - i,
    {
        proof {
            assert(gp.take(i + 1).drop_last() =~= gp.take(i as int));
            assert(gp.take(i + 1).last() == gp[i as int]);
            assert(gp[i as int] == parts@[i as int]@);
        }
        if !parts[i].as_str().is_empty() {
            let c = parts[i].clone().concat("/bpaste/bpaste.conf");
            let ghost old_views = views_of(v@);
            v.push(c);
            proof {
                assert(c@ == gp[i as int] + "/bpaste/bpaste.conf"@);
                assert(old_views == head + dir_candidates(gp.take(i as int)));
                assert(views_of(v@) =~= old_views.push(c@));
                assert(views_of(v@) =~= head + dir_candidates(gp.take(i as int)).push(
                    gp[i as int] + "/bpaste/bpaste.conf"@,
                ));
                assert(views_of(v@) =~= head + dir_candidates(gp.take(i + 1)));
            }
        } else {
            proof {
                assert(dir_candidates(gp.take(i + 1)) == dir_candidates(gp.take(i as int)));
            }
        }
        i = i + 1;
    }
    proof {
        assert(gp.take(parts.len() as int) =~= gp);
    }
    v
}

} // verus!
