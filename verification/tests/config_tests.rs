use bpaste::conf_file::parse_config_text;
use bpaste::config::{choose_config_path, config_candidates, resolve, CliArgs, EnvConfig};
use bpaste::errors::ConfigError;

fn cli_none() -> CliArgs {
    CliArgs { file: None, base_url: None, api_key: None, config_path: None, max_file_size: None }
}

fn env_none() -> EnvConfig {
    EnvConfig { base_url: None, api_key: None, max_file_size: None }
}

fn entries(pairs: &[(&str, &str)]) -> Vec<(String, String)> {
    pairs.iter().map(|(k, v)| (k.to_string(), v.to_string())).collect()
}

#[test]
fn api_key_missing_when_all_layers_absent() {
    let r = resolve(&cli_none(), &env_none(), None);
    assert!(matches!(r, Err(ConfigError::ApiKeyMissing)));
}

#[test]
fn defaults_apply_when_only_key_given() {
    let mut cli = cli_none();
    cli.api_key = Some("k".to_string());
    let c = resolve(&cli, &env_none(), None).unwrap();
    assert_eq!(c.base_url, "http://localhost:8000");
    assert_eq!(c.api_key, "k");
    assert_eq!(c.max_file_size, 4096);
}

#[test]
fn file_layer_applies_when_alone() {
    let m = entries(&[("base_url", "https://f.example"), ("api_key", "fk"), ("max_file_size", "1K")]);
    let c = resolve(&cli_none(), &env_none(), Some(&m)).unwrap();
    assert_eq!(c.base_url, "https://f.example");
    assert_eq!(c.api_key, "fk");
    assert_eq!(c.max_file_size, 1024);
}

#[test]
fn env_layer_overrides_file() {
    let m = entries(&[("base_url", "https://f.example"), ("api_key", "fk"), ("max_file_size", "1K")]);
    let env = EnvConfig {
        base_url: Some("https://e.example".to_string()),
        api_key: Some("ek".to_string()),
        max_file_size: Some("2K".to_string()),
    };
    let c = resolve(&cli_none(), &env, Some(&m)).unwrap();
    assert_eq!(c.base_url, "https://e.example");
    assert_eq!(c.api_key, "ek");
    assert_eq!(c.max_file_size, 2048);
}

#[test]
fn cli_layer_overrides_env_and_file() {
    let m = entries(&[("base_url", "https://f.example"), ("api_key", "fk"), ("max_file_size", "1K")]);
    let env = EnvConfig {
        base_url: Some("https://e.example".to_string()),
        api_key: Some("ek".to_string()),
        max_file_size: Some("2K".to_string()),
    };
    let mut cli = cli_none();
    cli.base_url = Some("https://c.example".to_string());
    cli.api_key = Some("ck".to_string());
    cli.max_file_size = Some(3000);
    let c = resolve(&cli, &env, Some(&m)).unwrap();
    assert_eq!(c.base_url, "https://c.example");
    assert_eq!(c.api_key, "ck");
    assert_eq!(c.max_file_size, 3000);
}

#[test]
fn size_suffix_ten_megabytes() {
    let mut cli = cli_none();
    cli.api_key = Some("k".to_string());
    let mut env = env_none();
    env.max_file_size = Some("10M".to_string());
    let c = resolve(&cli, &env, None).unwrap();
    assert_eq!(c.max_file_size, 10 * 1024 * 1024);
    env.max_file_size = Some("512K".to_string());
    assert_eq!(resolve(&cli, &env, None).unwrap().max_file_size, 512 * 1024);
    env.max_file_size = Some("1G".to_string());
    assert_eq!(resolve(&cli, &env, None).unwrap().max_file_size, 1024 * 1024 * 1024);
}

#[test]
fn zero_size_text_is_invalid_and_falls_back_to_default() {
    let mut cli = cli_none();
    cli.api_key = Some("k".to_string());
    let mut env = env_none();
    env.max_file_size = Some("0".to_string());
    assert_eq!(resolve(&cli, &env, None).unwrap().max_file_size, 4096);
    env.max_file_size = Some("0K".to_string());
    assert_eq!(resolve(&cli, &env, None).unwrap().max_file_size, 4096);
    let m = entries(&[("max_file_size", "0M")]);
    assert_eq!(resolve(&cli, &env_none(), Some(&m)).unwrap().max_file_size, 4096);
}

#[test]
fn explicit_zero_size_from_cli_is_rejected() {
    let mut cli = cli_none();
    cli.api_key = Some("k".to_string());
    cli.max_file_size = Some(0);
    assert!(matches!(resolve(&cli, &env_none(), None), Err(ConfigError::ZeroMaxFileSize)));
}

#[test]
fn non_ascii_size_text_falls_back_to_default() {
    let mut cli = cli_none();
    cli.api_key = Some("k".to_string());
    let mut env = env_none();
    env.max_file_size = Some("\u{663}".to_string());
    assert_eq!(resolve(&cli, &env, None).unwrap().max_file_size, 4096);
}

#[test]
fn malformed_size_falls_back_to_default() {
    let mut cli = cli_none();
    cli.api_key = Some("k".to_string());
    let mut env = env_none();
    env.max_file_size = Some("not-a-size".to_string());
    // A malformed higher layer yields the built-in default, even though
    // the file layer holds a well-formed value.
    let m = entries(&[("max_file_size", "1K")]);
    let c = resolve(&cli, &env, Some(&m)).unwrap();
    assert_eq!(c.max_file_size, 4096);
}

#[test]
fn base_url_without_scheme_rejected() {
    let mut cli = cli_none();
    cli.api_key = Some("k".to_string());
    cli.base_url = Some("localhost:8000".to_string());
    match resolve(&cli, &env_none(), None) {
        Err(ConfigError::BadScheme(u)) => assert_eq!(u, "localhost:8000"),
        _ => panic!("expected BadScheme"),
    }
}

#[test]
fn missing_key_reported_before_bad_scheme() {
    let mut cli = cli_none();
    cli.base_url = Some("localhost:8000".to_string());
    assert!(matches!(resolve(&cli, &env_none(), None), Err(ConfigError::ApiKeyMissing)));
}

#[test]
fn config_text_parses_comments_blanks_and_pairs() {
    let text = "# comment\n\n  base_url = https://x  \napi_key=k\n";
    let m = parse_config_text(text).unwrap();
    assert_eq!(m, entries(&[("base_url", "https://x"), ("api_key", "k")]));
}

#[test]
fn unicode_whitespace_is_trimmed_like_ascii() {
    let m = parse_config_text("\u{a0}api_key =\u{a0}k\u{2009}\n").unwrap();
    assert_eq!(m, entries(&[("api_key", "k")]));
}

#[test]
fn config_value_keeps_everything_after_first_equals() {
    let m = parse_config_text("key\t=\ta=b\n").unwrap();
    assert_eq!(m, entries(&[("key", "a=b")]));
}

#[test]
fn config_text_accepts_crlf_line_endings() {
    let m = parse_config_text("api_key = k\r\n# c\r\n").unwrap();
    assert_eq!(m, entries(&[("api_key", "k")]));
    assert!(matches!(
        parse_config_text("api_key = k\r\nbad\r\n"),
        Err(ConfigError::MalformedLine(2))
    ));
}

#[test]
fn config_line_without_equals_fails_with_line_number() {
    let text = "base_url = https://x\nnonsense\napi_key=k\n";
    assert!(matches!(parse_config_text(text), Err(ConfigError::MalformedLine(2))));
}

#[test]
fn discarded_file_falls_through_to_default() {
    // The caller drops the whole mapping on a parse error and resolves
    // with no file layer: nothing of the file may apply partially.
    let text = "base_url = https://x\nnonsense\n";
    assert!(parse_config_text(text).is_err());
    let mut cli = cli_none();
    cli.api_key = Some("k".to_string());
    let c = resolve(&cli, &env_none(), None).unwrap();
    assert_eq!(c.base_url, "http://localhost:8000");
}

#[test]
fn later_duplicate_key_wins() {
    let m = entries(&[("api_key", "first"), ("api_key", "second")]);
    let c = resolve(&cli_none(), &env_none(), Some(&m)).unwrap();
    assert_eq!(c.api_key, "second");
}

#[test]
fn explicit_config_path_prefers_cli() {
    let cli = Some("/cli/path.conf".to_string());
    let env = Some("/env/path.conf".to_string());
    assert_eq!(choose_config_path(&cli, &env), Some("/cli/path.conf".to_string()));
    assert_eq!(choose_config_path(&None, &env), Some("/env/path.conf".to_string()));
    assert_eq!(choose_config_path(&None, &None), None);
}

#[test]
fn candidates_from_home_and_dirs() {
    let v = config_candidates(
        &Some("/h".to_string()),
        &None,
        &Some("/a:/b".to_string()),
    );
    assert_eq!(
        v,
        vec![
            "/h/.config/bpaste/bpaste.conf".to_string(),
            "/a/bpaste/bpaste.conf".to_string(),
            "/b/bpaste/bpaste.conf".to_string(),
        ]
    );
}

#[test]
fn candidates_prefer_xdg_config_home_and_skip_empty_dirs() {
    let v = config_candidates(
        &Some("/h".to_string()),
        &Some("/x".to_string()),
        &Some("/a::/b".to_string()),
    );
    assert_eq!(
        v,
        vec![
            "/x/bpaste/bpaste.conf".to_string(),
            "/a/bpaste/bpaste.conf".to_string(),
            "/b/bpaste/bpaste.conf".to_string(),
        ]
    );
}

#[test]
fn candidates_default_to_etc_xdg() {
    let v = config_candidates(&None, &None, &None);
    assert_eq!(v, vec!["/etc/xdg/bpaste/bpaste.conf".to_string()]);
}
