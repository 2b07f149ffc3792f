use npulama::cli::Args;
use npulama::config::Config;

fn no_args() -> Args {
    Args {
        port: None,
        upstream: None,
        bind_all: false,
        require_auth: false,
        tokens: vec![],
        headless: false,
        autostart: false,
    }
}

fn same(a: &Config, b: &Config) -> bool {
    a.port == b.port
        && a.bind_all == b.bind_all
        && a.upstream_url == b.upstream_url
        && a.tokens == b.tokens
        && a.require_auth == b.require_auth
        && a.autostart == b.autostart
        && a.preferred_model == b.preferred_model
        && a.context_window == b.context_window
}

#[test]
fn defaults() {
    let c = Config::default();
    assert_eq!(c.port, 11435);
    assert!(!c.bind_all);
    assert_eq!(c.upstream_url, "http://127.0.0.1:52495");
    assert!(c.tokens.is_empty());
    assert!(!c.require_auth);
    assert!(!c.autostart);
    assert_eq!(c.preferred_model, None);
    assert_eq!(c.context_window, 4096);
}

#[test]
fn saved_settings_are_loaded() {
    let mut c = Config::default();
    c.port = 80;
    c.tokens = vec!["sk-a".to_string()];
    let copy = c.clone();
    assert!(same(&Config::load(Some(c)), &copy));
    assert!(same(&Config::load(None), &Config::default()));
}

#[test]
fn addresses() {
    let mut c = Config::default();
    assert_eq!(c.bind_addr(), "127.0.0.1:11435");
    assert_eq!(c.proxy_url(), "http://127.0.0.1:11435");
    c.bind_all = true;
    c.port = 65535;
    assert_eq!(c.bind_addr(), "0.0.0.0:65535");
    assert_eq!(c.proxy_url(), "http://0.0.0.0:65535");
    c.port = 0;
    assert_eq!(c.bind_addr(), "0.0.0.0:0");
    c.port = 10;
    assert_eq!(c.bind_addr(), "0.0.0.0:10");
}

#[test]
fn no_arguments_change_nothing() {
    let mut c = Config::default();
    c.tokens = vec!["sk-a".to_string()];
    let before = c.clone();
    no_args().apply_to(&mut c);
    assert!(same(&c, &before));
}

#[test]
fn arguments_come_in_place_of_settings() {
    let mut c = Config::default();
    let mut args = no_args();
    args.port = Some(8080);
    args.upstream = Some("http://10.0.0.1:1".to_string());
    args.bind_all = true;
    args.autostart = true;
    args.apply_to(&mut c);
    assert_eq!(c.port, 8080);
    assert_eq!(c.upstream_url, "http://10.0.0.1:1");
    assert!(c.bind_all);
    assert!(c.autostart);
    assert!(!c.require_auth);
}

#[test]
fn token_arguments_are_added_and_require_authentication() {
    let mut c = Config::default();
    c.tokens = vec!["sk-a".to_string()];
    let mut args = no_args();
    args.tokens = vec!["sk-b".to_string(), "sk-a".to_string()];
    args.apply_to(&mut c);
    assert_eq!(c.tokens, vec!["sk-a", "sk-b", "sk-a"]);
    assert!(c.require_auth);
}

#[test]
fn switches_are_never_turned_off() {
    let mut c = Config::default();
    c.bind_all = true;
    c.require_auth = true;
    c.autostart = true;
    no_args().apply_to(&mut c);
    assert!(c.bind_all && c.require_auth && c.autostart);
    let mut d = Config::default();
    let mut args = no_args();
    args.require_auth = true;
    args.apply_to(&mut d);
    assert!(d.require_auth);
    assert!(d.tokens.is_empty());
}

#[test]
fn model_settings_are_copied_and_not_touched_by_arguments() {
    let mut c = Config::default();
    c.preferred_model = Some("phi-4-mini".to_string());
    c.context_window = 8192;
    let mut d = c.clone();
    assert!(same(&c, &d));
    let mut args = no_args();
    args.port = Some(1);
    args.apply_to(&mut d);
    assert_eq!(d.preferred_model.as_deref(), Some("phi-4-mini"));
    assert_eq!(d.context_window, 8192);
}
