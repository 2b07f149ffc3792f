use npulama::app::{App, Effect, Event};
use npulama::config::Config;

/// What is to be done, in words.
fn words(effects: &[Effect]) -> Vec<String> {
    effects
        .iter()
        .map(|e| match e {
            Effect::Save(c) => format!("save {} {}", c.port, c.tokens.join(",")),
            Effect::StartProxy(c) => format!("start {} {}", c.port, c.upstream_url),
            Effect::StopProxy => "stop".to_string(),
            Effect::CancelClose => "cancel close".to_string(),
            Effect::HideWindow => "hide".to_string(),
            Effect::ShowWindow => "show".to_string(),
            Effect::FocusWindow => "focus".to_string(),
            Effect::CopyText(t) => format!("copy {}", t),
            Effect::Exit => "exit".to_string(),
        })
        .collect()
}

fn opened() -> App {
    let (app, todo) = App::new(Config::default());
    assert!(todo.is_empty());
    app
}

#[test]
fn window_opens() {
    let app = opened();
    assert_eq!(app.edit_port, "11435");
    assert_eq!(app.edit_upstream, "http://127.0.0.1:52495");
    assert!(!app.proxy_running);
    assert_eq!(app.status_label(), "Stopped");
    assert_eq!(app.error_label(), None);
    assert!(!app.shows_tokens());
}

#[test]
fn autostart_starts_the_proxy() {
    let mut config = Config::default();
    config.autostart = true;
    let (app, todo) = App::new(config);
    assert!(app.proxy_running);
    assert_eq!(app.status_label(), "Running");
    assert_eq!(words(&todo), vec!["start 11435 http://127.0.0.1:52495"]);
}

#[test]
fn start_takes_over_the_fields() {
    let mut app = opened();
    app.edit_port = " 8080 ".to_string();
    app.edit_upstream = " http://up\n".to_string();
    assert_eq!(words(&app.handle(Event::Start)), vec!["save 8080 ", "start 8080 http://up"]);
    assert!(app.proxy_running);
    assert_eq!(app.edit_port, " 8080 ");
    assert_eq!(words(&app.handle(Event::Start)), vec!["save 8080 "]);
    assert_eq!(words(&app.handle(Event::Stop)), vec!["stop"]);
    assert!(!app.proxy_running);
    assert!(words(&app.handle(Event::Stop)).is_empty());
}

#[test]
fn start_with_a_wrong_port_keeps_the_port() {
    let mut app = opened();
    app.edit_port = "65536".to_string();
    assert_eq!(
        words(&app.handle(Event::Start)),
        vec!["save 11435 ", "start 11435 http://127.0.0.1:52495"]
    );
    assert_eq!(app.edit_port, "65536");
}

#[test]
fn settings_are_applied_and_saved() {
    let mut app = opened();
    app.edit_port = "81".to_string();
    assert_eq!(words(&app.handle(Event::ApplySettings)), vec!["save 81 "]);
    assert_eq!(app.config.port, 81);
}

#[test]
fn settings_are_applied_to_a_running_proxy() {
    let mut app = opened();
    app.handle(Event::Start);
    app.edit_port = "82".to_string();
    app.edit_upstream = "http://b ".to_string();
    assert_eq!(
        words(&app.handle(Event::ApplySettings)),
        vec!["save 82 ", "stop", "start 82 http://b"]
    );
    assert!(app.proxy_running);
}

#[test]
fn wrong_port_is_put_right() {
    let mut app = opened();
    app.edit_port = "none".to_string();
    app.handle(Event::ApplySettings);
    assert_eq!(app.edit_port, "11435");
    assert_eq!(app.config.port, 11435);
}

#[test]
fn applying_twice_changes_nothing_more() {
    let mut app = opened();
    app.edit_port = " 83".to_string();
    app.edit_upstream = " x ".to_string();
    app.handle(Event::ApplySettings);
    let first = (app.config.port, app.config.upstream_url.clone(), app.edit_port.clone());
    app.handle(Event::ApplySettings);
    assert_eq!((app.config.port, app.config.upstream_url, app.edit_port), first);
}

#[test]
fn proxy_that_failed_is_noted() {
    let mut app = opened();
    app.handle(Event::Start);
    assert!(app.handle(Event::ProxyEnded(Some("no port".to_string()))).is_empty());
    assert!(!app.proxy_running);
    assert_eq!(app.error_label(), Some("Error: no port".to_string()));
    app.handle(Event::Start);
    assert_eq!(app.error_label(), None);
    app.handle(Event::ProxyEnded(None));
    assert!(!app.proxy_running);
    assert_eq!(app.error_label(), None);
    app.handle(Event::ProxyEnded(Some("late".to_string())));
    assert_eq!(app.error_label(), None);
}

#[test]
fn tokens_are_added_and_deleted() {
    let mut app = opened();
    app.config.require_auth = true;
    assert!(app.warns_no_tokens());
    assert_eq!(words(&app.handle(Event::AddToken("sk-a".to_string()))), vec!["save 11435 sk-a"]);
    app.handle(Event::AddToken("sk-b".to_string()));
    assert!(!app.warns_no_tokens());
    assert_eq!(words(&app.handle(Event::CopyToken(1))), vec!["copy sk-b"]);
    app.handle(Event::ToggleToken(0));
    assert_eq!(words(&app.handle(Event::DeleteToken(0))), vec!["save 11435 sk-b"]);
    assert_eq!(app.show_token_full, None);
    app.handle(Event::AddToken("sk-c".to_string()));
    app.handle(Event::ToggleToken(1));
    app.handle(Event::DeleteToken(0));
    assert_eq!(app.show_token_full, Some(1));
    assert_eq!(app.config.tokens, vec!["sk-c"]);
}

#[test]
fn tokens_are_shown_and_hidden() {
    let mut app = opened();
    let token = format!("sk-{}{}", "0123456789", "abcdefghijklmnop");
    app.handle(Event::AddToken(token.clone()));
    assert_eq!(app.token_label(0), format!("sk-{}{}\u{2026}", "0123456789", "abcdefghi"));
    app.handle(Event::ToggleToken(0));
    assert_eq!(app.token_label(0), token);
    app.handle(Event::ToggleToken(3));
    assert_eq!(app.show_token_full, Some(3));
    app.handle(Event::ToggleToken(3));
    assert_eq!(app.show_token_full, None);
}

#[test]
fn list_of_tokens_grows_to_its_limit() {
    let mut app = opened();
    assert_eq!(app.token_list_height(), 8);
    for height in [36, 64, 92, 120, 140, 140] {
        app.handle(Event::AddToken("t".to_string()));
        assert_eq!(app.token_list_height(), height);
    }
}

#[test]
fn window_and_tray() {
    let mut app = opened();
    assert_eq!(words(&app.handle(Event::CloseRequested)), vec!["cancel close", "hide"]);
    assert_eq!(words(&app.handle(Event::TrayClicked { left: true })), vec!["show", "focus"]);
    assert!(app.handle(Event::TrayClicked { left: false }).is_empty());
    assert_eq!(words(&app.handle(Event::MenuOpen)), vec!["show", "focus"]);
    assert_eq!(
        words(&app.handle(Event::CopyEndpoint)),
        vec!["copy http://127.0.0.1:11435/v1"]
    );
    assert_eq!(words(&app.handle(Event::Exit)), vec!["exit"]);
    app.handle(Event::Start);
    assert_eq!(words(&app.handle(Event::MenuExit)), vec!["stop", "exit"]);
    app.handle(Event::Start);
    assert_eq!(words(&app.handle(Event::Exit)), vec!["stop", "exit"]);
}

/// The settings that are to be saved, where nothing else is to be done.
fn saved(effects: Vec<Effect>) -> Config {
    assert_eq!(effects.len(), 1);
    match effects.into_iter().next() {
        Some(Effect::Save(config)) => config,
        other => panic!("{:?}", other),
    }
}

#[test]
fn switches_are_saved_at_once() {
    let mut app = opened();
    let config = saved(app.handle(Event::SetRequireAuth(true)));
    assert!(app.config.require_auth && config.require_auth);
    assert!(!config.bind_all && !config.autostart);
    let config = saved(app.handle(Event::SetBindAll(true)));
    assert!(app.config.bind_all && config.bind_all && config.require_auth);
    let config = saved(app.handle(Event::SetAutostart(true)));
    assert!(app.config.autostart && config.autostart);
    assert!(!app.proxy_running);
    let config = saved(app.handle(Event::SetRequireAuth(false)));
    assert!(!app.config.require_auth && !config.require_auth && config.bind_all);
}

#[test]
fn preferred_model_and_context_are_saved() {
    let mut app = opened();
    let config = saved(app.handle(Event::SetPreferredModel(" phi-4-mini\n".to_string())));
    assert_eq!(app.config.preferred_model.as_deref(), Some("phi-4-mini"));
    assert_eq!(config.preferred_model.as_deref(), Some("phi-4-mini"));
    let config = saved(app.handle(Event::SetPreferredModel(" ".to_string())));
    assert_eq!(config.preferred_model, None);
    let config = saved(app.handle(Event::SetContextWindow(131072)));
    assert_eq!(app.config.context_window, 131072);
    assert_eq!(config.context_window, 131072);
}
