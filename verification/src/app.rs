//! What the window decides: how the settings, the tokens and the running proxy change with
//! what the user does.
//!
//! The state changes in [`App::handle`], which also says what is to be done outside: save
//! the settings, start or stop the proxy, show the window. Doing it is up to the caller.

use vstd::prelude::*;

use crate::config::Config;
#[allow(unused_imports)]
use crate::config::ConfigView;
#[allow(unused_imports)]
use crate::proxy::{
    no_tokens_refuse_all, refusal, AdmissionView, ProxyStateView, RequestHeadView,
};
use crate::text::{decimal_text, join, parse_port, trim};
#[allow(unused_imports)]
use crate::text::{
    decimal, decimal_writes, is_digit, is_space, opt_text, port_of, port_read_back,
    surrounding_space_comes_off, texts, trimmed, written_port_is_read,
};
use crate::token::token_preview;
#[allow(unused_imports)]
use crate::token::{has_preview, preview, preview_is_the_start};
#[allow(unused_imports)]
use vstd::utf8::encode_utf8;

verus! {

/// The state of the window.
#[derive(Debug)]
pub struct App {
    pub config: Config,
    /// The port as it stands in its field, not yet applied.
    pub edit_port: String,
    /// The upstream URL as it stands in its field, not yet applied.
    pub edit_upstream: String,
    pub proxy_running: bool,
    /// Why the proxy ended, where it failed.
    pub proxy_error: Option<String>,
    /// Which token is shown in full.
    pub show_token_full: Option<usize>,
}

/// The state of the window as mathematical values.
pub struct AppView {
    pub config: ConfigView,
    pub edit_port: Seq<char>,
    pub edit_upstream: Seq<char>,
    pub proxy_running: bool,
    pub proxy_error: Option<Seq<char>>,
    pub show_token_full: Option<usize>,
}

impl View for App {
    type V = AppView;

    open spec fn view(&self) -> AppView {
        AppView {
            config: self.config@,
            edit_port: self.edit_port@,
            edit_upstream: self.edit_upstream@,
            proxy_running: self.proxy_running,
            proxy_error: opt_text(self.proxy_error),
            show_token_full: self.show_token_full,
        }
    }
}

/// What happens to the window.
#[derive(Debug)]
pub enum Event {
    /// The window is to be closed.
    CloseRequested,
    /// The tray icon was clicked, with the left button or another.
    TrayClicked { left: bool },
    /// "Open" was chosen in the menu of the tray icon.
    MenuOpen,
    /// "Exit" was chosen in the menu of the tray icon.
    MenuExit,
    /// The settings are to be applied.
    ApplySettings,
    /// Listening on every interface was switched on or off.
    SetBindAll(bool),
    /// Starting the proxy with the window was switched on or off.
    SetAutostart(bool),
    /// Requiring a token was switched on or off.
    SetRequireAuth(bool),
    /// This was entered as the model to load on startup.
    SetPreferredModel(String),
    /// The size of the context was set.
    SetContextWindow(u32),
    /// A token is to be shown in full, or no longer.
    ToggleToken(usize),
    /// A token is to be copied.
    CopyToken(usize),
    /// A token is to be deleted.
    DeleteToken(usize),
    /// A token is to be added.
    AddToken(String),
    /// The endpoint is to be copied.
    CopyEndpoint,
    /// The proxy is to be started.
    Start,
    /// The proxy is to be stopped.
    Stop,
    /// The application is to be left.
    Exit,
    /// The proxy ended by itself, with an error or without.
    ProxyEnded(Option<String>),
}

/// What happens to the window, as mathematical values.
pub enum EventView {
    CloseRequested,
    TrayClicked { left: bool },
    MenuOpen,
    MenuExit,
    ApplySettings,
    SetBindAll(bool),
    SetAutostart(bool),
    SetRequireAuth(bool),
    SetPreferredModel(Seq<char>),
    SetContextWindow(u32),
    ToggleToken(usize),
    CopyToken(usize),
    DeleteToken(usize),
    AddToken(Seq<char>),
    CopyEndpoint,
    Start,
    Stop,
    Exit,
    ProxyEnded(Option<Seq<char>>),
}

impl View for Event {
    type V = EventView;

    open spec fn view(&self) -> EventView {
        match self {
            Event::CloseRequested => EventView::CloseRequested,
            Event::TrayClicked { left } => EventView::TrayClicked { left: *left },
            Event::MenuOpen => EventView::MenuOpen,
            Event::MenuExit => EventView::MenuExit,
            Event::ApplySettings => EventView::ApplySettings,
            Event::SetBindAll(on) => EventView::SetBindAll(*on),
            Event::SetAutostart(on) => EventView::SetAutostart(*on),
            Event::SetRequireAuth(on) => EventView::SetRequireAuth(*on),
            Event::SetPreferredModel(m) => EventView::SetPreferredModel(m@),
            Event::SetContextWindow(n) => EventView::SetContextWindow(*n),
            Event::ToggleToken(i) => EventView::ToggleToken(*i),
            Event::CopyToken(i) => EventView::CopyToken(*i),
            Event::DeleteToken(i) => EventView::DeleteToken(*i),
            Event::AddToken(t) => EventView::AddToken(t@),
            Event::CopyEndpoint => EventView::CopyEndpoint,
            Event::Start => EventView::Start,
            Event::Stop => EventView::Stop,
            Event::Exit => EventView::Exit,
            Event::ProxyEnded(e) => EventView::ProxyEnded(opt_text(*e)),
        }
    }
}

/// What is to be done outside.
#[derive(Debug)]
pub enum Effect {
    /// Save these settings.
    Save(Config),
    /// Start a proxy with these settings.
    StartProxy(Config),
    /// Stop the proxy that runs.
    StopProxy,
    /// Do not close the window.
    CancelClose,
    HideWindow,
    ShowWindow,
    FocusWindow,
    /// Put a text on the clipboard.
    CopyText(String),
    /// Leave the application.
    Exit,
}

/// What is to be done outside, as mathematical values.
pub enum EffectView {
    Save(ConfigView),
    StartProxy(ConfigView),
    StopProxy,
    CancelClose,
    HideWindow,
    ShowWindow,
    FocusWindow,
    CopyText(Seq<char>),
    Exit,
}

impl View for Effect {
    type V = EffectView;

    open spec fn view(&self) -> EffectView {
        match self {
            Effect::Save(c) => EffectView::Save(c@),
            Effect::StartProxy(c) => EffectView::StartProxy(c@),
            Effect::StopProxy => EffectView::StopProxy,
            Effect::CancelClose => EffectView::CancelClose,
            Effect::HideWindow => EffectView::HideWindow,
            Effect::ShowWindow => EffectView::ShowWindow,
            Effect::FocusWindow => EffectView::FocusWindow,
            Effect::CopyText(t) => EffectView::CopyText(t@),
            Effect::Exit => EffectView::Exit,
        }
    }
}

/// The effects that a list holds.
pub open spec fn effects(list: Seq<Effect>) -> Seq<EffectView> {
    list.map_values(|e: Effect| e@)
}

/// The model that a text names: the text without the white space round it, or none where
/// nothing is left.
pub open spec fn named_model(text: Seq<char>) -> Option<Seq<char>> {
    if trimmed(text).len() == 0 {
        None
    } else {
        Some(trimmed(text))
    }
}

impl AppView {
    /// The state of a window that has just been opened with these settings.
    pub open spec fn opened(config: ConfigView) -> AppView {
        AppView {
            config,
            edit_port: decimal(config.port as nat),
            edit_upstream: config.upstream_url,
            proxy_running: config.autostart,
            proxy_error: None,
            show_token_full: None,
        }
    }

    /// The port that the field holds, where it holds one.
    pub open spec fn entered_port(self) -> Option<u16> {
        port_of(trimmed(self.edit_port))
    }

    /// The settings with what stands in the fields. A text that is no port changes nothing.
    pub open spec fn entered(self) -> ConfigView {
        ConfigView {
            port: match self.entered_port() {
                Some(port) => port,
                None => self.config.port,
            },
            upstream_url: trimmed(self.edit_upstream),
            ..self.config
        }
    }

    /// The state after the settings were applied. A port that is none is put right in its
    /// field.
    pub open spec fn applied(self) -> AppView {
        AppView {
            config: self.entered(),
            edit_port: match self.entered_port() {
                Some(_) => self.edit_port,
                None => decimal(self.config.port as nat),
            },
            proxy_error: if self.proxy_running {
                None
            } else {
                self.proxy_error
            },
            ..self
        }
    }

    pub open spec fn stopped(self) -> AppView {
        AppView { proxy_running: false, ..self }
    }

    /// The state after the proxy was to be started.
    pub open spec fn started(self) -> AppView {
        if self.proxy_running {
            self
        } else {
            AppView { proxy_running: true, proxy_error: None, ..self }
        }
    }

    /// What stopping the proxy takes.
    pub open spec fn stopping(self) -> Seq<EffectView> {
        if self.proxy_running {
            seq![EffectView::StopProxy]
        } else {
            seq![]
        }
    }

    /// What starting the proxy takes.
    pub open spec fn starting(self) -> Seq<EffectView> {
        if self.proxy_running {
            seq![]
        } else {
            seq![EffectView::StartProxy(self.config)]
        }
    }

    /// The state with other tokens.
    pub open spec fn with_tokens(self, tokens: Seq<Seq<char>>, show: Option<usize>) -> AppView {
        AppView {
            config: ConfigView { tokens, ..self.config },
            show_token_full: show,
            ..self
        }
    }

    /// The state with other settings.
    pub open spec fn with_config(self, config: ConfigView) -> AppView {
        AppView { config, ..self }
    }

    /// The endpoint that clients are given.
    pub open spec fn endpoint(self) -> Seq<char> {
        "http://"@ + self.config.address() + "/v1"@
    }

    /// The word for the state of the proxy.
    pub open spec fn status_word(self) -> Seq<char> {
        if self.proxy_running {
            "Running"@
        } else {
            "Stopped"@
        }
    }

    /// The line that reports why the proxy ended.
    pub open spec fn error_line(self) -> Option<Seq<char>> {
        match self.proxy_error {
            Some(e) => Some("Error: "@ + e),
            None => None,
        }
    }

    /// A token as it is listed.
    pub open spec fn token_line(self, i: usize) -> Seq<char> {
        if self.show_token_full == Some(i) {
            self.config.tokens[i as int]
        } else {
            preview(self.config.tokens[i as int])
        }
    }

    /// The height of the list of tokens.
    pub open spec fn list_height(self) -> nat {
        if 28 * self.config.tokens.len() + 8 <= 140 {
            28 * self.config.tokens.len() + 8
        } else {
            140
        }
    }

    /// Whether to warn that every request will be refused.
    pub open spec fn lacks_tokens(self) -> bool {
        self.config.require_auth && self.config.tokens.len() == 0
    }

    /// What opening the window asks for.
    pub open spec fn opening(config: ConfigView) -> Seq<EffectView> {
        if config.autostart {
            seq![EffectView::StartProxy(config)]
        } else {
            seq![]
        }
    }

    /// Whether an event can happen: the token that it is about is there.
    pub open spec fn can_happen(self, event: EventView) -> bool {
        match event {
            EventView::CopyToken(i) => i < self.config.tokens.len(),
            EventView::DeleteToken(i) => i < self.config.tokens.len(),
            _ => true,
        }
    }

    /// The state after an event.
    pub open spec fn after(self, event: EventView) -> AppView {
        match event {
            EventView::MenuExit => self.stopped(),
            EventView::ApplySettings => self.applied(),
            EventView::SetBindAll(on) => self.with_config(
                ConfigView { bind_all: on, ..self.config },
            ),
            EventView::SetAutostart(on) => self.with_config(
                ConfigView { autostart: on, ..self.config },
            ),
            EventView::SetRequireAuth(on) => self.with_config(
                ConfigView { require_auth: on, ..self.config },
            ),
            EventView::SetPreferredModel(m) => self.with_config(
                ConfigView { preferred_model: named_model(m), ..self.config },
            ),
            EventView::SetContextWindow(n) => self.with_config(
                ConfigView { context_window: n, ..self.config },
            ),
            EventView::ToggleToken(i) => AppView {
                show_token_full: if self.show_token_full == Some(i) {
                    None
                } else {
                    Some(i)
                },
                ..self
            },
            EventView::DeleteToken(i) => self.with_tokens(
                self.config.tokens.remove(i as int),
                if self.show_token_full == Some(i) {
                    None
                } else {
                    self.show_token_full
                },
            ),
            EventView::AddToken(t) => self.with_tokens(
                self.config.tokens.push(t),
                self.show_token_full,
            ),
            EventView::Start => self.with_config(self.entered()).started(),
            EventView::Stop => self.stopped(),
            EventView::Exit => self.stopped(),
            EventView::ProxyEnded(error) => if self.proxy_running {
                AppView {
                    proxy_running: false,
                    proxy_error: match error {
                        Some(e) => Some(e),
                        None => self.proxy_error,
                    },
                    ..self
                }
            } else {
                self
            },
            _ => self,
        }
    }

    /// What an event asks for outside, in this order.
    pub open spec fn asks(self, event: EventView) -> Seq<EffectView> {
        match event {
            EventView::CloseRequested => seq![EffectView::CancelClose, EffectView::HideWindow],
            EventView::TrayClicked { left } => if left {
                seq![EffectView::ShowWindow, EffectView::FocusWindow]
            } else {
                seq![]
            },
            EventView::MenuOpen => seq![EffectView::ShowWindow, EffectView::FocusWindow],
            EventView::MenuExit => self.stopping().push(EffectView::Exit),
            EventView::ApplySettings => if self.proxy_running {
                seq![
                    EffectView::Save(self.entered()),
                    EffectView::StopProxy,
                    EffectView::StartProxy(self.entered()),
                ]
            } else {
                seq![EffectView::Save(self.entered())]
            },
            EventView::SetBindAll(_) => seq![EffectView::Save(self.after(event).config)],
            EventView::SetAutostart(_) => seq![EffectView::Save(self.after(event).config)],
            EventView::SetRequireAuth(_) => seq![EffectView::Save(self.after(event).config)],
            EventView::SetPreferredModel(_) => seq![EffectView::Save(self.after(event).config)],
            EventView::SetContextWindow(_) => seq![EffectView::Save(self.after(event).config)],
            EventView::ToggleToken(_) => seq![],
            EventView::CopyToken(i) => seq![EffectView::CopyText(self.config.tokens[i as int])],
            EventView::DeleteToken(_) => seq![EffectView::Save(self.after(event).config)],
            EventView::AddToken(_) => seq![EffectView::Save(self.after(event).config)],
            EventView::CopyEndpoint => seq![EffectView::CopyText(self.endpoint())],
            EventView::Start => seq![EffectView::Save(self.entered())] + self.with_config(
                self.entered(),
            ).starting(),
            EventView::Stop => self.stopping(),
            EventView::Exit => self.stopping().push(EffectView::Exit),
            EventView::ProxyEnded(_) => seq![],
        }
    }
}

impl App {
    /// Opens the window with these settings; the proxy is started at once where they say so.
    pub fn new(config: Config) -> (r: (App, Vec<Effect>))
        ensures
            r.0@ == AppView::opened(config@),
            effects(r.1@) == AppView::opening(config@),
    {
        let mut todo: Vec<Effect> = Vec::new();
        let autostart = config.autostart;
        let mut app = App {
            edit_port: decimal_text(config.port as u64),
            edit_upstream: config.upstream_url.clone(),
            config,
            proxy_running: false,
            proxy_error: None,
            show_token_full: None,
        };
        proof {
            assert(effects(todo@) =~= seq![]);
        }
        if autostart {
            app.start_proxy(&mut todo);
        }
        proof {
            assert(effects(todo@) =~= (if autostart {
                seq![EffectView::StartProxy(config@)]
            } else {
                seq![]
            }));
        }
        (app, todo)
    }

    /// Starts the proxy, unless it runs.
    pub fn start_proxy(&mut self, todo: &mut Vec<Effect>)
        ensures
            final(self)@ == old(self)@.started(),
            effects(final(todo)@) == effects(old(todo)@) + old(self)@.starting(),
    {
        let ghost before = effects(todo@);
        if !self.proxy_running {
            self.proxy_error = None;
            todo.push(Effect::StartProxy(self.config.clone()));
            self.proxy_running = true;
        }
        proof {
            assert(effects(todo@) =~= before + old(self)@.starting());
        }
    }

    /// Stops the proxy, where it runs.
    pub fn stop_proxy(&mut self, todo: &mut Vec<Effect>)
        ensures
            final(self)@ == old(self)@.stopped(),
            effects(final(todo)@) == effects(old(todo)@) + old(self)@.stopping(),
    {
        let ghost before = effects(todo@);
        if self.proxy_running {
            todo.push(Effect::StopProxy);
        }
        self.proxy_running = false;
        proof {
            assert(effects(todo@) =~= before + old(self)@.stopping());
        }
    }

    /// Takes over what stands in the fields. The result says whether the port was one.
    fn enter(&mut self) -> (r: bool)
        ensures
            final(self)@ == old(self)@.with_config(old(self)@.entered()),
            r == old(self)@.entered_port().is_some(),
    {
        let text = trim(self.edit_port.as_str());
        let port = parse_port(text.as_str());
        if let Some(p) = port {
            self.config.port = p;
        }
        self.config.upstream_url = trim(self.edit_upstream.as_str());
        port.is_some()
    }

    /// Applies the settings: takes over what stands in the fields, saves, and starts a
    /// running proxy anew. A text that is no port is replaced by the port.
    pub fn apply_settings(&mut self, todo: &mut Vec<Effect>)
        ensures
            final(self)@ == old(self)@.applied(),
            effects(final(todo)@) == effects(old(todo)@) + old(self)@.asks(
                EventView::ApplySettings,
            ),
    {
        let ghost before = effects(todo@);
        if !self.enter() {
            self.edit_port = decimal_text(self.config.port as u64);
        }
        todo.push(Effect::Save(self.config.clone()));
        proof {
            assert(effects(todo@) =~= before.push(EffectView::Save(self@.config)));
        }
        if self.proxy_running {
            self.stop_proxy(todo);
            self.start_proxy(todo);
        }
        proof {
            assert(effects(todo@) =~= before + old(self)@.asks(EventView::ApplySettings));
        }
    }

    /// Takes note that the proxy ended by itself, with an error or without.
    pub fn poll_proxy_error(&mut self, error: Option<String>)
        ensures
            final(self)@ == old(self)@.after(EventView::ProxyEnded(opt_text(error))),
    {
        if self.proxy_running {
            self.proxy_running = false;
            if error.is_some() {
                self.proxy_error = error;
            }
        }
    }

    /// Deletes a token.
    fn delete_token(&mut self, i: usize)
        requires
            i < old(self).config.tokens@.len(),
        ensures
            final(self)@ == old(self)@.after(EventView::DeleteToken(i)),
    {
        self.config.tokens.remove(i);
        if self.show_token_full == Some(i) {
            self.show_token_full = None;
        }
        proof {
            assert(texts(self.config.tokens@) =~= old(self)@.config.tokens.remove(i as int));
        }
    }

    /// Adds a token.
    fn add_token(&mut self, token: String)
        ensures
            final(self)@ == old(self)@.after(EventView::AddToken(token@)),
    {
        self.config.tokens.push(token);
        proof {
            assert(texts(self.config.tokens@) =~= old(self)@.config.tokens.push(token@));
        }
    }

    /// Shows a token in full, or no longer.
    fn toggle_token(&mut self, i: usize)
        ensures
            final(self)@ == old(self)@.after(EventView::ToggleToken(i)),
    {
        self.show_token_full = if self.show_token_full == Some(i) {
            None
        } else {
            Some(i)
        };
    }

    /// Takes over what was entered as the model to load on startup.
    fn set_preferred_model(&mut self, text: &str)
        ensures
            final(self)@ == old(self)@.after(EventView::SetPreferredModel(text@)),
    {
        let model = trim(text);
        self.config.preferred_model = if model.as_str().is_empty() {
            None
        } else {
            Some(model)
        };
    }

    /// Changes the state as an event says, and says what is to be done outside.
    pub fn handle(&mut self, event: Event) -> (r: Vec<Effect>)
        requires
            old(self)@.can_happen(event@),
        ensures
            final(self)@ == old(self)@.after(event@),
            effects(r@) == old(self)@.asks(event@),
    {
        let mut todo: Vec<Effect> = Vec::new();
        proof {
            assert(effects(todo@) =~= seq![]);
        }
        match event {
            Event::CloseRequested => {
                todo.push(Effect::CancelClose);
                todo.push(Effect::HideWindow);
            },
            Event::TrayClicked { left } => {
                if left {
                    todo.push(Effect::ShowWindow);
                    todo.push(Effect::FocusWindow);
                }
            },
            Event::MenuOpen => {
                todo.push(Effect::ShowWindow);
                todo.push(Effect::FocusWindow);
            },
            Event::ApplySettings => {
                self.apply_settings(&mut todo);
            },
            Event::SetBindAll(on) => {
                self.config.bind_all = on;
                todo.push(Effect::Save(self.config.clone()));
            },
            Event::SetAutostart(on) => {
                self.config.autostart = on;
                todo.push(Effect::Save(self.config.clone()));
            },
            Event::SetRequireAuth(on) => {
                self.config.require_auth = on;
                todo.push(Effect::Save(self.config.clone()));
            },
            Event::SetPreferredModel(text) => {
                self.set_preferred_model(text.as_str());
                todo.push(Effect::Save(self.config.clone()));
            },
            Event::SetContextWindow(n) => {
                self.config.context_window = n;
                todo.push(Effect::Save(self.config.clone()));
            },
            Event::ToggleToken(i) => {
                self.toggle_token(i);
            },
            Event::CopyToken(i) => {
                todo.push(Effect::CopyText(self.config.tokens[i].clone()));
            },
            Event::DeleteToken(i) => {
                self.delete_token(i);
                todo.push(Effect::Save(self.config.clone()));
            },
            Event::AddToken(token) => {
                self.add_token(token);
                todo.push(Effect::Save(self.config.clone()));
            },
            Event::CopyEndpoint => {
                todo.push(Effect::CopyText(self.endpoint()));
            },
            Event::Start => {
                self.enter();
                todo.push(Effect::Save(self.config.clone()));
                self.start_proxy(&mut todo);
            },
            Event::Stop => {
                self.stop_proxy(&mut todo);
            },
            Event::MenuExit => {
                self.stop_proxy(&mut todo);
                todo.push(Effect::Exit);
            },
            Event::Exit => {
                self.stop_proxy(&mut todo);
                todo.push(Effect::Exit);
            },
            Event::ProxyEnded(error) => {
                self.poll_proxy_error(error);
            },
        }
        proof {
            assert(effects(todo@) =~= old(self)@.asks(event@));
        }
        todo
    }

    /// The word for the state of the proxy.
    pub fn status_label(&self) -> (r: &'static str)
        ensures
            r@ == self@.status_word(),
    {
        if self.proxy_running {
            "Running"
        } else {
            "Stopped"
        }
    }

    /// The endpoint that clients are given.
    pub fn endpoint(&self) -> (r: String)
        ensures
            r@ == self@.endpoint(),
    {
        let url = self.config.proxy_url();
        join(url.as_str(), "/v1")
    }

    /// The line that reports why the proxy ended, where it failed.
    pub fn error_label(&self) -> (r: Option<String>)
        ensures
            opt_text(r) == self@.error_line(),
    {
        match &self.proxy_error {
            Some(e) => Some(join("Error: ", e.as_str())),
            None => None,
        }
    }

    /// A token as it is listed: in full where it is the one that is shown, else its preview.
    pub fn token_label(&self, i: usize) -> (r: String)
        requires
            i < self@.config.tokens.len(),
            self@.show_token_full == Some(i) || has_preview(self@.config.tokens[i as int]),
        ensures
            r@ == self@.token_line(i),
    {
        if self.show_token_full == Some(i) {
            self.config.tokens[i].clone()
        } else {
            token_preview(self.config.tokens[i].as_str())
        }
    }

    /// Whether the list of tokens is shown.
    pub fn shows_tokens(&self) -> (r: bool)
        ensures
            r == self@.config.require_auth,
    {
        self.config.require_auth
    }

    /// Whether to warn that every request will be refused.
    pub fn warns_no_tokens(&self) -> (r: bool)
        ensures
            r == self@.lacks_tokens(),
    {
        self.config.require_auth && self.config.tokens.len() == 0
    }

    /// The height of the list of tokens: 28 a token and 8 for the frame, at most 140.
    pub fn token_list_height(&self) -> (r: u32)
        ensures
            r == self@.list_height(),
    {
        if self.config.tokens.len() < 5 {
            self.config.tokens.len() as u32 * 28 + 8
        } else {
            140
        }
    }
}

/// Whether a proxy runs once effects are carried out, if one ran before; `None` where one
/// would be started beside another, or one stopped that does not run.
pub open spec fn runs_after(running: bool, list: Seq<EffectView>) -> Option<bool>
    decreases list.len(),
{
    if list.len() == 0 {
        Some(running)
    } else {
        match list[0] {
            EffectView::StartProxy(_) => if running {
                None
            } else {
                runs_after(true, list.drop_first())
            },
            EffectView::StopProxy => if running {
                runs_after(false, list.drop_first())
            } else {
                None
            },
            _ => runs_after(running, list.drop_first()),
        }
    }
}

/// Carrying out what is asked for keeps at most one proxy running, and one runs exactly
/// where the state says so.
pub proof fn state_tells_whether_proxy_runs(app: AppView, event: EventView)
    requires
        !(event is ProxyEnded),
    ensures
        runs_after(app.proxy_running, app.asks(event)) == Some(app.after(event).proxy_running),
{
    let list = app.asks(event);
    assert(list.len() <= 3);
    if list.len() >= 1 {
        let rest = list.drop_first();
        if rest.len() >= 1 {
            let last = rest.drop_first();
            assert(rest[0] == list[1]);
            if last.len() >= 1 {
                assert(last[0] == list[2]);
                assert(last.drop_first().len() == 0);
            }
        }
    }
    reveal_with_fuel(runs_after, 5);
}

/// The window opens with a proxy running exactly where the settings ask for it.
pub proof fn opened_runs_on_autostart(config: ConfigView)
    ensures
        AppView::opened(config).proxy_running == config.autostart,
        AppView::opened(config).config == config,
{
}

/// After a proxy has ended by itself, none runs, and nothing is to be done; an error is
/// kept to be shown.
pub proof fn ended_proxy_is_noted(app: AppView, error: Option<Seq<char>>)
    ensures
        !app.after(EventView::ProxyEnded(error)).proxy_running,
        app.asks(EventView::ProxyEnded(error)).len() == 0,
        app.proxy_running && error is Some ==> app.after(EventView::ProxyEnded(error)).proxy_error
            == error,
        app.after(EventView::ProxyEnded(error)).config == app.config,
{
}

/// What is saved, and what a proxy is started with, are the settings as they are after the
/// event.
pub proof fn effects_hold_current_settings(app: AppView, event: EventView, i: int)
    requires
        0 <= i < app.asks(event).len(),
    ensures
        app.asks(event)[i] matches EffectView::Save(c) ==> c == app.after(event).config,
        app.asks(event)[i] matches EffectView::StartProxy(c) ==> c == app.after(event).config,
{
}

/// Every change of the settings is saved at once, before anything else is done.
pub proof fn changes_are_saved(app: AppView, event: EventView)
    requires
        app.after(event).config != app.config,
    ensures
        app.asks(event).len() > 0,
        app.asks(event)[0] == EffectView::Save(app.after(event).config),
{
}

/// Leaving the application stops the proxy first and comes last.
pub proof fn exit_stops_proxy(app: AppView, event: EventView)
    requires
        event is Exit || event is MenuExit,
    ensures
        !app.after(event).proxy_running,
        app.asks(event).last() == EffectView::Exit,
        app.proxy_running ==> app.asks(event)[0] == EffectView::StopProxy,
{
}

/// Nothing else leaves the application: closing the window only hides it, and changes
/// nothing.
pub proof fn only_exit_leaves(app: AppView, event: EventView, i: int)
    requires
        !(event is Exit || event is MenuExit),
        0 <= i < app.asks(event).len(),
    ensures
        app.asks(event)[i] != EffectView::Exit,
        event is CloseRequested ==> app.after(event) == app,
{
}

/// Applying the settings of a window that was just opened changes no port.
pub proof fn opened_fields_hold_settings(config: ConfigView)
    ensures
        AppView::opened(config).entered_port() == Some(config.port),
        AppView::opened(config).applied().config.port == config.port,
        AppView::opened(config).applied().edit_port == AppView::opened(config).edit_port,
        AppView::opened(config).applied().config.upstream_url == trimmed(config.upstream_url),
        AppView::opened(config).applied().config.tokens == config.tokens,
{
    port_read_back(config.port);
}

/// A text that is no port changes no port, and applying the settings puts it right.
pub proof fn wrong_port_is_put_right(app: AppView)
    requires
        app.entered_port() is None,
    ensures
        app.applied().config.port == app.config.port,
        app.applied().edit_port == decimal(app.config.port as nat),
        app.applied().entered_port() == Some(app.config.port),
{
    port_read_back(app.config.port);
}

/// Applying the settings a second time changes nothing more.
pub proof fn applied_twice(app: AppView)
    ensures
        app.applied().applied() == app.applied(),
{
    crate::text::trimmed_twice(app.edit_upstream);
    if app.entered_port() is None {
        port_read_back(app.config.port);
    }
}

/// Deleting a token that was just added at the end gives back the tokens.
pub proof fn added_token_can_be_deleted(app: AppView, token: Seq<char>)
    requires
        app.config.tokens.len() <= usize::MAX,
    ensures
        app.after(EventView::AddToken(token)).config.tokens.contains(token),
        app.after(EventView::AddToken(token)).after(
            EventView::DeleteToken(app.config.tokens.len() as usize),
        ).config.tokens == app.config.tokens,
{
    let more = app.config.tokens.push(token);
    assert(more[more.len() - 1] == token);
    assert(more.remove(app.config.tokens.len() as int) =~= app.config.tokens);
}

/// The warning that there are no tokens is true: a proxy started with these settings
/// refuses every request but a preflight request.
pub proof fn warning_is_true(config: ConfigView, head: RequestHeadView)
    requires
        config.require_auth,
        config.tokens.len() == 0,
        head.method != "OPTIONS"@,
    ensures
        ProxyStateView::of(config).admission(head) == AdmissionView::Answer(refusal()),
{
    no_tokens_refuse_all(ProxyStateView::of(config), head);
}

/// Applying the settings and starting the proxy take over the port and the upstream URL from
/// their fields, and leave every other setting as it is.
pub proof fn other_settings_stay(app: AppView, event: EventView)
    requires
        event is ApplySettings || event is Start,
    ensures
        app.after(event).config.bind_all == app.config.bind_all,
        app.after(event).config.tokens == app.config.tokens,
        app.after(event).config.require_auth == app.config.require_auth,
        app.after(event).config.autostart == app.config.autostart,
        app.after(event).config.preferred_model == app.config.preferred_model,
        app.after(event).config.context_window == app.config.context_window,
        app.after(event).edit_upstream == app.edit_upstream,
        app.after(event).show_token_full == app.show_token_full,
{
}

/// A port that stands in its field, with zeros in front or white space round it, is the port
/// afterwards, and the field is left as it is.
pub proof fn entered_port_is_taken_over(
    app: AppView,
    event: EventView,
    before: Seq<char>,
    zeros: nat,
    port: u16,
    after: Seq<char>,
)
    requires
        event is ApplySettings || event is Start,
        forall|i: int| 0 <= i < before.len() ==> is_space(#[trigger] before[i]),
        forall|i: int| 0 <= i < after.len() ==> is_space(#[trigger] after[i]),
        app.edit_port == before + (Seq::new(zeros, |i: int| '0') + decimal(port as nat)) + after,
    ensures
        app.after(event).config.port == port,
        app.after(event).edit_port == app.edit_port,
{
    let text = Seq::new(zeros, |i: int| '0') + decimal(port as nat);
    decimal_writes(port as nat);
    let d = decimal(port as nat);
    assert(is_digit(d[0]) && is_digit(d[d.len() - 1]));
    assert(text.last() == d[d.len() - 1]);
    assert(text[0] == '0' || text[0] == d[0]);
    surrounding_space_comes_off(before, text, after);
    written_port_is_read(port, zeros);
}

/// A text that is no port leaves the port as it is. Applying the settings then puts the port
/// into the field; starting the proxy leaves the field.
pub proof fn other_text_is_no_port(
    app: AppView,
    event: EventView,
    before: Seq<char>,
    text: Seq<char>,
    after: Seq<char>,
)
    requires
        event is ApplySettings || event is Start,
        forall|i: int| 0 <= i < before.len() ==> is_space(#[trigger] before[i]),
        forall|i: int| 0 <= i < after.len() ==> is_space(#[trigger] after[i]),
        text.len() > 0 ==> !is_space(text[0]) && !is_space(text.last()),
        port_of(text) is None,
        app.edit_port == before + text + after,
    ensures
        app.after(event).config.port == app.config.port,
        event is ApplySettings ==> app.after(event).edit_port == decimal(app.config.port as nat),
        event is Start ==> app.after(event).edit_port == app.edit_port,
{
    surrounding_space_comes_off(before, text, after);
}

/// The URL that stands in its field is the upstream URL afterwards, without the white space
/// round it.
pub proof fn entered_url_is_taken_over(
    app: AppView,
    event: EventView,
    before: Seq<char>,
    url: Seq<char>,
    after: Seq<char>,
)
    requires
        event is ApplySettings || event is Start,
        forall|i: int| 0 <= i < before.len() ==> is_space(#[trigger] before[i]),
        forall|i: int| 0 <= i < after.len() ==> is_space(#[trigger] after[i]),
        url.len() > 0 ==> !is_space(url[0]) && !is_space(url.last()),
        app.edit_upstream == before + url + after,
    ensures
        app.after(event).config.upstream_url == url,
{
    surrounding_space_comes_off(before, url, after);
}

/// A model that is entered is preferred, without the white space round its name; none is where
/// only white space is entered. Nothing else changes.
pub proof fn entered_model_is_preferred(
    app: AppView,
    before: Seq<char>,
    model: Seq<char>,
    after: Seq<char>,
)
    requires
        forall|i: int| 0 <= i < before.len() ==> is_space(#[trigger] before[i]),
        forall|i: int| 0 <= i < after.len() ==> is_space(#[trigger] after[i]),
        model.len() > 0 ==> !is_space(model[0]) && !is_space(model.last()),
    ensures
        ({
            let event = EventView::SetPreferredModel(before + model + after);
            let preferred = if model.len() == 0 {
                None
            } else {
                Some(model)
            };
            app.after(event) == AppView {
                config: ConfigView { preferred_model: preferred, ..app.config },
                ..app
            }
        }),
{
    surrounding_space_comes_off(before, model, after);
}

/// Applying the settings restarts a running proxy with the new settings, and starts none that
/// does not run; an error of a proxy that is restarted is no longer shown.
pub proof fn running_proxy_is_restarted(app: AppView)
    ensures
        ({
            let next = app.after(EventView::ApplySettings);
            let todo = app.asks(EventView::ApplySettings);
            &&& next.proxy_running == app.proxy_running
            &&& todo[0] == EffectView::Save(next.config)
            &&& app.proxy_running ==> todo.len() == 3 && todo[1] == EffectView::StopProxy && todo[2]
                == EffectView::StartProxy(next.config) && next.proxy_error is None
            &&& !app.proxy_running ==> todo.len() == 1 && next.proxy_error == app.proxy_error
        }),
{
}

/// Starting starts one proxy, with the settings as they then are, unless one runs; an earlier
/// error is no longer shown.
pub proof fn start_starts_one_proxy(app: AppView)
    ensures
        ({
            let next = app.after(EventView::Start);
            let todo = app.asks(EventView::Start);
            &&& next.proxy_running
            &&& todo[0] == EffectView::Save(next.config)
            &&& app.proxy_running ==> todo.len() == 1 && next.proxy_error == app.proxy_error
            &&& !app.proxy_running ==> todo.len() == 2 && todo[1] == EffectView::StartProxy(
                next.config,
            ) && next.proxy_error is None
        }),
        app.starting() == (if app.proxy_running {
            seq![]
        } else {
            seq![EffectView::StartProxy(app.config)]
        }),
        !app.proxy_running ==> app.started() == (AppView {
            proxy_running: true,
            proxy_error: None,
            ..app
        }),
        app.proxy_running ==> app.started() == app,
{
}

/// Stopping stops the proxy that runs, and changes nothing else; leaving does the same and then
/// leaves.
pub proof fn stop_stops_the_proxy(app: AppView, event: EventView)
    requires
        event is Stop || event is Exit || event is MenuExit,
    ensures
        app.after(event) == (AppView { proxy_running: false, ..app }),
        app.stopped() == (AppView { proxy_running: false, ..app }),
        app.stopping() == (if app.proxy_running {
            seq![EffectView::StopProxy]
        } else {
            seq![]
        }),
        event is Stop && app.proxy_running ==> app.asks(event) == seq![EffectView::StopProxy],
        event is Stop && !app.proxy_running ==> app.asks(event).len() == 0,
        !(event is Stop) && app.proxy_running ==> app.asks(event) == seq![
            EffectView::StopProxy,
            EffectView::Exit,
        ],
        !(event is Stop) && !app.proxy_running ==> app.asks(event) == seq![EffectView::Exit],
{
    if app.proxy_running {
        assert(app.stopping().push(EffectView::Exit) =~= seq![
            EffectView::StopProxy,
            EffectView::Exit,
        ]);
    } else {
        assert(app.stopping().push(EffectView::Exit) =~= seq![EffectView::Exit]);
    }
}

/// The window and the clipboard change nothing of the state. Closing hides the window, a left
/// click on the tray icon and its menu bring it back, and another click does nothing.
pub proof fn window_changes_no_settings(app: AppView, left: bool, i: usize)
    ensures
        app.after(EventView::CloseRequested) == app,
        app.asks(EventView::CloseRequested) == seq![
            EffectView::CancelClose,
            EffectView::HideWindow,
        ],
        app.after((EventView::TrayClicked { left })) == app,
        left ==> app.asks((EventView::TrayClicked { left })) == seq![
            EffectView::ShowWindow,
            EffectView::FocusWindow,
        ],
        !left ==> app.asks((EventView::TrayClicked { left })).len() == 0,
        app.after(EventView::MenuOpen) == app,
        app.asks(EventView::MenuOpen) == seq![EffectView::ShowWindow, EffectView::FocusWindow],
        app.after(EventView::CopyToken(i)) == app,
        i < app.config.tokens.len() ==> app.asks(EventView::CopyToken(i)) == seq![
            EffectView::CopyText(app.config.tokens[i as int]),
        ],
        app.after(EventView::CopyEndpoint) == app,
        app.asks(EventView::CopyEndpoint).len() == 1,
        app.asks(EventView::CopyEndpoint)[0] == EffectView::CopyText(
            "http://"@ + app.config.address() + "/v1"@,
        ),
        app.endpoint() == "http://"@ + app.config.address() + "/v1"@,
{
}

/// A switch sets its own setting, and nothing else; the new settings are saved.
pub proof fn switch_sets_its_setting(app: AppView, on: bool, size: u32)
    ensures
        app.after(EventView::SetBindAll(on)) == (AppView {
            config: ConfigView { bind_all: on, ..app.config },
            ..app
        }),
        app.after(EventView::SetAutostart(on)) == (AppView {
            config: ConfigView { autostart: on, ..app.config },
            ..app
        }),
        app.after(EventView::SetRequireAuth(on)) == (AppView {
            config: ConfigView { require_auth: on, ..app.config },
            ..app
        }),
        app.after(EventView::SetContextWindow(size)) == (AppView {
            config: ConfigView { context_window: size, ..app.config },
            ..app
        }),
{
}

/// A setting or a token that is set asks for one thing: to save the new settings.
pub proof fn set_settings_are_saved(app: AppView, event: EventView)
    requires
        event is SetBindAll || event is SetAutostart || event is SetRequireAuth
            || event is SetPreferredModel || event is SetContextWindow || event is AddToken
            || event is DeleteToken,
    ensures
        app.asks(event) == seq![EffectView::Save(app.after(event).config)],
        app.after(event).proxy_running == app.proxy_running,
        app.after(event).proxy_error == app.proxy_error,
        app.after(event).edit_port == app.edit_port,
        app.after(event).edit_upstream == app.edit_upstream,
{
}

/// A new token comes after the others, which stay as they are.
pub proof fn token_is_added_at_the_end(app: AppView, token: Seq<char>, k: int)
    ensures
        ({
            let next = app.after(EventView::AddToken(token));
            let n = app.config.tokens.len();
            &&& next.config.tokens.len() == n + 1
            &&& next.config.tokens[n as int] == token
            &&& 0 <= k < n ==> next.config.tokens[k] == app.config.tokens[k]
            &&& next == AppView {
                config: ConfigView { tokens: next.config.tokens, ..app.config },
                ..app
            }
        }),
{
}

/// Deleting takes out the token at its place and leaves the others in their order; the token
/// that is shown in full is no longer where it is the one.
pub proof fn token_is_deleted_at_its_place(app: AppView, i: usize, k: int)
    requires
        i < app.config.tokens.len(),
    ensures
        ({
            let next = app.after(EventView::DeleteToken(i));
            let n = app.config.tokens.len();
            &&& next.config.tokens.len() == n - 1
            &&& 0 <= k < i ==> next.config.tokens[k] == app.config.tokens[k]
            &&& i <= k < n - 1 ==> next.config.tokens[k] == app.config.tokens[k + 1]
            &&& app.show_token_full == Some(i) ==> next.show_token_full is None
            &&& app.show_token_full != Some(i) ==> next.show_token_full == app.show_token_full
            &&& next == AppView {
                config: ConfigView { tokens: next.config.tokens, ..app.config },
                show_token_full: next.show_token_full,
                ..app
            }
        }),
{
}

/// A token is shown in full or hidden in turn, one at a time; nothing else changes, and
/// nothing is to be done.
pub proof fn token_is_shown_in_turn(app: AppView, i: usize)
    ensures
        app.show_token_full == Some(i) ==> app.after(EventView::ToggleToken(i)) == (AppView {
            show_token_full: None,
            ..app
        }),
        app.show_token_full != Some(i) ==> app.after(EventView::ToggleToken(i)) == (AppView {
            show_token_full: Some(i),
            ..app
        }),
        app.asks(EventView::ToggleToken(i)).len() == 0,
{
}

/// That the proxy ended is noted only where one ran, and changes nothing else; without an
/// error, what is shown stays.
pub proof fn end_of_the_proxy_changes_only_that(app: AppView, error: Option<Seq<char>>)
    ensures
        ({
            let next = app.after(EventView::ProxyEnded(error));
            &&& !app.proxy_running ==> next == app
            &&& app.proxy_running && error is Some ==> next == AppView {
                proxy_running: false,
                proxy_error: error,
                ..app
            }
            &&& app.proxy_running && error is None ==> next == AppView {
                proxy_running: false,
                ..app
            }
        }),
{
}

/// A window opens with the settings that it is given, with these in its fields, no error and no
/// token shown in full.
pub proof fn opened_window_shows_settings(config: ConfigView)
    ensures
        AppView::opened(config).config == config,
        AppView::opened(config).edit_port == decimal(config.port as nat),
        AppView::opened(config).edit_upstream == config.upstream_url,
        AppView::opened(config).proxy_running == config.autostart,
        AppView::opened(config).proxy_error is None,
        AppView::opened(config).show_token_full is None,
{
}

/// Every event can happen at any time, but that a token that is not there is copied or deleted.
pub proof fn events_can_happen(app: AppView, event: EventView)
    ensures
        !(event is CopyToken || event is DeleteToken) ==> app.can_happen(event),
        event matches EventView::CopyToken(i) ==> (app.can_happen(event) <==> i
            < app.config.tokens.len()),
        event matches EventView::DeleteToken(i) ==> (app.can_happen(event) <==> i
            < app.config.tokens.len()),
{
}

/// The view of the window has every part as it is, and the view of a list of effects each
/// effect at its place.
pub proof fn window_is_whole(app: App, list: Seq<Effect>, i: int)
    ensures
        app@.config == app.config@,
        app@.edit_port == app.edit_port@,
        app@.edit_upstream == app.edit_upstream@,
        app@.proxy_running == app.proxy_running,
        app.proxy_error matches Some(e) ==> app@.proxy_error == Some(e@),
        app.proxy_error is None ==> app@.proxy_error is None,
        app@.show_token_full == app.show_token_full,
        effects(list).len() == list.len(),
        0 <= i < list.len() ==> effects(list)[i] == list[i]@,
{
}

/// The views of events and effects are the events and effects themselves.
pub proof fn events_are_whole(
    on: bool,
    size: u32,
    i: usize,
    text: String,
    error: Option<String>,
    config: Config,
)
    ensures
        Event::CloseRequested@ is CloseRequested,
        (Event::TrayClicked { left: on })@ == (EventView::TrayClicked { left: on }),
        Event::MenuOpen@ is MenuOpen,
        Event::MenuExit@ is MenuExit,
        Event::ApplySettings@ is ApplySettings,
        Event::SetBindAll(on)@ == EventView::SetBindAll(on),
        Event::SetAutostart(on)@ == EventView::SetAutostart(on),
        Event::SetRequireAuth(on)@ == EventView::SetRequireAuth(on),
        Event::SetPreferredModel(text)@ == EventView::SetPreferredModel(text@),
        Event::SetContextWindow(size)@ == EventView::SetContextWindow(size),
        Event::ToggleToken(i)@ == EventView::ToggleToken(i),
        Event::CopyToken(i)@ == EventView::CopyToken(i),
        Event::DeleteToken(i)@ == EventView::DeleteToken(i),
        Event::AddToken(text)@ == EventView::AddToken(text@),
        Event::CopyEndpoint@ is CopyEndpoint,
        Event::Start@ is Start,
        Event::Stop@ is Stop,
        Event::Exit@ is Exit,
        Event::ProxyEnded(error)@ == EventView::ProxyEnded(opt_text(error)),
        Effect::Save(config)@ == EffectView::Save(config@),
        Effect::StartProxy(config)@ == EffectView::StartProxy(config@),
        Effect::StopProxy@ is StopProxy,
        Effect::CancelClose@ is CancelClose,
        Effect::HideWindow@ is HideWindow,
        Effect::ShowWindow@ is ShowWindow,
        Effect::FocusWindow@ is FocusWindow,
        Effect::CopyText(text)@ == EffectView::CopyText(text@),
        Effect::Exit@ is Exit,
{
}

/// What is shown of the proxy tells whether it runs, and why it ended where it failed.
pub proof fn proxy_is_shown_as_it_is(app: AppView)
    ensures
        app.proxy_running ==> app.status_word() == "Running"@,
        !app.proxy_running ==> app.status_word() == "Stopped"@,
        app.proxy_error is None ==> app.error_line() is None,
        app.proxy_error matches Some(e) ==> (app.error_line() matches Some(line) && line.take(7)
            == "Error: "@ && line.skip(7) == e),
{
    reveal_strlit("Error: ");
    if let Some(e) = app.proxy_error {
        let line = "Error: "@ + e;
        assert(line.take(7) =~= "Error: "@);
        assert(line.skip(7) =~= e);
    }
}

/// One token at most is listed in full, the one that is to be shown; of every other, what its
/// first 22 bytes hold is listed.
pub proof fn tokens_are_listed_in_short(
    app: AppView,
    i: usize,
    start: Seq<char>,
    rest: Seq<char>,
)
    requires
        i < app.config.tokens.len(),
        app.config.tokens[i as int] == start + rest,
        encode_utf8(start).len() == 22 || (encode_utf8(start).len() < 22 && rest.len() == 0),
    ensures
        app.show_token_full == Some(i) ==> app.token_line(i) == start + rest,
        app.show_token_full != Some(i) ==> app.token_line(i) == start.push('\u{2026}'),
{
    preview_is_the_start(start, rest);
}

/// The list of tokens grows by 28 for each token, from 8 on, and no further than 140.
pub proof fn list_grows_with_the_tokens(app: AppView)
    ensures
        app.config.tokens.len() <= 4 ==> app.list_height() == 8 + app.config.tokens.len() * 28,
        app.config.tokens.len() > 4 ==> app.list_height() == 140,
{
}

/// There is a warning exactly where tokens are required and there are none.
pub proof fn warning_is_given_when_due(app: AppView)
    ensures
        app.lacks_tokens() ==> app.config.require_auth && app.config.tokens.len() == 0,
        app.config.require_auth && app.config.tokens.len() == 0 ==> app.lacks_tokens(),
{
}

/// Opening the window starts one proxy, with the settings as they are, exactly where these ask
/// for it.
pub proof fn opening_starts_on_autostart(config: ConfigView)
    ensures
        config.autostart ==> AppView::opening(config).len() == 1 && AppView::opening(config)[0]
            == EffectView::StartProxy(config),
        !config.autostart ==> AppView::opening(config).len() == 0,
        runs_after(false, AppView::opening(config)) == Some(
            AppView::opened(config).proxy_running,
        ),
{
    reveal_with_fuel(runs_after, 3);
    if config.autostart {
        assert(AppView::opening(config).drop_first().len() == 0);
    }
}

} // verus!
