//! The settings of the proxy.

use vstd::prelude::*;

use crate::text::{copy_texts, decimal_text, join};
#[allow(unused_imports)]
use crate::text::{decimal, decimal_writes, opt_text, texts};

verus! {

/// What the proxy listens on, where it forwards to, and whom it lets through.
#[derive(Debug)]
pub struct Config {
    /// The port to listen on.
    pub port: u16,
    /// Listen on every interface instead of the loopback interface only.
    pub bind_all: bool,
    /// The base URL of the service that requests are forwarded to.
    pub upstream_url: String,
    /// The bearer tokens that are accepted.
    pub tokens: Vec<String>,
    /// Refuse requests that carry none of the tokens.
    pub require_auth: bool,
    /// Start the proxy when the window opens.
    pub autostart: bool,
    /// The alias of the model to load on startup.
    pub preferred_model: Option<String>,
    /// How many tokens of context a model is given.
    pub context_window: u32,
}

/// The settings as mathematical values.
pub struct ConfigView {
    pub port: u16,
    pub bind_all: bool,
    pub upstream_url: Seq<char>,
    pub tokens: Seq<Seq<char>>,
    pub require_auth: bool,
    pub autostart: bool,
    pub preferred_model: Option<Seq<char>>,
    pub context_window: u32,
}

impl View for Config {
    type V = ConfigView;

    open spec fn view(&self) -> ConfigView {
        ConfigView {
            port: self.port,
            bind_all: self.bind_all,
            upstream_url: self.upstream_url@,
            tokens: texts(self.tokens@),
            require_auth: self.require_auth,
            autostart: self.autostart,
            preferred_model: opt_text(self.preferred_model),
            context_window: self.context_window,
        }
    }
}

impl ConfigView {
    /// The settings that hold as long as nobody has chosen others.
    pub open spec fn initial() -> ConfigView {
        ConfigView {
            port: 11435,
            bind_all: false,
            upstream_url: "http://127.0.0.1:52495"@,
            tokens: Seq::empty(),
            require_auth: false,
            autostart: false,
            preferred_model: None,
            context_window: 4096,
        }
    }

    /// The settings to start with, for those that were saved.
    pub open spec fn loaded(saved: Option<ConfigView>) -> ConfigView {
        match saved {
            Some(c) => c,
            None => ConfigView::initial(),
        }
    }

    /// The URL under which the proxy is reached.
    pub open spec fn url(self) -> Seq<char> {
        "http://"@ + self.address()
    }

    /// The host part of the address that is listened on.
    pub open spec fn host(self) -> Seq<char> {
        if self.bind_all {
            "0.0.0.0"@
        } else {
            "127.0.0.1"@
        }
    }

    /// The address that is listened on: host, colon, port.
    pub open spec fn address(self) -> Seq<char> {
        self.host() + ":"@ + decimal(self.port as nat)
    }
}

impl Default for Config {
    fn default() -> (r: Self)
        ensures
            r@ == ConfigView::initial(),
    {
        let r = Config {
            port: 11435,
            bind_all: false,
            upstream_url: "http://127.0.0.1:52495".to_owned(),
            tokens: Vec::new(),
            require_auth: false,
            autostart: false,
            preferred_model: None,
            context_window: 4096,
        };
        proof {
            assert(r@.tokens =~= Seq::<Seq<char>>::empty());
        }
        r
    }
}

impl Clone for Config {
    fn clone(&self) -> (r: Self)
        ensures
            r@ == self@,
    {
        Config {
            port: self.port,
            bind_all: self.bind_all,
            upstream_url: self.upstream_url.clone(),
            tokens: copy_texts(&self.tokens),
            require_auth: self.require_auth,
            autostart: self.autostart,
            preferred_model: match &self.preferred_model {
                Some(m) => Some(m.clone()),
                None => None,
            },
            context_window: self.context_window,
        }
    }
}

impl Config {
    /// The settings to start with: the saved ones, or the defaults where none could be
    /// read.
    pub fn load(saved: Option<Config>) -> (r: Config)
        ensures
            saved matches Some(c) ==> r@ == c@,
            saved is None ==> r@ == ConfigView::initial(),
            r@ == ConfigView::loaded(
                match saved {
                    Some(c) => Some(c@),
                    None => None,
                },
            ),
    {
        match saved {
            Some(c) => c,
            None => Config::default(),
        }
    }

    fn host(&self) -> (r: &'static str)
        ensures
            r@ == self@.host(),
    {
        if self.bind_all {
            "0.0.0.0"
        } else {
            "127.0.0.1"
        }
    }

    /// The address to listen on.
    pub fn bind_addr(&self) -> (r: String)
        ensures
            r@ == self@.address(),
    {
        let mut r = join(self.host(), ":");
        let port = decimal_text(self.port as u64);
        r.append(port.as_str());
        r
    }

    /// The URL under which the proxy is reached.
    pub fn proxy_url(&self) -> (r: String)
        ensures
            r@ == "http://"@ + self@.address(),
            r@ == self@.url(),
    {
        let addr = self.bind_addr();
        join("http://", addr.as_str())
    }
}

/// The proxy listens on the loopback interface only, unless it is to listen on all; the
/// address ends in the port.
pub proof fn listens_where_it_is_told(c: ConfigView)
    ensures
        c.bind_all ==> c.address() == "0.0.0.0:"@ + decimal(c.port as nat),
        !c.bind_all ==> c.address() == "127.0.0.1:"@ + decimal(c.port as nat),
{
    reveal_strlit("0.0.0.0");
    reveal_strlit("0.0.0.0:");
    reveal_strlit("127.0.0.1");
    reveal_strlit("127.0.0.1:");
    reveal_strlit(":");
    assert("0.0.0.0:"@ =~= "0.0.0.0"@ + ":"@);
    assert("127.0.0.1:"@ =~= "127.0.0.1"@ + ":"@);
}

/// Settings with different ports have different addresses.
pub proof fn ports_are_told_apart(a: ConfigView, b: ConfigView)
    requires
        a.address() == b.address(),
    ensures
        a.port == b.port,
        a.bind_all == b.bind_all,
{
    reveal_strlit("0.0.0.0");
    reveal_strlit("127.0.0.1");
    reveal_strlit(":");
    let host_a = a.host() + ":"@;
    let host_b = b.host() + ":"@;
    if a.bind_all != b.bind_all {
        assert(a.address()[0] == a.host()[0]);
        assert(b.address()[0] == b.host()[0]);
    }
    assert(a.address().skip(host_a.len() as int) =~= decimal(a.port as nat));
    assert(b.address().skip(host_b.len() as int) =~= decimal(b.port as nat));
    decimal_writes(a.port as nat);
    decimal_writes(b.port as nat);
}

/// Nobody is asked for a token and nobody but this machine is served before somebody chooses
/// so; the default port is 11435.
pub proof fn defaults_are_closed()
    ensures
        ConfigView::initial().port == 11435,
        !ConfigView::initial().bind_all,
        !ConfigView::initial().require_auth,
        !ConfigView::initial().autostart,
        ConfigView::initial().tokens.len() == 0,
        ConfigView::initial().upstream_url == "http://127.0.0.1:52495"@,
        ConfigView::initial().preferred_model is None,
        ConfigView::initial().context_window == 4096,
{
}

/// The view of the settings has every setting as it is.
pub proof fn settings_are_whole(c: Config)
    ensures
        c@.port == c.port,
        c@.bind_all == c.bind_all,
        c@.upstream_url == c.upstream_url@,
        c@.tokens.len() == c.tokens@.len(),
        forall|i: int| 0 <= i < c.tokens@.len() ==> #[trigger] c@.tokens[i] == c.tokens@[i]@,
        c@.require_auth == c.require_auth,
        c@.autostart == c.autostart,
        c.preferred_model matches Some(m) ==> c@.preferred_model == Some(m@),
        c.preferred_model is None ==> c@.preferred_model is None,
        c@.context_window == c.context_window,
{
}

/// What was saved is what is loaded, whatever it is; the defaults hold only where nothing was.
pub proof fn saved_settings_are_loaded(c: ConfigView)
    ensures
        ConfigView::loaded(Some(c)) == c,
        ConfigView::loaded(None) == ConfigView::initial(),
{
}

/// The proxy is reached by HTTP at the address that it listens on.
pub proof fn url_is_the_address(c: ConfigView)
    ensures
        c.url().len() == c.address().len() + 7,
        c.url().take(7) == "http://"@,
        c.url().skip(7) == c.address(),
{
    reveal_strlit("http://");
    assert(c.url().take(7) =~= "http://"@);
    assert(c.url().skip(7) =~= c.address());
}

} // verus!
