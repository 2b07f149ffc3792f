//! Settings given on the command line.

use vstd::prelude::*;

use crate::config::Config;
#[allow(unused_imports)]
use crate::config::ConfigView;
#[allow(unused_imports)]
use crate::proxy::ProxyStateView;
use crate::text::append_texts;
#[allow(unused_imports)]
use crate::text::{opt_text, texts};

verus! {

/// The command line, read.
#[derive(Debug)]
pub struct Args {
    /// The port to listen on, in place of the saved one.
    pub port: Option<u16>,
    /// The upstream URL, in place of the saved one.
    pub upstream: Option<String>,
    /// Listen on every interface.
    pub bind_all: bool,
    /// Require a bearer token.
    pub require_auth: bool,
    /// Further tokens to accept.
    pub tokens: Vec<String>,
    /// Run without a window.
    pub headless: bool,
    /// Start the proxy when the window opens.
    pub autostart: bool,
}

/// The command line as mathematical values.
pub struct ArgsView {
    pub port: Option<u16>,
    pub upstream: Option<Seq<char>>,
    pub bind_all: bool,
    pub require_auth: bool,
    pub tokens: Seq<Seq<char>>,
    pub headless: bool,
    pub autostart: bool,
}

impl View for Args {
    type V = ArgsView;

    open spec fn view(&self) -> ArgsView {
        ArgsView {
            port: self.port,
            upstream: opt_text(self.upstream),
            bind_all: self.bind_all,
            require_auth: self.require_auth,
            tokens: texts(self.tokens@),
            headless: self.headless,
            autostart: self.autostart,
        }
    }
}

impl ArgsView {
    /// The settings `c` with what the command line gives in their place. A switch can
    /// turn a setting on, never off; tokens come on top of the saved ones, and giving
    /// one turns authentication on.
    pub open spec fn applied(self, c: ConfigView) -> ConfigView {
        ConfigView {
            port: match self.port {
                Some(p) => p,
                None => c.port,
            },
            bind_all: c.bind_all || self.bind_all,
            upstream_url: match self.upstream {
                Some(u) => u,
                None => c.upstream_url,
            },
            tokens: c.tokens + self.tokens,
            require_auth: c.require_auth || self.require_auth || self.tokens.len() > 0,
            autostart: c.autostart || self.autostart,
            ..c
        }
    }
}

impl Args {
    /// Puts what the command line gives into the settings.
    pub fn apply_to(&self, config: &mut Config)
        ensures
            final(config)@ == self@.applied(old(config)@),
    {
        let ghost before = config@;
        if let Some(port) = self.port {
            config.port = port;
        }
        if let Some(url) = &self.upstream {
            config.upstream_url = url.clone();
        }
        if self.bind_all {
            config.bind_all = true;
        }
        if self.require_auth {
            config.require_auth = true;
        }
        if self.tokens.len() > 0 {
            append_texts(&mut config.tokens, &self.tokens);
            config.require_auth = true;
        }
        if self.autostart {
            config.autostart = true;
        }
        proof {
            assert(config@.tokens =~= before.tokens + self@.tokens);
        }
    }
}

/// A command line that gives nothing changes nothing.
pub proof fn nothing_given_changes_nothing(args: ArgsView, c: ConfigView)
    requires
        args.port is None,
        args.upstream is None,
        !args.bind_all,
        !args.require_auth,
        args.tokens.len() == 0,
        !args.autostart,
    ensures
        args.applied(c) == c,
{
    assert(c.tokens + args.tokens =~= c.tokens);
}

/// No switch is ever turned off, and no token is lost.
pub proof fn settings_only_grow(args: ArgsView, c: ConfigView)
    ensures
        c.bind_all ==> args.applied(c).bind_all,
        c.require_auth ==> args.applied(c).require_auth,
        c.autostart ==> args.applied(c).autostart,
        args.applied(c).tokens.take(c.tokens.len() as int) == c.tokens,
        args.applied(c).tokens.skip(c.tokens.len() as int) == args.tokens,
{
    assert(args.applied(c).tokens.take(c.tokens.len() as int) =~= c.tokens);
    assert(args.applied(c).tokens.skip(c.tokens.len() as int) =~= args.tokens);
}

/// A token given on the command line makes the proxy ask for tokens, and accept this one.
pub proof fn given_token_is_required(args: ArgsView, c: ConfigView, i: int)
    requires
        0 <= i < args.tokens.len(),
    ensures
        ProxyStateView::of(args.applied(c)).require_auth,
        ProxyStateView::of(args.applied(c)).tokens.contains(args.tokens[i]),
{
    assert(args.applied(c).tokens[c.tokens.len() + i] == args.tokens[i]);
}

/// A port or an upstream URL that is given comes in place of the saved one, and one that is
/// not given leaves it.
pub proof fn given_values_replace_saved_ones(args: ArgsView, c: ConfigView)
    ensures
        args.port matches Some(p) ==> args.applied(c).port == p,
        args.port is None ==> args.applied(c).port == c.port,
        args.upstream matches Some(u) ==> args.applied(c).upstream_url == u,
        args.upstream is None ==> args.applied(c).upstream_url == c.upstream_url,
{
}

/// Each switch turns its own setting on, and one that is not given leaves it; tokens are
/// required also where one is given. What no argument is about stays as it is.
pub proof fn switches_turn_on_their_setting(args: ArgsView, c: ConfigView)
    ensures
        args.bind_all ==> args.applied(c).bind_all,
        !args.bind_all ==> args.applied(c).bind_all == c.bind_all,
        args.autostart ==> args.applied(c).autostart,
        !args.autostart ==> args.applied(c).autostart == c.autostart,
        args.require_auth || args.tokens.len() > 0 ==> args.applied(c).require_auth,
        !args.require_auth && args.tokens.len() == 0 ==> args.applied(c).require_auth
            == c.require_auth,
        args.applied(c).tokens.len() == c.tokens.len() + args.tokens.len(),
        args.applied(c).preferred_model == c.preferred_model,
        args.applied(c).context_window == c.context_window,
{
}

/// Two command lines, one after the other, give the tokens of both, and the port and the URL
/// of the later one where it gives them.
pub proof fn later_arguments_win(a: ArgsView, b: ArgsView, c: ConfigView)
    ensures
        b.applied(a.applied(c)).tokens == c.tokens + a.tokens + b.tokens,
        b.port is Some ==> b.applied(a.applied(c)).port == b.applied(c).port,
        b.port is None ==> b.applied(a.applied(c)).port == a.applied(c).port,
        b.upstream is Some ==> b.applied(a.applied(c)).upstream_url == b.applied(c).upstream_url,
        b.upstream is None ==> b.applied(a.applied(c)).upstream_url == a.applied(c).upstream_url,
{
}

/// The view of the command line has every argument as it is.
pub proof fn arguments_are_whole(args: Args)
    ensures
        args@.port == args.port,
        args.upstream matches Some(u) ==> args@.upstream == Some(u@),
        args.upstream is None ==> args@.upstream is None,
        args@.bind_all == args.bind_all,
        args@.require_auth == args.require_auth,
        args@.tokens.len() == args.tokens@.len(),
        forall|i: int|
            0 <= i < args.tokens@.len() ==> #[trigger] args@.tokens[i] == args.tokens@[i]@,
        args@.headless == args.headless,
        args@.autostart == args.autostart,
{
}

} // verus!
