//! The decisions of a re-login after an expired session, as a state
//! machine: the caller performs each action (reads the vault, prompts, logs
//! in, stores credentials) and hands back what came of it.
//!
//! The rules: for OpenShift and Rancher the vault's credentials are tried
//! first (for Rancher only when the cluster URL is a Rancher proxy URL);
//! when the vault holds credentials but none for this context a hint says
//! so; when the stored credentials fail, the user is asked instead; a login
//! with typed-in credentials is retried once, only after the server refused
//! them, and only if the user agrees; the username and password of a
//! successful interactive login are remembered in the vault (OpenShift and
//! Rancher), and nothing else is.

use vstd::prelude::*;
use crate::kubeconfig::{copy_opt_str, opt_str};
use crate::login::{LoginRequest, LoginRequestView, LoginType, Vault, VaultEntry, VaultEntryView};
use crate::rancher::{rancher_relogin_vault_keys, rancher_server_base_url, server_base};
use crate::relogin::{
    is_auth_failure, missing_vault_hint, relogin_request, relogin_view, AuthView, RancherRelogin,
    ReloginAuth,
};
use crate::text::{concat, contains_seq, owned};

verus! {

/// Where a re-login stands.
#[derive(Debug, Clone, Copy, PartialEq, Eq, Structural)]
pub enum ReloginPhase {
    /// The vault has not been read yet.
    Lookup,
    /// A hint was shown; the prompt for credentials comes next.
    Hinted,
    /// Logging in with the vault's credentials.
    FromVault,
    /// Waiting for typed-in credentials.
    Asking,
    /// The first login with typed-in credentials.
    FirstTry,
    /// Waiting for the answer to "retry with different credentials?".
    RetryAsked,
    /// Waiting for the second set of typed-in credentials.
    AskingAgain,
    /// The last login attempt.
    LastTry,
    /// The credentials that worked are being stored.
    Remembering,
    /// Logged in.
    Done,
    /// Given up.
    Failed,
}

/// The state of a re-login.
#[derive(Debug)]
pub struct ReloginState {
    pub login_type: LoginType,
    /// The cluster URL the kubeconfig keeps for the context.
    pub server: String,
    pub context: String,
    pub insecure: bool,
    /// Whether typed-in credentials are a token (else a username and password).
    pub token_auth: bool,
    pub phase: ReloginPhase,
    /// For Rancher: the Rancher server an interactive login signs in to.
    pub target: Option<String>,
    /// For Rancher: the auth provider of an interactive login.
    pub provider: Option<String>,
    /// The typed-in credentials a successful login remembers: those of the
    /// login in flight, except that a Rancher retry keeps the first ones.
    pub to_remember: Option<ReloginAuth>,
}

/// The content of a re-login's state.
pub struct ReloginStateView {
    pub login_type: LoginType,
    pub server: Seq<char>,
    pub context: Seq<char>,
    pub insecure: bool,
    pub token_auth: bool,
    pub phase: ReloginPhase,
    pub target: Option<Seq<char>>,
    pub provider: Option<Seq<char>>,
    pub to_remember: Option<AuthView>,
}

impl View for ReloginState {
    type V = ReloginStateView;

    open spec fn view(&self) -> ReloginStateView {
        ReloginStateView {
            login_type: self.login_type,
            server: self.server@,
            context: self.context@,
            insecure: self.insecure,
            token_auth: self.token_auth,
            phase: self.phase,
            target: opt_str(self.target),
            provider: opt_str(self.provider),
            to_remember: match self.to_remember {
                Some(a) => Some(a@),
                None => None,
            },
        }
    }
}

/// What came of the last action.
#[derive(Debug)]
pub enum ReloginEvent {
    /// The vault's credentials for the context, if any, and whether the
    /// vault holds any credentials at all.
    VaultLookup { entry: Option<VaultEntry>, has_keys: bool },
    /// Typed-in credentials; for Rancher also the server and the auth
    /// provider when they were asked for.
    Credentials { auth: ReloginAuth, target: Option<String>, provider: Option<String> },
    /// The login succeeded.
    LoginOk,
    /// The login failed with this message.
    LoginErr(String),
    /// The answer to "retry?".
    RetryAnswer(bool),
    /// A hint was shown, or credentials were stored.
    Ack,
}

/// The content of an event.
pub enum ReloginEventView {
    VaultLookup { entry: Option<VaultEntryView>, has_keys: bool },
    Credentials { auth: AuthView, target: Option<Seq<char>>, provider: Option<Seq<char>> },
    LoginOk,
    LoginErr(Seq<char>),
    RetryAnswer(bool),
    Ack,
}

impl View for ReloginEvent {
    type V = ReloginEventView;

    open spec fn view(&self) -> ReloginEventView {
        match self {
            ReloginEvent::VaultLookup { entry, has_keys } => ReloginEventView::VaultLookup {
                entry: match entry {
                    Some(e) => Some(e@),
                    None => None,
                },
                has_keys: *has_keys,
            },
            ReloginEvent::Credentials { auth, target, provider } => ReloginEventView::Credentials {
                auth: auth@,
                target: opt_str(*target),
                provider: opt_str(*provider),
            },
            ReloginEvent::LoginOk => ReloginEventView::LoginOk,
            ReloginEvent::LoginErr(m) => ReloginEventView::LoginErr(m@),
            ReloginEvent::RetryAnswer(b) => ReloginEventView::RetryAnswer(*b),
            ReloginEvent::Ack => ReloginEventView::Ack,
        }
    }
}

/// What the caller does next.
#[derive(Debug)]
pub enum ReloginAction {
    /// Read the vault's credentials for the context (`relogin_vault_event`).
    LookUpVault,
    /// Show this hint, then answer `Ack`.
    Hint(String),
    /// Ask for credentials: a token or a username and password; for Rancher
    /// also the server (when the cluster URL does not name it) and the
    /// auth provider.
    Prompt { token: bool, ask_target: bool, ask_provider: bool },
    /// Log in with this request.
    LogIn(LoginRequest),
    /// Ask whether to retry with different credentials.
    AskRetry,
    /// Store these credentials under this vault key, then answer `Ack`.
    Remember { key: String, entry: VaultEntry },
    /// Logged in: the result of the last login stands.
    Finish,
    /// Give up with the error of the last login.
    Fail,
}

/// The content of an action.
pub enum ReloginActionView {
    LookUpVault,
    Hint(Seq<char>),
    Prompt { token: bool, ask_target: bool, ask_provider: bool },
    LogIn(LoginRequestView),
    AskRetry,
    Remember { key: Seq<char>, entry: VaultEntryView },
    Finish,
    Fail,
}

impl View for ReloginAction {
    type V = ReloginActionView;

    open spec fn view(&self) -> ReloginActionView {
        match self {
            ReloginAction::LookUpVault => ReloginActionView::LookUpVault,
            ReloginAction::Hint(h) => ReloginActionView::Hint(h@),
            ReloginAction::Prompt { token, ask_target, ask_provider } => ReloginActionView::Prompt {
                token: *token,
                ask_target: *ask_target,
                ask_provider: *ask_provider,
            },
            ReloginAction::LogIn(r) => ReloginActionView::LogIn(r@),
            ReloginAction::AskRetry => ReloginActionView::AskRetry,
            ReloginAction::Remember { key, entry } => ReloginActionView::Remember { key: key@, entry: entry@ },
            ReloginAction::Finish => ReloginActionView::Finish,
            ReloginAction::Fail => ReloginActionView::Fail,
        }
    }
}

/// The hint shown when the vault has credentials for a Rancher context
/// whose URL is not a Rancher proxy URL.
pub open spec fn not_proxy_hint() -> Seq<char> {
    "hint: vault entry exists but kubeconfig server is not a Rancher proxy URL; silent re-login skipped. Use: k8pk login --type rancher"@
}

/// The vault keys a re-login tries: `rancher:{server}` (and for a proxy
/// URL the older `{base}:{context}`), or `ocp:{server}`.
pub open spec fn relogin_keys(s: ReloginStateView) -> (Seq<char>, Option<Seq<char>>) {
    if s.login_type == LoginType::Rancher {
        (
            "rancher:"@ + s.server,
            if server_base(s.server).1 {
                Some(server_base(s.server).0 + ":"@ + s.context)
            } else {
                None
            },
        )
    } else {
        ("ocp:"@ + s.server, None)
    }
}

/// How to save credentials, shown after the missing-entry hint.
pub open spec fn save_hint(login_type: LoginType) -> Seq<char> {
    if login_type == LoginType::Rancher {
        "\n      Save credentials with: k8pk login --type rancher --auth userpass <rancher-url> --use-vault"@
    } else {
        " Save with: k8pk login ... --use-vault"@
    }
}

/// The hint shown when the vault holds credentials, but none for this
/// context: the keys tried, and how to save credentials.
pub open spec fn missing_hint(s: ReloginStateView) -> Seq<char> {
    let (primary, legacy) = relogin_keys(s);
    "hint: no vault entry for this context (tried "@ + primary + ")."@ + match legacy {
        Some(k) => " and "@ + k,
        None => Seq::empty(),
    } + save_hint(s.login_type)
}

/// The prompt for typed-in credentials.
pub open spec fn credential_prompt(s: ReloginStateView) -> ReloginActionView {
    ReloginActionView::Prompt {
        token: s.token_auth,
        ask_target: s.login_type == LoginType::Rancher && !server_base(s.server).1,
        ask_provider: s.login_type == LoginType::Rancher,
    }
}

/// The provider stored with vault credentials, `local` by default.
pub open spec fn provider_or_local(p: Option<Seq<char>>) -> Seq<char> {
    match p {
        Some(x) => x,
        None => "local"@,
    }
}

/// The login with the vault's credentials: for Rancher against the base
/// of the proxy URL, keeping the cluster URL for the kubeconfig.
pub open spec fn vault_login(s: ReloginStateView, e: VaultEntryView) -> LoginRequestView {
    if s.login_type == LoginType::Rancher {
        relogin_view(
            s.login_type,
            server_base(s.server).0,
            s.context,
            AuthView::UserPass(e.username, e.password),
            s.insecure,
            Some((provider_or_local(e.rancher_auth_provider), s.server)),
        )
    } else {
        relogin_view(s.login_type, s.server, s.context, AuthView::UserPass(e.username, e.password), s.insecure, None)
    }
}

/// The login with typed-in credentials: for Rancher against the chosen
/// server with the chosen provider.
pub open spec fn attempt_login(s: ReloginStateView, a: AuthView) -> LoginRequestView {
    if s.login_type == LoginType::Rancher {
        relogin_view(
            s.login_type,
            s.target.unwrap(),
            s.context,
            a,
            s.insecure,
            Some((s.provider.unwrap(), s.server)),
        )
    } else {
        relogin_view(s.login_type, s.server, s.context, a, s.insecure, None)
    }
}

/// After a successful login with typed-in credentials: remember a username
/// and password for OpenShift and Rancher (for a Rancher retry, the first
/// ones typed in), else finish.
pub open spec fn after_success(s: ReloginStateView) -> (ReloginStateView, ReloginActionView) {
    match s.to_remember {
        Some(AuthView::UserPass(u, p)) => if s.login_type == LoginType::Rancher {
            (
                ReloginStateView { phase: ReloginPhase::Remembering, ..s },
                ReloginActionView::Remember {
                    key: "rancher:"@ + s.server,
                    entry: VaultEntryView { username: u, password: p, rancher_auth_provider: s.provider },
                },
            )
        } else if s.login_type == LoginType::Ocp {
            (
                ReloginStateView { phase: ReloginPhase::Remembering, ..s },
                ReloginActionView::Remember {
                    key: "ocp:"@ + s.server,
                    entry: VaultEntryView { username: u, password: p, rancher_auth_provider: None },
                },
            )
        } else {
            (ReloginStateView { phase: ReloginPhase::Done, ..s }, ReloginActionView::Finish)
        },
        _ => (ReloginStateView { phase: ReloginPhase::Done, ..s }, ReloginActionView::Finish),
    }
}

/// Giving up.
pub open spec fn give_up(s: ReloginStateView) -> (ReloginStateView, ReloginActionView) {
    (ReloginStateView { phase: ReloginPhase::Failed, ..s }, ReloginActionView::Fail)
}

/// The server an interactive Rancher login signs in to: the base of the
/// proxy URL, else the one typed in.
pub open spec fn rancher_target(s: ReloginStateView, typed: Option<Seq<char>>) -> Option<Seq<char>> {
    if server_base(s.server).1 {
        Some(server_base(s.server).0)
    } else {
        typed
    }
}

/// A re-login's state is well formed: once a Rancher login with typed-in
/// credentials is under way, its server and auth provider are known.
pub open spec fn relogin_wf(s: ReloginStateView) -> bool {
    s.login_type == LoginType::Rancher && (s.phase == ReloginPhase::FirstTry || s.phase == ReloginPhase::RetryAsked
        || s.phase == ReloginPhase::AskingAgain || s.phase == ReloginPhase::LastTry || s.phase
        == ReloginPhase::Remembering) ==> s.target is Some && s.provider is Some
}

/// The first state and action of a re-login.
pub open spec fn relogin_begin(
    login_type: LoginType,
    server: Seq<char>,
    context: Seq<char>,
    insecure: bool,
    token_auth: bool,
) -> (ReloginStateView, ReloginActionView) {
    let s = ReloginStateView {
        login_type,
        server,
        context,
        insecure,
        token_auth,
        phase: ReloginPhase::Lookup,
        target: None,
        provider: None,
        to_remember: None,
    };
    match login_type {
        LoginType::Rancher | LoginType::Ocp => (s, ReloginActionView::LookUpVault),
        LoginType::Gke => (
            ReloginStateView { phase: ReloginPhase::LastTry, ..s },
            ReloginActionView::LogIn(relogin_view(login_type, server, context, AuthView::Plugin, insecure, None)),
        ),
        LoginType::K8s => (ReloginStateView { phase: ReloginPhase::Asking, ..s }, credential_prompt(s)),
    }
}

/// The next state and action of a re-login, given what came of the last
/// action.
pub open spec fn relogin_next(s: ReloginStateView, e: ReloginEventView) -> (ReloginStateView, ReloginActionView) {
    match (s.phase, e) {
        (ReloginPhase::Lookup, ReloginEventView::VaultLookup { entry, has_keys }) => match entry {
            Some(v) => if s.login_type == LoginType::Rancher && !server_base(s.server).1 {
                (ReloginStateView { phase: ReloginPhase::Hinted, ..s }, ReloginActionView::Hint(not_proxy_hint()))
            } else {
                (ReloginStateView { phase: ReloginPhase::FromVault, ..s }, ReloginActionView::LogIn(vault_login(s, v)))
            },
            None => if has_keys {
                (ReloginStateView { phase: ReloginPhase::Hinted, ..s }, ReloginActionView::Hint(missing_hint(s)))
            } else {
                (ReloginStateView { phase: ReloginPhase::Asking, ..s }, credential_prompt(s))
            },
        },
        (ReloginPhase::Hinted, ReloginEventView::Ack) => (
            ReloginStateView { phase: ReloginPhase::Asking, ..s },
            credential_prompt(s),
        ),
        (ReloginPhase::FromVault, ReloginEventView::LoginOk) => (
            ReloginStateView { phase: ReloginPhase::Done, ..s },
            ReloginActionView::Finish,
        ),
        (ReloginPhase::FromVault, ReloginEventView::LoginErr(_)) => (
            ReloginStateView { phase: ReloginPhase::Asking, ..s },
            credential_prompt(s),
        ),
        (ReloginPhase::Asking, ReloginEventView::Credentials { auth, target, provider }) => {
            if s.login_type == LoginType::Rancher {
                let t = rancher_target(s, target);
                if t is Some && provider is Some {
                    let s2 = ReloginStateView {
                        phase: ReloginPhase::FirstTry,
                        target: t,
                        provider,
                        to_remember: Some(auth),
                        ..s
                    };
                    (s2, ReloginActionView::LogIn(attempt_login(s2, auth)))
                } else {
                    give_up(s)
                }
            } else {
                let s2 = ReloginStateView { phase: ReloginPhase::FirstTry, to_remember: Some(auth), ..s };
                (s2, ReloginActionView::LogIn(attempt_login(s2, auth)))
            }
        },
        (ReloginPhase::FirstTry, ReloginEventView::LoginOk) => after_success(s),
        (ReloginPhase::FirstTry, ReloginEventView::LoginErr(m)) => {
            if contains_seq(m, "401"@) || contains_seq(m, "Unauthorized"@) || (s.login_type
                == LoginType::Ocp && contains_seq(m, "oc login failed"@)) {
                (ReloginStateView { phase: ReloginPhase::RetryAsked, ..s }, ReloginActionView::AskRetry)
            } else {
                give_up(s)
            }
        },
        (ReloginPhase::RetryAsked, ReloginEventView::RetryAnswer(yes)) => if yes {
            (
                ReloginStateView { phase: ReloginPhase::AskingAgain, ..s },
                ReloginActionView::Prompt { token: s.token_auth, ask_target: false, ask_provider: false },
            )
        } else {
            give_up(s)
        },
        (ReloginPhase::AskingAgain, ReloginEventView::Credentials { auth, .. }) => {
            let s2 = ReloginStateView {
                phase: ReloginPhase::LastTry,
                to_remember: if s.login_type == LoginType::Rancher {
                    s.to_remember
                } else {
                    Some(auth)
                },
                ..s
            };
            (s2, ReloginActionView::LogIn(attempt_login(s2, auth)))
        },
        (ReloginPhase::LastTry, ReloginEventView::LoginOk) => after_success(s),
        (ReloginPhase::Remembering, ReloginEventView::Ack) => (
            ReloginStateView { phase: ReloginPhase::Done, ..s },
            ReloginActionView::Finish,
        ),
        _ => give_up(s),
    }
}

impl ReloginState {
    /// A copy of the state in another phase.
    pub fn in_phase(&self, phase: ReloginPhase) -> (r: ReloginState)
        ensures
            r@ == (ReloginStateView { phase, ..self@ }),
    {
        ReloginState {
            login_type: self.login_type,
            server: owned(self.server.as_str()),
            context: owned(self.context.as_str()),
            insecure: self.insecure,
            token_auth: self.token_auth,
            phase,
            target: copy_opt_str(&self.target),
            provider: copy_opt_str(&self.provider),
            to_remember: match &self.to_remember {
                Some(a) => Some(a.copy()),
                None => None,
            },
        }
    }
}

/// The prompt for typed-in credentials.
fn prompt_action(s: &ReloginState) -> (r: ReloginAction)
    ensures
        r@ == credential_prompt(s@),
{
    let rancher = s.login_type == LoginType::Rancher;
    let (_, is_proxy) = rancher_server_base_url(s.server.as_str());
    ReloginAction::Prompt { token: s.token_auth, ask_target: rancher && !is_proxy, ask_provider: rancher }
}

/// Moving to a phase with an action.
fn go(s: &ReloginState, phase: ReloginPhase, a: ReloginAction) -> (r: (ReloginState, ReloginAction))
    ensures
        r.0@ == (ReloginStateView { phase, ..s@ }),
        r.1@ == a@,
{
    (s.in_phase(phase), a)
}

/// The login with the vault's credentials.
fn vault_login_request(s: &ReloginState, e: &VaultEntry) -> (r: LoginRequest)
    ensures
        r@ == vault_login(s@, e@),
{
    let auth = ReloginAuth::UserPass(owned(e.username.as_str()), owned(e.password.as_str()));
    if s.login_type == LoginType::Rancher {
        let (base, _) = rancher_server_base_url(s.server.as_str());
        let provider = match &e.rancher_auth_provider {
            Some(p) => owned(p.as_str()),
            None => owned("local"),
        };
        let r = RancherRelogin { provider, cluster_server: owned(s.server.as_str()) };
        relogin_request(s.login_type, base.as_str(), s.context.as_str(), &auth, s.insecure, Some(&r))
    } else {
        relogin_request(s.login_type, s.server.as_str(), s.context.as_str(), &auth, s.insecure, None)
    }
}

/// The login with typed-in credentials.
fn attempt_request(s: &ReloginState, a: &ReloginAuth) -> (r: LoginRequest)
    requires
        s.login_type == LoginType::Rancher ==> s.target is Some && s.provider is Some,
    ensures
        r@ == attempt_login(s@, a@),
{
    if s.login_type == LoginType::Rancher {
        let target = match &s.target {
            Some(t) => t.as_str(),
            None => s.server.as_str(),
        };
        let provider = match &s.provider {
            Some(p) => owned(p.as_str()),
            None => owned("local"),
        };
        let r = RancherRelogin { provider, cluster_server: owned(s.server.as_str()) };
        relogin_request(s.login_type, target, s.context.as_str(), a, s.insecure, Some(&r))
    } else {
        relogin_request(s.login_type, s.server.as_str(), s.context.as_str(), a, s.insecure, None)
    }
}

/// After a successful login with typed-in credentials.
fn succeed(s: &ReloginState) -> (r: (ReloginState, ReloginAction))
    ensures
        r.0@ == after_success(s@).0,
        r.1@ == after_success(s@).1,
{
    match &s.to_remember {
        Some(ReloginAuth::UserPass(u, p)) => {
            if s.login_type == LoginType::Rancher {
                let entry = VaultEntry {
                    username: owned(u.as_str()),
                    password: owned(p.as_str()),
                    rancher_auth_provider: copy_opt_str(&s.provider),
                };
                go(s, ReloginPhase::Remembering, ReloginAction::Remember { key: concat("rancher:", s.server.as_str()), entry })
            } else if s.login_type == LoginType::Ocp {
                let entry = VaultEntry {
                    username: owned(u.as_str()),
                    password: owned(p.as_str()),
                    rancher_auth_provider: None,
                };
                go(s, ReloginPhase::Remembering, ReloginAction::Remember { key: concat("ocp:", s.server.as_str()), entry })
            } else {
                go(s, ReloginPhase::Done, ReloginAction::Finish)
            }
        },
        _ => go(s, ReloginPhase::Done, ReloginAction::Finish),
    }
}

/// Starts the re-login of `context`, whose kubeconfig names `server`.
pub fn relogin_start(login_type: LoginType, server: &str, context: &str, insecure: bool, token_auth: bool) -> (r: (
    ReloginState,
    ReloginAction,
))
    ensures
        r.0@ == relogin_begin(login_type, server@, context@, insecure, token_auth).0,
        r.1@ == relogin_begin(login_type, server@, context@, insecure, token_auth).1,
        relogin_wf(r.0@),
{
    let s = ReloginState {
        login_type,
        server: owned(server),
        context: owned(context),
        insecure,
        token_auth,
        phase: ReloginPhase::Lookup,
        target: None,
        provider: None,
        to_remember: None,
    };
    match login_type {
        LoginType::Rancher | LoginType::Ocp => (s, ReloginAction::LookUpVault),
        LoginType::Gke => {
            let req = relogin_request(login_type, server, context, &ReloginAuth::Plugin, insecure, None);
            go(&s, ReloginPhase::LastTry, ReloginAction::LogIn(req))
        },
        LoginType::K8s => {
            let a = prompt_action(&s);
            go(&s, ReloginPhase::Asking, a)
        },
    }
}

/// The vault's answer for a re-login: the credentials under the first key
/// tried that has any, and whether the vault holds credentials at all.
pub fn relogin_vault_event(vault: &Vault, s: &ReloginState) -> (r: ReloginEvent)
    requires
        vault.wf(),
    ensures
        r@ == (ReloginEventView::VaultLookup {
            entry: if vault@.contains_key(relogin_keys(s@).0) {
                Some(vault@[relogin_keys(s@).0])
            } else {
                match relogin_keys(s@).1 {
                    Some(k) => if vault@.contains_key(k) {
                        Some(vault@[k])
                    } else {
                        None
                    },
                    None => None,
                }
            },
            has_keys: vault@.dom() != Set::<Seq<char>>::empty(),
        }),
{
    let (primary, legacy) = if s.login_type == LoginType::Rancher {
        rancher_relogin_vault_keys(s.server.as_str(), s.context.as_str())
    } else {
        (concat("ocp:", s.server.as_str()), None)
    };
    let entry = match vault.get(primary.as_str()) {
        Some(e) => Some(e),
        None => match &legacy {
            Some(k) => vault.get(k.as_str()),
            None => None,
        },
    };
    let keys = vault.list_keys();
    let has_keys = keys.len() > 0;
    proof {
        let ks = keys@.map_values(|k: &str| k@);
        if has_keys {
            assert(ks.to_set().contains(ks[0]));
            assert(vault@.dom().contains(ks[0]));
        } else {
            assert(ks.to_set() =~= Set::<Seq<char>>::empty());
        }
    }
    ReloginEvent::VaultLookup { entry, has_keys }
}

/// One step of a re-login: the next state and action, given what came of
/// the last action.
pub fn relogin_step(state: &ReloginState, event: &ReloginEvent) -> (r: (ReloginState, ReloginAction))
    requires
        relogin_wf(state@),
    ensures
        relogin_wf(r.0@),
        r.0@ == relogin_next(state@, event@).0,
        r.1@ == relogin_next(state@, event@).1,
{
    let s = state;
    match (s.phase, event) {
        (ReloginPhase::Lookup, ReloginEvent::VaultLookup { entry, has_keys }) => match entry {
            Some(v) => {
                let (_, is_proxy) = rancher_server_base_url(s.server.as_str());
                if s.login_type == LoginType::Rancher && !is_proxy {
                    let h = owned(
                        "hint: vault entry exists but kubeconfig server is not a Rancher proxy URL; silent re-login skipped. Use: k8pk login --type rancher",
                    );
                    go(s, ReloginPhase::Hinted, ReloginAction::Hint(h))
                } else {
                    let req = vault_login_request(s, v);
                    go(s, ReloginPhase::FromVault, ReloginAction::LogIn(req))
                }
            },
            None => if *has_keys {
                let (primary, legacy) = if s.login_type == LoginType::Rancher {
                    rancher_relogin_vault_keys(s.server.as_str(), s.context.as_str())
                } else {
                    (concat("ocp:", s.server.as_str()), None)
                };
                let tried = match &legacy {
                    Some(k) => missing_vault_hint(primary.as_str(), Some(k.as_str())),
                    None => missing_vault_hint(primary.as_str(), None),
                };
                let save = if s.login_type == LoginType::Rancher {
                    "\n      Save credentials with: k8pk login --type rancher --auth userpass <rancher-url> --use-vault"
                } else {
                    " Save with: k8pk login ... --use-vault"
                };
                let h = concat(tried.as_str(), save);
                go(s, ReloginPhase::Hinted, ReloginAction::Hint(h))
            } else {
                let a = prompt_action(s);
                go(s, ReloginPhase::Asking, a)
            },
        },
        (ReloginPhase::Hinted, ReloginEvent::Ack) => {
            let a = prompt_action(s);
            go(s, ReloginPhase::Asking, a)
        },
        (ReloginPhase::FromVault, ReloginEvent::LoginOk) => go(s, ReloginPhase::Done, ReloginAction::Finish),
        (ReloginPhase::FromVault, ReloginEvent::LoginErr(_)) => {
            let a = prompt_action(s);
            go(s, ReloginPhase::Asking, a)
        },
        (ReloginPhase::Asking, ReloginEvent::Credentials { auth, target, provider }) => {
            if s.login_type == LoginType::Rancher {
                let (base, is_proxy) = rancher_server_base_url(s.server.as_str());
                let t = if is_proxy {
                    Some(base)
                } else {
                    copy_opt_str(target)
                };
                if t.is_some() && provider.is_some() {
                    let mut s2 = s.in_phase(ReloginPhase::FirstTry);
                    s2.target = t;
                    s2.provider = copy_opt_str(provider);
                    s2.to_remember = Some(auth.copy());
                    let req = attempt_request(&s2, auth);
                    (s2, ReloginAction::LogIn(req))
                } else {
                    go(s, ReloginPhase::Failed, ReloginAction::Fail)
                }
            } else {
                let mut s2 = s.in_phase(ReloginPhase::FirstTry);
                s2.to_remember = Some(auth.copy());
                let req = attempt_request(&s2, auth);
                (s2, ReloginAction::LogIn(req))
            }
        },
        (ReloginPhase::FirstTry, ReloginEvent::LoginOk) => succeed(s),
        (ReloginPhase::FirstTry, ReloginEvent::LoginErr(m)) => {
            if is_auth_failure(m.as_str(), s.login_type == LoginType::Ocp) {
                go(s, ReloginPhase::RetryAsked, ReloginAction::AskRetry)
            } else {
                go(s, ReloginPhase::Failed, ReloginAction::Fail)
            }
        },
        (ReloginPhase::RetryAsked, ReloginEvent::RetryAnswer(yes)) => if *yes {
            go(
                s,
                ReloginPhase::AskingAgain,
                ReloginAction::Prompt { token: s.token_auth, ask_target: false, ask_provider: false },
            )
        } else {
            go(s, ReloginPhase::Failed, ReloginAction::Fail)
        },
        (ReloginPhase::AskingAgain, ReloginEvent::Credentials { auth, .. }) => {
            let mut s2 = s.in_phase(ReloginPhase::LastTry);
            if s.login_type != LoginType::Rancher {
                s2.to_remember = Some(auth.copy());
            }
            let req = attempt_request(&s2, auth);
            (s2, ReloginAction::LogIn(req))
        },
        (ReloginPhase::LastTry, ReloginEvent::LoginOk) => succeed(s),
        (ReloginPhase::Remembering, ReloginEvent::Ack) => go(s, ReloginPhase::Done, ReloginAction::Finish),
        _ => go(s, ReloginPhase::Failed, ReloginAction::Fail),
    }
}

} // verus!
