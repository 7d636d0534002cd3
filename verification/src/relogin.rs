//! Re-login after an expired session: the choices offered, the requests
//! made, and how a failure is read.

use vstd::prelude::*;
use crate::login::{request_for, LoginRequest, LoginRequestView, LoginType};
use crate::rancher::{rancher_server_base_url, server_base};
use crate::text::{concat, contains_seq, owned, str_contains, str_eq};

verus! {

/// What a re-login authenticates with.
#[derive(Debug)]
pub enum ReloginAuth {
    /// A bearer token.
    Token(String),
    /// A username and password.
    UserPass(String, String),
    /// Nothing typed in: the cluster's own plugin signs in (GKE).
    Plugin,
}

/// What a re-login authenticates with, as text.
pub enum AuthView {
    Token(Seq<char>),
    UserPass(Seq<char>, Seq<char>),
    Plugin,
}

impl View for ReloginAuth {
    type V = AuthView;

    open spec fn view(&self) -> AuthView {
        match self {
            ReloginAuth::Token(t) => AuthView::Token(t@),
            ReloginAuth::UserPass(u, p) => AuthView::UserPass(u@, p@),
            ReloginAuth::Plugin => AuthView::Plugin,
        }
    }
}

impl ReloginAuth {
    /// A copy of the credentials.
    pub fn copy(&self) -> (r: ReloginAuth)
        ensures
            r@ == self@,
    {
        match self {
            ReloginAuth::Token(t) => ReloginAuth::Token(owned(t.as_str())),
            ReloginAuth::UserPass(u, p) => ReloginAuth::UserPass(owned(u.as_str()), owned(p.as_str())),
            ReloginAuth::Plugin => ReloginAuth::Plugin,
        }
    }
}

/// The Rancher details of a re-login: the auth provider and the cluster URL
/// that the kubeconfig keeps.
#[derive(Debug)]
pub struct RancherRelogin {
    pub provider: String,
    pub cluster_server: String,
}

/// The request a re-login of `context` makes against `server`; for Rancher
/// with the auth provider and the cluster URL the kubeconfig keeps.
pub open spec fn relogin_view(
    login_type: LoginType,
    server: Seq<char>,
    context: Seq<char>,
    auth: AuthView,
    insecure: bool,
    rancher: Option<(Seq<char>, Seq<char>)>,
) -> LoginRequestView {
    let base = LoginRequestView {
        login_type: Some(login_type),
        name: Some(context),
        insecure,
        ..request_for(server)
    };
    let with_auth = match auth {
        AuthView::Token(t) => LoginRequestView { token: Some(t), auth: "token"@, ..base },
        AuthView::UserPass(u, p) => LoginRequestView {
            username: Some(u),
            password: Some(p),
            auth: "userpass"@,
            ..base
        },
        AuthView::Plugin => base,
    };
    match rancher {
        Some((provider, cluster_server)) => LoginRequestView {
            rancher_auth_provider: provider,
            rancher_cluster_server: Some(cluster_server),
            ..with_auth
        },
        None => with_auth,
    }
}

/// The login request of a re-login.
pub fn relogin_request(
    login_type: LoginType,
    server: &str,
    context: &str,
    auth: &ReloginAuth,
    insecure: bool,
    rancher: Option<&RancherRelogin>,
) -> (r: LoginRequest)
    ensures
        r@ == relogin_view(
            login_type,
            server@,
            context@,
            auth@,
            insecure,
            match rancher {
                Some(x) => Some((x.provider@, x.cluster_server@)),
                None => None,
            },
        ),
{
    let req = LoginRequest::new(server).with_type(login_type).with_name(context);
    let req = match auth {
        ReloginAuth::Token(t) => req.with_token(t.as_str()).with_auth("token"),
        ReloginAuth::UserPass(u, p) => req.with_credentials(u.as_str(), p.as_str()).with_auth("userpass"),
        ReloginAuth::Plugin => req,
    };
    let req = req.with_insecure(insecure);
    match rancher {
        Some(x) => req.with_rancher_auth_provider(x.provider.as_str()).with_rancher_cluster_server(
            x.cluster_server.as_str(),
        ),
        None => req,
    }
}

/// The cluster type picked from the re-login menu; `None` for the generic
/// choice.
pub fn relogin_type_choice(choice: &str) -> (r: Option<LoginType>)
    ensures
        r == (if choice@ == "ocp (OpenShift)"@ {
            Some(LoginType::Ocp)
        } else if choice@ == "rancher"@ {
            Some(LoginType::Rancher)
        } else if choice@ == "gke"@ {
            Some(LoginType::Gke)
        } else {
            None
        }),
{
    if str_eq(choice, "ocp (OpenShift)") {
        Some(LoginType::Ocp)
    } else if str_eq(choice, "rancher") {
        Some(LoginType::Rancher)
    } else if str_eq(choice, "gke") {
        Some(LoginType::Gke)
    } else {
        None
    }
}

/// The Rancher auth provider picked from the account-type menu.
pub fn rancher_provider_choice(choice: &str) -> (r: &'static str)
    ensures
        r@ == (if choice@ == "local (built-in users)"@ {
            "local"@
        } else if choice@ == "Active Directory"@ {
            "activedirectory"@
        } else if choice@ == "OpenLDAP"@ {
            "openldap"@
        } else if choice@ == "FreeIPA"@ {
            "freeipa"@
        } else if choice@ == "Azure AD"@ {
            "azuread"@
        } else {
            "auto"@
        }),
{
    if str_eq(choice, "local (built-in users)") {
        "local"
    } else if str_eq(choice, "Active Directory") {
        "activedirectory"
    } else if str_eq(choice, "OpenLDAP") {
        "openldap"
    } else if str_eq(choice, "FreeIPA") {
        "freeipa"
    } else if str_eq(choice, "Azure AD") {
        "azuread"
    } else {
        "auto"
    }
}

/// Whether a failed login's message shows that the credentials were
/// refused (so that new ones are worth asking for); for OpenShift a failed
/// `oc login` counts too.
pub fn is_auth_failure(message: &str, openshift: bool) -> (r: bool)
    ensures
        r == (contains_seq(message@, "401"@) || contains_seq(message@, "Unauthorized"@) || (openshift
            && contains_seq(message@, "oc login failed"@))),
{
    str_contains(message, "401") || str_contains(message, "Unauthorized") || (openshift && str_contains(
        message,
        "oc login failed",
    ))
}

/// The Rancher server a silent re-login from the vault signs in to: the
/// base of the cluster's proxy URL; none when the URL is not a proxy URL.
pub fn vault_relogin_server(server: &str) -> (r: Option<String>)
    ensures
        server_base(server@).1 ==> (r matches Some(b) && b@ == server_base(server@).0),
        !server_base(server@).1 ==> r is None,
{
    let (base, is_proxy) = rancher_server_base_url(server);
    if is_proxy {
        Some(base)
    } else {
        None
    }
}

/// The hint shown when the vault holds credentials, but none under the
/// keys tried.
pub fn missing_vault_hint(primary: &str, legacy: Option<&str>) -> (r: String)
    ensures
        r@ == "hint: no vault entry for this context (tried "@ + primary@ + ")."@ + match legacy {
            Some(k) => " and "@ + k@,
            None => Seq::empty(),
        },
{
    let a = concat("hint: no vault entry for this context (tried ", primary);
    let b = concat(a.as_str(), ").");
    match legacy {
        Some(k) => {
            let c = concat(" and ", k);
            concat(b.as_str(), c.as_str())
        },
        None => {
            assert(b@ + Seq::<char>::empty() =~= b@);
            b
        },
    }
}

/// The name under which a context's cluster type is saved.
pub fn login_type_name(t: LoginType) -> (r: &'static str)
    ensures
        r@ == match t {
            LoginType::Rancher => "rancher"@,
            LoginType::Ocp => "ocp"@,
            LoginType::Gke => "gke"@,
            LoginType::K8s => "k8s"@,
        },
{
    match t {
        LoginType::Rancher => "rancher",
        LoginType::Ocp => "ocp",
        LoginType::Gke => "gke",
        LoginType::K8s => "k8s",
    }
}

} // verus!
