//! The operator's settings, and the endpoints that follow from them.
use crate::text::{
    law_without_trailing, law_without_trailing_keeps_rest, trim_end_matches, without_trailing,
};
use vstd::prelude::*;

verus! {

/// The public GitHub web base, which the authorize and the token endpoint default to.
pub const GITHUB_WEB_BASE: &'static str = "https://github.com";

/// The operator's settings. The client secret is deliberately not among them: the core holds it.
#[derive(Debug, Clone, PartialEq)]
pub struct GitHubConfig {
    /// The client id of the GitHub app.
    pub client_id: String,
    /// The OAuth scopes to ask for. `read:org` is what lets the org memberships be listed.
    pub scopes: Vec<String>,
    /// The REST API base; for GitHub Enterprise Server `https://<host>/api/v3`.
    pub api_base: String,
    /// The web base of the authorize endpoint; for GitHub Enterprise Server `https://<host>`.
    pub authorize_base: String,
    /// The web base of the token endpoint; for GitHub Enterprise Server `https://<host>`.
    pub token_base: String,
    /// Whether the org memberships are fetched and become groups.
    pub fetch_orgs: bool,
    /// One more trusted root certificate, for a server behind an internal authority. The core makes
    /// the requests, so nothing here reads it.
    pub ca_cert_pem: Option<String>,
}

/// A [`GitHubConfig`] in plain values.
pub struct ConfigView {
    pub client_id: Seq<char>,
    pub scopes: Seq<Seq<char>>,
    pub api_base: Seq<char>,
    pub authorize_base: Seq<char>,
    pub token_base: Seq<char>,
    pub fetch_orgs: bool,
    pub ca_cert_pem: Option<Seq<char>>,
}

impl View for GitHubConfig {
    type V = ConfigView;

    open spec fn view(&self) -> ConfigView {
        ConfigView {
            client_id: self.client_id@,
            scopes: self.scopes.deep_view(),
            api_base: self.api_base@,
            authorize_base: self.authorize_base@,
            token_base: self.token_base@,
            fetch_orgs: self.fetch_orgs,
            ca_cert_pem: self.ca_cert_pem.deep_view(),
        }
    }
}

impl ConfigView {
    /// The authorize endpoint.
    pub open spec fn authorize_endpoint(self) -> Seq<char> {
        without_trailing(self.authorize_base, '/') + "/login/oauth/authorize"@
    }

    /// The token endpoint.
    pub open spec fn token_endpoint(self) -> Seq<char> {
        without_trailing(self.token_base, '/') + "/login/oauth/access_token"@
    }

    /// The endpoint of the signed-in user's profile.
    pub open spec fn user_endpoint(self) -> Seq<char> {
        without_trailing(self.api_base, '/') + "/user"@
    }

    /// The endpoint of the signed-in user's orgs, with the page size at its maximum.
    pub open spec fn orgs_endpoint(self) -> Seq<char> {
        without_trailing(self.api_base, '/') + "/user/orgs?per_page=100"@
    }
}

/// The default scopes: `read:org` lists the memberships, `read:user` reads the profile.
pub fn default_scopes() -> (r: Vec<String>)
    ensures
        r.deep_view() == seq!["read:org"@, "read:user"@],
{
    vec!["read:org".to_string(), "read:user".to_string()]
}

/// The default REST API base.
pub fn default_api_base() -> (r: String)
    ensures
        r@ == "https://api.github.com"@,
{
    "https://api.github.com".to_string()
}

/// The default web base of the authorize endpoint.
pub fn default_authorize_base() -> (r: String)
    ensures
        r@ == GITHUB_WEB_BASE@,
{
    GITHUB_WEB_BASE.to_string()
}

/// The default web base of the token endpoint.
pub fn default_token_base() -> (r: String)
    ensures
        r@ == GITHUB_WEB_BASE@,
{
    GITHUB_WEB_BASE.to_string()
}

/// The default of `fetch_orgs`.
pub fn default_true() -> (r: bool)
    ensures
        r,
{
    true
}

/// A base without trailing slashes, with a path behind it.
fn endpoint(base: &str, path: &str) -> (r: String)
    ensures
        r@ == without_trailing(base@, '/') + path@,
{
    let mut out = trim_end_matches(base, '/').to_string();
    out.append(path);
    out
}

/// The authorize endpoint.
pub fn authorize_endpoint(cfg: &GitHubConfig) -> (r: String)
    ensures
        r@ == cfg@.authorize_endpoint(),
{
    endpoint(cfg.authorize_base.as_str(), "/login/oauth/authorize")
}

/// The token endpoint.
pub fn token_endpoint(cfg: &GitHubConfig) -> (r: String)
    ensures
        r@ == cfg@.token_endpoint(),
{
    endpoint(cfg.token_base.as_str(), "/login/oauth/access_token")
}

/// The endpoint of the signed-in user's profile.
pub fn user_endpoint(cfg: &GitHubConfig) -> (r: String)
    ensures
        r@ == cfg@.user_endpoint(),
{
    endpoint(cfg.api_base.as_str(), "/user")
}

/// The endpoint of the signed-in user's orgs. GitHub pages this list; the largest page holds 100
/// entries, and only the first page is read.
pub fn orgs_endpoint(cfg: &GitHubConfig) -> (r: String)
    ensures
        r@ == cfg@.orgs_endpoint(),
{
    endpoint(cfg.api_base.as_str(), "/user/orgs?per_page=100")
}

/// A slash at the end of a base makes no difference to an endpoint.
pub proof fn law_trailing_slashes(cfg: ConfigView)
    ensures
        ({
            let slashed = ConfigView {
                api_base: cfg.api_base.push('/'),
                authorize_base: cfg.authorize_base.push('/'),
                token_base: cfg.token_base.push('/'),
                ..cfg
            };
            &&& slashed.authorize_endpoint() == cfg.authorize_endpoint()
            &&& slashed.token_endpoint() == cfg.token_endpoint()
            &&& slashed.user_endpoint() == cfg.user_endpoint()
            &&& slashed.orgs_endpoint() == cfg.orgs_endpoint()
        }),
{
    law_without_trailing(cfg.api_base, '/');
    law_without_trailing(cfg.authorize_base, '/');
    law_without_trailing(cfg.token_base, '/');
}

/// An endpoint is its base in full, any slashes at its end aside, and then its path. The bases do not
/// mix: authorizing, the token and the REST API each have their own.
pub proof fn law_endpoints(cfg: ConfigView, base: Seq<char>, slashes: Seq<char>)
    requires
        base.len() > 0 ==> base.last() != '/',
        forall|i: int| 0 <= i < slashes.len() ==> slashes[i] == '/',
    ensures
        cfg.authorize_base == base + slashes ==> cfg.authorize_endpoint() == base
            + "/login/oauth/authorize"@,
        cfg.token_base == base + slashes ==> cfg.token_endpoint() == base
            + "/login/oauth/access_token"@,
        cfg.api_base == base + slashes ==> cfg.user_endpoint() == base + "/user"@,
        cfg.api_base == base + slashes ==> cfg.orgs_endpoint() == base + "/user/orgs?per_page=100"@,
{
    law_without_trailing_keeps_rest(base, slashes, '/');
}

/// The view of the settings leaves nothing out.
pub proof fn law_config_view(cfg: GitHubConfig)
    ensures
        cfg@.client_id == cfg.client_id@,
        cfg@.scopes.len() == cfg.scopes@.len(),
        forall|i: int| 0 <= i < cfg.scopes@.len() ==> #[trigger] cfg@.scopes[i] == cfg.scopes@[i]@,
        cfg@.api_base == cfg.api_base@,
        cfg@.authorize_base == cfg.authorize_base@,
        cfg@.token_base == cfg.token_base@,
        cfg@.fetch_orgs == cfg.fetch_orgs,
        cfg@.ca_cert_pem == cfg.ca_cert_pem.deep_view(),
{
}

} // verus!
