//! The requests that the core makes in the course of a login.
use crate::config::{orgs_endpoint, token_endpoint, user_endpoint, ConfigView, GitHubConfig};
use crate::login::{HopView, LoginHop};
use vstd::prelude::*;

verus! {

/// The token exchange. Its `client_secret` field is empty, and named as the one that the core fills.
pub open spec fn token_exchange(
    cfg: ConfigView,
    code: Seq<char>,
    redirect_uri: Seq<char>,
    code_verifier: Seq<char>,
) -> HopView {
    HopView {
        method: "POST"@,
        url: cfg.token_endpoint(),
        form: seq![
            ("client_id"@, cfg.client_id),
            ("code"@, code),
            ("redirect_uri"@, redirect_uri),
            ("code_verifier"@, code_verifier),
            ("client_secret"@, Seq::empty()),
        ],
        secret_form_field: Some("client_secret"@),
        headers: Seq::empty(),
    }
}

/// The headers of a request made with an access token.
pub open spec fn bearer_headers(access_token: Seq<char>) -> Seq<(Seq<char>, Seq<char>)> {
    seq![
        ("Authorization"@, "Bearer "@ + access_token),
        ("User-Agent"@, "busbar"@),
        ("Accept"@, "application/vnd.github+json"@),
    ]
}

/// A request for `url` made with an access token: no form, no secret.
pub open spec fn bearer_get(url: Seq<char>, access_token: Seq<char>) -> HopView {
    HopView {
        method: "GET"@,
        url,
        form: Seq::empty(),
        secret_form_field: None,
        headers: bearer_headers(access_token),
    }
}

/// The request for the signed-in user's profile.
pub open spec fn userinfo_get(cfg: ConfigView, access_token: Seq<char>) -> HopView {
    bearer_get(cfg.user_endpoint(), access_token)
}

/// The request for the signed-in user's orgs.
pub open spec fn orgs_get(cfg: ConfigView, access_token: Seq<char>) -> HopView {
    bearer_get(cfg.orgs_endpoint(), access_token)
}

/// Builds the token exchange. The module writes the name of the secret's field; the value is the core's
/// to fill in. No header is set, so the reply may come as JSON or form-encoded.
pub fn build_token_exchange(
    cfg: &GitHubConfig,
    code: &str,
    redirect_uri: &str,
    code_verifier: &str,
) -> (r: LoginHop)
    ensures
        r@ == token_exchange(cfg@, code@, redirect_uri@, code_verifier@),
{
    LoginHop {
        method: "POST".to_string(),
        url: token_endpoint(cfg),
        form: vec![
            ("client_id".to_string(), cfg.client_id.clone()),
            ("code".to_string(), code.to_string()),
            ("redirect_uri".to_string(), redirect_uri.to_string()),
            ("code_verifier".to_string(), code_verifier.to_string()),
            ("client_secret".to_string(), String::new()),
        ],
        secret_form_field: Some("client_secret".to_string()),
        headers: Vec::new(),
    }
}

/// The headers of a request made with an access token: the bearer, the user agent that GitHub insists
/// on, and the media type that it recommends.
pub fn userinfo_headers(access_token: &str) -> (r: Vec<(String, String)>)
    ensures
        r.deep_view() == bearer_headers(access_token@),
{
    let mut bearer = "Bearer ".to_string();
    bearer.append(access_token);
    vec![
        ("Authorization".to_string(), bearer),
        ("User-Agent".to_string(), "busbar".to_string()),
        ("Accept".to_string(), "application/vnd.github+json".to_string()),
    ]
}

/// Builds the request for the signed-in user's profile.
pub fn build_userinfo_get(cfg: &GitHubConfig, access_token: &str) -> (r: LoginHop)
    ensures
        r@ == userinfo_get(cfg@, access_token@),
{
    LoginHop {
        method: "GET".to_string(),
        url: user_endpoint(cfg),
        form: Vec::new(),
        secret_form_field: None,
        headers: userinfo_headers(access_token),
    }
}

/// Builds the request for the signed-in user's orgs.
pub fn build_orgs_get(cfg: &GitHubConfig, access_token: &str) -> (r: LoginHop)
    ensures
        r@ == orgs_get(cfg@, access_token@),
{
    LoginHop {
        method: "GET".to_string(),
        url: orgs_endpoint(cfg),
        form: Vec::new(),
        secret_form_field: None,
        headers: userinfo_headers(access_token),
    }
}

/// The token exchange posts, to the token endpoint, the client id and what the callback brought, each
/// once and in full, beside an empty field for the secret, which it names; and it sets no header.
pub proof fn law_token_exchange(
    cfg: ConfigView,
    code: Seq<char>,
    redirect_uri: Seq<char>,
    code_verifier: Seq<char>,
)
    ensures
        ({
            let hop = token_exchange(cfg, code, redirect_uri, code_verifier);
            &&& hop.method == "POST"@
            &&& hop.url == cfg.token_endpoint()
            &&& hop.form.len() == 5
            &&& hop.form[0] == ("client_id"@, cfg.client_id)
            &&& hop.form[1] == ("code"@, code)
            &&& hop.form[2] == ("redirect_uri"@, redirect_uri)
            &&& hop.form[3] == ("code_verifier"@, code_verifier)
            &&& hop.form[4].0 == "client_secret"@ && hop.form[4].1.len() == 0
            &&& hop.secret_form_field == Some("client_secret"@)
            &&& hop.headers.len() == 0
        }),
{
}

/// The profile and the orgs are each got from their endpoint, with the access token in full as the
/// bearer, the user agent and the media type as the headers, and with no form and no secret.
pub proof fn law_bearer_gets(cfg: ConfigView, access_token: Seq<char>)
    ensures
        userinfo_get(cfg, access_token).url == cfg.user_endpoint(),
        orgs_get(cfg, access_token).url == cfg.orgs_endpoint(),
        forall|hop: HopView|
            hop == userinfo_get(cfg, access_token) || hop == orgs_get(cfg, access_token) ==> {
                &&& (#[trigger] hop.method) == "GET"@
                &&& hop.form.len() == 0
                &&& hop.secret_form_field is None
                &&& hop.headers.len() == 3
                &&& hop.headers[0] == ("Authorization"@, "Bearer "@ + access_token)
                &&& hop.headers[1] == ("User-Agent"@, "busbar"@)
                &&& hop.headers[2] == ("Accept"@, "application/vnd.github+json"@)
            },
        bearer_headers(access_token) == userinfo_get(cfg, access_token).headers,
        bearer_headers(access_token) == orgs_get(cfg, access_token).headers,
{
}

} // verus!
