//! GitHub sign-in for busbar.
//!
//! GitHub issues an opaque access token, so an identity comes from its REST API. The module describes
//! one request at a time, the core makes it and comes back with the reply: the token exchange, then the
//! profile, then the orgs, and then the user is known as `github:<login>` with the groups
//! `github:org/<org>`.
//!
//! - [`text`] and [`encoding`]: trimming, splitting, percent-encoding and form-decoding.
//! - [`json`]: documents, read with `serde_json`.
//! - [`config`]: the operator's settings and the endpoints.
//! - [`login`]: what passes between the core and the module.
//! - [`authorize`], [`hops`] and [`identity`]: the URL, the requests, and what the replies say.
//! - [`module`]: the login, step by step.
//! - [`plugin`]: how the module comes up.
pub mod authorize;
pub mod config;
pub mod encoding;
pub mod hops;
pub mod identity;
pub mod json;
pub mod laws;
pub mod login;
pub mod module;
pub mod plugin;
pub mod text;

pub use authorize::build_github_authorize_url;
pub use config::GitHubConfig;
pub use hops::{build_orgs_get, build_token_exchange, build_userinfo_get, userinfo_headers};
pub use identity::{
    build_principal, identity_from_user_and_orgs, parse_access_token, parse_org_groups, parse_user,
    GhUser,
};
pub use module::GithubModule;
