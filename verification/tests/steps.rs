//! A login step by step, and logins side by side.
use busbar_auth_github::config::{
    default_api_base, default_authorize_base, default_scopes, default_token_base,
};
use busbar_auth_github::login::{
    BeginLogin, CompleteLogin, LoginHttpResponse, LoginOutcome, Principal,
};
use busbar_auth_github::module::{correlation_key, read_reply, Reply};
use busbar_auth_github::plugin::open;
use busbar_auth_github::{
    build_orgs_get, build_userinfo_get, identity_from_user_and_orgs, GhUser, GitHubConfig, GithubModule,
};

fn cfg(fetch_orgs: bool) -> GitHubConfig {
    GitHubConfig {
        client_id: "Iv1.client".to_string(),
        scopes: default_scopes(),
        api_base: default_api_base(),
        authorize_base: default_authorize_base(),
        token_base: default_token_base(),
        fetch_orgs,
        ca_cert_pem: None,
    }
}

fn response(status: u16, body: &str) -> LoginHttpResponse {
    LoginHttpResponse { status, body: body.to_string() }
}

fn reply(verifier: &str, status: u16, body: &str) -> CompleteLogin {
    CompleteLogin {
        code_verifier: Some(verifier.to_string()),
        token_response: Some(response(status, body)),
        ..Default::default()
    }
}

fn user(login: &str) -> GhUser {
    GhUser { login: login.to_string(), name: None }
}

#[test]
fn replies_are_told_by_their_shape() {
    assert_eq!(read_reply(&response(199, r#"{"access_token":"t"}"#)), Reply::Failure);
    assert_eq!(read_reply(&response(300, r#"{"access_token":"t"}"#)), Reply::Failure);
    assert_eq!(read_reply(&response(299, r#"{"access_token":"t"}"#)), Reply::Token("t".to_string()));
    assert_eq!(read_reply(&response(200, "access_token=t")), Reply::Token("t".to_string()));
    assert_eq!(
        read_reply(&response(200, r#" [{"login":"a"}]"#)),
        Reply::Orgs(Some(vec!["github:org/a".to_string()]))
    );
    assert_eq!(read_reply(&response(200, "[{bad")), Reply::Orgs(None));
    assert_eq!(read_reply(&response(200, "[&access_token=t")), Reply::Orgs(None));
    assert_eq!(read_reply(&response(200, r#"{"login":"o","id":1}"#)), Reply::Profile(Some(user("o"))));
    assert_eq!(read_reply(&response(200, r#"{"error":"x"}"#)), Reply::Profile(None));
    assert_eq!(read_reply(&response(200, "")), Reply::Profile(None));
}

#[test]
fn keys_are_verifiers_or_codes() {
    let both = CompleteLogin {
        code: Some("c".to_string()),
        code_verifier: Some("v".to_string()),
        ..Default::default()
    };
    assert_eq!(correlation_key(&both).as_deref(), Some("v"));
    let code_only = CompleteLogin { code: Some("c".to_string()), ..Default::default() };
    assert_eq!(correlation_key(&code_only).as_deref(), Some("c"));
    // An empty verifier is as good as none: the code is the key then.
    let empty_verifier = CompleteLogin { code_verifier: Some(String::new()), ..both };
    assert_eq!(correlation_key(&empty_verifier).as_deref(), Some("c"));
    let empty_both = CompleteLogin { code: Some(String::new()), ..empty_verifier };
    assert_eq!(correlation_key(&empty_both), None);
    let verifier_only = CompleteLogin { code_verifier: Some("v".to_string()), ..empty_both };
    assert_eq!(correlation_key(&verifier_only).as_deref(), Some("v"));
}

#[test]
fn steps_on_given_replies() {
    let c = cfg(true);
    let mut module = GithubModule::new(c.clone());
    let out = module.advance("k", Reply::Token("t".to_string()));
    assert_eq!(out, LoginOutcome::Exchange(build_userinfo_get(&c, "t")));
    let out = module.advance("k", Reply::Profile(Some(user("o"))));
    assert_eq!(out, LoginOutcome::Exchange(build_orgs_get(&c, "t")));
    let out = module.advance("k", Reply::Orgs(Some(vec!["github:org/a".to_string()])));
    assert_eq!(
        out,
        LoginOutcome::Identify(Principal {
            id: "github:o".to_string(),
            name: Some("o".to_string()),
            roles: vec!["github:org/a".to_string()],
        })
    );
    assert_eq!(module.pending_len(), 0);
}

#[test]
fn refusals_leave_nothing_behind() {
    for bad in [Reply::Failure, Reply::Profile(None), Reply::Orgs(None), Reply::Orgs(Some(Vec::new()))] {
        let mut module = GithubModule::new(cfg(true));
        module.advance("k", Reply::Token("t".to_string()));
        assert_eq!(module.pending_len(), 1);
        assert_eq!(module.advance("k", bad), LoginOutcome::Reject);
        assert_eq!(module.pending_len(), 0);
    }
}

#[test]
fn the_callback_changes_nothing() {
    let mut module = GithubModule::new(cfg(true));
    module.complete_login(&reply("v", 200, r#"{"access_token":"t"}"#));
    let out = module.complete_login(&CompleteLogin {
        code: Some("c".to_string()),
        redirect_uri: Some("https://b/cb".to_string()),
        code_verifier: Some("v".to_string()),
        ..Default::default()
    });
    assert!(matches!(out, LoginOutcome::Exchange(_)));
    assert_eq!(module.pending_len(), 1);
}

#[test]
fn orgs_are_orgs_whatever_text_they_hold() {
    let mut module = GithubModule::new(cfg(true));
    module.complete_login(&reply("cv", 200, r#"{"access_token":"gho_x"}"#));
    module.complete_login(&reply("cv", 200, r#"{"login":"octocat","id":1}"#));
    let orgs = r#"[{"login":"acme","description":"x&access_token=evil&y"}]"#;
    match module.complete_login(&reply("cv", 200, orgs)) {
        LoginOutcome::Identify(p) => {
            assert_eq!(p.id, "github:octocat");
            assert_eq!(p.roles, vec!["github:org/acme".to_string()]);
        }
        other => panic!("expected Identify, got {other:?}"),
    }
    assert_eq!(module.pending_len(), 0);
}

#[test]
fn a_login_with_an_empty_verifier_goes_by_its_code() {
    let mut module = GithubModule::new(cfg(true));
    let step = |body: &str| CompleteLogin {
        code: Some("c".to_string()),
        ..reply("", 200, body)
    };
    module.complete_login(&step(r#"{"access_token":"t"}"#));
    assert_eq!(module.pending_len(), 1);
    module.complete_login(&step(r#"{"login":"o","id":1}"#));
    assert!(matches!(module.complete_login(&step("[]")), LoginOutcome::Identify(_)));
    assert_eq!(module.pending_len(), 0);
}

#[test]
fn a_token_starts_a_login_over() {
    let c = cfg(true);
    let kept = |c: &GitHubConfig| {
        let mut module = GithubModule::new(c.clone());
        module.complete_login(&reply("k", 200, r#"{"access_token":"t1"}"#));
        module.complete_login(&reply("k", 200, r#"{"login":"old","id":1}"#));
        let out = module.complete_login(&reply("k", 200, r#"{"access_token":"t2"}"#));
        assert_eq!(out, LoginOutcome::Exchange(build_userinfo_get(c, "t2")));
        module
    };
    assert_eq!(kept(&c).complete_login(&reply("k", 200, "[]")), LoginOutcome::Reject);
    assert_eq!(
        kept(&c).complete_login(&reply("k", 200, r#"{"login":"new","id":2}"#)),
        LoginOutcome::Exchange(build_orgs_get(&c, "t2"))
    );
}

#[test]
fn malformed_replies_are_refused_at_every_step() {
    for body in ["", "not json", "{ not json", "[{bad", "[&access_token=t", r#"{"login":7,"id":1}"#, "error=x"] {
        let mut module = GithubModule::new(cfg(true));
        assert_eq!(module.complete_login(&reply("v", 200, body)), LoginOutcome::Reject);
        module.complete_login(&reply("v", 200, r#"{"access_token":"t"}"#));
        assert_eq!(module.complete_login(&reply("v", 200, body)), LoginOutcome::Reject);
        module.complete_login(&reply("v", 200, r#"{"access_token":"t"}"#));
        module.complete_login(&reply("v", 200, r#"{"login":"o","id":1}"#));
        assert_eq!(module.complete_login(&reply("v", 200, body)), LoginOutcome::Reject);
        assert_eq!(module.pending_len(), 0);
    }
}

#[test]
fn mixed_logins_keep_apart() {
    let mut module = GithubModule::new(cfg(true));
    module.complete_login(&reply("a", 200, r#"{"access_token":"ta"}"#));
    module.complete_login(&reply("b", 200, r#"{"access_token":"tb"}"#));
    let hop_b = module.complete_login(&reply("b", 200, r#"{"login":"bob","id":2}"#));
    assert_eq!(hop_b, LoginOutcome::Exchange(build_orgs_get(&cfg(true), "tb")));
    module.complete_login(&reply("c", 500, ""));
    let hop_a = module.complete_login(&reply("a", 200, r#"{"login":"ann","id":1}"#));
    assert_eq!(hop_a, LoginOutcome::Exchange(build_orgs_get(&cfg(true), "ta")));
    let out_b = module.complete_login(&reply("b", 200, "[]"));
    assert!(matches!(out_b, LoginOutcome::Identify(p) if p.id == "github:bob"));
    let out_a = module.complete_login(&reply("a", 200, r#"[{"login":"x"}]"#));
    assert!(matches!(out_a, LoginOutcome::Identify(p) if p.id == "github:ann"
        && p.roles == vec!["github:org/x".to_string()]));
    assert_eq!(module.pending_len(), 0);
}

#[test]
fn steps_agree_with_the_bodies_at_once() {
    let profile = r#"{"login":"o","id":1,"name":"O"}"#;
    for orgs in ["[]", r#"[{"login":"a"},{"login":"b"}]"#, "[{bad"] {
        let mut module = GithubModule::new(cfg(true));
        module.complete_login(&reply("v", 200, r#"{"access_token":"t"}"#));
        module.complete_login(&reply("v", 200, profile));
        assert_eq!(
            module.complete_login(&reply("v", 200, orgs)),
            identity_from_user_and_orgs(profile, Some(orgs))
        );
    }
    let mut module = GithubModule::new(cfg(false));
    module.complete_login(&reply("v", 200, r#"{"access_token":"t"}"#));
    assert_eq!(
        module.complete_login(&reply("v", 200, profile)),
        identity_from_user_and_orgs(profile, None)
    );
    assert_eq!(module.pending_len(), 0);
}

#[test]
fn empty_config_is_rejected() {
    for text in ["", "   \n\t "] {
        match open(text, Err("unread".to_string())) {
            Ok(_) => panic!("expected open() to fail, but it succeeded"),
            Err(e) => {
                assert!(e.contains("config"));
                assert_eq!(e, "github plugin requires config (client_id); none provided");
            }
        }
    }
}

#[test]
fn malformed_json_is_rejected() {
    let text = "{ not json";
    let fault = serde_json::from_str::<serde_json::Value>(text).unwrap_err().to_string();
    match open(text, Err(fault.clone())) {
        Ok(_) => panic!("expected open() to fail, but it succeeded"),
        Err(e) => {
            assert!(e.contains("invalid github plugin config"));
            assert_eq!(e, format!("invalid github plugin config: {}", fault));
        }
    }
}

#[test]
fn minimal_config_succeeds_and_is_login_capable() {
    let mut settings = cfg(true);
    settings.client_id = "Iv1.abc".to_string();
    let module = match open(r#"{"client_id":"Iv1.abc"}"#, Ok(settings)) {
        Ok(module) => module,
        Err(e) => panic!("minimal config must succeed: {}", e),
    };
    assert_eq!(module.name(), "github");
    assert!(!module.cacheable());
    let begin = BeginLogin {
        redirect_uri: "https://busbar.example/auth/token".to_string(),
        state: "s".to_string(),
        code_challenge: "ch".to_string(),
        nonce: None,
        scopes: vec![],
    };
    match module.begin_login(&begin) {
        LoginOutcome::Authorize(url) => {
            assert!(url.starts_with("https://github.com/login/oauth/authorize?"), "{url}")
        }
        other => panic!("login capability must be live, got {other:?}"),
    }
}
