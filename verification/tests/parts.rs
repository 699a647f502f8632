//! The parts that a login is made of.
use busbar_auth_github::authorize::scope_value;
use busbar_auth_github::config::{
    authorize_endpoint, default_api_base, default_authorize_base, default_scopes, default_token_base,
    default_true, orgs_endpoint, token_endpoint, user_endpoint,
};
use busbar_auth_github::encoding::{form_decode, pct};
use busbar_auth_github::identity::{
    groups_from_logins, is_json_array, keep_non_empty, token_of_pair, user_from_members,
};
use busbar_auth_github::json;
use busbar_auth_github::text::{
    chars_of, cut, join, split, starts_with, trim, trim_end_matches, trim_start, white_space,
};
use busbar_auth_github::{
    build_github_authorize_url, build_principal, build_token_exchange, parse_access_token,
    parse_org_groups, parse_user, userinfo_headers, GhUser, GitHubConfig,
};

fn cfg() -> GitHubConfig {
    GitHubConfig {
        client_id: "Iv1.client".to_string(),
        scopes: default_scopes(),
        api_base: default_api_base(),
        authorize_base: default_authorize_base(),
        token_base: default_token_base(),
        fetch_orgs: default_true(),
        ca_cert_pem: None,
    }
}

fn strings(list: &[&str]) -> Vec<String> {
    list.iter().map(|s| s.to_string()).collect()
}

#[test]
fn white_space_is_that_of_every_char() {
    for c in '\0'..=char::MAX {
        assert_eq!(white_space(c), c.is_whitespace(), "{:?}", c);
    }
}

#[test]
fn trimming_agrees_with_str() {
    for s in ["", " ", "a", "  a b \n", "\u{a0}x\u{3000}", "\t\t", "\u{200b}a", "é "] {
        assert_eq!(trim(s), s.trim());
        assert_eq!(trim(trim(s)), trim(s));
        assert_eq!(trim_start(s), s.trim_start());
        assert_eq!(chars_of(s), s.chars().collect::<Vec<char>>());
    }
    for s in ["", "/", "a//", "/a/", "https://x"] {
        assert_eq!(trim_end_matches(s, '/'), s.trim_end_matches('/'));
    }
}

#[test]
fn starts_with_looks_at_the_first_character() {
    assert!(starts_with("{x", '{'));
    assert!(!starts_with("x{", '{'));
    assert!(!starts_with("", '{'));
}

#[test]
fn splitting_agrees_with_str_and_undoes_joining() {
    for s in ["", "&", "a&b", "&a&&b&", "abc"] {
        let expected: Vec<String> = s.split('&').map(|p| p.to_string()).collect();
        assert_eq!(split(s, '&'), expected);
        assert_eq!(join(&expected, '&'), s);
    }
    assert_eq!(join(&Vec::new(), ' '), "");
}

#[test]
fn cutting_is_at_the_first_separator() {
    assert_eq!(cut("a=b=c", '='), ("a".to_string(), Some("b=c".to_string())));
    assert_eq!(cut("a=", '='), ("a".to_string(), Some(String::new())));
    assert_eq!(cut("a", '='), ("a".to_string(), None));
    assert_eq!(cut("=b", '='), (String::new(), Some("b".to_string())));
}

#[test]
fn pct_escapes_all_but_unreserved() {
    assert_eq!(pct("AZaz09-._~"), "AZaz09-._~");
    assert_eq!(pct("a b&c=d+e/f?g#h%"), "a%20b%26c%3Dd%2Be%2Ff%3Fg%23h%25");
    assert_eq!(pct("é\u{1f600}"), "%C3%A9%F0%9F%98%80");
    assert_eq!(pct(""), "");
}

#[test]
fn form_decode_reads_pluses_and_escapes() {
    assert_eq!(form_decode("a+b%20c"), "a b c");
    assert_eq!(form_decode("%3a%3A"), "::");
    assert_eq!(form_decode("%C3%A9"), "é");
    // An escape that is not whole stands for itself.
    assert_eq!(form_decode("%"), "%");
    assert_eq!(form_decode("%4"), "%4");
    assert_eq!(form_decode("%zz%41"), "%zzA");
    assert_eq!(form_decode("100%25"), "100%");
}

#[test]
fn form_decode_repairs_what_is_not_utf8() {
    assert_eq!(form_decode("a%FFb"), "a\u{fffd}b");
}

#[test]
fn decoding_gives_back_what_was_encoded() {
    for s in ["", "plain", "a b+c&d=e%f", "ünï\u{1f600}", "\0\u{7f}"] {
        assert_eq!(form_decode(&pct(s)), s);
    }
}

#[test]
fn default_settings() {
    assert_eq!(default_scopes(), strings(&["read:org", "read:user"]));
    assert_eq!(default_api_base(), "https://api.github.com");
    assert_eq!(default_authorize_base(), "https://github.com");
    assert_eq!(default_token_base(), "https://github.com");
    assert!(default_true());
}

#[test]
fn endpoints_ignore_trailing_slashes() {
    let mut c = cfg();
    c.api_base = "https://ghe.corp.example/api/v3//".to_string();
    c.authorize_base = "https://ghe.corp.example/".to_string();
    c.token_base = "https://ghe.corp.example/".to_string();
    assert_eq!(authorize_endpoint(&c), "https://ghe.corp.example/login/oauth/authorize");
    assert_eq!(token_endpoint(&c), "https://ghe.corp.example/login/oauth/access_token");
    assert_eq!(user_endpoint(&c), "https://ghe.corp.example/api/v3/user");
    assert_eq!(orgs_endpoint(&c), "https://ghe.corp.example/api/v3/user/orgs?per_page=100");
}

#[test]
fn scopes_come_once_in_order_without_empty_ones() {
    let mut c = cfg();
    c.scopes = strings(&["b", "", "a", "b"]);
    assert_eq!(scope_value(&c, &strings(&["c", "a", "", "d"])), "b a c d");
    c.scopes = Vec::new();
    assert_eq!(scope_value(&c, &[]), "");
}

#[test]
fn authorize_url_is_exact() {
    let url = build_github_authorize_url(&cfg(), "https://b/x?y=1&z", "s t", "c=h", &strings(&["repo"]));
    assert_eq!(
        url,
        "https://github.com/login/oauth/authorize?response_type=code&client_id=Iv1.client\
         &redirect_uri=https%3A%2F%2Fb%2Fx%3Fy%3D1%26z&scope=read%3Aorg%20read%3Auser%20repo\
         &state=s%20t&code_challenge=c%3Dh&code_challenge_method=S256"
    );
}

#[test]
fn authorize_query_reads_back() {
    let url = build_github_authorize_url(&cfg(), "r&r=1", "s#s", "c+c", &[]);
    let query = url.split_once('?').unwrap().1;
    let pairs: Vec<(String, String)> = split(query, '&')
        .iter()
        .map(|part| {
            let (name, value) = cut(part, '=');
            (name, form_decode(&value.unwrap()))
        })
        .collect();
    let expected = [
        ("response_type", "code"),
        ("client_id", "Iv1.client"),
        ("redirect_uri", "r&r=1"),
        ("scope", "read:org read:user"),
        ("state", "s#s"),
        ("code_challenge", "c+c"),
        ("code_challenge_method", "S256"),
    ];
    assert_eq!(pairs.len(), expected.len());
    for (pair, (name, value)) in pairs.iter().zip(expected) {
        assert_eq!(pair.0, name);
        assert_eq!(pair.1, value);
    }
}

#[test]
fn token_exchange_leaves_the_secret_empty() {
    let hop = build_token_exchange(&cfg(), "the-code", "https://b/cb", "the-verifier");
    assert_eq!(
        hop.form,
        vec![
            ("client_id".to_string(), "Iv1.client".to_string()),
            ("code".to_string(), "the-code".to_string()),
            ("redirect_uri".to_string(), "https://b/cb".to_string()),
            ("code_verifier".to_string(), "the-verifier".to_string()),
            ("client_secret".to_string(), String::new()),
        ]
    );
    assert!(hop.headers.is_empty());
}

#[test]
fn headers_are_exact() {
    assert_eq!(
        userinfo_headers("t"),
        vec![
            ("Authorization".to_string(), "Bearer t".to_string()),
            ("User-Agent".to_string(), "busbar".to_string()),
            ("Accept".to_string(), "application/vnd.github+json".to_string()),
        ]
    );
}

#[test]
fn json_members_are_read_by_kind() {
    let v = json::parse(r#"{"s":"x","n":-3,"f":1.5,"big":9223372036854775808,"s2":"a","s2":"b"}"#).unwrap();
    assert_eq!(json::get_text(&v, "s").as_deref(), Some("x"));
    assert_eq!(json::get_text(&v, "n"), None);
    assert_eq!(json::get_text(&v, "absent"), None);
    assert_eq!(json::get_text(&v, "s2").as_deref(), Some("b"));
    assert_eq!(json::get_integer(&v, "n"), Some(-3));
    assert_eq!(json::get_integer(&v, "f"), None);
    assert_eq!(json::get_integer(&v, "big"), None);
    assert_eq!(json::get_integer(&v, "s"), None);
    let list = json::parse("[1]").unwrap();
    assert_eq!(json::get_text(&list, "s"), None);
    assert!(json::parse("{").is_none());
    assert!(json::parse("").is_none());
}

#[test]
fn tokens_in_json() {
    assert_eq!(parse_access_token(" \n{\"access_token\":\"t\"} ").as_deref(), Some("t"));
    assert_eq!(parse_access_token(r#"{"access_token":""}"#), None);
    assert_eq!(parse_access_token(r#"{"access_token":7}"#), None);
    // What begins with a brace is JSON or nothing.
    assert_eq!(parse_access_token("{&access_token=t"), None);
}

#[test]
fn tokens_in_forms() {
    assert_eq!(parse_access_token("scope=&access_token=t%2Bt+u&x").as_deref(), Some("t+t u"));
    assert_eq!(parse_access_token("access_token=&access_token=late").as_deref(), Some("late"));
    assert_eq!(parse_access_token("access_token&access_token=").as_deref(), None);
    assert_eq!(parse_access_token("error=bad_verification_code"), None);
    assert_eq!(parse_access_token(""), None);
    assert_eq!(token_of_pair("access_token=a=b").as_deref(), Some("a=b"));
    assert_eq!(token_of_pair("token=a"), None);
}

#[test]
fn a_form_encoded_token_is_found_whatever_it_holds() {
    for token in ["gho_x", "a&b=c", " ", "é%"] {
        let alone = format!("access_token={}", pct(token));
        assert_eq!(parse_access_token(&alone).as_deref(), Some(token));
        let among = format!("{}&scope=read%3Aorg&access_token=other ", alone);
        assert_eq!(parse_access_token(&among).as_deref(), Some(token));
    }
}

#[test]
fn users_need_a_login_and_an_id() {
    assert_eq!(
        parse_user(" {\"login\":\"o\",\"id\":1,\"name\":\"O\"}\n"),
        Some(GhUser { login: "o".to_string(), name: Some("O".to_string()) })
    );
    assert_eq!(
        parse_user(r#"{"login":"o","id":1,"name":""}"#),
        Some(GhUser { login: "o".to_string(), name: None })
    );
    assert_eq!(
        parse_user(r#"{"login":"o","id":1,"name":null}"#),
        Some(GhUser { login: "o".to_string(), name: None })
    );
    assert_eq!(parse_user(r#"{"login":"","id":1}"#), None);
    assert_eq!(parse_user(r#"{"login":"o"}"#), None);
    assert_eq!(parse_user(r#"{"login":"o","id":"1"}"#), None);
    assert_eq!(parse_user(r#"{"login":"o","id":1.5}"#), None);
    assert_eq!(parse_user(r#"["login"]"#), None);
}

#[test]
fn users_from_members() {
    assert_eq!(
        user_from_members(Some("o".to_string()), Some(0), Some(String::new())),
        Some(GhUser { login: "o".to_string(), name: None })
    );
    assert_eq!(user_from_members(Some(String::new()), Some(1), None), None);
    assert_eq!(user_from_members(None, Some(1), None), None);
    assert_eq!(user_from_members(Some("o".to_string()), None, None), None);
}

#[test]
fn groups_from_logins_in_order() {
    let logins = vec![
        Some("b".to_string()),
        None,
        Some(String::new()),
        Some("a".to_string()),
    ];
    assert_eq!(groups_from_logins(&logins), strings(&["github:org/b", "github:org/a"]));
    assert_eq!(
        parse_org_groups(r#" [{"login":"b"},3,{"login":4},{"login":"a"}]"#),
        Some(strings(&["github:org/b", "github:org/a"]))
    );
}

#[test]
fn principals_show_the_name_or_the_login() {
    let named = GhUser { login: "o".to_string(), name: Some("O".to_string()) };
    let p = build_principal(&named, strings(&["github:org/a"]));
    assert_eq!(p.id, "github:o");
    assert_eq!(p.name.as_deref(), Some("O"));
    assert_eq!(p.roles, strings(&["github:org/a"]));
    let nameless = GhUser { login: "o".to_string(), name: None };
    assert_eq!(build_principal(&nameless, Vec::new()).name.as_deref(), Some("o"));
}

#[test]
fn arrays_are_told_by_their_bracket() {
    assert!(is_json_array(" \n[{bad"));
    assert!(!is_json_array("{\"a\":[]}"));
    assert!(!is_json_array(""));
    assert!(!is_json_array("  "));
}

#[test]
fn empty_texts_are_dropped() {
    assert_eq!(keep_non_empty(Some("x".to_string())).as_deref(), Some("x"));
    assert_eq!(keep_non_empty(Some(String::new())), None);
    assert_eq!(keep_non_empty(None), None);
}
