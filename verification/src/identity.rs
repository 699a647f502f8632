//! What GitHub's replies say: the access token, the user and the orgs, and the identity they make.
use crate::encoding::{
    form_decode, form_text, is_pct_char, law_pct_characters, law_pct_round_trip, pct_text,
};
use crate::json;
use crate::json::{integer_member, json_held, parsed_json, text_member, Json};
use crate::login::{LoginOutcome, OutcomeView, Principal, PrincipalView};
use crate::text::{
    after_first, all_white_space, before_first, begins_with, cut, is_white_space,
    law_cut_undoes_pairing, lemma_position, lemma_position_at, lemma_trimmed_end_after,
    lemma_trimmed_start_drops, parts, position, split, starts_with, trim, trim_start, trimmed,
    trimmed_end, trimmed_start,
};
use serde_json::Value;
use vstd::prelude::*;

verus! {

/// A GitHub profile, reduced to what an identity needs.
#[derive(Debug, Clone, PartialEq)]
pub struct GhUser {
    /// The username, which the identity of record is made of.
    pub login: String,
    /// The display name.
    pub name: Option<String>,
}

/// A [`GhUser`] in plain values.
#[verifier::ext_equal]
pub struct UserView {
    pub login: Seq<char>,
    pub name: Option<Seq<char>>,
}

impl View for GhUser {
    type V = UserView;

    open spec fn view(&self) -> UserView {
        UserView { login: self.login@, name: self.name.deep_view() }
    }
}

/// An optional user in plain values.
pub open spec fn user_view(user: Option<GhUser>) -> Option<UserView> {
    match user {
        Some(user) => Some(user@),
        None => None,
    }
}

/// A text, unless it is empty.
pub open spec fn non_empty(text: Option<Seq<char>>) -> Option<Seq<char>> {
    match text {
        Some(s) => if s.len() == 0 {
            None
        } else {
            Some(s)
        },
        None => None,
    }
}

/// The token that a pair `name=value` of a form holds: the decoded value, when the name is
/// `access_token` and the value is not empty.
pub open spec fn pair_token(pair: Seq<char>) -> Option<Seq<char>> {
    if before_first(pair, '=') == "access_token"@ {
        match after_first(pair, '=') {
            Some(value) => non_empty(Some(form_text(value))),
            None => None,
        }
    } else {
        None
    }
}

/// The token of the first pair that holds one.
pub open spec fn first_token(pairs: Seq<Seq<char>>) -> Option<Seq<char>>
    decreases pairs.len(),
{
    if pairs.len() == 0 {
        None
    } else if pair_token(pairs[0]) is Some {
        pair_token(pairs[0])
    } else {
        first_token(pairs.skip(1))
    }
}

/// The token in the body of a token reply: in JSON when the body begins with a brace, else in a form.
pub open spec fn token_in(body: Seq<char>) -> Option<Seq<char>> {
    let text = trimmed(body);
    if begins_with(text, '{') {
        match parsed_json(text) {
            Some(document) => non_empty(text_member(document, "access_token"@)),
            None => None,
        }
    } else {
        first_token(parts(text, '&'))
    }
}

/// The user that the members of a profile make: a login that is not empty and an id are needed.
pub open spec fn user_of(
    login: Option<Seq<char>>,
    id: Option<i64>,
    name: Option<Seq<char>>,
) -> Option<UserView> {
    match non_empty(login) {
        Some(login) => if id is Some {
            Some(UserView { login, name: non_empty(name) })
        } else {
            None
        },
        None => None,
    }
}

/// The user that a profile document describes.
pub open spec fn document_user(document: Json) -> Option<UserView> {
    user_of(
        text_member(document, "login"@),
        integer_member(document, "id"@),
        text_member(document, "name"@),
    )
}

/// The user in the body of a profile reply.
pub open spec fn user_in(body: Seq<char>) -> Option<UserView> {
    match parsed_json(trimmed(body)) {
        Some(document) => document_user(document),
        None => None,
    }
}

/// The groups of some orgs, in order; an org without a login makes none.
pub open spec fn groups_of(logins: Seq<Option<Seq<char>>>) -> Seq<Seq<char>>
    decreases logins.len(),
{
    if logins.len() == 0 {
        Seq::empty()
    } else {
        let groups = groups_of(logins.drop_last());
        match non_empty(logins.last()) {
            Some(login) => groups.push("github:org/"@ + login),
            None => groups,
        }
    }
}

/// The logins of the orgs that a document lists; `None` when it is not an array.
pub open spec fn document_orgs(document: Json) -> Option<Seq<Option<Seq<char>>>> {
    match document {
        Json::Array(orgs) => Some(orgs.map_values(|org: Json| text_member(org, "login"@))),
        _ => None,
    }
}

/// The groups in the body of an orgs reply; `None` when it is not an array.
pub open spec fn groups_in(body: Seq<char>) -> Option<Seq<Seq<char>>> {
    match parsed_json(trimmed(body)) {
        Some(document) => match document_orgs(document) {
            Some(logins) => Some(groups_of(logins)),
            None => None,
        },
        None => None,
    }
}

/// The identity of a user with some groups.
pub open spec fn principal_of(user: UserView, groups: Seq<Seq<char>>) -> PrincipalView {
    PrincipalView {
        id: "github:"@ + user.login,
        name: Some(
            match user.name {
                Some(name) => name,
                None => user.login,
            },
        ),
        roles: groups,
    }
}

/// What a profile reply and, if there is one, an orgs reply come to.
pub open spec fn identity_in(user_body: Seq<char>, orgs_body: Option<Seq<char>>) -> OutcomeView {
    match user_in(user_body) {
        Some(user) => match orgs_body {
            Some(body) => match groups_in(body) {
                Some(groups) => OutcomeView::Identify(principal_of(user, groups)),
                None => OutcomeView::Reject,
            },
            None => OutcomeView::Identify(principal_of(user, Seq::empty())),
        },
        None => OutcomeView::Reject,
    }
}

/// A text, unless it is empty.
pub fn keep_non_empty(text: Option<String>) -> (r: Option<String>)
    ensures
        r.deep_view() == non_empty(text.deep_view()),
{
    match text {
        Some(s) => if s.as_str().is_empty() {
            None
        } else {
            Some(s)
        },
        None => None,
    }
}

/// The token that a pair of a form holds.
pub fn token_of_pair(pair: &str) -> (r: Option<String>)
    ensures
        r.deep_view() == pair_token(pair@),
{
    let (name, value) = cut(pair, '=');
    if name == "access_token".to_string() {
        match value {
            Some(value) => keep_non_empty(Some(form_decode(value.as_str()))),
            None => None,
        }
    } else {
        None
    }
}

/// Finds the access token in the body of a token reply. GitHub answers a bad code with status 200 and a
/// body without a token, so none is a refusal, and an empty one counts as none.
pub fn parse_access_token(body: &str) -> (r: Option<String>)
    ensures
        r.deep_view() == token_in(body@),
{
    let text = trim(body);
    if starts_with(text, '{') {
        return match json::parse(text) {
            Some(document) => keep_non_empty(json::get_text(&document, "access_token")),
            None => None,
        };
    }
    let pairs = split(text, '&');
    let ghost texts = pairs.deep_view();
    let mut i: usize = 0;
    assert(texts.skip(0) == texts);
    while i < pairs.len()
        invariant
            texts == pairs.deep_view(),
            token_in(body@) == first_token(texts),
            i <= pairs.len(),
            first_token(texts) == first_token(texts.skip(i as int)),
        decreases pairs.len() - i,
    {
        let token = token_of_pair(pairs[i].as_str());
        assert(texts.skip(i as int)[0] == pairs[i as int]@);
        if token.is_some() {
            return token;
        }
        assert(texts.skip(i as int).skip(1) == texts.skip(i + 1));
        i = i + 1;
    }
    None
}

/// The user that the members of a profile make.
pub fn user_from_members(login: Option<String>, id: Option<i64>, name: Option<String>) -> (r: Option<
    GhUser,
>)
    ensures
        user_view(r) == user_of(login.deep_view(), id, name.deep_view()),
{
    match keep_non_empty(login) {
        Some(login) => if id.is_some() {
            Some(GhUser { login, name: keep_non_empty(name) })
        } else {
            None
        },
        None => None,
    }
}

/// Reads the body of a profile reply. Every genuine one has a numeric id, so a body without one is
/// refused; the id itself is not kept.
pub fn parse_user(body: &str) -> (r: Option<GhUser>)
    ensures
        user_view(r) == user_in(body@),
{
    match json::parse(trim(body)) {
        Some(document) => user_from_members(
            json::get_text(&document, "login"),
            json::get_integer(&document, "id"),
            json::get_text(&document, "name"),
        ),
        None => None,
    }
}

/// The groups of some orgs, in order; an org without a login makes none.
pub fn groups_from_logins(logins: &Vec<Option<String>>) -> (r: Vec<String>)
    ensures
        r.deep_view() == groups_of(logins.deep_view()),
{
    let ghost texts = logins.deep_view();
    let mut groups: Vec<String> = Vec::new();
    let mut i: usize = 0;
    while i < logins.len()
        invariant
            texts == logins.deep_view(),
            i <= logins.len(),
            groups.deep_view() == groups_of(texts.take(i as int)),
        decreases logins.len() - i,
    {
        assert(texts.take(i + 1).drop_last() == texts.take(i as int));
        assert(texts.take(i + 1).last() == logins[i as int].deep_view());
        if let Some(login) = &logins[i] {
            if !login.as_str().is_empty() {
                let mut group = "github:org/".to_string();
                group.append(login.as_str());
                let ghost before = groups.deep_view();
                groups.push(group);
                assert(groups.deep_view() == before.push(group@));
            }
        }
        i = i + 1;
    }
    assert(texts.take(i as int) == texts);
    groups
}

/// The logins of the orgs that a document lists.
fn org_logins(document: &Value) -> (r: Option<Vec<Option<String>>>)
    ensures
        r.deep_view() == document_orgs(json_held(*document)),
{
    let orgs = match document.as_array() {
        Some(orgs) => orgs,
        None => {
            return None;
        },
    };
    let mut logins: Vec<Option<String>> = Vec::new();
    let mut i: usize = 0;
    while i < orgs.len()
        invariant
            i <= orgs.len(),
            logins.len() == i,
            forall|k: int|
                0 <= k < i ==> (#[trigger] logins[k]).deep_view() == text_member(
                    json_held(orgs[k]),
                    "login"@,
                ),
        decreases orgs.len() - i,
    {
        logins.push(json::get_text(&orgs[i], "login"));
        i = i + 1;
    }
    assert(Some(logins).deep_view() == document_orgs(json_held(*document)));
    Some(logins)
}

/// Reads the body of an orgs reply into groups. A body that is not an array is refused rather than
/// taken for one without orgs, which would silently drop the user's groups.
pub fn parse_org_groups(body: &str) -> (r: Option<Vec<String>>)
    ensures
        r.deep_view() == groups_in(body@),
{
    match json::parse(trim(body)) {
        Some(document) => match org_logins(&document) {
            Some(logins) => Some(groups_from_logins(&logins)),
            None => None,
        },
        None => None,
    }
}

/// The identity of a user with some groups: made of the login, which is what operators bind roles to,
/// and shown under the display name, or under the login where there is none.
pub fn build_principal(user: &GhUser, org_groups: Vec<String>) -> (r: Principal)
    ensures
        r@ == principal_of(user@, org_groups.deep_view()),
{
    let mut id = "github:".to_string();
    id.append(user.login.as_str());
    let name = match &user.name {
        Some(name) => name.clone(),
        None => user.login.clone(),
    };
    Principal { id, name: Some(name), roles: org_groups }
}

/// What a profile reply and, if there is one, an orgs reply come to.
pub fn identity_from_user_and_orgs(user_body: &str, orgs_body: Option<&str>) -> (r: LoginOutcome)
    ensures
        r@ == identity_in(user_body@, orgs_body.deep_view()),
{
    let user = match parse_user(user_body) {
        Some(user) => user,
        None => {
            return LoginOutcome::Reject;
        },
    };
    let groups = match orgs_body {
        Some(body) => match parse_org_groups(body) {
            Some(groups) => groups,
            None => {
                return LoginOutcome::Reject;
            },
        },
        None => Vec::new(),
    };
    LoginOutcome::Identify(build_principal(&user, groups))
}

/// Whether a body looks like an array: the first character that is not white space is a bracket.
pub open spec fn looks_like_array(body: Seq<char>) -> bool {
    begins_with(trimmed_start(body), '[')
}

/// Whether a body looks like an array.
pub fn is_json_array(body: &str) -> (r: bool)
    ensures
        r == looks_like_array(body@),
{
    starts_with(trim_start(body), '[')
}

/// A token that is found is never empty.
pub proof fn law_token_not_empty(body: Seq<char>)
    ensures
        token_in(body) matches Some(token) ==> token.len() > 0,
{
    lemma_first_token_not_empty(parts(trimmed(body), '&'));
}

proof fn lemma_first_token_not_empty(pairs: Seq<Seq<char>>)
    ensures
        first_token(pairs) matches Some(token) ==> token.len() > 0,
    decreases pairs.len(),
{
    if pairs.len() > 0 {
        lemma_first_token_not_empty(pairs.skip(1));
    }
}

/// A user who is found has a login, and no empty display name.
pub proof fn law_user_has_login(body: Seq<char>)
    ensures
        user_in(body) matches Some(user) ==> {
            &&& user.login.len() > 0
            &&& user.name matches Some(name) ==> name.len() > 0
        },
{
}

/// A token sent form-encoded is found, whatever characters it holds and whatever fields follow it.
pub proof fn law_form_token(token: Seq<char>, rest: Seq<char>)
    requires
        token.len() > 0,
    ensures
        token_in("access_token="@ + pct_text(token)) == Some(token),
        token_in("access_token="@ + pct_text(token) + seq!['&'] + rest) == Some(token),
{
    reveal_strlit("access_token=");
    let value = pct_text(token);
    let pair = "access_token="@ + value;
    law_pct_characters(token);
    assert forall|i: int| 0 <= i < pair.len() implies pair[i] != '&' && !is_white_space(pair[i]) by {
        if i >= "access_token="@.len() {
            assert(pair[i] == value[i - "access_token="@.len()]);
            assert(is_pct_char(value[i - "access_token="@.len()]));
        } else {
            assert(pair[i] == "access_token="@[i]);
        }
    }
    lemma_token_pair(token);
    // alone
    lemma_trimmed_end_after(pair, Seq::empty());
    assert(pair + Seq::<char>::empty() =~= pair);
    assert(pair + trimmed_end(Seq::<char>::empty()) =~= pair);
    lemma_position_at(pair, '&', pair.len() as int);
    assert(parts(pair, '&') =~= seq![pair]);
    assert(first_token(seq![pair]) == Some(token));
    // with more behind it
    let head = pair + seq!['&'];
    let body = head + rest;
    lemma_trimmed_end_after(head, rest);
    let tail = trimmed_end(rest);
    let text = head + tail;
    assert(body[0] == pair[0]);
    assert(trimmed(body) == text);
    assert forall|i: int| 0 <= i < pair.len() implies text[i] != '&' by {
        assert(text[i] == pair[i]);
    }
    assert(text[pair.len() as int] == '&');
    lemma_position_at(text, '&', pair.len() as int);
    assert(text.take(pair.len() as int) =~= pair);
    assert(text[0] == pair[0]);
    assert(parts(text, '&')[0] == pair);
}

proof fn lemma_token_pair(token: Seq<char>)
    requires
        token.len() > 0,
    ensures
        pair_token("access_token="@ + pct_text(token)) == Some(token),
{
    let name = "access_token"@;
    assert("access_token="@ =~= name + seq!['='] && !name.contains('=')) by {
        reveal_strlit("access_token=");
        reveal_strlit("access_token");
    }
    law_cut_undoes_pairing(name, pct_text(token), '=');
    law_pct_round_trip(token);
}

/// Whether a group is that of an org: `github:org/` and then a login.
pub open spec fn is_org_group(group: Seq<char>) -> bool {
    "github:org/"@.is_prefix_of(group) && group.len() > "github:org/"@.len()
}

/// The groups are made of the logins that are not empty: each such login has its group, and every group
/// is that of such a login.
pub proof fn law_groups(logins: Seq<Option<Seq<char>>>)
    ensures
        forall|login: Seq<char>|
            login.len() > 0 ==> (groups_of(logins).contains(#[trigger] ("github:org/"@ + login))
                <==> logins.contains(Some(login))),
        forall|i: int| 0 <= i < groups_of(logins).len() ==> is_org_group(#[trigger] groups_of(logins)[i]),
    decreases logins.len(),
{
    if logins.len() > 0 {
        let shorter = logins.drop_last();
        let last = logins.last();
        law_groups(shorter);
        let before = groups_of(shorter);
        let groups = groups_of(logins);
        let prefix = "github:org/"@;
        assert(logins =~= shorter.push(last));
        assert forall|login: Seq<char>| login.len() > 0 implies (groups.contains(
            #[trigger] (prefix + login),
        ) <==> logins.contains(Some(login))) by {
            let group = prefix + login;
            lemma_push_contains(shorter, last, Some(login));
            match non_empty(last) {
                Some(other) => {
                    lemma_push_contains(before, prefix + other, group);
                    if prefix + other == group {
                        assert(other =~= (prefix + other).skip(prefix.len() as int));
                        assert(login =~= group.skip(prefix.len() as int));
                    }
                },
                None => {},
            }
        }
        assert forall|i: int| 0 <= i < groups.len() implies is_org_group(#[trigger] groups[i]) by {
            if i < before.len() {
                assert(groups[i] == before[i]);
            } else {
                let login = non_empty(last)->0;
                assert(prefix + login == groups[i]);
            }
        }
    }
}

proof fn lemma_push_contains<A>(s: Seq<A>, last: A, a: A)
    ensures
        s.push(last).contains(a) <==> s.contains(a) || a == last,
{
    let all = s.push(last);
    if s.contains(a) {
        let i = choose|i: int| 0 <= i < s.len() && s[i] == a;
        assert(all[i] == a);
    }
    if a == last {
        assert(all[s.len() as int] == a);
    }
    if all.contains(a) && a != last {
        let i = choose|i: int| 0 <= i < all.len() && all[i] == a;
        assert(s[i] == a);
    }
}

/// The groups stand in the order of the orgs: those of a list are those of a beginning of it, and then
/// those of what follows.
pub proof fn law_groups_in_order(first: Seq<Option<Seq<char>>>, second: Seq<Option<Seq<char>>>)
    ensures
        groups_of(first + second) == groups_of(first) + groups_of(second),
    decreases second.len(),
{
    if second.len() == 0 {
        assert(first + second =~= first);
        assert(groups_of(first) + groups_of(second) =~= groups_of(first));
    } else {
        let all = first + second;
        assert(all.drop_last() =~= first + second.drop_last());
        assert(all.last() == second.last());
        law_groups_in_order(first, second.drop_last());
        assert(groups_of(all) =~= groups_of(first) + groups_of(second));
    }
}

/// A part of a form holds a token exactly when it is `access_token=` and a value, and the token is then
/// that value decoded, which is not empty. A part of any other name holds none.
pub proof fn law_pair_token(pair: Seq<char>, value: Seq<char>)
    ensures
        form_text(value).len() > 0 ==> pair_token("access_token="@ + value) == Some(form_text(value)),
        form_text(value).len() == 0 ==> pair_token("access_token="@ + value) is None,
        !"access_token="@.is_prefix_of(pair) ==> pair_token(pair) is None,
        pair_token(pair) matches Some(token) ==> {
            &&& "access_token="@.is_prefix_of(pair)
            &&& token == form_text(pair.skip("access_token="@.len() as int))
            &&& token.len() > 0
        },
{
    let name = "access_token"@;
    let start = "access_token="@;
    assert(start =~= name + seq!['='] && !name.contains('=')) by {
        reveal_strlit("access_token=");
        reveal_strlit("access_token");
    }
    law_cut_undoes_pairing(name, value, '=');
    lemma_position(pair, '=');
    let n = position(pair, '=');
    if before_first(pair, '=') == name && n < pair.len() {
        assert(pair.take(n) == name);
        assert(n == name.len());
        assert(pair =~= start + pair.skip(n + 1)) by {
            assert(pair =~= pair.take(n) + seq![pair[n]] + pair.skip(n + 1));
        }
        assert(pair.skip(start.len() as int) =~= pair.skip(n + 1));
    }
}

/// The token of a form is that of the first part that holds one: it is found wherever it stands, and it
/// is always that of some part.
pub proof fn law_first_token(pairs: Seq<Seq<char>>, n: int)
    ensures
        0 <= n < pairs.len() && pair_token(pairs[n]) is Some && (forall|i: int|
            0 <= i < n ==> pair_token(#[trigger] pairs[i]) is None) ==> first_token(pairs)
            == pair_token(pairs[n]),
        (forall|i: int| 0 <= i < pairs.len() ==> pair_token(#[trigger] pairs[i]) is None)
            <==> first_token(pairs) is None,
        first_token(pairs) is Some ==> exists|i: int|
            0 <= i < pairs.len() && first_token(pairs) == pair_token(#[trigger] pairs[i]),
    decreases pairs.len(),
{
    if pairs.len() > 0 {
        let rest = pairs.skip(1);
        law_first_token(rest, n - 1);
        assert forall|i: int| 0 <= i < rest.len() implies rest[i] == pairs[i + 1] by {}
        if pair_token(pairs[0]) is Some {
            assert(first_token(pairs) == pair_token(pairs[0]));
        } else {
            assert(first_token(pairs) == first_token(rest));
            if first_token(rest) is Some {
                let i = choose|i: int|
                    0 <= i < rest.len() && first_token(rest) == pair_token(#[trigger] rest[i]);
                assert(first_token(pairs) == pair_token(pairs[i + 1]));
            } else {
                assert forall|i: int| 0 <= i < pairs.len() implies pair_token(#[trigger] pairs[i])
                    is None by {
                    if i > 0 {
                        assert(pairs[i] == rest[i - 1]);
                    }
                }
            }
            if 0 < n < pairs.len() && pair_token(pairs[n]) is Some && (forall|i: int|
                0 <= i < n ==> pair_token(#[trigger] pairs[i]) is None) {
                assert forall|i: int| 0 <= i < n - 1 implies pair_token(#[trigger] rest[i]) is None by {
                    assert(rest[i] == pairs[i + 1]);
                }
                assert(rest[n - 1] == pairs[n]);
            }
        }
    }
}

/// The token in a form: the value, decoded, of the first part `access_token=` whose value is not empty.
/// What stands before that part does not hide it, and what follows does not change it. In a form of
/// which no part is named `access_token` there is no token.
pub proof fn law_token_in_form(body: Seq<char>, text: Seq<char>, n: int, value: Seq<char>)
    requires
        text == trimmed(body),
        !begins_with(text, '{'),
    ensures
        ({
            let pairs = parts(text, '&');
            &&& 0 <= n < pairs.len() && pairs[n] == "access_token="@ + value && form_text(value).len()
                > 0 && (forall|i: int|
                0 <= i < n && "access_token="@.is_prefix_of(#[trigger] pairs[i]) ==> form_text(
                    pairs[i].skip("access_token="@.len() as int),
                ).len() == 0) ==> token_in(body) == Some(form_text(value))
            &&& (forall|i: int|
                0 <= i < pairs.len() && "access_token="@.is_prefix_of(#[trigger] pairs[i])
                    ==> form_text(pairs[i].skip("access_token="@.len() as int)).len() == 0)
                ==> token_in(body) is None
            &&& token_in(body) matches Some(token) ==> exists|i: int|
                0 <= i < pairs.len() && "access_token="@.is_prefix_of(#[trigger] pairs[i]) && token
                    == form_text(pairs[i].skip("access_token="@.len() as int)) && token.len() > 0
        }),
{
    let pairs = parts(text, '&');
    law_first_token(pairs, n);
    law_pair_token(Seq::empty(), value);
    assert forall|i: int| 0 <= i < pairs.len() implies (pair_token(#[trigger] pairs[i]) matches Some(
        token,
    ) ==> "access_token="@.is_prefix_of(pairs[i]) && token == form_text(
        pairs[i].skip("access_token="@.len() as int),
    ) && token.len() > 0) && (!"access_token="@.is_prefix_of(pairs[i]) ==> pair_token(pairs[i])
        is None) by {
        law_pair_token(pairs[i], value);
    }
    assert forall|i: int|
        0 <= i < pairs.len() && "access_token="@.is_prefix_of(#[trigger] pairs[i]) && form_text(
            pairs[i].skip("access_token="@.len() as int),
        ).len() == 0 implies pair_token(pairs[i]) is None by {
        law_pair_token(pairs[i], value);
    }
    if let Some(token) = token_in(body) {
        let i = choose|i: int|
            0 <= i < pairs.len() && first_token(pairs) == pair_token(#[trigger] pairs[i]);
        assert("access_token="@.is_prefix_of(pairs[i]));
    }
}

/// The token in a JSON body: the member `access_token` of the object, in full, when it is a string that
/// is not empty, and otherwise none.
pub proof fn law_token_in_object(body: Seq<char>, token: Seq<char>)
    requires
        begins_with(trimmed(body), '{'),
    ensures
        token_in(body) == Some(token) <==> token.len() > 0 && (parsed_json(trimmed(body)) matches Some(
            Json::Object(members),
        ) && members.contains_key("access_token"@) && members["access_token"@] == Json::Text(token)),
        parsed_json(trimmed(body)) is None ==> token_in(body) is None,
{
}

/// A user is found in a body exactly when it is an object with a login that is a string and not empty
/// and an id that is an integer, any that an `i64` can hold. The login is that string, and the name is
/// the member `name` when that is a string and not empty.
pub proof fn law_user(body: Seq<char>, user: UserView)
    ensures
        user_in(body) == Some(user) <==> (parsed_json(trimmed(body)) matches Some(Json::Object(members))
            && {
            &&& members.contains_key("login"@) && members["login"@] == Json::Text(user.login)
            &&& user.login.len() > 0
            &&& members.contains_key("id"@)
            &&& members["id"@] matches Json::Integer(id) && i64::MIN <= id <= i64::MAX
            &&& match user.name {
                Some(name) => name.len() > 0 && members.contains_key("name"@) && members["name"@]
                    == Json::Text(name),
                None => !members.contains_key("name"@) || !(members["name"@] is Text)
                    || members["name"@] == Json::Text(Seq::empty()),
            }
        }),
{
    if let Some(Json::Object(members)) = parsed_json(trimmed(body)) {
        if members.contains_key("name"@) {
            if let Json::Text(name) = members["name"@] {
                if name.len() == 0 {
                    assert(name =~= Seq::<char>::empty());
                }
            }
        }
    }
}

/// The members of a profile make a user exactly when there are a login that is not empty and an id,
/// whatever its value.
pub proof fn law_user_of(login: Seq<char>, id: i64, name: Option<Seq<char>>)
    ensures
        login.len() > 0 ==> user_of(Some(login), Some(id), None) == Some(UserView { login, name: None }),
        login.len() > 0 ==> (name matches Some(text) ==> user_of(Some(login), Some(id), name) == Some(
            UserView {
                login,
                name: if text.len() > 0 {
                    Some(text)
                } else {
                    None
                },
            },
        )),
        user_of(None, Some(id), name) is None,
        user_of(Some(Seq::empty()), Some(id), name) is None,
        user_of(Some(login), None, name) is None,
{
}

/// A text that is not empty is kept in full; an empty one is dropped.
pub proof fn law_non_empty(text: Seq<char>)
    ensures
        text.len() > 0 ==> non_empty(Some(text)) == Some(text),
        non_empty(Some(Seq::empty())) is None,
        non_empty(None) is None,
{
}

/// Orgs that all have a login that is not empty make as many groups as there are orgs, in order, each
/// `github:org/` and the login in full. An org without one makes none.
pub proof fn law_groups_one_by_one(logins: Seq<Option<Seq<char>>>)
    ensures
        (forall|i: int|
            0 <= i < logins.len() ==> (#[trigger] logins[i]) is Some && logins[i]->0.len() > 0) ==> {
            &&& groups_of(logins).len() == logins.len()
            &&& forall|i: int|
                0 <= i < logins.len() ==> #[trigger] groups_of(logins)[i] == "github:org/"@
                    + logins[i]->0
        },
        groups_of(seq![None]).len() == 0,
        groups_of(seq![Some(Seq::empty())]).len() == 0,
        groups_of(Seq::empty()).len() == 0,
    decreases logins.len(),
{
    let none: Seq<Option<Seq<char>>> = seq![None];
    let empty: Seq<Option<Seq<char>>> = seq![Some(Seq::empty())];
    assert(none.drop_last() =~= Seq::empty());
    assert(empty.drop_last() =~= Seq::empty());
    assert(groups_of(none.drop_last()).len() == 0);
    assert(groups_of(empty.drop_last()).len() == 0);
    if logins.len() > 0 && (forall|i: int|
        0 <= i < logins.len() ==> (#[trigger] logins[i]) is Some && logins[i]->0.len() > 0) {
        let shorter = logins.drop_last();
        law_groups_one_by_one(shorter);
        assert forall|i: int| 0 <= i < shorter.len() implies (#[trigger] shorter[i]) is Some
            && shorter[i]->0.len() > 0 by {
            assert(logins[i] is Some);
        }
        assert(logins[logins.len() - 1] is Some);
        assert forall|i: int| 0 <= i < logins.len() implies #[trigger] groups_of(logins)[i]
            == "github:org/"@ + logins[i]->0 by {
            if i < shorter.len() {
                assert(groups_of(logins)[i] == groups_of(shorter)[i]);
                assert(shorter[i] == logins[i]);
            }
        }
    }
}

/// The groups in a body are those of the entries of the array that it is, each entry's login taken in
/// its place; a body that is no array has none to give.
pub proof fn law_groups_in(body: Seq<char>)
    ensures
        match parsed_json(trimmed(body)) {
            Some(Json::Array(orgs)) => groups_in(body) == Some(
                groups_of(Seq::new(orgs.len(), |i: int| text_member(orgs[i], "login"@))),
            ),
            _ => groups_in(body) is None,
        },
{
    if let Some(Json::Array(orgs)) = parsed_json(trimmed(body)) {
        assert(orgs.map_values(|org: Json| text_member(org, "login"@)) =~= Seq::new(
            orgs.len(),
            |i: int| text_member(orgs[i], "login"@),
        ));
    }
}

/// A body that is an array of objects that all have a login that is not empty gives a group for each, in
/// order.
pub proof fn law_groups_in_body(body: Seq<char>, logins: Seq<Seq<char>>)
    requires
        parsed_json(trimmed(body)) matches Some(Json::Array(orgs)) && orgs.len() == logins.len() && (
        forall|i: int|
            0 <= i < orgs.len() ==> (#[trigger] orgs[i] matches Json::Object(members)
                && members.contains_key("login"@) && members["login"@] == Json::Text(logins[i]))),
        forall|i: int| 0 <= i < logins.len() ==> (#[trigger] logins[i]).len() > 0,
    ensures
        groups_in(body) == Some(Seq::new(logins.len(), |i: int| "github:org/"@ + logins[i])),
{
    law_groups_in(body);
    let orgs = parsed_json(trimmed(body))->0->Array_0;
    let found = Seq::new(orgs.len(), |i: int| text_member(orgs[i], "login"@));
    assert forall|i: int| 0 <= i < found.len() implies (#[trigger] found[i]) == Some(logins[i])
        && found[i]->0.len() > 0 by {
        assert(orgs[i] is Object);
        assert(logins[i].len() > 0);
    }
    law_groups_one_by_one(found);
    assert(groups_of(found) =~= Seq::new(logins.len(), |i: int| "github:org/"@ + logins[i]));
}

/// An identity is `github:` and the login in full, has all the groups in order, and is shown under the
/// name, or under the login where there is none.
pub proof fn law_principal(user: UserView, groups: Seq<Seq<char>>)
    ensures
        principal_of(user, groups).id == "github:"@ + user.login,
        principal_of(user, groups).roles == groups,
        user.name is Some ==> principal_of(user, groups).name == user.name,
        user.name is None ==> principal_of(user, groups).name == Some(user.login),
{
}

/// Different users have different identities.
pub proof fn law_identities_differ(
    user: UserView,
    groups: Seq<Seq<char>>,
    other: UserView,
    other_groups: Seq<Seq<char>>,
)
    ensures
        principal_of(user, groups).id == principal_of(other, other_groups).id <==> user.login
            == other.login,
{
    let prefix = "github:"@;
    assert((prefix + user.login).skip(prefix.len() as int) =~= user.login);
    assert((prefix + other.login).skip(prefix.len() as int) =~= other.login);
}

/// A profile and orgs come to the identity of that user with all those groups; a profile alone to that of
/// the user with none; and without a user, or with orgs that are no array, they are refused.
pub proof fn law_identity_of_bodies(user_body: Seq<char>, orgs_body: Seq<char>)
    ensures
        match (user_in(user_body), groups_in(orgs_body)) {
            (Some(user), Some(groups)) => {
                &&& identity_in(user_body, Some(orgs_body)) matches OutcomeView::Identify(principal)
                &&& principal.id == "github:"@ + user.login
                &&& principal.roles == groups
                &&& principal.name == if user.name is Some {
                    user.name
                } else {
                    Some(user.login)
                }
            },
            _ => identity_in(user_body, Some(orgs_body)) is Reject,
        },
        match user_in(user_body) {
            Some(user) => {
                &&& identity_in(user_body, None) matches OutcomeView::Identify(principal)
                &&& principal.id == "github:"@ + user.login
                &&& principal.roles.len() == 0
                &&& principal.name == if user.name is Some {
                    user.name
                } else {
                    Some(user.login)
                }
            },
            None => identity_in(user_body, None) is Reject,
        },
{
}

/// A body looks like an array exactly when the first character in it that is not white space is a
/// bracket.
pub proof fn law_looks_like_array(before: Seq<char>, first: char, rest: Seq<char>)
    requires
        all_white_space(before),
        !is_white_space(first),
    ensures
        looks_like_array(before + seq![first] + rest) <==> first == '[',
        !looks_like_array(before),
{
    let s = seq![first] + rest;
    assert(before + seq![first] + rest =~= before + s);
    lemma_trimmed_start_drops(before, s);
    lemma_trimmed_start_drops(before, Seq::empty());
    assert(before + Seq::<char>::empty() =~= before);
    assert(s[0] == first);
}

/// The view of a user leaves nothing out.
pub proof fn law_user_view(user: GhUser)
    ensures
        user@.login == user.login@,
        user.name is None ==> user@.name is None,
        user.name matches Some(name) ==> user@.name == Some(name@),
        user_view(Some(user)) == Some(user@),
        user_view(None) is None,
{
}

} // verus!
