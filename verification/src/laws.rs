//! What holds of logins as a whole.
use crate::authorize::{distinct_scopes, law_authorize_query, query_pairs};
use crate::encoding::pct_text;
use crate::hops::{bearer_headers, orgs_get, token_exchange, userinfo_get};
use crate::identity::{
    document_user, first_token, groups_in, identity_in, is_org_group, law_form_token, law_groups,
    law_groups_in_body, law_token_not_empty, law_user_has_login, looks_like_array, principal_of,
    token_in, user_in, UserView,
};
use crate::json::{parsed_json, text_member, Json};
use crate::login::{BeginView, CompleteView, OutcomeView, ResponseView};
use crate::module::{correlation, reply_in, ModuleView, PendingView, ReplyView};
use crate::text::{begins_with, joined, law_trimmed, parts, trimmed};
use vstd::prelude::*;

verus! {

impl ModuleView {
    /// The module after some requests, one after the other.
    pub open spec fn after(self, reqs: Seq<CompleteView>) -> ModuleView
        decreases reqs.len(),
    {
        if reqs.len() == 0 {
            self
        } else {
            self.after(reqs.drop_last()).completed(reqs.last()).1
        }
    }
}

/// Whether a request brings a reply for the login known by `key`.
pub open spec fn is_reply_for(req: CompleteView, key: Seq<char>) -> bool {
    req.token_response is Some && correlation(req) == Some(key)
}

/// Those of some requests that bring a reply for the login known by `key`, in order.
pub open spec fn replies_for(reqs: Seq<CompleteView>, key: Seq<char>) -> Seq<CompleteView>
    decreases reqs.len(),
{
    if reqs.len() == 0 {
        Seq::empty()
    } else if is_reply_for(reqs.last(), key) {
        replies_for(reqs.drop_last(), key).push(reqs.last())
    } else {
        replies_for(reqs.drop_last(), key)
    }
}

/// Whether a request brings a reply for the login known by `key` that says `reply`.
pub open spec fn brings(req: CompleteView, key: Seq<char>, reply: ReplyView) -> bool {
    is_reply_for(req, key) && reply_in(req.token_response->0) == reply
}

/// The first call of a login changes nothing, and is refused unless it brings the code, the redirect URI
/// and the verifier.
pub proof fn law_first_call(module: ModuleView, req: CompleteView)
    requires
        req.token_response is None,
    ensures
        module.completed(req).1 == module,
        module.completed(req).0 is Reject <==> req.code is None || req.redirect_uri is None
            || req.code_verifier is None,
{
}

/// A reply without a key is refused, and changes nothing: it shares no place with another login.
pub proof fn law_no_key_refused(module: ModuleView, req: CompleteView)
    requires
        req.token_response is Some,
        correlation(req) is None,
    ensures
        module.completed(req) == (OutcomeView::Reject, module),
{
}

/// The redirect URI is no key: it does not matter to which login a request belongs, and a request with
/// nothing else belongs to none.
pub proof fn law_redirect_uri_is_no_key(req: CompleteView, redirect_uri: Option<Seq<char>>)
    ensures
        correlation(CompleteView { redirect_uri, ..req }) == correlation(req),
        req.code_verifier is None && req.code is None ==> correlation(req) is None,
{
}

/// A reply whose status is not a success is refused, whatever its body, and nothing is kept of the login.
pub proof fn law_failure_refused(module: ModuleView, req: CompleteView, key: Seq<char>)
    requires
        is_reply_for(req, key),
        !(200 <= req.token_response->0.status < 300),
    ensures
        module.completed(req).0 is Reject,
        !module.completed(req).1.pending.contains_key(key),
{
}

/// Something is kept of a login exactly while a request is out for it: once it is refused or complete,
/// nothing is kept, so nothing leaks.
pub proof fn law_nothing_leaks(module: ModuleView, req: CompleteView, key: Seq<char>)
    requires
        is_reply_for(req, key),
    ensures
        module.completed(req).1.pending.contains_key(key) <==> module.completed(req).0 is Exchange,
        module.completed(req).0 is Identify || module.completed(req).0 is Reject
            || module.completed(req).0 is Exchange,
{
}

/// Logins are apart: a request leaves alone what is kept of every login but its own.
pub proof fn law_logins_apart(module: ModuleView, req: CompleteView, key: Seq<char>)
    requires
        !is_reply_for(req, key),
    ensures
        module.completed(req).1.kept(key) == module.kept(key),
        module.completed(req).1.cfg == module.cfg,
{
}

/// What a reply comes to rests on the settings and on what is kept of its own login alone.
pub proof fn law_own_login_decides(
    module: ModuleView,
    other: ModuleView,
    req: CompleteView,
    key: Seq<char>,
)
    requires
        is_reply_for(req, key),
        module.cfg == other.cfg,
        module.kept(key) == other.kept(key),
    ensures
        module.completed(req).0 == other.completed(req).0,
        module.completed(req).1.kept(key) == other.completed(req).1.kept(key),
{
}

/// Requests never change the settings.
pub proof fn law_settings_stay(module: ModuleView, reqs: Seq<CompleteView>)
    ensures
        module.after(reqs).cfg == module.cfg,
    decreases reqs.len(),
{
    if reqs.len() > 0 {
        law_settings_stay(module, reqs.drop_last());
    }
}

/// However the requests of many logins are mixed, a login fares as if its own replies had come alone.
pub proof fn law_logins_may_be_mixed(module: ModuleView, reqs: Seq<CompleteView>, key: Seq<char>)
    ensures
        module.after(reqs).kept(key) == module.after(replies_for(reqs, key)).kept(key),
    decreases reqs.len(),
{
    if reqs.len() > 0 {
        let earlier = reqs.drop_last();
        let own = replies_for(earlier, key);
        let req = reqs.last();
        law_logins_may_be_mixed(module, earlier, key);
        if is_reply_for(req, key) {
            law_settings_stay(module, earlier);
            law_settings_stay(module, own);
            law_own_login_decides(module.after(earlier), module.after(own), req, key);
            assert(own.push(req).drop_last() =~= own);
        } else {
            law_logins_apart(module.after(earlier), req, key);
        }
    }
}

/// A whole login, with orgs: the callback brings the token exchange; the token brings the request for the
/// profile and the profile the request for the orgs, both made with that token; and the orgs bring the
/// identity, of the user in the profile with the groups in the orgs. Nothing is kept of it then.
pub proof fn law_whole_login(
    module: ModuleView,
    callback: CompleteView,
    token_req: CompleteView,
    profile_req: CompleteView,
    orgs_req: CompleteView,
    key: Seq<char>,
    token: Seq<char>,
    user: UserView,
    groups: Seq<Seq<char>>,
)
    requires
        module.cfg.fetch_orgs,
        callback.token_response is None,
        callback.code is Some,
        callback.redirect_uri is Some,
        callback.code_verifier is Some,
        brings(token_req, key, ReplyView::Token(token)),
        brings(profile_req, key, ReplyView::Profile(Some(user))),
        brings(orgs_req, key, ReplyView::Orgs(Some(groups))),
    ensures
        ({
            let m1 = module.completed(callback).1;
            let m2 = m1.completed(token_req).1;
            let m3 = m2.completed(profile_req).1;
            let m4 = m3.completed(orgs_req).1;
            &&& module.completed(callback).0 == OutcomeView::Exchange(
                token_exchange(
                    module.cfg,
                    callback.code->0,
                    callback.redirect_uri->0,
                    callback.code_verifier->0,
                ),
            )
            &&& m1.completed(token_req).0 == OutcomeView::Exchange(userinfo_get(module.cfg, token))
            &&& m2.completed(profile_req).0 == OutcomeView::Exchange(orgs_get(module.cfg, token))
            &&& m3.completed(orgs_req).0 == OutcomeView::Identify(principal_of(user, groups))
            &&& m4 == module.keeping(key, None)
        }),
{
    let m1 = module.completed(callback).1;
    let m2 = m1.completed(token_req).1;
    let m3 = m2.completed(profile_req).1;
    let m4 = m3.completed(orgs_req).1;
    assert(m4.pending =~= module.pending.remove(key));
}

/// A whole login, without orgs: the profile completes it, with no groups.
pub proof fn law_whole_login_without_orgs(
    module: ModuleView,
    token_req: CompleteView,
    profile_req: CompleteView,
    key: Seq<char>,
    token: Seq<char>,
    user: UserView,
)
    requires
        !module.cfg.fetch_orgs,
        brings(token_req, key, ReplyView::Token(token)),
        brings(profile_req, key, ReplyView::Profile(Some(user))),
    ensures
        ({
            let m1 = module.completed(token_req).1;
            let m2 = m1.completed(profile_req).1;
            &&& module.completed(token_req).0 == OutcomeView::Exchange(
                userinfo_get(module.cfg, token),
            )
            &&& m1.completed(profile_req).0 == OutcomeView::Identify(
                principal_of(user, Seq::empty()),
            )
            &&& m2 == module.keeping(key, None)
        }),
{
    let m1 = module.completed(token_req).1;
    let m2 = m1.completed(profile_req).1;
    assert(m2.pending =~= module.pending.remove(key));
}

/// A whole login amid others: whatever other requests come before, between and after its own replies, a
/// login of a token, a profile and orgs ends in that user's identity.
pub proof fn law_whole_login_amid_others(
    module: ModuleView,
    reqs: Seq<CompleteView>,
    orgs_req: CompleteView,
    key: Seq<char>,
    token: Seq<char>,
    user: UserView,
    groups: Seq<Seq<char>>,
)
    requires
        module.cfg.fetch_orgs,
        replies_for(reqs, key).len() >= 2,
        brings(
            replies_for(reqs, key)[replies_for(reqs, key).len() - 2],
            key,
            ReplyView::Token(token),
        ),
        brings(replies_for(reqs, key).last(), key, ReplyView::Profile(Some(user))),
        brings(orgs_req, key, ReplyView::Orgs(Some(groups))),
    ensures
        module.after(reqs).completed(orgs_req).0 == OutcomeView::Identify(
            principal_of(user, groups),
        ),
{
    let own = replies_for(reqs, key);
    law_logins_may_be_mixed(module, reqs, key);
    law_settings_stay(module, reqs);
    law_settings_stay(module, own);
    law_settings_stay(module, own.drop_last());
    law_settings_stay(module, own.drop_last().drop_last());
    assert(own.drop_last().last() == own[own.len() - 2]);
    let m1 = module.after(own.drop_last());
    assert(m1.kept(key) == Some(PendingView { access_token: token, user: None }));
    let m2 = module.after(own);
    assert(m2.kept(key) == Some(PendingView { access_token: token, user: Some(user) }));
}

/// Step by step or at once: once the token is there, the replies to the two requests come to what
/// [`identity_in`] makes of their bodies.
pub proof fn law_steps_agree_with_bodies(
    module: ModuleView,
    profile_req: CompleteView,
    orgs_req: CompleteView,
    key: Seq<char>,
    user_body: Seq<char>,
    orgs_body: Seq<char>,
)
    requires
        module.pending.contains_key(key),
        brings(profile_req, key, ReplyView::Profile(user_in(user_body))),
        brings(orgs_req, key, ReplyView::Orgs(groups_in(orgs_body))),
    ensures
        module.cfg.fetch_orgs && user_in(user_body) is Some ==> module.completed(
            profile_req,
        ).1.completed(orgs_req).0 == identity_in(user_body, Some(orgs_body)),
        !module.cfg.fetch_orgs || user_in(user_body) is None ==> module.completed(profile_req).0
            == identity_in(user_body, None),
{
}

/// The secret is the core's alone: the token exchange names the field that the core fills, and leaves it
/// empty; every other request has no form, and no field for the secret.
pub proof fn law_secret_left_to_core(module: ModuleView, req: CompleteView)
    ensures
        module.completed(req).0 matches OutcomeView::Exchange(hop) ==> {
            &&& hop.secret_form_field == if req.token_response is None {
                Some("client_secret"@)
            } else {
                None
            }
            &&& req.token_response is Some ==> hop.form.len() == 0
            &&& forall|i: int|
                0 <= i < hop.form.len() && (#[trigger] hop.form[i]).0 == "client_secret"@
                    ==> hop.form[i].1.len() == 0
        },
{
    assert("client_id"@.len() == 9) by {
        reveal_strlit("client_id");
    }
    assert("code"@.len() == 4) by {
        reveal_strlit("code");
    }
    assert("redirect_uri"@.len() == 12) by {
        reveal_strlit("redirect_uri");
    }
    assert("code_verifier"@.len() == 13 && "code_verifier"@[1] == 'o') by {
        reveal_strlit("code_verifier");
    }
    assert("client_secret"@.len() == 13 && "client_secret"@[1] == 'l') by {
        reveal_strlit("client_secret");
    }
}

/// A module is sound from its start, and stays so: no login is ever kept without a key or a token, and
/// no user is kept where no orgs are fetched.
pub proof fn law_sound(module: ModuleView, req: CompleteView)
    ensures
        module.pending == Map::<Seq<char>, PendingView>::empty() ==> module.sound(),
        module.sound() ==> module.completed(req).1.sound(),
{
    if let Some(response) = req.token_response {
        law_token_not_empty(response.body);
        law_user_has_login(response.body);
    }
    if module.sound() {
        let next = module.completed(req).1;
        assert forall|key: Seq<char>| #[trigger] next.pending.contains_key(key) implies key.len() > 0
            && next.pending[key].sound() && (!next.cfg.fetch_orgs ==> next.pending[key].user is None) by {
            if correlation(req) == Some(key) {
                assert(module.pending.contains_key(key) ==> module.pending[key].sound());
            } else {
                assert(module.pending.contains_key(key));
            }
        }
    }
}

/// Every request after the token exchange is made with a bearer, and never with an empty one. The token
/// is the one that the reply brought, or the one kept of the login.
pub proof fn law_bearer(module: ModuleView, req: CompleteView, key: Seq<char>)
    requires
        module.sound(),
        is_reply_for(req, key),
    ensures
        module.completed(req).0 matches OutcomeView::Exchange(hop) ==> {
            let token = module.completed(req).1.pending[key].access_token;
            &&& token.len() > 0
            &&& hop == userinfo_get(module.cfg, token) || hop == orgs_get(module.cfg, token)
            &&& hop.headers == bearer_headers(token)
            &&& {
                ||| reply_in(req.token_response->0) == ReplyView::Token(token)
                ||| module.pending.contains_key(key) && module.pending[key].access_token == token
            }
        },
{
    law_sound(module, req);
    law_nothing_leaks(module, req, key);
}

/// An identity comes only of a reply that is a success. It is `github:` and a login, it has a name to
/// show, its groups are those of orgs, and without the fetching of orgs it has none.
pub proof fn law_identity(module: ModuleView, req: CompleteView)
    requires
        module.sound(),
    ensures
        module.completed(req).0 matches OutcomeView::Identify(principal) ==> {
            &&& req.token_response matches Some(response)
            &&& 200 <= response.status < 300
            &&& correlation(req) is Some
            &&& "github:"@.is_prefix_of(principal.id)
            &&& principal.id.len() > "github:"@.len()
            &&& principal.name matches Some(name)
            &&& name.len() > 0
            &&& forall|i: int|
                0 <= i < principal.roles.len() ==> is_org_group(#[trigger] principal.roles[i])
            &&& !module.cfg.fetch_orgs ==> principal.roles.len() == 0
        },
{
    if let Some(response) = req.token_response {
        law_user_has_login(response.body);
        if let Some(document) = parsed_json(trimmed(response.body)) {
            if let Json::Array(orgs) = document {
                law_groups(orgs.map_values(|org: Json| text_member(org, "login"@)));
            }
        }
        if let Some(key) = correlation(req) {
            assert(module.pending.contains_key(key) ==> module.pending[key].sound());
        }
    }
}

/// A token starts a login over, whatever was kept of it: the profile is asked for with the new token, the
/// earlier token and user are gone, orgs that come next are refused, and a profile that comes next has
/// the orgs asked for with the new token.
pub proof fn law_token_starts_over(
    module: ModuleView,
    req: CompleteView,
    next: CompleteView,
    key: Seq<char>,
    token: Seq<char>,
)
    requires
        brings(req, key, ReplyView::Token(token)),
    ensures
        module.completed(req).0 == OutcomeView::Exchange(userinfo_get(module.cfg, token)),
        module.completed(req).1.kept(key) == Some(PendingView { access_token: token, user: None }),
        is_reply_for(next, key) && reply_in(next.token_response->0) is Orgs ==> module.completed(
            req,
        ).1.completed(next).0 is Reject,
        forall|user: UserView|
            module.cfg.fetch_orgs && #[trigger] brings(next, key, ReplyView::Profile(Some(user)))
                ==> module.completed(req).1.completed(next).0 == OutcomeView::Exchange(
                orgs_get(module.cfg, token),
            ),
{
}

/// A JSON object with a token is read as that token.
pub proof fn law_object_with_token(response: ResponseView, document: Json, token: Seq<char>)
    requires
        200 <= response.status < 300,
        begins_with(trimmed(response.body), '{'),
        parsed_json(trimmed(response.body)) == Some(document),
        text_member(document, "access_token"@) == Some(token),
        token.len() > 0,
    ensures
        reply_in(response) == ReplyView::Token(token),
{
    law_trimmed(response.body);
}

/// A form that begins with a token is read as that token, whatever characters it holds.
pub proof fn law_form_with_token(response: ResponseView, token: Seq<char>, rest: Seq<char>)
    requires
        200 <= response.status < 300,
        token.len() > 0,
        response.body == "access_token="@ + pct_text(token) || response.body == "access_token="@
            + pct_text(token) + seq!['&'] + rest,
    ensures
        reply_in(response) == ReplyView::Token(token),
{
    law_form_token(token, rest);
    reveal_strlit("access_token=");
    assert(response.body[0] == 'a');
}

/// A JSON object without a token is read as a profile, never as a token or as orgs.
pub proof fn law_object_is_profile(response: ResponseView, document: Json)
    requires
        200 <= response.status < 300,
        begins_with(trimmed(response.body), '{'),
        parsed_json(trimmed(response.body)) == Some(document),
        text_member(document, "access_token"@) matches Some(token) ==> token.len() == 0,
    ensures
        reply_in(response) == ReplyView::Profile(document_user(document)),
{
    law_trimmed(response.body);
}

/// A body that begins with a bracket is read as orgs, whatever text stands in it.
pub proof fn law_array_is_orgs(response: ResponseView)
    requires
        200 <= response.status < 300,
        begins_with(trimmed(response.body), '['),
    ensures
        reply_in(response) == ReplyView::Orgs(groups_in(response.body)),
{
    law_trimmed(response.body);
}

/// A body with no token, no user and no orgs is refused, whatever is kept of the login: GitHub answers a
/// bad code with a success status and such a body. Nor does a token in an array count.
pub proof fn law_empty_handed_reply_refused(module: ModuleView, req: CompleteView, key: Seq<char>)
    requires
        is_reply_for(req, key),
        token_in(req.token_response->0.body) is None || looks_like_array(
            req.token_response->0.body,
        ),
        user_in(req.token_response->0.body) is None,
        groups_in(req.token_response->0.body) is None,
    ensures
        module.completed(req).0 is Reject,
        !module.completed(req).1.pending.contains_key(key),
{
}

/// A body that is not JSON is refused, whatever is kept of the login, unless it is a form with a token.
pub proof fn law_malformed_reply_refused(module: ModuleView, req: CompleteView, key: Seq<char>)
    requires
        is_reply_for(req, key),
        parsed_json(trimmed(req.token_response->0.body)) is None,
        begins_with(trimmed(req.token_response->0.body), '{') || begins_with(
            trimmed(req.token_response->0.body),
            '[',
        ) || first_token(parts(trimmed(req.token_response->0.body), '&')) is None,
    ensures
        module.completed(req).0 is Reject,
        !module.completed(req).1.pending.contains_key(key),
{
    law_trimmed(req.token_response->0.body);
    law_empty_handed_reply_refused(module, req, key);
}

/// A profile is no use before the token, and orgs are none before the profile: such a reply is refused.
pub proof fn law_out_of_order_refused(module: ModuleView, req: CompleteView, key: Seq<char>)
    requires
        is_reply_for(req, key),
        module.cfg.fetch_orgs,
        match reply_in(req.token_response->0) {
            ReplyView::Profile(_) => module.kept(key) is None,
            ReplyView::Orgs(_) => module.kept(key) matches Some(login) ==> login.user is None,
            _ => false,
        },
    ensures
        module.completed(req).0 is Reject,
        !module.completed(req).1.pending.contains_key(key),
{
}

/// A verifier that is not empty is the key, whatever its length; without one, a code that is not empty
/// is; and there is no other key.
pub proof fn law_key(req: CompleteView)
    ensures
        req.code_verifier matches Some(verifier) && verifier.len() > 0 ==> correlation(req)
            == req.code_verifier,
        (req.code_verifier matches Some(verifier) ==> verifier.len() == 0) && (req.code matches Some(
            code,
        ) && code.len() > 0) ==> correlation(req) == req.code,
        (req.code_verifier matches Some(verifier) ==> verifier.len() == 0) && (req.code matches Some(
            code,
        ) ==> code.len() == 0) ==> correlation(req) is None,
{
}

/// What a response says, by its status and its shape: each kind in full, and exactly where it is due.
pub proof fn law_reply(response: ResponseView)
    ensures
        response.status < 200 || response.status >= 300 <==> reply_in(response) is Failure,
        200 <= response.status < 300 && looks_like_array(response.body) ==> reply_in(response)
            == ReplyView::Orgs(groups_in(response.body)),
        200 <= response.status < 300 && !looks_like_array(response.body) ==> (token_in(
            response.body,
        ) matches Some(token) ==> reply_in(response) == ReplyView::Token(token)),
        200 <= response.status < 300 && !looks_like_array(response.body) && token_in(response.body)
            is None ==> reply_in(response) == ReplyView::Profile(user_in(response.body)),
{
}

/// A callback with a code, a redirect URI and a verifier, whatever they hold, comes to a post to the
/// token endpoint that carries all three.
pub proof fn law_callback_exchanges(
    module: ModuleView,
    code: Seq<char>,
    redirect_uri: Seq<char>,
    code_verifier: Seq<char>,
)
    ensures
        ({
            let req = CompleteView {
                code: Some(code),
                redirect_uri: Some(redirect_uri),
                code_verifier: Some(code_verifier),
                token_response: None,
            };
            &&& module.completed(req).1 == module
            &&& module.completed(req).0 matches OutcomeView::Exchange(hop)
            &&& hop.method == "POST"@
            &&& hop.url == module.cfg.token_endpoint()
            &&& hop.form == seq![
                ("client_id"@, module.cfg.client_id),
                ("code"@, code),
                ("redirect_uri"@, redirect_uri),
                ("code_verifier"@, code_verifier),
                ("client_secret"@, Seq::empty()),
            ]
            &&& hop.secret_form_field == Some("client_secret"@)
        }),
{
}

/// A reply with a key is a step of the login of that key, and of no other.
pub proof fn law_reply_is_step(module: ModuleView, req: CompleteView, key: Seq<char>)
    requires
        req.token_response is Some,
        correlation(req) == Some(key),
    ensures
        module.completed(req) == module.advanced(key, reply_in(req.token_response->0)),
        is_reply_for(req, key),
{
}

/// Every step of a login, whatever its key: what it comes to, and what is kept after it. Only the place
/// of that key is touched.
pub proof fn law_step(module: ModuleView, key: Seq<char>, reply: ReplyView)
    ensures
        ({
            let (outcome, next) = module.advanced(key, reply);
            let forgotten = module.pending.remove(key);
            &&& next.cfg == module.cfg
            &&& match reply {
                ReplyView::Failure => outcome is Reject && next.pending == forgotten,
                ReplyView::Token(token) => {
                    &&& outcome == OutcomeView::Exchange(userinfo_get(module.cfg, token))
                    &&& next.pending == module.pending.insert(
                        key,
                        PendingView { access_token: token, user: None },
                    )
                },
                ReplyView::Profile(None) => outcome is Reject && next.pending == forgotten,
                ReplyView::Profile(Some(user)) => if !module.cfg.fetch_orgs {
                    &&& outcome == OutcomeView::Identify(principal_of(user, Seq::empty()))
                    &&& next.pending == forgotten
                } else if module.pending.contains_key(key) {
                    let access_token = module.pending[key].access_token;
                    &&& outcome == OutcomeView::Exchange(orgs_get(module.cfg, access_token))
                    &&& next.pending == module.pending.insert(
                        key,
                        PendingView { access_token, user: Some(user) },
                    )
                } else {
                    outcome is Reject && next.pending == module.pending
                },
                ReplyView::Orgs(groups) => {
                    &&& next.pending == forgotten
                    &&& if groups is Some && module.pending.contains_key(key)
                        && module.pending[key].user is Some {
                        outcome == OutcomeView::Identify(
                            principal_of(module.pending[key].user->0, groups->0),
                        )
                    } else {
                        outcome is Reject
                    }
                },
            }
        }),
{
    assert(!module.pending.contains_key(key) ==> module.pending.remove(key) =~= module.pending);
}

/// What is kept of a login is what stands at its key.
pub proof fn law_kept(module: ModuleView, key: Seq<char>, other: Seq<char>, login: PendingView)
    ensures
        module.kept(key) == Some(login) <==> module.pending.contains_key(key) && module.pending[key]
            == login,
        module.keeping(key, Some(login)).kept(key) == Some(login),
        module.keeping(key, None).kept(key) is None,
        other != key ==> module.keeping(key, Some(login)).kept(other) == module.kept(other)
            && module.keeping(key, None).kept(other) == module.kept(other),
{
}

/// A request for the next step of a login: the verifier, and the reply.
pub open spec fn reply_request(verifier: Seq<char>, status: u16, body: Seq<char>) -> CompleteView {
    CompleteView {
        code: None,
        redirect_uri: None,
        code_verifier: Some(verifier),
        token_response: Some(ResponseView { status, body }),
    }
}

/// Whether a body is JSON of an object with these members.
pub open spec fn is_object(body: Seq<char>, members: Map<Seq<char>, Json>) -> bool {
    begins_with(trimmed(body), '{') && parsed_json(trimmed(body)) == Some(Json::Object(members))
}

/// A token reply, from the bytes up: with a verifier of any length that is not empty, a success status
/// and an object with a token, the profile is asked for with that token, and the token is kept under
/// that verifier.
pub proof fn law_token_reply(
    module: ModuleView,
    verifier: Seq<char>,
    status: u16,
    body: Seq<char>,
    members: Map<Seq<char>, Json>,
    token: Seq<char>,
)
    requires
        verifier.len() > 0,
        200 <= status < 300,
        is_object(body, members),
        members.contains_key("access_token"@),
        members["access_token"@] == Json::Text(token),
        token.len() > 0,
    ensures
        ({
            let (outcome, next) = module.completed(reply_request(verifier, status, body));
            &&& outcome matches OutcomeView::Exchange(hop)
            &&& hop.method == "GET"@
            &&& hop.url == module.cfg.user_endpoint()
            &&& hop.form.len() == 0
            &&& hop.secret_form_field is None
            &&& hop.headers == seq![
                ("Authorization"@, "Bearer "@ + token),
                ("User-Agent"@, "busbar"@),
                ("Accept"@, "application/vnd.github+json"@),
            ]
            &&& next.pending == module.pending.insert(
                verifier,
                PendingView { access_token: token, user: None },
            )
        }),
{
    let response = ResponseView { status, body };
    law_object_with_token(response, Json::Object(members), token);
}

/// A whole login, from the bytes up: a token, a profile and a list of orgs, sent as JSON with a verifier
/// that is not empty, end in `github:` and the login, with a group for every org, in order.
pub proof fn law_whole_login_in_json(
    module: ModuleView,
    verifier: Seq<char>,
    token_body: Seq<char>,
    token_members: Map<Seq<char>, Json>,
    token: Seq<char>,
    user_body: Seq<char>,
    user_members: Map<Seq<char>, Json>,
    login: Seq<char>,
    id: i64,
    orgs_body: Seq<char>,
    orgs: Seq<Json>,
    logins: Seq<Seq<char>>,
)
    requires
        module.cfg.fetch_orgs,
        verifier.len() > 0,
        is_object(token_body, token_members),
        token_members.contains_key("access_token"@),
        token_members["access_token"@] == Json::Text(token),
        token.len() > 0,
        is_object(user_body, user_members),
        !user_members.contains_key("access_token"@),
        user_members.contains_key("login"@),
        user_members["login"@] == Json::Text(login),
        login.len() > 0,
        user_members.contains_key("id"@),
        user_members["id"@] == Json::Integer(id as int),
        begins_with(trimmed(orgs_body), '['),
        parsed_json(trimmed(orgs_body)) == Some(Json::Array(orgs)),
        orgs.len() == logins.len(),
        forall|i: int|
            0 <= i < orgs.len() ==> (#[trigger] orgs[i] matches Json::Object(members)
                && members.contains_key("login"@) && members["login"@] == Json::Text(logins[i])),
        forall|i: int| 0 <= i < logins.len() ==> (#[trigger] logins[i]).len() > 0,
    ensures
        ({
            let m1 = module.completed(reply_request(verifier, 200, token_body)).1;
            let (second, m2) = m1.completed(reply_request(verifier, 200, user_body));
            let (third, m3) = m2.completed(reply_request(verifier, 200, orgs_body));
            &&& second matches OutcomeView::Exchange(hop)
            &&& hop.url == module.cfg.orgs_endpoint()
            &&& hop.headers[0] == ("Authorization"@, "Bearer "@ + token)
            &&& third matches OutcomeView::Identify(principal)
            &&& principal.id == "github:"@ + login
            &&& principal.roles == Seq::new(logins.len(), |i: int| "github:org/"@ + logins[i])
            &&& !m3.pending.contains_key(verifier)
        }),
{
    let token_response = ResponseView { status: 200, body: token_body };
    let user_response = ResponseView { status: 200, body: user_body };
    let orgs_response = ResponseView { status: 200, body: orgs_body };
    law_object_with_token(token_response, Json::Object(token_members), token);
    law_object_is_profile(user_response, Json::Object(user_members));
    law_array_is_orgs(orgs_response);
    law_groups_in_body(orgs_body, logins);
    assert(document_user(Json::Object(user_members)) is Some);
    let m1 = module.completed(reply_request(verifier, 200, token_body)).1;
    assert(m1.kept(verifier) == Some(PendingView { access_token: token, user: None }));
}

/// A login starts at the authorize endpoint, and the server reads there what the request and the settings
/// hold, each once and in full: the challenge, the state, the redirect URI and the client id.
pub proof fn law_begin(module: ModuleView, req: BeginView)
    ensures
        module.begun(req) matches OutcomeView::Authorize(url) && {
            let endpoint = module.cfg.authorize_endpoint() + seq!['?'];
            &&& endpoint.is_prefix_of(url)
            &&& query_pairs(url.skip(endpoint.len() as int)) == seq![
                ("response_type"@, "code"@),
                ("client_id"@, module.cfg.client_id),
                ("redirect_uri"@, req.redirect_uri),
                ("scope"@, joined(distinct_scopes(module.cfg.scopes + req.scopes), ' ')),
                ("state"@, req.state),
                ("code_challenge"@, req.code_challenge),
                ("code_challenge_method"@, "S256"@),
            ]
        },
{
    law_authorize_query(
        module.cfg,
        req.redirect_uri,
        req.state,
        req.code_challenge,
        req.scopes,
    );
}

} // verus!
