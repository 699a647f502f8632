//! The login module: it takes a login from the callback to an identity, one reply at a time.
use crate::authorize::{authorize_url, build_github_authorize_url};
use crate::config::{ConfigView, GitHubConfig};
use crate::hops::{
    build_orgs_get, build_token_exchange, build_userinfo_get, orgs_get, token_exchange, userinfo_get,
};
use crate::identity::{
    build_principal, groups_in, is_json_array, keep_non_empty, looks_like_array, non_empty,
    parse_access_token, parse_org_groups, parse_user, principal_of, token_in, user_in, user_view,
    GhUser, UserView,
};
use crate::laws::law_sound;
use crate::login::{
    AuthOutcome, BeginLogin, BeginView, CompleteLogin, CompleteView, LoginHttpResponse, LoginOutcome,
    OutcomeView, ResponseView,
};
use vstd::hash_map::StringHashMap;
use vstd::prelude::*;

verus! {

/// What is kept of a login between its replies: the access token, which comes once and is needed for
/// two requests, and the user, who is needed when the orgs come.
struct PendingLogin {
    access_token: String,
    user: Option<GhUser>,
}

/// What is kept of a login between its replies, in plain values.
#[verifier::ext_equal]
pub struct PendingView {
    pub access_token: Seq<char>,
    pub user: Option<UserView>,
}

/// What a reply says, told by its shape.
#[derive(Debug, Clone, PartialEq)]
pub enum Reply {
    /// The status is not a success.
    Failure,
    /// An access token.
    Token(String),
    /// A list of orgs, as groups; `None` when it cannot be read.
    Orgs(Option<Vec<String>>),
    /// A profile; `None` when it cannot be read.
    Profile(Option<GhUser>),
}

/// A [`Reply`] in plain values.
#[verifier::ext_equal]
pub enum ReplyView {
    Failure,
    Token(Seq<char>),
    Orgs(Option<Seq<Seq<char>>>),
    Profile(Option<UserView>),
}

/// The login module. A presented credential it passes on; the login it drives.
pub struct GithubModule {
    cfg: GitHubConfig,
    /// The logins under way, by their correlation key.
    pending: StringHashMap<PendingLogin>,
}

/// A [`GithubModule`] in plain values.
#[verifier::ext_equal]
pub struct ModuleView {
    pub cfg: ConfigView,
    pub pending: Map<Seq<char>, PendingView>,
}

impl View for PendingLogin {
    type V = PendingView;

    closed spec fn view(&self) -> PendingView {
        PendingView { access_token: self.access_token@, user: user_view(self.user) }
    }
}

impl View for Reply {
    type V = ReplyView;

    open spec fn view(&self) -> ReplyView {
        match self {
            Reply::Failure => ReplyView::Failure,
            Reply::Token(token) => ReplyView::Token(token@),
            Reply::Orgs(groups) => ReplyView::Orgs(groups.deep_view()),
            Reply::Profile(user) => ReplyView::Profile(user_view(*user)),
        }
    }
}

impl View for GithubModule {
    type V = ModuleView;

    closed spec fn view(&self) -> ModuleView {
        ModuleView {
            cfg: self.cfg@,
            pending: self.pending@.map_values(|login: PendingLogin| login@),
        }
    }
}

/// The key that a login is known by across its replies: the verifier, else the code; none when both are
/// absent or empty. The redirect URI is the same for every login and so is no key.
pub open spec fn correlation(req: CompleteView) -> Option<Seq<char>> {
    match non_empty(req.code_verifier) {
        Some(code_verifier) => Some(code_verifier),
        None => non_empty(req.code),
    }
}

/// What a response says. An array is a list of orgs, whatever text its entries hold; anything else is a
/// token reply when it holds a token, and a profile when it does not.
pub open spec fn reply_in(response: ResponseView) -> ReplyView {
    if !(200 <= response.status < 300) {
        ReplyView::Failure
    } else if looks_like_array(response.body) {
        ReplyView::Orgs(groups_in(response.body))
    } else {
        match token_in(response.body) {
            Some(token) => ReplyView::Token(token),
            None => ReplyView::Profile(user_in(response.body)),
        }
    }
}

/// What a login comes to on a reply, and what is kept of it then.
pub open spec fn login_step(
    cfg: ConfigView,
    kept: Option<PendingView>,
    reply: ReplyView,
) -> (OutcomeView, Option<PendingView>) {
    match (reply, kept) {
        (ReplyView::Token(access_token), _) => (
            OutcomeView::Exchange(userinfo_get(cfg, access_token)),
            Some(PendingView { access_token, user: None }),
        ),
        (ReplyView::Profile(Some(user)), _) if !cfg.fetch_orgs => (
            OutcomeView::Identify(principal_of(user, Seq::empty())),
            None,
        ),
        (ReplyView::Profile(Some(user)), Some(login)) => (
            OutcomeView::Exchange(orgs_get(cfg, login.access_token)),
            Some(PendingView { access_token: login.access_token, user: Some(user) }),
        ),
        (ReplyView::Orgs(Some(groups)), Some(PendingView { user: Some(user), .. })) => (
            OutcomeView::Identify(principal_of(user, groups)),
            None,
        ),
        _ => (OutcomeView::Reject, None),
    }
}

/// What the first call of a login comes to: the token exchange, when the callback has all it takes.
pub open spec fn first_step(cfg: ConfigView, req: CompleteView) -> OutcomeView {
    match (req.code, req.redirect_uri, req.code_verifier) {
        (Some(code), Some(redirect_uri), Some(code_verifier)) => OutcomeView::Exchange(
            token_exchange(cfg, code, redirect_uri, code_verifier),
        ),
        _ => OutcomeView::Reject,
    }
}

impl PendingView {
    /// Whether what is kept of a login is of use: the token is not empty, and neither is the user's
    /// login nor their display name.
    pub open spec fn sound(self) -> bool {
        &&& self.access_token.len() > 0
        &&& self.user matches Some(user) ==> {
            &&& user.login.len() > 0
            &&& user.name matches Some(name) ==> name.len() > 0
        }
    }
}

impl ModuleView {
    /// Whether every login under way has a key and is sound, and no user is kept where no orgs are
    /// fetched.
    pub open spec fn sound(self) -> bool {
        forall|key: Seq<char>| #[trigger]
            self.pending.contains_key(key) ==> {
                &&& key.len() > 0
                &&& self.pending[key].sound()
                &&& !self.cfg.fetch_orgs ==> self.pending[key].user is None
            }
    }

    /// What is kept of the login known by `key`.
    pub open spec fn kept(self, key: Seq<char>) -> Option<PendingView> {
        if self.pending.contains_key(key) {
            Some(self.pending[key])
        } else {
            None
        }
    }

    /// The module with `kept` as what is kept of the login known by `key`.
    pub open spec fn keeping(self, key: Seq<char>, kept: Option<PendingView>) -> ModuleView {
        ModuleView {
            cfg: self.cfg,
            pending: match kept {
                Some(login) => self.pending.insert(key, login),
                None => self.pending.remove(key),
            },
        }
    }

    /// What a request to start a login comes to.
    pub open spec fn begun(self, req: BeginView) -> OutcomeView {
        OutcomeView::Authorize(
            authorize_url(self.cfg, req.redirect_uri, req.state, req.code_challenge, req.scopes),
        )
    }

    /// What a reply to the login known by `key` comes to, and the module then.
    pub open spec fn advanced(self, key: Seq<char>, reply: ReplyView) -> (OutcomeView, ModuleView) {
        let (outcome, kept) = login_step(self.cfg, self.kept(key), reply);
        (outcome, self.keeping(key, kept))
    }

    /// What a request comes to, and the module then.
    pub open spec fn completed(self, req: CompleteView) -> (OutcomeView, ModuleView) {
        match req.token_response {
            None => (first_step(self.cfg, req), self),
            Some(response) => match correlation(req) {
                None => (OutcomeView::Reject, self),
                Some(key) => self.advanced(key, reply_in(response)),
            },
        }
    }
}

/// The key that a login is known by across its replies.
pub fn correlation_key(req: &CompleteLogin) -> (r: Option<String>)
    ensures
        r.deep_view() == correlation(req@),
{
    if let Some(code_verifier) = &req.code_verifier {
        if !code_verifier.as_str().is_empty() {
            return Some(code_verifier.clone());
        }
    }
    match &req.code {
        Some(code) => keep_non_empty(Some(code.clone())),
        None => None,
    }
}

/// Reads a response. It is told by its shape what it replies to, for the core counts no steps.
pub fn read_reply(response: &LoginHttpResponse) -> (r: Reply)
    ensures
        r@ == reply_in(response@),
{
    if !(200 <= response.status && response.status < 300) {
        return Reply::Failure;
    }
    let body = response.body.as_str();
    if is_json_array(body) {
        return Reply::Orgs(parse_org_groups(body));
    }
    match parse_access_token(body) {
        Some(token) => Reply::Token(token),
        None => Reply::Profile(parse_user(body)),
    }
}

impl GithubModule {
    /// A module with no login under way.
    pub fn new(cfg: GitHubConfig) -> (r: Self)
        ensures
            r@ == (ModuleView { cfg: cfg@, pending: Map::empty() }),
            r@.sound(),
    {
        GithubModule { cfg, pending: StringHashMap::new() }
    }

    /// How many logins are under way.
    pub fn pending_len(&self) -> (r: usize)
        ensures
            r == self@.pending.len(),
    {
        assert(self.pending@.dom() == self@.pending.dom());
        self.pending.len()
    }

    /// The name of the module.
    pub fn name(&self) -> (r: &'static str)
        ensures
            r@ == "github"@,
    {
        "github"
    }

    /// A GitHub access token is opaque, so a presented credential is never this module's to judge.
    pub fn authenticate(&self, _candidate: Option<&str>) -> (r: AuthOutcome)
        ensures
            r == AuthOutcome::Pass,
    {
        AuthOutcome::Pass
    }

    /// Whether a judgement may be kept: there is none to keep.
    pub fn cacheable(&self) -> (r: bool)
        ensures
            !r,
    {
        false
    }

    /// Starts a browser login: the browser is sent to the authorize URL.
    pub fn begin_login(&self, req: &BeginLogin) -> (r: LoginOutcome)
        ensures
            r@ == OutcomeView::Authorize(
                authorize_url(
                    self@.cfg,
                    req@.redirect_uri,
                    req@.state,
                    req@.code_challenge,
                    req@.scopes,
                ),
            ),
            r@ == self@.begun(req@),
    {
        LoginOutcome::Authorize(
            build_github_authorize_url(
                &self.cfg,
                req.redirect_uri.as_str(),
                req.state.as_str(),
                req.code_challenge.as_str(),
                req.scopes.as_slice(),
            ),
        )
    }

    /// Takes a login one step further: the first call brings the callback's values, and each later one
    /// the reply to the request described last. A reply that no login can be known for is refused.
    pub fn complete_login(&mut self, req: &CompleteLogin) -> (r: LoginOutcome)
        ensures
            (r@, final(self)@) == old(self)@.completed(req@),
            old(self)@.sound() ==> final(self)@.sound(),
    {
        proof {
            law_sound(self@, req@);
        }
        match &req.token_response {
            None => self.begin_exchange(req),
            Some(response) => match correlation_key(req) {
                None => LoginOutcome::Reject,
                Some(key) => self.advance(key.as_str(), read_reply(response)),
            },
        }
    }

    /// Takes the login known by `key` one step further.
    pub fn advance(&mut self, key: &str, reply: Reply) -> (r: LoginOutcome)
        ensures
            (r@, final(self)@) == old(self)@.advanced(key@, reply@),
    {
        match reply {
            Reply::Failure => {
                self.forget(key);
                LoginOutcome::Reject
            },
            Reply::Token(token) => self.after_token(key, token),
            Reply::Orgs(groups) => self.after_orgs(key, groups),
            Reply::Profile(user) => self.after_userinfo(key, user),
        }
    }

    /// The first call: the token exchange, when the callback has all it takes.
    fn begin_exchange(&self, req: &CompleteLogin) -> (r: LoginOutcome)
        ensures
            r@ == first_step(self@.cfg, req@),
    {
        match (&req.code, &req.redirect_uri, &req.code_verifier) {
            (Some(code), Some(redirect_uri), Some(code_verifier)) => LoginOutcome::Exchange(
                build_token_exchange(
                    &self.cfg,
                    code.as_str(),
                    redirect_uri.as_str(),
                    code_verifier.as_str(),
                ),
            ),
            _ => LoginOutcome::Reject,
        }
    }

    /// Keeps a login.
    fn keep(&mut self, key: &str, login: PendingLogin)
        ensures
            final(self)@ == old(self)@.keeping(key@, Some(login@)),
    {
        self.pending.insert(key.to_string(), login);
        assert(self@.pending =~= old(self)@.pending.insert(key@, login@));
    }

    /// Drops what is kept of a login.
    fn forget(&mut self, key: &str)
        ensures
            final(self)@ == old(self)@.keeping(key@, None),
    {
        self.pending.remove(key);
        assert(self@.pending =~= old(self)@.pending.remove(key@));
    }

    /// The token has come: it is kept, and the profile is asked for with it.
    fn after_token(&mut self, key: &str, token: String) -> (r: LoginOutcome)
        ensures
            (r@, final(self)@) == old(self)@.advanced(key@, ReplyView::Token(token@)),
    {
        let hop = build_userinfo_get(&self.cfg, token.as_str());
        self.keep(key, PendingLogin { access_token: token, user: None });
        LoginOutcome::Exchange(hop)
    }

    /// The profile has come: the user is kept and the orgs are asked for, or, without orgs, the login
    /// is complete. A profile for a login without a token is refused: there is nothing to ask with.
    fn after_userinfo(&mut self, key: &str, user: Option<GhUser>) -> (r: LoginOutcome)
        ensures
            (r@, final(self)@) == old(self)@.advanced(key@, ReplyView::Profile(user_view(user))),
    {
        let user = match user {
            Some(user) => user,
            None => {
                self.forget(key);
                return LoginOutcome::Reject;
            },
        };
        if !self.cfg.fetch_orgs {
            self.forget(key);
            return LoginOutcome::Identify(build_principal(&user, Vec::new()));
        }
        let access_token = match self.pending.get(key) {
            Some(login) => login.access_token.clone(),
            None => {
                assert(self@.pending.remove(key@) =~= self@.pending);
                return LoginOutcome::Reject;
            },
        };
        let hop = build_orgs_get(&self.cfg, access_token.as_str());
        self.keep(key, PendingLogin { access_token, user: Some(user) });
        LoginOutcome::Exchange(hop)
    }

    /// The orgs have come: with the user kept they make the identity. Whatever comes of it, nothing is
    /// kept of the login any more.
    fn after_orgs(&mut self, key: &str, groups: Option<Vec<String>>) -> (r: LoginOutcome)
        ensures
            (r@, final(self)@) == old(self)@.advanced(key@, ReplyView::Orgs(groups.deep_view())),
    {
        let outcome = match (self.pending.get(key), groups) {
            (Some(PendingLogin { user: Some(user), .. }), Some(groups)) => LoginOutcome::Identify(
                build_principal(user, groups),
            ),
            _ => LoginOutcome::Reject,
        };
        self.forget(key);
        outcome
    }
}

/// The view of a reply leaves nothing out.
pub proof fn law_reply_view(
    token: String,
    groups: Option<Vec<String>>,
    user: Option<GhUser>,
)
    ensures
        Reply::Failure@ == ReplyView::Failure,
        Reply::Token(token)@ == ReplyView::Token(token@),
        Reply::Orgs(groups)@ == ReplyView::Orgs(groups.deep_view()),
        Reply::Profile(user)@ == ReplyView::Profile(user_view(user)),
{
}

/// The view of a module leaves no login out, and nothing of a login.
proof fn law_module_view(module: GithubModule, key: Seq<char>)
    ensures
        module@.cfg == module.cfg@,
        module@.pending.contains_key(key) <==> module.pending@.contains_key(key),
        module.pending@.contains_key(key) ==> {
            &&& module@.pending[key].access_token == module.pending@[key].access_token@
            &&& module@.pending[key].user == user_view(module.pending@[key].user)
        },
{
}

} // verus!
