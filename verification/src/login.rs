//! What passes between the core and a login module: the requests, and the outcomes they are answered
//! with.
use vstd::prelude::*;

verus! {

/// The core asks for the start of a browser login.
#[derive(Debug, Clone, PartialEq)]
pub struct BeginLogin {
    /// Where the provider sends the browser back to.
    pub redirect_uri: String,
    /// The value the core recognises its own callback by.
    pub state: String,
    /// The PKCE challenge, made with S256.
    pub code_challenge: String,
    /// A nonce for an `id_token`; GitHub issues none.
    pub nonce: Option<String>,
    /// Scopes asked for on top of the configured ones.
    pub scopes: Vec<String>,
}

/// The reply to a request that the core made for the module.
#[derive(Debug, Clone, PartialEq)]
pub struct LoginHttpResponse {
    /// The HTTP status.
    pub status: u16,
    /// The body.
    pub body: String,
}

/// The core asks for the next step of a login: with the callback's values first, and then with the
/// reply to each request that the module described.
#[derive(Debug, Clone, PartialEq)]
pub struct CompleteLogin {
    /// The authorization code of the callback.
    pub code: Option<String>,
    /// Where the provider sent the browser back to.
    pub redirect_uri: Option<String>,
    /// The PKCE verifier of this login.
    pub code_verifier: Option<String>,
    /// The reply to the last request described; `None` on the first call.
    pub token_response: Option<LoginHttpResponse>,
}

/// A request that the core is to make.
#[derive(Debug, Clone, PartialEq)]
pub struct LoginHop {
    /// The HTTP method.
    pub method: String,
    /// The URL.
    pub url: String,
    /// The form to send.
    pub form: Vec<(String, String)>,
    /// The form field that the core fills with the client secret.
    pub secret_form_field: Option<String>,
    /// The headers to send.
    pub headers: Vec<(String, String)>,
}

/// Who has signed in.
#[derive(Debug, Clone, PartialEq)]
pub struct Principal {
    /// The identity of record.
    pub id: String,
    /// A name to show.
    pub name: Option<String>,
    /// The groups that the identity belongs to.
    pub roles: Vec<String>,
}

/// What a login step comes to.
#[derive(Debug, Clone, PartialEq)]
pub enum LoginOutcome {
    /// Send the browser to this URL.
    Authorize(String),
    /// Make this request, and come back with the reply.
    Exchange(LoginHop),
    /// The login is complete.
    Identify(Principal),
    /// The login has failed.
    Reject,
}

/// What a module says of a presented credential.
#[derive(Debug, Clone, PartialEq)]
pub enum AuthOutcome {
    /// It is for another module to judge.
    Pass,
    /// It is refused.
    Reject,
}

/// A [`LoginHttpResponse`] in plain values.
pub struct ResponseView {
    pub status: u16,
    pub body: Seq<char>,
}

/// A [`BeginLogin`] in plain values.
pub struct BeginView {
    pub redirect_uri: Seq<char>,
    pub state: Seq<char>,
    pub code_challenge: Seq<char>,
    pub nonce: Option<Seq<char>>,
    pub scopes: Seq<Seq<char>>,
}

/// A [`CompleteLogin`] in plain values.
pub struct CompleteView {
    pub code: Option<Seq<char>>,
    pub redirect_uri: Option<Seq<char>>,
    pub code_verifier: Option<Seq<char>>,
    pub token_response: Option<ResponseView>,
}

/// A [`LoginHop`] in plain values.
#[verifier::ext_equal]
pub struct HopView {
    pub method: Seq<char>,
    pub url: Seq<char>,
    pub form: Seq<(Seq<char>, Seq<char>)>,
    pub secret_form_field: Option<Seq<char>>,
    pub headers: Seq<(Seq<char>, Seq<char>)>,
}

/// A [`Principal`] in plain values.
#[verifier::ext_equal]
pub struct PrincipalView {
    pub id: Seq<char>,
    pub name: Option<Seq<char>>,
    pub roles: Seq<Seq<char>>,
}

/// A [`LoginOutcome`] in plain values.
#[verifier::ext_equal]
pub enum OutcomeView {
    Authorize(Seq<char>),
    Exchange(HopView),
    Identify(PrincipalView),
    Reject,
}

impl View for LoginHttpResponse {
    type V = ResponseView;

    open spec fn view(&self) -> ResponseView {
        ResponseView { status: self.status, body: self.body@ }
    }
}

impl View for BeginLogin {
    type V = BeginView;

    open spec fn view(&self) -> BeginView {
        BeginView {
            redirect_uri: self.redirect_uri@,
            state: self.state@,
            code_challenge: self.code_challenge@,
            nonce: self.nonce.deep_view(),
            scopes: self.scopes.deep_view(),
        }
    }
}

impl View for CompleteLogin {
    type V = CompleteView;

    open spec fn view(&self) -> CompleteView {
        CompleteView {
            code: self.code.deep_view(),
            redirect_uri: self.redirect_uri.deep_view(),
            code_verifier: self.code_verifier.deep_view(),
            token_response: match self.token_response {
                Some(response) => Some(response@),
                None => None,
            },
        }
    }
}

impl View for LoginHop {
    type V = HopView;

    open spec fn view(&self) -> HopView {
        HopView {
            method: self.method@,
            url: self.url@,
            form: self.form.deep_view(),
            secret_form_field: self.secret_form_field.deep_view(),
            headers: self.headers.deep_view(),
        }
    }
}

impl View for Principal {
    type V = PrincipalView;

    open spec fn view(&self) -> PrincipalView {
        PrincipalView {
            id: self.id@,
            name: self.name.deep_view(),
            roles: self.roles.deep_view(),
        }
    }
}

impl View for LoginOutcome {
    type V = OutcomeView;

    open spec fn view(&self) -> OutcomeView {
        match self {
            LoginOutcome::Authorize(url) => OutcomeView::Authorize(url@),
            LoginOutcome::Exchange(hop) => OutcomeView::Exchange(hop@),
            LoginOutcome::Identify(principal) => OutcomeView::Identify(principal@),
            LoginOutcome::Reject => OutcomeView::Reject,
        }
    }
}

impl Default for CompleteLogin {
    /// A request with nothing in it.
    fn default() -> (r: Self)
        ensures
            r@ == (CompleteView {
                code: None,
                redirect_uri: None,
                code_verifier: None,
                token_response: None,
            }),
    {
        CompleteLogin { code: None, redirect_uri: None, code_verifier: None, token_response: None }
    }
}

/// The views of the requests leave nothing out.
pub proof fn law_request_views(
    begin: BeginLogin,
    complete: CompleteLogin,
    response: LoginHttpResponse,
)
    ensures
        begin@.redirect_uri == begin.redirect_uri@,
        begin@.state == begin.state@,
        begin@.code_challenge == begin.code_challenge@,
        begin@.nonce == begin.nonce.deep_view(),
        begin@.scopes.len() == begin.scopes@.len(),
        forall|i: int| 0 <= i < begin.scopes@.len() ==> #[trigger] begin@.scopes[i] == begin.scopes@[i]@,
        complete@.code == complete.code.deep_view(),
        complete@.redirect_uri == complete.redirect_uri.deep_view(),
        complete@.code_verifier == complete.code_verifier.deep_view(),
        complete.token_response is None ==> complete@.token_response is None,
        complete.token_response == Some(response) ==> complete@.token_response == Some(response@),
        response@.status == response.status,
        response@.body == response.body@,
{
}

/// The views of the outcomes leave nothing out.
pub proof fn law_outcome_views(hop: LoginHop, principal: Principal, url: String)
    ensures
        hop@.method == hop.method@,
        hop@.url == hop.url@,
        hop@.form.len() == hop.form@.len(),
        forall|i: int|
            0 <= i < hop.form@.len() ==> #[trigger] hop@.form[i] == (hop.form@[i].0@, hop.form@[i].1@),
        hop@.secret_form_field == hop.secret_form_field.deep_view(),
        hop@.headers.len() == hop.headers@.len(),
        forall|i: int|
            0 <= i < hop.headers@.len() ==> #[trigger] hop@.headers[i] == (
                hop.headers@[i].0@,
                hop.headers@[i].1@,
            ),
        principal@.id == principal.id@,
        principal@.name == principal.name.deep_view(),
        principal@.roles.len() == principal.roles@.len(),
        forall|i: int|
            0 <= i < principal.roles@.len() ==> #[trigger] principal@.roles[i] == principal.roles@[i]@,
        LoginOutcome::Authorize(url)@ == OutcomeView::Authorize(url@),
        LoginOutcome::Exchange(hop)@ == OutcomeView::Exchange(hop@),
        LoginOutcome::Identify(principal)@ == OutcomeView::Identify(principal@),
        LoginOutcome::Reject@ == OutcomeView::Reject,
{
}

} // verus!
