//! The URL that a browser login starts with.
use crate::config::{authorize_endpoint, ConfigView, GitHubConfig};
use crate::encoding::{
    form_text, law_pct_characters, law_pct_round_trip, law_pct_unreserved, pct, pct_text,
};
use crate::text::{
    after_first, before_first, join, joined, law_cut_undoes_pairing, law_split_undoes_join, parts,
};
use vstd::prelude::*;

verus! {

/// The scopes of `list` in order, each once, where it first stands; an empty one is dropped.
pub open spec fn distinct_scopes(list: Seq<Seq<char>>) -> Seq<Seq<char>>
    decreases list.len(),
{
    if list.len() == 0 {
        Seq::empty()
    } else {
        let kept = distinct_scopes(list.drop_last());
        if list.last().len() == 0 || kept.contains(list.last()) {
            kept
        } else {
            kept.push(list.last())
        }
    }
}

/// The `scope` value: the configured scopes and then the extra ones, each once, with a space between.
pub open spec fn scope_text(configured: Seq<Seq<char>>, extra: Seq<Seq<char>>) -> Seq<char> {
    joined(distinct_scopes(configured + extra), ' ')
}

/// A parameter of a query: the name, and the value percent-encoded.
pub open spec fn query_part(name: Seq<char>, value: Seq<char>) -> Seq<char> {
    name + seq!['='] + pct_text(value)
}

/// The parameters of the authorization-code flow with a PKCE challenge.
pub open spec fn authorize_parameters(
    cfg: ConfigView,
    redirect_uri: Seq<char>,
    state: Seq<char>,
    code_challenge: Seq<char>,
    extra_scopes: Seq<Seq<char>>,
) -> Seq<(Seq<char>, Seq<char>)> {
    seq![
        ("response_type"@, "code"@),
        ("client_id"@, cfg.client_id),
        ("redirect_uri"@, redirect_uri),
        ("scope"@, scope_text(cfg.scopes, extra_scopes)),
        ("state"@, state),
        ("code_challenge"@, code_challenge),
        ("code_challenge_method"@, "S256"@),
    ]
}

/// The query that holds some parameters.
pub open spec fn query_text(parameters: Seq<(Seq<char>, Seq<char>)>) -> Seq<char> {
    joined(
        parameters.map_values(
            |parameter: (Seq<char>, Seq<char>)| query_part(parameter.0, parameter.1),
        ),
        '&',
    )
}

/// The authorize URL: the endpoint, and the parameters as its query.
pub open spec fn authorize_url(
    cfg: ConfigView,
    redirect_uri: Seq<char>,
    state: Seq<char>,
    code_challenge: Seq<char>,
    extra_scopes: Seq<Seq<char>>,
) -> Seq<char> {
    cfg.authorize_endpoint() + seq!['?'] + query_text(
        authorize_parameters(cfg, redirect_uri, state, code_challenge, extra_scopes),
    )
}

/// Adds a scope, unless it is empty or already there.
fn add_scope(scopes: &mut Vec<String>, scope: &String)
    ensures
        final(scopes).deep_view() == (if scope@.len() == 0 || old(scopes).deep_view().contains(
            scope@,
        ) {
            old(scopes).deep_view()
        } else {
            old(scopes).deep_view().push(scope@)
        }),
{
    let ghost texts = scopes.deep_view();
    if scope.as_str().is_empty() {
        return;
    }
    let mut i: usize = 0;
    while i < scopes.len()
        invariant
            texts == scopes.deep_view(),
            texts == old(scopes).deep_view(),
            *scopes == *old(scopes),
            i <= scopes.len(),
            forall|k: int| 0 <= k < i ==> texts[k] != scope@,
        decreases scopes.len() - i,
    {
        if scopes[i] == *scope {
            assert(texts[i as int] == scope@);
            return;
        }
        i = i + 1;
    }
    scopes.push(scope.clone());
    assert(scopes.deep_view() == texts.push(scope@));
}

/// The `scope` value: the configured scopes and then the extra ones, each once, with a space between.
pub fn scope_value(cfg: &GitHubConfig, extra: &[String]) -> (r: String)
    ensures
        r@ == scope_text(cfg@.scopes, extra.deep_view()),
{
    let ghost configured = cfg.scopes.deep_view();
    let ghost all = configured + extra.deep_view();
    let mut scopes: Vec<String> = Vec::new();
    let mut i: usize = 0;
    while i < cfg.scopes.len()
        invariant
            configured == cfg.scopes.deep_view(),
            all == configured + extra.deep_view(),
            i <= cfg.scopes.len(),
            scopes.deep_view() == distinct_scopes(all.take(i as int)),
        decreases cfg.scopes.len() - i,
    {
        assert(all.take(i + 1).drop_last() == all.take(i as int));
        assert(all.take(i + 1).last() == cfg.scopes[i as int]@);
        add_scope(&mut scopes, &cfg.scopes[i]);
        i = i + 1;
    }
    let mut j: usize = 0;
    while j < extra.len()
        invariant
            all == configured + extra.deep_view(),
            j <= extra.len(),
            scopes.deep_view() == distinct_scopes(all.take(configured.len() + j)),
        decreases extra.len() - j,
    {
        let ghost n = configured.len() + j;
        assert(all.take(n + 1).drop_last() == all.take(n));
        assert(all.take(n + 1).last() == extra[j as int]@);
        add_scope(&mut scopes, &extra[j]);
        j = j + 1;
    }
    assert(all.take(all.len() as int) == all);
    join(&scopes, ' ')
}

/// A parameter of a query.
fn parameter(name: &str, value: &str) -> (r: String)
    ensures
        r@ == query_part(name@, value@),
{
    let mut part = name.to_string();
    part.push('=');
    part.append(pct(value).as_str());
    assert(part@ =~= query_part(name@, value@));
    part
}

/// Builds the authorize URL of the authorization-code flow, with the PKCE challenge. It holds no client
/// secret: the settings have none.
pub fn build_github_authorize_url(
    cfg: &GitHubConfig,
    redirect_uri: &str,
    state: &str,
    code_challenge: &str,
    extra_scopes: &[String],
) -> (r: String)
    ensures
        r@ == authorize_url(
            cfg@,
            redirect_uri@,
            state@,
            code_challenge@,
            extra_scopes.deep_view(),
        ),
{
    let scope = scope_value(cfg, extra_scopes);
    let parts = vec![
        parameter("response_type", "code"),
        parameter("client_id", cfg.client_id.as_str()),
        parameter("redirect_uri", redirect_uri),
        parameter("scope", scope.as_str()),
        parameter("state", state),
        parameter("code_challenge", code_challenge),
        parameter("code_challenge_method", "S256"),
    ];
    let mut url = authorize_endpoint(cfg);
    url.push('?');
    url.append(join(&parts, '&').as_str());
    proof {
        let parameters = authorize_parameters(
            cfg@,
            redirect_uri@,
            state@,
            code_challenge@,
            extra_scopes.deep_view(),
        );
        assert(parts.deep_view() =~= parameters.map_values(
            |parameter: (Seq<char>, Seq<char>)| query_part(parameter.0, parameter.1),
        ));
    }
    url
}

/// The scopes asked for are those of the list that are not empty, each once, and they stand in the order
/// in which the list first names them: what a beginning of the list gives is a beginning of what all
/// of it gives.
pub proof fn law_scopes(list: Seq<Seq<char>>)
    ensures
        distinct_scopes(list).no_duplicates(),
        forall|scope: Seq<char>|
            #![trigger distinct_scopes(list).contains(scope)]
            #![trigger list.contains(scope)]
            distinct_scopes(list).contains(scope) <==> list.contains(scope) && scope.len() > 0,
        forall|n: int|
            0 <= n <= list.len() ==> (#[trigger] distinct_scopes(list.take(n))).is_prefix_of(
                distinct_scopes(list),
            ),
    decreases list.len(),
{
    assert(list.take(list.len() as int) =~= list);
    if list.len() > 0 {
        let shorter = list.drop_last();
        law_scopes(shorter);
        let kept = distinct_scopes(shorter);
        let all = distinct_scopes(list);
        assert forall|scope: Seq<char>|
            #![trigger all.contains(scope)]
            #![trigger list.contains(scope)]
            all.contains(scope) <==> list.contains(scope) && scope.len() > 0 by {
            assert(list =~= shorter.push(list.last()));
            assert(list.contains(scope) <==> shorter.contains(scope) || scope == list.last()) by {
                if shorter.contains(scope) {
                    let i = choose|i: int| 0 <= i < shorter.len() && shorter[i] == scope;
                    assert(list[i] == scope);
                }
                if scope == list.last() {
                    assert(list[list.len() - 1] == scope);
                }
                if list.contains(scope) && scope != list.last() {
                    let i = choose|i: int| 0 <= i < list.len() && list[i] == scope;
                    assert(shorter[i] == scope);
                }
            }
            assert(kept.contains(scope) <==> shorter.contains(scope) && scope.len() > 0);
            if all != kept {
                assert(all == kept.push(list.last()));
                if kept.contains(scope) {
                    let i = choose|i: int| 0 <= i < kept.len() && kept[i] == scope;
                    assert(all[i] == scope);
                }
                if scope == list.last() {
                    assert(all[kept.len() as int] == scope);
                }
                if all.contains(scope) && scope != list.last() {
                    let i = choose|i: int| 0 <= i < all.len() && all[i] == scope;
                    assert(kept[i] == scope);
                }
            }
        }
        assert forall|n: int| 0 <= n <= list.len() implies (#[trigger] distinct_scopes(
            list.take(n),
        )).is_prefix_of(all) by {
            if n < list.len() {
                assert(list.take(n) =~= shorter.take(n));
            }
        }
    }
}

/// A part `name=value` of a query, with the value decoded.
pub open spec fn query_pair(part: Seq<char>) -> (Seq<char>, Seq<char>) {
    (
        before_first(part, '='),
        match after_first(part, '=') {
            Some(value) => form_text(value),
            None => Seq::empty(),
        },
    )
}

/// What a server reads in a query.
pub open spec fn query_pairs(query: Seq<char>) -> Seq<(Seq<char>, Seq<char>)> {
    parts(query, '&').map_values(|part: Seq<char>| query_pair(part))
}

/// Whether a name can stand in a query as it is.
pub open spec fn plain_name(name: Seq<char>) -> bool {
    forall|i: int| 0 <= i < name.len() ==> name[i] != '=' && name[i] != '&'
}

proof fn lemma_query_part(name: Seq<char>, value: Seq<char>)
    requires
        plain_name(name),
    ensures
        query_pair(query_part(name, value)) == (name, value),
        forall|i: int|
            0 <= i < query_part(name, value).len() ==> query_part(name, value)[i] != '&',
{
    law_cut_undoes_pairing(name, pct_text(value), '=');
    law_pct_round_trip(value);
    law_pct_characters(value);
    let part = query_part(name, value);
    assert forall|i: int| 0 <= i < part.len() implies part[i] != '&' by {
        if i > name.len() {
            assert(part[i] == pct_text(value)[i - name.len() - 1]);
        }
    }
}

/// A server reads in a query exactly the parameters that were put in, whatever characters their values
/// hold. A name must hold neither `=` nor `&`, for names are not encoded.
pub proof fn law_query(parameters: Seq<(Seq<char>, Seq<char>)>)
    requires
        parameters.len() > 0,
        forall|i: int| 0 <= i < parameters.len() ==> plain_name((#[trigger] parameters[i]).0),
    ensures
        query_pairs(query_text(parameters)) == parameters,
{
    let list = parameters.map_values(
        |parameter: (Seq<char>, Seq<char>)| query_part(parameter.0, parameter.1),
    );
    assert forall|i: int| 0 <= i < list.len() implies query_pair(#[trigger] list[i])
        == parameters[i] by {
        lemma_query_part(parameters[i].0, parameters[i].1);
    }
    assert forall|i: int, k: int| 0 <= i < list.len() && 0 <= k < list[i].len() implies list[i][k]
        != '&' by {
        lemma_query_part(parameters[i].0, parameters[i].1);
    }
    law_split_undoes_join(list, '&');
    assert(query_pairs(query_text(parameters)) =~= parameters);
}

/// A server reads in the authorize URL exactly the parameters of the flow, each once and in full: the
/// client id, the redirect URI, the state and the challenge as they were handed in. None of them is a
/// client secret.
pub proof fn law_authorize_query(
    cfg: ConfigView,
    redirect_uri: Seq<char>,
    state: Seq<char>,
    code_challenge: Seq<char>,
    extra_scopes: Seq<Seq<char>>,
)
    ensures
        ({
            let url = authorize_url(cfg, redirect_uri, state, code_challenge, extra_scopes);
            let endpoint = cfg.authorize_endpoint() + seq!['?'];
            let pairs = query_pairs(url.skip(endpoint.len() as int));
            &&& endpoint.is_prefix_of(url)
            &&& pairs == seq![
                ("response_type"@, "code"@),
                ("client_id"@, cfg.client_id),
                ("redirect_uri"@, redirect_uri),
                ("scope"@, joined(distinct_scopes(cfg.scopes + extra_scopes), ' ')),
                ("state"@, state),
                ("code_challenge"@, code_challenge),
                ("code_challenge_method"@, "S256"@),
            ]
            &&& forall|i: int| 0 <= i < pairs.len() ==> (#[trigger] pairs[i]).0 != "client_secret"@
        }),
{
    let parameters = authorize_parameters(cfg, redirect_uri, state, code_challenge, extra_scopes);
    let url = authorize_url(cfg, redirect_uri, state, code_challenge, extra_scopes);
    let endpoint = cfg.authorize_endpoint() + seq!['?'];
    assert(url.skip(endpoint.len() as int) =~= query_text(parameters));
    assert(plain_name("response_type"@) && "response_type"@[0] == 'r') by {
        reveal_strlit("response_type");
    }
    assert(plain_name("client_id"@) && "client_id"@.len() == 9) by {
        reveal_strlit("client_id");
    }
    assert(plain_name("redirect_uri"@) && "redirect_uri"@.len() == 12) by {
        reveal_strlit("redirect_uri");
    }
    assert(plain_name("scope"@) && "scope"@.len() == 5) by {
        reveal_strlit("scope");
    }
    assert(plain_name("state"@) && "state"@.len() == 5) by {
        reveal_strlit("state");
    }
    assert(plain_name("code_challenge"@) && "code_challenge"@.len() == 14) by {
        reveal_strlit("code_challenge");
    }
    assert(plain_name("code_challenge_method"@) && "code_challenge_method"@.len() == 21) by {
        reveal_strlit("code_challenge_method");
    }
    assert("client_secret"@.len() == 13 && "client_secret"@[0] == 'c') by {
        reveal_strlit("client_secret");
    }
    assert forall|i: int| 0 <= i < parameters.len() implies (#[trigger] parameters[i]).0
        != "client_secret"@ && plain_name(parameters[i].0) by {}
    law_query(parameters);
}

/// The authorize URL to the letter: the endpoint, a question mark, and the parameters with `&` between
/// them, each the name, `=` and the value percent-encoded.
pub proof fn law_authorize_url_text(
    cfg: ConfigView,
    redirect_uri: Seq<char>,
    state: Seq<char>,
    code_challenge: Seq<char>,
    extra_scopes: Seq<Seq<char>>,
)
    ensures
        authorize_url(cfg, redirect_uri, state, code_challenge, extra_scopes)
            == cfg.authorize_endpoint() + seq!['?'] + joined(
            seq![
                "response_type=code"@,
                "client_id="@ + pct_text(cfg.client_id),
                "redirect_uri="@ + pct_text(redirect_uri),
                "scope="@ + pct_text(joined(distinct_scopes(cfg.scopes + extra_scopes), ' ')),
                "state="@ + pct_text(state),
                "code_challenge="@ + pct_text(code_challenge),
                "code_challenge_method=S256"@,
            ],
            '&',
        ),
{
    let parameters = authorize_parameters(cfg, redirect_uri, state, code_challenge, extra_scopes);
    let list = parameters.map_values(
        |parameter: (Seq<char>, Seq<char>)| query_part(parameter.0, parameter.1),
    );
    assert(pct_text("code"@) == "code"@) by {
        reveal_strlit("code");
        law_pct_unreserved("code"@);
    }
    assert(pct_text("S256"@) == "S256"@) by {
        reveal_strlit("S256");
        law_pct_unreserved("S256"@);
    }
    assert("response_type"@ + seq!['='] + "code"@ =~= "response_type=code"@) by {
        reveal_strlit("response_type");
        reveal_strlit("code");
        reveal_strlit("response_type=code");
    }
    assert("client_id"@ + seq!['='] =~= "client_id="@) by {
        reveal_strlit("client_id");
        reveal_strlit("client_id=");
    }
    assert("redirect_uri"@ + seq!['='] =~= "redirect_uri="@) by {
        reveal_strlit("redirect_uri");
        reveal_strlit("redirect_uri=");
    }
    assert("scope"@ + seq!['='] =~= "scope="@) by {
        reveal_strlit("scope");
        reveal_strlit("scope=");
    }
    assert("state"@ + seq!['='] =~= "state="@) by {
        reveal_strlit("state");
        reveal_strlit("state=");
    }
    assert("code_challenge"@ + seq!['='] =~= "code_challenge="@) by {
        reveal_strlit("code_challenge");
        reveal_strlit("code_challenge=");
    }
    assert("code_challenge_method"@ + seq!['='] + "S256"@ =~= "code_challenge_method=S256"@) by {
        reveal_strlit("code_challenge_method");
        reveal_strlit("S256");
        reveal_strlit("code_challenge_method=S256");
    }
    assert(list =~= seq![
        "response_type=code"@,
        "client_id="@ + pct_text(cfg.client_id),
        "redirect_uri="@ + pct_text(redirect_uri),
        "scope="@ + pct_text(joined(distinct_scopes(cfg.scopes + extra_scopes), ' ')),
        "state="@ + pct_text(state),
        "code_challenge="@ + pct_text(code_challenge),
        "code_challenge_method=S256"@,
    ]);
}

/// The scopes can be read back from the `scope` value, when none holds a space: they are the configured
/// ones and the extra ones that are not empty, each once.
pub proof fn law_scope_text(configured: Seq<Seq<char>>, extra: Seq<Seq<char>>)
    ensures
        scope_text(configured, extra) == joined(distinct_scopes(configured + extra), ' '),
        (forall|i: int| 0 <= i < configured.len() ==> !(#[trigger] configured[i]).contains(' ')) && (
        forall|i: int| 0 <= i < extra.len() ==> !(#[trigger] extra[i]).contains(' ')) && scope_text(
            configured,
            extra,
        ).len() > 0 ==> {
            let read = parts(scope_text(configured, extra), ' ');
            &&& read.no_duplicates()
            &&& forall|scope: Seq<char>|
                #![trigger read.contains(scope)]
                read.contains(scope) <==> scope.len() > 0 && (configured.contains(scope)
                    || extra.contains(scope))
        },
{
    let all = configured + extra;
    let kept = distinct_scopes(all);
    law_scopes(all);
    assert forall|scope: Seq<char>| all.contains(scope) <==> configured.contains(scope)
        || extra.contains(scope) by {
        if configured.contains(scope) {
            let i = choose|i: int| 0 <= i < configured.len() && configured[i] == scope;
            assert(all[i] == scope);
        }
        if extra.contains(scope) {
            let i = choose|i: int| 0 <= i < extra.len() && extra[i] == scope;
            assert(all[configured.len() + i] == scope);
        }
        if all.contains(scope) {
            let i = choose|i: int| 0 <= i < all.len() && all[i] == scope;
            if i < configured.len() {
                assert(configured[i] == scope);
            } else {
                assert(extra[i - configured.len()] == scope);
            }
        }
    }
    if (forall|i: int| 0 <= i < configured.len() ==> !(#[trigger] configured[i]).contains(' ')) && (
    forall|i: int| 0 <= i < extra.len() ==> !(#[trigger] extra[i]).contains(' ')) && scope_text(
        configured,
        extra,
    ).len() > 0 {
        assert forall|i: int, k: int| 0 <= i < kept.len() && 0 <= k < kept[i].len() implies kept[i][k]
            != ' ' by {
            assert(kept.contains(kept[i]));
            assert(all.contains(kept[i]));
            let j = choose|j: int| 0 <= j < all.len() && all[j] == kept[i];
            if j < configured.len() {
                assert(!configured[j].contains(' '));
            } else {
                assert(!extra[j - configured.len()].contains(' '));
            }
            assert(kept[i].contains(kept[i][k]));
        }
        law_split_undoes_join(kept, ' ');
    }
}

} // verus!
