# busbar-auth-github

GitHub sign-in for busbar, as a library whose behaviour is stated in contracts and proved with Verus.

GitHub issues an opaque access token, so there is nothing to verify offline: an identity comes from its
REST API. The module describes one request at a time; the core makes it and comes back with the reply.

| call | brings | comes to |
|------|--------|----------|
| `begin_login` | state, PKCE challenge, scopes | `Authorize`: the authorize URL |
| `complete_login` | code, redirect URI, verifier | `Exchange`: the token exchange |
| `complete_login` | the token reply, JSON or form-encoded | `Exchange`: the profile |
| `complete_login` | the profile | `Exchange`: the orgs, or `Identify` when `fetch_orgs` is off |
| `complete_login` | the orgs | `Identify`: `github:<login>` with the groups `github:org/<org>` |

Whatever does not fit is answered with `Reject`, and nothing is kept of that login. The client secret is
the core's alone: the token exchange names the form field for it and leaves the field empty.

## Layout

- `src/`: the library. `text`, `encoding` and `json` hold the ground work, `config`, `login`,
  `authorize`, `hops` and `identity` the pieces of a login, `module` the login itself, `laws` what holds
  of logins as a whole, and `plugin` how the module comes up.
- `tests/`: the library at work on written-out replies.
- `app/`: the settings in JSON, and the module behind the traits that the engine loads a plugin by.

## What is taken on trust

Reading JSON is left to `serde_json` (`src/json.rs`), the repair of bytes that are not UTF-8 to
`String::from_utf8_lossy` (`src/encoding.rs`), and adding a character to a string to `String::push`
(`src/text.rs`). Each of these stands under a doc comment that says what is claimed of it.
