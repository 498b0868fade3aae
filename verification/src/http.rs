//! Requests as the proxy sees them: routing, headers, diagnostics and backend headers.

use vstd::prelude::*;
use vstd::string::*;

use crate::text::{
    ascii_lower, chars_equal, chars_of, contains_chars, contains_text, decimal_nat, has_prefix,
    lower_chars, shell_escape_single_quoted, shell_escaped, starts_with_chars,
    truncate_for_log, truncated,
};
use crate::types::{
    opt_string_view, AuthData, ChatCompletionsRequest, MessageContent, TokenData,
};

verus! {

broadcast use vstd::string::group_string_axioms;

// ---------------------------------------------------------------------------
// Routing
// ---------------------------------------------------------------------------

/// What the proxy does with a request.
#[derive(Debug, Clone, Copy, PartialEq, Eq, Structural)]
pub enum Route {
    Health,
    Models,
    ChatCompletions,
    NotFound,
}

/// The route of a request by its method and path.
pub open spec fn route_of(method: Seq<char>, path: Seq<char>) -> Route {
    if method == "GET"@ && path == "/health"@ {
        Route::Health
    } else if method == "GET"@ && (path == "/models"@ || path == "/v1/models"@) {
        Route::Models
    } else if method == "POST"@ && (path == "/chat/completions"@ || path == "/v1/chat/completions"@) {
        Route::ChatCompletions
    } else {
        Route::NotFound
    }
}

fn str_is(a: &str, b: &str) -> (r: bool)
    ensures
        r == (a@ == b@),
{
    let x = String::from_str(a);
    crate::text::string_is(&x, b)
}

/// Routes a request by its method and path.
pub fn route_request(method: &str, path: &str) -> (r: Route)
    ensures
        r == route_of(method@, path@),
{
    let get = str_is(method, "GET");
    let post = str_is(method, "POST");
    if get && str_is(path, "/health") {
        Route::Health
    } else if get && (str_is(path, "/models") || str_is(path, "/v1/models")) {
        Route::Models
    } else if post && (str_is(path, "/chat/completions") || str_is(path, "/v1/chat/completions")) {
        Route::ChatCompletions
    } else {
        Route::NotFound
    }
}

impl ChatCompletionsRequest {
    /// Whether the client asked for a streamed reply; it did not when it did not say.
    pub fn wants_stream(&self) -> (r: bool)
        ensures
            r == (self.stream == Some(true)),
    {
        match self.stream {
            Some(b) => b,
            None => false,
        }
    }
}

// ---------------------------------------------------------------------------
// Request headers
// ---------------------------------------------------------------------------

/// One header of a request: its lowercase name and its value, or `None` when the value is
/// not visible ASCII text.
#[derive(Debug, PartialEq)]
pub struct HeaderEntry {
    pub name: String,
    pub value: Option<String>,
}

/// `i` is the position of the first header named `name`.
pub open spec fn is_first_header(headers: Seq<HeaderEntry>, name: Seq<char>, i: int) -> bool {
    &&& 0 <= i < headers.len()
    &&& headers[i].name@ == name
    &&& forall|j: int| 0 <= j < i ==> headers[j].name@ != name
}

/// The text of the first header named `name`; none when there is no such header or its value
/// is not text.
pub open spec fn header_text(headers: Seq<HeaderEntry>, name: Seq<char>) -> Option<Seq<char>> {
    if exists|i: int| is_first_header(headers, name, i) {
        match headers[choose|i: int| is_first_header(headers, name, i)].value {
            Some(v) => Some(v@),
            None => None,
        }
    } else {
        None
    }
}

/// The text of the first header named `name`.
pub fn header_value(headers: &Vec<HeaderEntry>, name: &str) -> (r: Option<String>)
    ensures
        match r {
            Some(v) => header_text(headers@, name@) == Some(v@),
            None => header_text(headers@, name@) is None,
        },
{
    let mut i: usize = 0;
    while i < headers.len()
        invariant
            i <= headers.len(),
            forall|j: int| 0 <= j < i ==> headers@[j].name@ != name@,
        decreases headers.len() - i,
    {
        if crate::text::string_is(&headers[i].name, name) {
            assert(is_first_header(headers@, name@, i as int));
            let ghost k = choose|k: int| is_first_header(headers@, name@, k);
            assert(k == i) by {
                if k < i {
                    assert(headers@[k].name@ != name@);
                } else if i < k {
                    assert(headers@[i as int].name@ != name@);
                }
            }
            return match &headers[i].value {
                Some(v) => Some(v.clone()),
                None => None,
            };
        }
        i = i + 1;
    }
    assert forall|k: int| !is_first_header(headers@, name@, k) by {}
    None
}

/// The kind of client that a user agent names.
pub open spec fn client_kind(user_agent: Seq<char>) -> Seq<char> {
    let ua = ascii_lower(user_agent);
    if contains_text(ua, "cline"@) {
        "cline"@
    } else if contains_text(ua, "vscode"@) {
        "vscode"@
    } else if contains_text(ua, "mozilla"@) || contains_text(ua, "chrome"@) {
        "browser"@
    } else if ua.len() == 0 {
        "unknown"@
    } else {
        "custom"@
    }
}

/// The user agent of a request; empty when it has none that is text.
pub open spec fn user_agent(headers: Seq<HeaderEntry>) -> Seq<char> {
    match header_text(headers, "user-agent"@) {
        Some(v) => v,
        None => Seq::empty(),
    }
}

/// Names the kind of client that sent a request, from its user agent.
pub fn detect_client(headers: &Vec<HeaderEntry>) -> (r: String)
    ensures
        r@ == client_kind(user_agent(headers@)),
{
    let ua = match header_value(headers, "user-agent") {
        Some(v) => v,
        None => String::new(),
    };
    let lower = lower_chars(&chars_of(ua.as_str()));
    if contains_chars(&lower, &chars_of("cline")) {
        String::from_str("cline")
    } else if contains_chars(&lower, &chars_of("vscode")) {
        String::from_str("vscode")
    } else if contains_chars(&lower, &chars_of("mozilla")) || contains_chars(
        &lower,
        &chars_of("chrome"),
    ) {
        String::from_str("browser")
    } else if lower.len() == 0 {
        String::from_str("unknown")
    } else {
        String::from_str("custom")
    }
}

/// Whether a lowercased name is one of the given lowercase literal names.
fn lowered_is(lower: &Vec<char>, lit: &str) -> (r: bool)
    ensures
        r == (lower@ == lit@),
{
    chars_equal(lower, &chars_of(lit))
}

/// Headers whose values are never written to the log.
pub open spec fn is_secret_header(name: Seq<char>) -> bool {
    let l = ascii_lower(name);
    l == "authorization"@ || l == "cookie"@ || l == "set-cookie"@
}

/// A header value as the log shows it: at most 256 characters, or a marker when it is not text.
pub open spec fn shown_value(value: Option<Seq<char>>) -> Seq<char> {
    match value {
        Some(v) => truncated(v, 256),
        None => "[invalid utf-8]"@,
    }
}

/// A header value for the request log; secrets are redacted.
pub open spec fn sanitized_value(name: Seq<char>, value: Option<Seq<char>>) -> Seq<char> {
    if is_secret_header(name) {
        "[redacted]"@
    } else {
        shown_value(value)
    }
}

/// Shows a header value: at most 256 characters, or a marker when it is not text.
fn show_value(value: &Option<String>) -> (r: String)
    ensures
        r@ == shown_value(opt_string_view(*value)),
{
    match value {
        Some(v) => truncate_for_log(v.as_str(), 256),
        None => String::from_str("[invalid utf-8]"),
    }
}

/// A header value for the request log; `authorization`, `cookie` and `set-cookie` are redacted.
pub fn sanitize_header_value(name: &str, value: &Option<String>) -> (r: String)
    ensures
        r@ == sanitized_value(name@, opt_string_view(*value)),
{
    let lower = lower_chars(&chars_of(name));
    if lowered_is(&lower, "authorization") || lowered_is(&lower, "cookie") || lowered_is(
        &lower,
        "set-cookie",
    ) {
        String::from_str("[redacted]")
    } else {
        show_value(value)
    }
}

/// Headers left out of a replayed request: `host` and the `x-forwarded` family.
pub open spec fn skips_replay(name: Seq<char>) -> bool {
    ascii_lower(name) == "host"@ || has_prefix(ascii_lower(name), "x-forwarded"@)
}

/// Whether a header is left out of a replayed request.
pub fn should_skip_replay_header(name: &str) -> (r: bool)
    ensures
        r == skips_replay(name@),
{
    let lower = lower_chars(&chars_of(name));
    lowered_is(&lower, "host") || starts_with_chars(&lower, &chars_of("x-forwarded"))
}

/// A header value in a replayed request: skipped headers are marked, the authorization is
/// replaced by a test key, anything else is shown.
pub open spec fn replayed_value(name: Seq<char>, value: Option<Seq<char>>) -> Seq<char> {
    if skips_replay(name) {
        "[skipped]"@
    } else if ascii_lower(name) == "authorization"@ {
        "test-key"@
    } else {
        shown_value(value)
    }
}

/// A header value for a replayed request.
pub fn replay_header_value(name: &str, value: &Option<String>) -> (r: String)
    ensures
        r@ == replayed_value(name@, opt_string_view(*value)),
{
    if should_skip_replay_header(name) {
        String::from_str("[skipped]")
    } else if lowered_is(&lower_chars(&chars_of(name)), "authorization") {
        String::from_str("test-key")
    } else {
        show_value(value)
    }
}

/// The `-H` arguments of a replayed request, one per header that is not skipped.
pub open spec fn curl_header_args(headers: Seq<HeaderEntry>) -> Seq<char>
    decreases headers.len(),
{
    if headers.len() == 0 {
        Seq::empty()
    } else {
        let h = headers.last();
        curl_header_args(headers.drop_last()) + if skips_replay(h.name@) {
            Seq::empty()
        } else {
            " -H '"@ + shell_escaped(
                h.name@ + ": "@ + replayed_value(h.name@, opt_string_view(h.value)),
            ) + "'"@
        }
    }
}

/// A `curl` command that replays a chat request against a local proxy; the body is cut
/// to 500 characters.
pub open spec fn curl_command(path: Seq<char>, headers: Seq<HeaderEntry>, body: Seq<char>) -> Seq<
    char,
> {
    "curl -X POST http://localhost:8080"@ + path + curl_header_args(headers) + " -d '"@
        + shell_escaped(truncated(body, 500)) + "'"@
}

/// Builds a `curl` command that replays a chat request.
pub fn build_curl_command(path: &str, headers: &Vec<HeaderEntry>, body: &str) -> (r: String)
    ensures
        r@ == curl_command(path@, headers@, body@),
{
    let mut command = String::from_str("curl -X POST http://localhost:8080").concat(path);
    let mut i: usize = 0;
    let ghost start = command@;
    assert(headers@.take(0) =~= Seq::<HeaderEntry>::empty());
    assert(command@ =~= start + curl_header_args(headers@.take(0)));
    while i < headers.len()
        invariant
            i <= headers.len(),
            command@ == start + curl_header_args(headers@.take(i as int)),
        decreases headers.len() - i,
    {
        let h = &headers[i];
        assert(headers@.take(i + 1).drop_last() =~= headers@.take(i as int));
        assert(headers@.take(i + 1).last() == headers@[i as int]);
        if !should_skip_replay_header(h.name.as_str()) {
            let value = replay_header_value(h.name.as_str(), &h.value);
            let line = h.name.clone().concat(": ").concat(value.as_str());
            let escaped = shell_escape_single_quoted(line.as_str());
            command.append(" -H '");
            command.append(escaped.as_str());
            command.append("'");
        } else {
            assert(command@ + Seq::<char>::empty() =~= command@);
        }
        i = i + 1;
    }
    assert(headers@.take(headers.len() as int) =~= headers@);
    let cut = truncate_for_log(body, 500);
    let escaped_body = shell_escape_single_quoted(cut.as_str());
    command.append(" -d '");
    command.append(escaped_body.as_str());
    command.append("'");
    command
}

// ---------------------------------------------------------------------------
// Message previews
// ---------------------------------------------------------------------------

/// A short preview of a message's content for the log.
pub open spec fn content_preview(c: MessageContent) -> Seq<char> {
    match c {
        MessageContent::Text(t) => truncated(t@, 80),
        MessageContent::Parts(items) => "[array items="@ + decimal_nat(items@.len()) + "]"@,
        MessageContent::Other(raw) => "["@ + truncated(raw@, 80) + "]"@,
    }
}

/// A short preview of a message's content.
pub fn preview_content(content: &MessageContent) -> (r: String)
    ensures
        r@ == content_preview(*content),
{
    match content {
        MessageContent::Text(t) => truncate_for_log(t.as_str(), 80),
        MessageContent::Parts(items) => {
            let count = crate::text::usize_to_decimal(items.len());
            String::from_str("[array items=").concat(count.as_str()).concat("]")
        },
        MessageContent::Other(raw) => {
            let cut = truncate_for_log(raw.as_str(), 80);
            String::from_str("[").concat(cut.as_str()).concat("]")
        },
    }
}

// ---------------------------------------------------------------------------
// Backend request headers
// ---------------------------------------------------------------------------

/// The views of a list of header pairs.
pub open spec fn pair_views(pairs: Seq<(String, String)>) -> Seq<(Seq<char>, Seq<char>)> {
    pairs.map_values(|p: (String, String)| (p.0@, p.1@))
}

/// The credentials that go with every backend request: the account's access token and id when
/// the account tokens are present, the API key otherwise, and nothing when neither is.
pub open spec fn auth_header_pairs(auth: AuthData) -> Seq<(Seq<char>, Seq<char>)> {
    match auth.tokens {
        Some(t) => seq![
            ("Authorization"@, "Bearer "@ + t.access_token@),
            ("chatgpt-account-id"@, t.account_id@),
        ],
        None => match auth.api_key {
            Some(k) => seq![("Authorization"@, "Bearer "@ + k@)],
            None => Seq::empty(),
        },
    }
}

fn push_pair(out: &mut Vec<(String, String)>, name: &str, value: String)
    ensures
        pair_views(final(out)@) == pair_views(old(out)@).push((name@, value@)),
{
    let ghost prev = out@;
    out.push((String::from_str(name), value));
    assert(pair_views(out@) =~= pair_views(prev).push((name@, value@)));
}

/// The credential headers of a backend request.
pub fn auth_headers(auth: &AuthData) -> (r: Vec<(String, String)>)
    ensures
        pair_views(r@) == auth_header_pairs(*auth),
{
    let mut out: Vec<(String, String)> = Vec::new();
    assert(pair_views(out@) =~= Seq::<(Seq<char>, Seq<char>)>::empty());
    match &auth.tokens {
        Some(t) => {
            push_pair(&mut out, "Authorization", String::from_str("Bearer ").concat(t.access_token.as_str()));
            push_pair(&mut out, "chatgpt-account-id", t.account_id.clone());
            assert(pair_views(out@) =~= auth_header_pairs(*auth));
        },
        None => match &auth.api_key {
            Some(k) => {
                push_pair(&mut out, "Authorization", String::from_str("Bearer ").concat(k.as_str()));
                assert(pair_views(out@) =~= auth_header_pairs(*auth));
            },
            None => {},
        },
    }
    out
}

/// The browser-like headers that every backend request carries after its `Accept`.
pub open spec fn browser_pairs() -> Seq<(Seq<char>, Seq<char>)> {
    seq![
        ("Accept-Encoding"@, "identity"@),
        ("Accept-Language"@, "en-US,en;q=0.9"@),
        ("Referer"@, "https://chatgpt.com/"@),
        ("Origin"@, "https://chatgpt.com"@),
        ("Sec-Fetch-Dest"@, "empty"@),
        ("Sec-Fetch-Mode"@, "cors"@),
        ("Sec-Fetch-Site"@, "same-origin"@),
        ("Cache-Control"@, "no-cache"@),
        ("Pragma"@, "no-cache"@),
        ("DNT"@, "1"@),
    ]
}

fn push_browser_pairs(out: &mut Vec<(String, String)>)
    ensures
        pair_views(final(out)@) == pair_views(old(out)@) + browser_pairs(),
{
    let ghost prev = pair_views(out@);
    push_pair(out, "Accept-Encoding", String::from_str("identity"));
    push_pair(out, "Accept-Language", String::from_str("en-US,en;q=0.9"));
    push_pair(out, "Referer", String::from_str("https://chatgpt.com/"));
    push_pair(out, "Origin", String::from_str("https://chatgpt.com"));
    push_pair(out, "Sec-Fetch-Dest", String::from_str("empty"));
    push_pair(out, "Sec-Fetch-Mode", String::from_str("cors"));
    push_pair(out, "Sec-Fetch-Site", String::from_str("same-origin"));
    push_pair(out, "Cache-Control", String::from_str("no-cache"));
    push_pair(out, "Pragma", String::from_str("no-cache"));
    push_pair(out, "DNT", String::from_str("1"));
    assert(pair_views(out@) =~= prev + browser_pairs());
}

fn push_auth_pairs(out: &mut Vec<(String, String)>, auth: &AuthData)
    ensures
        pair_views(final(out)@) == pair_views(old(out)@) + auth_header_pairs(*auth),
{
    let ghost prev = pair_views(out@);
    let extra = auth_headers(auth);
    let mut i: usize = 0;
    assert(pair_views(out@) =~= prev + pair_views(extra@).take(0));
    while i < extra.len()
        invariant
            i <= extra.len(),
            pair_views(out@) == prev + pair_views(extra@).take(i as int),
        decreases extra.len() - i,
    {
        let ghost before = pair_views(out@);
        push_pair(out, extra[i].0.as_str(), extra[i].1.clone());
        assert(pair_views(extra@).take(i + 1) =~= pair_views(extra@).take(i as int).push(
            (extra@[i as int].0@, extra@[i as int].1@),
        ));
        i = i + 1;
    }
    assert(pair_views(extra@).take(extra.len() as int) =~= pair_views(extra@));
}

/// The headers of the backend's model-list request, in order.
pub open spec fn models_request_pairs(auth: AuthData) -> Seq<(Seq<char>, Seq<char>)> {
    seq![("Accept"@, "application/json"@)] + browser_pairs() + seq![
        ("originator"@, "codex_cli_rs"@),
    ] + auth_header_pairs(auth)
}

/// The headers of the backend's model-list request.
pub fn models_request_headers(auth: &AuthData) -> (r: Vec<(String, String)>)
    ensures
        pair_views(r@) == models_request_pairs(*auth),
{
    let mut out: Vec<(String, String)> = Vec::new();
    assert(pair_views(out@) =~= Seq::<(Seq<char>, Seq<char>)>::empty());
    push_pair(&mut out, "Accept", String::from_str("application/json"));
    push_browser_pairs(&mut out);
    push_pair(&mut out, "originator", String::from_str("codex_cli_rs"));
    push_auth_pairs(&mut out, auth);
    assert(pair_views(out@) =~= models_request_pairs(*auth));
    out
}

/// The headers of the backend's responses request, in order; `session_id` names the session.
pub open spec fn responses_request_pairs(auth: AuthData, session_id: Seq<char>) -> Seq<
    (Seq<char>, Seq<char>),
> {
    seq![("Content-Type"@, "application/json"@), ("Accept"@, "text/event-stream"@)]
        + browser_pairs() + seq![
        ("OpenAI-Beta"@, "responses=experimental"@),
        ("originator"@, "codex_cli_rs"@),
    ] + auth_header_pairs(auth) + seq![("session_id"@, session_id)]
}

/// The headers of the backend's responses request.
pub fn responses_request_headers(auth: &AuthData, session_id: &str) -> (r: Vec<(String, String)>)
    ensures
        pair_views(r@) == responses_request_pairs(*auth, session_id@),
{
    let mut out: Vec<(String, String)> = Vec::new();
    assert(pair_views(out@) =~= Seq::<(Seq<char>, Seq<char>)>::empty());
    push_pair(&mut out, "Content-Type", String::from_str("application/json"));
    push_pair(&mut out, "Accept", String::from_str("text/event-stream"));
    push_browser_pairs(&mut out);
    push_pair(&mut out, "OpenAI-Beta", String::from_str("responses=experimental"));
    push_pair(&mut out, "originator", String::from_str("codex_cli_rs"));
    push_auth_pairs(&mut out, auth);
    push_pair(&mut out, "session_id", String::from_str(session_id));
    assert(pair_views(out@) =~= responses_request_pairs(*auth, session_id@));
    out
}

/// The backend's model-list address for the client version this proxy presents.
pub fn models_url() -> (r: String)
    ensures
        r@ == "https://chatgpt.com/backend-api/codex/models?client_version=1.0.0"@,
{
    String::from_str("https://chatgpt.com/backend-api/codex/models?client_version=1.0.0")
}

/// The backend's responses address.
pub fn responses_url() -> (r: String)
    ensures
        r@ == "https://chatgpt.com/backend-api/codex/responses"@,
{
    String::from_str("https://chatgpt.com/backend-api/codex/responses")
}

// ---------------------------------------------------------------------------
// The credentials file
// ---------------------------------------------------------------------------

impl AuthData {
    /// The credentials of a credentials file, which holds the account tokens either nested under
    /// `tokens` or as top-level `access_token` and `account_id`; the nested form wins, and the
    /// top-level form counts only when both of its fields are present.
    pub fn from_fields(
        api_key: Option<String>,
        tokens: Option<TokenData>,
        access_token: Option<String>,
        account_id: Option<String>,
    ) -> (r: AuthData)
        ensures
            r.api_key == api_key,
            tokens is Some ==> r.tokens == tokens,
            tokens is None ==> match (access_token, account_id) {
                (Some(t), Some(a)) => r.tokens matches Some(d) && d.access_token == t
                    && d.account_id == a && d.refresh_token is None,
                _ => r.tokens is None,
            },
    {
        let tokens = match tokens {
            Some(t) => Some(t),
            None => match (access_token, account_id) {
                (Some(t), Some(a)) => Some(
                    TokenData { access_token: t, account_id: a, refresh_token: None },
                ),
                _ => None,
            },
        };
        AuthData { api_key, tokens }
    }
}

/// Why the credentials path could not be resolved.
#[derive(Debug, PartialEq, Eq, Structural)]
pub enum AuthPathError {
    /// The path starts with `~/` and no home directory is known.
    HomeNotSet,
}

impl AuthPathError {
    /// The message of the error.
    pub fn message(&self) -> (r: String)
        ensures
            r@ == "HOME environment variable not set"@,
    {
        String::from_str("HOME environment variable not set")
    }
}

/// The credentials path with a leading `~` replaced by the home directory.
pub open spec fn resolved_path(path: Seq<char>, home: Option<Seq<char>>) -> Result<Seq<char>, AuthPathError> {
    if has_prefix(path, "~/"@) {
        match home {
            Some(h) => Ok(h + path.skip(1)),
            None => Err(AuthPathError::HomeNotSet),
        }
    } else {
        Ok(path)
    }
}

/// Resolves the credentials path: a path starting with `~/` is taken from the home directory.
pub fn resolve_auth_path(auth_path: &str, home: Option<&str>) -> (r: Result<String, AuthPathError>)
    ensures
        match (r, resolved_path(auth_path@, match home { Some(h) => Some(h@), None => None })) {
            (Ok(p), Ok(q)) => p@ == q,
            (Err(e), Err(f)) => e == f,
            _ => false,
        },
{
    let cs = chars_of(auth_path);
    if starts_with_chars(&cs, &chars_of("~/")) {
        match home {
            Some(h) => {
                proof {
                    reveal_strlit("~/");
                }
                let rest = crate::text::string_of_range(&cs, 1, cs.len());
                Ok(String::from_str(h).concat(rest.as_str()))
            },
            None => Err(AuthPathError::HomeNotSet),
        }
    } else {
        Ok(String::from_str(auth_path))
    }
}

} // verus!
