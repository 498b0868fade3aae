use codex_openai_proxy::http::{
    auth_headers, build_curl_command, detect_client, header_value,
    models_request_headers, models_url, preview_content, replay_header_value, resolve_auth_path,
    responses_request_headers, responses_url, route_request, sanitize_header_value,
    should_skip_replay_header, AuthPathError, HeaderEntry, Route,
};
use codex_openai_proxy::json::JsonValue;
use codex_openai_proxy::text::{
    i64_to_decimal, join_strings, shell_escape_single_quoted, split_lines, truncate_for_log,
    usize_to_decimal,
};
use codex_openai_proxy::types::{AuthData, MessageContent, TokenData};

fn s(x: &str) -> String {
    x.to_string()
}

fn header(name: &str, value: Option<&str>) -> HeaderEntry {
    HeaderEntry { name: s(name), value: value.map(s) }
}

#[test]
fn truncate_keeps_short_text() {
    assert_eq!(truncate_for_log("hello", 10), "hello");
    assert_eq!(truncate_for_log("hello", 5), "hello");
    assert_eq!(truncate_for_log("", 0), "");
}

#[test]
fn truncate_cuts_long_text() {
    assert_eq!(truncate_for_log("hello world", 5), "hello...");
    assert_eq!(truncate_for_log("abc", 0), "...");
}

#[test]
fn truncate_counts_characters_not_bytes() {
    assert_eq!(truncate_for_log("héllo", 2), "hé...");
    assert_eq!(truncate_for_log("日本語", 3), "日本語");
}

#[test]
fn truncation_law_bound() {
    let long = "x".repeat(1000);
    let cut = truncate_for_log(&long, 512);
    assert_eq!(cut.chars().count(), 515);
    assert!(cut.starts_with(&"x".repeat(512)));
}

#[test]
fn shell_escape_replaces_quotes() {
    assert_eq!(shell_escape_single_quoted("it's"), "it'\\''s");
    assert_eq!(shell_escape_single_quoted("plain"), "plain");
    assert_eq!(shell_escape_single_quoted("''"), "'\\'''\\''");
}

#[test]
fn shell_escape_round_trips() {
    for v in ["it's", "''", "a'\\''b", "plain", ""] {
        assert_eq!(shell_escape_single_quoted(v).replace("'\\''", "'"), v);
    }
}

#[test]
fn shell_escape_law_injective_on_examples() {
    let a = shell_escape_single_quoted("a'b");
    let b = shell_escape_single_quoted("a'\\''b");
    assert_ne!(a, b);
}

#[test]
fn skip_replay_headers() {
    assert!(should_skip_replay_header("host"));
    assert!(should_skip_replay_header("Host"));
    assert!(should_skip_replay_header("x-forwarded-for"));
    assert!(should_skip_replay_header("X-Forwarded-Proto"));
    assert!(!should_skip_replay_header("content-type"));
    assert!(!should_skip_replay_header("hostname"));
}

#[test]
fn replay_values() {
    assert_eq!(replay_header_value("host", &Some(s("localhost"))), "[skipped]");
    assert_eq!(replay_header_value("Authorization", &Some(s("Bearer sk-secret"))), "test-key");
    assert_eq!(replay_header_value("accept", &None), "[invalid utf-8]");
    assert_eq!(replay_header_value("accept", &Some(s("*/*"))), "*/*");
    let long = "v".repeat(300);
    assert_eq!(replay_header_value("x-long", &Some(long)), format!("{}...", "v".repeat(256)));
}

#[test]
fn sanitize_redacts_secrets() {
    assert_eq!(sanitize_header_value("authorization", &Some(s("Bearer abc"))), "[redacted]");
    assert_eq!(sanitize_header_value("Cookie", &Some(s("a=b"))), "[redacted]");
    assert_eq!(sanitize_header_value("set-cookie", &None), "[redacted]");
    assert_eq!(sanitize_header_value("accept", &Some(s("text/plain"))), "text/plain");
    assert_eq!(sanitize_header_value("accept", &None), "[invalid utf-8]");
}

#[test]
fn header_value_takes_first_entry() {
    let headers = vec![
        header("accept", Some("a")),
        header("user-agent", None),
        header("user-agent", Some("second")),
    ];
    assert_eq!(header_value(&headers, "accept"), Some(s("a")));
    assert_eq!(header_value(&headers, "user-agent"), None);
    assert_eq!(header_value(&headers, "missing"), None);
}

#[test]
fn detect_clients() {
    let ua = |v: &str| vec![header("user-agent", Some(v))];
    assert_eq!(detect_client(&ua("Cline/3.0")), "cline");
    assert_eq!(detect_client(&ua("VSCode/1.90")), "vscode");
    assert_eq!(detect_client(&ua("Mozilla/5.0")), "browser");
    assert_eq!(detect_client(&ua("Something Chrome")), "browser");
    assert_eq!(detect_client(&ua("curl/8.0")), "custom");
    assert_eq!(detect_client(&ua("")), "unknown");
    assert_eq!(detect_client(&vec![]), "unknown");
}

#[test]
fn curl_command_replays_request() {
    let headers = vec![
        header("host", Some("localhost:8080")),
        header("authorization", Some("Bearer secret")),
        header("content-type", Some("application/json")),
        header("x-forwarded-for", Some("1.2.3.4")),
    ];
    let cmd = build_curl_command("/v1/chat/completions", &headers, "{\"a\":\"it's\"}");
    assert_eq!(
        cmd,
        "curl -X POST http://localhost:8080/v1/chat/completions -H 'authorization: test-key' -H 'content-type: application/json' -d '{\"a\":\"it'\\''s\"}'"
    );
    assert!(!cmd.contains("secret"));
}

#[test]
fn curl_command_cuts_body() {
    let body = "b".repeat(600);
    let cmd = build_curl_command("/chat/completions", &vec![], &body);
    assert_eq!(
        cmd,
        format!("curl -X POST http://localhost:8080/chat/completions -d '{}...'", "b".repeat(500))
    );
}

#[test]
fn previews() {
    assert_eq!(preview_content(&MessageContent::Text(s("short"))), "short");
    assert_eq!(
        preview_content(&MessageContent::Text("z".repeat(100))),
        format!("{}...", "z".repeat(80))
    );
    let parts = vec![JsonValue::Null, JsonValue::Bool(true), JsonValue::Str(s("x"))];
    assert_eq!(preview_content(&MessageContent::Parts(parts)), "[array items=3]");
    assert_eq!(preview_content(&MessageContent::Other(s("null"))), "[null]");
}

#[test]
fn routes() {
    assert_eq!(route_request("GET", "/health"), Route::Health);
    assert_eq!(route_request("GET", "/models"), Route::Models);
    assert_eq!(route_request("GET", "/v1/models"), Route::Models);
    assert_eq!(route_request("POST", "/chat/completions"), Route::ChatCompletions);
    assert_eq!(route_request("POST", "/v1/chat/completions"), Route::ChatCompletions);
    assert_eq!(route_request("POST", "/health"), Route::NotFound);
    assert_eq!(route_request("GET", "/v1/chat/completions"), Route::NotFound);
    assert_eq!(route_request("DELETE", "/models"), Route::NotFound);
}

fn tokens_auth() -> AuthData {
    AuthData {
        api_key: Some(s("sk-key")),
        tokens: Some(TokenData {
            access_token: s("tok"),
            account_id: s("acct"),
            refresh_token: None,
        }),
    }
}

#[test]
fn auth_prefers_account_tokens() {
    assert_eq!(
        auth_headers(&tokens_auth()),
        vec![(s("Authorization"), s("Bearer tok")), (s("chatgpt-account-id"), s("acct"))]
    );
}

#[test]
fn auth_falls_back_to_api_key() {
    let auth = AuthData { api_key: Some(s("sk-key")), tokens: None };
    assert_eq!(auth_headers(&auth), vec![(s("Authorization"), s("Bearer sk-key"))]);
    let none = AuthData { api_key: None, tokens: None };
    assert_eq!(auth_headers(&none), vec![]);
}

#[test]
fn backend_headers() {
    let auth = AuthData { api_key: Some(s("k")), tokens: None };
    let models = models_request_headers(&auth);
    assert_eq!(models.len(), 13);
    assert_eq!(models[0], (s("Accept"), s("application/json")));
    assert_eq!(models[11], (s("originator"), s("codex_cli_rs")));
    assert_eq!(models[12], (s("Authorization"), s("Bearer k")));

    let responses = responses_request_headers(&tokens_auth(), "sid-1");
    assert_eq!(responses.len(), 17);
    assert_eq!(responses[0], (s("Content-Type"), s("application/json")));
    assert_eq!(responses[1], (s("Accept"), s("text/event-stream")));
    assert_eq!(responses[12], (s("OpenAI-Beta"), s("responses=experimental")));
    assert_eq!(responses[15], (s("chatgpt-account-id"), s("acct")));
    assert_eq!(responses[16], (s("session_id"), s("sid-1")));
}

#[test]
fn backend_urls() {
    assert_eq!(models_url(), "https://chatgpt.com/backend-api/codex/models?client_version=1.0.0");
    assert_eq!(responses_url(), "https://chatgpt.com/backend-api/codex/responses");
}

#[test]
fn auth_path_resolution() {
    assert_eq!(
        resolve_auth_path("~/.codex/auth.json", Some("/home/u")),
        Ok(s("/home/u/.codex/auth.json"))
    );
    assert_eq!(resolve_auth_path("~/.codex/auth.json", None), Err(AuthPathError::HomeNotSet));
    assert_eq!(resolve_auth_path("/etc/auth.json", None), Ok(s("/etc/auth.json")));
    assert_eq!(resolve_auth_path("~user/auth.json", Some("/h")), Ok(s("~user/auth.json")));
    assert_eq!(AuthPathError::HomeNotSet.message(), "HOME environment variable not set");
}

#[test]
fn lines_split_like_std() {
    let text = "a\r\nb\n\nc\r";
    let ours = split_lines(text);
    let std_lines: Vec<String> = text.lines().map(String::from).collect();
    assert_eq!(ours, std_lines);
    assert_eq!(split_lines("x\n"), vec![s("x")]);
    assert_eq!(split_lines(""), Vec::<String>::new());
}

#[test]
fn decimals() {
    assert_eq!(i64_to_decimal(0), "0");
    assert_eq!(i64_to_decimal(1700000000), "1700000000");
    assert_eq!(i64_to_decimal(-42), "-42");
    assert_eq!(i64_to_decimal(i64::MIN), i64::MIN.to_string());
    assert_eq!(usize_to_decimal(12345), "12345");
}

#[test]
fn joining() {
    assert_eq!(join_strings(&vec![s("a"), s("b"), s("c")], ", "), "a, b, c");
    assert_eq!(join_strings(&vec![], "-"), "");
}

#[test]
fn credentials_file_forms() {
    let readme = AuthData::from_fields(Some(s("sk-proj")), None, Some(s("eyJ")), Some(s("db1f")));
    assert_eq!(
        readme.tokens,
        Some(TokenData { access_token: s("eyJ"), account_id: s("db1f"), refresh_token: None })
    );
    assert_eq!(readme.api_key, Some(s("sk-proj")));
    assert_eq!(
        auth_headers(&readme),
        vec![(s("Authorization"), s("Bearer eyJ")), (s("chatgpt-account-id"), s("db1f"))]
    );

    let nested = TokenData { access_token: s("n"), account_id: s("m"), refresh_token: Some(s("r")) };
    let both = AuthData::from_fields(None, Some(nested), Some(s("top")), Some(s("level")));
    assert_eq!(both.tokens.unwrap().access_token, "n");

    let half = AuthData::from_fields(Some(s("k")), None, Some(s("only")), None);
    assert_eq!(half.tokens, None);
    assert_eq!(auth_headers(&half), vec![(s("Authorization"), s("Bearer k"))]);
}
