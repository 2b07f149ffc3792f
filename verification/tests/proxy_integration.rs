//! Requests that go through the proxy, with an upstream service played by the test.

use npulama::config::Config;
use npulama::proxy::{relay, Admission, Header, ProxyState, RequestHead, Route, UpstreamRequest};
use serde_json::Value;

struct Response {
    status: u16,
    headers: Vec<(String, String)>,
    body: Vec<u8>,
}

impl Response {
    fn json(&self) -> Value {
        serde_json::from_slice(&self.body).unwrap()
    }

    fn header(&self, name: &str) -> Option<&str> {
        self.headers.iter().find(|h| h.0 == name).map(|h| h.1.as_str())
    }
}

type Upstream = fn(&UpstreamRequest) -> Result<Vec<u8>, String>;

/// Answers every request with its path.
fn mock_upstream(request: &UpstreamRequest) -> Result<Vec<u8>, String> {
    let rest = request.url.strip_prefix("http://127.0.0.1:4711").unwrap();
    let path = rest.split('?').next().unwrap();
    Ok(format!("{{\"upstream\":\"ok\",\"path\":\"{}\"}}", path).into_bytes())
}

/// Answers every request with its body.
fn body_echo_upstream(request: &UpstreamRequest) -> Result<Vec<u8>, String> {
    Ok(request.body.clone())
}

fn nothing_listening(_: &UpstreamRequest) -> Result<Vec<u8>, String> {
    Err("connection refused".to_string())
}

fn header(name: &str, value: &str) -> Header {
    Header { name: name.to_string(), value: value.as_bytes().to_vec() }
}

fn texts(headers: &[Header]) -> Vec<(String, String)> {
    headers
        .iter()
        .map(|h| (h.name.clone(), String::from_utf8(h.value.clone()).unwrap()))
        .collect()
}

fn exchange(
    mut config: Config,
    upstream_url: &str,
    upstream: Upstream,
    method: &str,
    path: &str,
    headers: Vec<Header>,
    body: &str,
) -> Response {
    config.upstream_url = upstream_url.to_string();
    let state = ProxyState::new(&config);
    let head = RequestHead {
        method: method.to_string(),
        path_and_query: Some(path.to_string()),
        headers,
    };
    let reply = match state.receive(head) {
        Admission::Answer(reply) => reply,
        Admission::Forward(route) => match route.request(Some(body.as_bytes().to_vec())) {
            Err(reply) => reply,
            Ok(request) => match upstream(&request) {
                Err(e) => route.unreachable(&e),
                Ok(body) => {
                    let head = relay(200, &vec![header("content-type", "application/json")]);
                    return Response { status: head.status, headers: texts(&head.headers), body };
                }
            },
        },
    };
    Response { status: reply.status, headers: texts(&reply.headers), body: reply.body }
}

const URL: &str = "http://127.0.0.1:4711";

fn base_config() -> Config {
    let mut c = Config::default();
    c.require_auth = false;
    c
}

#[test]
fn test_request_is_forwarded() {
    let resp = exchange(base_config(), URL, mock_upstream, "GET", "/v1/models", vec![], "");
    assert_eq!(resp.status, 200);
    let body = resp.json();
    assert_eq!(body["upstream"], "ok");
    assert_eq!(body["path"], "/v1/models");
}

#[test]
fn test_no_auth_required_by_default() {
    let resp = exchange(
        base_config(),
        URL,
        mock_upstream,
        "POST",
        "/v1/chat/completions",
        vec![],
        "{\"model\": \"x\", \"messages\": []}",
    );
    assert_eq!(resp.status, 200);
}

fn guarded_config() -> Config {
    let mut config = base_config();
    config.require_auth = true;
    config.tokens = vec!["sk-validtoken".into()];
    config
}

#[test]
fn test_auth_rejects_missing_token() {
    let resp = exchange(guarded_config(), URL, mock_upstream, "GET", "/v1/models", vec![], "");
    assert_eq!(resp.status, 401);
    let body = resp.json();
    assert_eq!(body["error"]["code"], "invalid_api_key");
}

#[test]
fn test_auth_rejects_wrong_token() {
    let headers = vec![header("authorization", "Bearer sk-wrongtoken")];
    let resp = exchange(guarded_config(), URL, mock_upstream, "GET", "/v1/models", headers, "");
    assert_eq!(resp.status, 401);
}

#[test]
fn test_auth_accepts_valid_token() {
    let headers = vec![header("authorization", "Bearer sk-validtoken")];
    let resp = exchange(guarded_config(), URL, mock_upstream, "GET", "/v1/models", headers, "");
    assert_eq!(resp.status, 200);
}

#[test]
fn test_cors_preflight_returns_200() {
    let headers = vec![
        header("origin", "http://localhost:3000"),
        header("access-control-request-method", "POST"),
    ];
    let resp = exchange(
        base_config(),
        URL,
        mock_upstream,
        "OPTIONS",
        "/v1/chat/completions",
        headers,
        "",
    );
    assert_eq!(resp.status, 200);
    assert!(resp.header("access-control-allow-origin").is_some());
    assert!(resp.header("access-control-allow-methods").is_some());
}

#[test]
fn test_upstream_unreachable_returns_502() {
    let resp = exchange(
        base_config(),
        "http://127.0.0.1:1",
        nothing_listening,
        "GET",
        "/v1/models",
        vec![],
        "",
    );
    assert_eq!(resp.status, 502);
    let body = resp.json();
    assert_eq!(body["error"]["code"], "upstream_error");
}

#[test]
fn test_max_completion_tokens_stripped() {
    let resp = exchange(
        base_config(),
        URL,
        body_echo_upstream,
        "POST",
        "/v1/chat/completions",
        vec![],
        "{\"model\": \"phi-4-mini\", \"messages\": [{\"role\": \"user\", \"content\": \"hi\"}], \
         \"max_completion_tokens\": 32000, \"temperature\": 1.0}",
    );
    assert_eq!(resp.status, 200);
    let body = resp.json();
    assert!(
        body.get("max_completion_tokens").is_none(),
        "max_completion_tokens should be stripped"
    );
    assert_eq!(body["model"], "phi-4-mini");
    assert_eq!(body["temperature"], 1.0);
}

#[test]
fn test_body_without_max_completion_tokens_passes_unchanged() {
    let sent = "{\"model\": \"phi-4-mini\", \"messages\": [{\"role\": \"user\", \
                \"content\": \"hi\"}], \"temperature\": 0.7}";
    let resp = exchange(
        base_config(),
        URL,
        body_echo_upstream,
        "POST",
        "/v1/chat/completions",
        vec![],
        sent,
    );
    assert_eq!(resp.status, 200);
    assert_eq!(resp.body, sent.as_bytes());
    let body = resp.json();
    assert_eq!(body["model"], "phi-4-mini");
    assert_eq!(body["temperature"], 0.7);
}

#[test]
fn test_path_and_query_are_forwarded() {
    let resp =
        exchange(base_config(), URL, mock_upstream, "GET", "/v1/models?limit=10", vec![], "");
    assert_eq!(resp.status, 200);
    let body = resp.json();
    assert!(body["path"].as_str().unwrap().starts_with("/v1/models"));
}

// ── Further cases ────────────────────────────────────────────────────────────

fn route(config: &Config, method: &str, path: Option<&str>, headers: Vec<Header>) -> Admission {
    ProxyState::new(config).receive(RequestHead {
        method: method.to_string(),
        path_and_query: path.map(|p| p.to_string()),
        headers,
    })
}

fn forwarded(admission: Admission, body: &[u8]) -> UpstreamRequest {
    match admission {
        Admission::Forward(route) => route.request(Some(body.to_vec())).unwrap(),
        Admission::Answer(reply) => panic!("answered with {}", reply.status),
    }
}

fn refused(admission: Admission) -> bool {
    match admission {
        Admission::Forward(_) => false,
        Admission::Answer(reply) => {
            assert_eq!(reply.status, 401);
            true
        }
    }
}

#[test]
fn preflight_is_answered_in_full() {
    let reply = match route(&guarded_config(), "OPTIONS", Some("/"), vec![]) {
        Admission::Answer(reply) => reply,
        Admission::Forward(_) => panic!("forwarded"),
    };
    assert_eq!(reply.status, 200);
    assert_eq!(reply.body, Vec::<u8>::new());
    assert_eq!(
        texts(&reply.headers),
        vec![
            ("access-control-allow-origin".to_string(), "*".to_string()),
            ("access-control-allow-headers".to_string(), "authorization, content-type".to_string()),
            (
                "access-control-allow-methods".to_string(),
                "GET, POST, PUT, DELETE, OPTIONS".to_string()
            ),
            ("access-control-max-age".to_string(), "86400".to_string()),
        ]
    );
}

#[test]
fn refusal_is_answered_in_full() {
    let resp = exchange(guarded_config(), URL, mock_upstream, "GET", "/", vec![], "");
    assert_eq!(
        String::from_utf8(resp.body).unwrap(),
        "{\"error\":{\"code\":\"invalid_api_key\",\"message\":\"Invalid or missing API key. \
         Provide a valid sk-... token.\",\"type\":\"invalid_request_error\"}}"
    );
    assert_eq!(
        resp.headers,
        vec![
            ("content-type".to_string(), "application/json".to_string()),
            ("access-control-allow-origin".to_string(), "*".to_string()),
        ]
    );
}

#[test]
fn no_tokens_refuse_every_request() {
    let mut config = guarded_config();
    config.tokens = vec![];
    assert!(refused(route(&config, "GET", Some("/"), vec![header("authorization", "Bearer ")])));
    assert!(refused(route(&config, "POST", None, vec![])));
}

#[test]
fn other_credentials_are_refused() {
    for value in ["Basic sk-validtoken", "bearer sk-validtoken", "sk-validtoken", "Bearer  sk-validtoken",
        "Bearer sk-validtoken ", "Bearersk-validtoken", ""]
    {
        let headers = vec![header("authorization", value)];
        assert!(refused(route(&guarded_config(), "GET", Some("/"), headers)), "{}", value);
    }
    let mut bytes = b"Bearer sk-validtoken".to_vec();
    bytes.push(0xff);
    let headers = vec![Header { name: "authorization".to_string(), value: bytes }];
    assert!(refused(route(&guarded_config(), "GET", Some("/"), headers)));
}

#[test]
fn first_authorization_header_counts() {
    let headers = vec![
        header("authorization", "Bearer sk-wrongtoken"),
        header("authorization", "Bearer sk-validtoken"),
    ];
    assert!(refused(route(&guarded_config(), "GET", Some("/"), headers)));
}

#[test]
fn every_token_counts() {
    let mut config = guarded_config();
    config.tokens.push("my other token".to_string());
    let headers = vec![header("authorization", "Bearer my other token")];
    assert!(!refused(route(&config, "GET", Some("/"), headers)));
}

#[test]
fn slashes_at_the_end_of_the_upstream_url_are_dropped() {
    let mut config = base_config();
    config.upstream_url = "http://127.0.0.1:5000//".to_string();
    let request = forwarded(route(&config, "GET", Some("/v1/models?limit=10"), vec![]), b"");
    assert_eq!(request.url, "http://127.0.0.1:5000/v1/models?limit=10");
    let request = forwarded(route(&config, "GET", None, vec![]), b"");
    assert_eq!(request.url, "http://127.0.0.1:5000/");
}

#[test]
fn credentials_and_host_are_not_forwarded() {
    let headers = vec![
        header("host", "localhost"),
        header("accept", "*/*"),
        header("authorization", "Bearer sk-validtoken"),
        header("x-trace", "1"),
        header("x-trace", "2"),
    ];
    let request = forwarded(route(&guarded_config(), "GET", Some("/"), headers), b"");
    assert_eq!(
        texts(&request.headers),
        vec![
            ("accept".to_string(), "*/*".to_string()),
            ("x-trace".to_string(), "1".to_string()),
            ("x-trace".to_string(), "2".to_string()),
        ]
    );
}

#[test]
fn method_is_forwarded() {
    for method in ["GET", "POST", "DELETE", "PATCH", "M-SEARCH", "PROPFIND_WITH_A_LONG_NAME"] {
        let request = forwarded(route(&base_config(), method, Some("/"), vec![]), b"");
        assert_eq!(request.method, method);
    }
    let request = forwarded(route(&base_config(), "NO METHOD", Some("/"), vec![]), b"");
    assert_eq!(request.method, "GET");
    let request = forwarded(route(&base_config(), "", Some("/"), vec![]), b"");
    assert_eq!(request.method, "GET");
}

#[test]
fn length_of_a_stripped_body_is_told() {
    let body = b"{\"max_completion_tokens\":1,\"a\":2}";
    let headers = vec![header("content-length", "33"), header("accept", "*/*")];
    let request = forwarded(route(&base_config(), "POST", Some("/"), headers), body);
    assert_eq!(request.body, b"{\"a\":2}");
    assert_eq!(
        texts(&request.headers),
        vec![
            ("content-length".to_string(), "7".to_string()),
            ("accept".to_string(), "*/*".to_string()),
        ]
    );
}

#[test]
fn headers_of_an_unchanged_body_are_kept() {
    let headers = vec![header("content-length", "7")];
    let request = forwarded(route(&base_config(), "POST", Some("/"), headers), b"{\"a\":2}");
    assert_eq!(request.body, b"{\"a\":2}");
    assert_eq!(
        texts(&request.headers),
        vec![("content-length".to_string(), "7".to_string())]
    );
}

#[test]
fn unreadable_body_is_a_bad_request() {
    let reply = match route(&base_config(), "POST", Some("/"), vec![]) {
        Admission::Forward(route) => route.request(None).unwrap_err(),
        Admission::Answer(_) => panic!("answered"),
    };
    assert_eq!(reply.status, 400);
    assert_eq!(
        String::from_utf8(reply.body).unwrap(),
        "{\"error\":{\"code\":\"bad_request\",\"message\":\"Failed to read request body\",\
         \"type\":\"invalid_request_error\"}}"
    );
}

#[test]
fn unreachable_upstream_is_named() {
    let mut config = base_config();
    config.upstream_url = "http://127.0.0.1:1/".to_string();
    let reply = match route(&config, "GET", Some("/"), vec![]) {
        Admission::Forward(route) => route.unreachable("say \"no\"\n\u{1}\\ \u{e9}"),
        Admission::Answer(_) => panic!("answered"),
    };
    assert_eq!(reply.status, 502);
    assert_eq!(
        String::from_utf8(reply.body.clone()).unwrap(),
        "{\"error\":{\"code\":\"upstream_error\",\"message\":\"Cannot reach Foundry Local at \
         http://127.0.0.1:1/: say \\\"no\\\"\\n\\u0001\\\\ \u{e9}\",\
         \"type\":\"invalid_request_error\"}}"
    );
    let body: Value = serde_json::from_slice(&reply.body).unwrap();
    assert_eq!(
        body["error"]["message"],
        "Cannot reach Foundry Local at http://127.0.0.1:1/: say \"no\"\n\u{1}\\ \u{e9}"
    );
}

#[test]
fn relayed_headers_belong_to_the_answer() {
    let head = relay(
        201,
        &vec![
            header("content-type", "text/event-stream"),
            header("transfer-encoding", "chunked"),
            header("connection", "keep-alive"),
            header("keep-alive", "timeout=5"),
            header("access-control-allow-origin", "http://elsewhere"),
            header("access-control-allow-headers", "x"),
            header("access-control-allow-methods", "GET"),
            header("x-request-id", "7"),
        ],
    );
    assert_eq!(head.status, 201);
    assert_eq!(
        texts(&head.headers),
        vec![
            ("content-type".to_string(), "text/event-stream".to_string()),
            ("x-request-id".to_string(), "7".to_string()),
            ("access-control-allow-origin".to_string(), "*".to_string()),
            ("access-control-allow-headers".to_string(), "authorization, content-type".to_string()),
            (
                "access-control-allow-methods".to_string(),
                "GET, POST, PUT, DELETE, OPTIONS".to_string()
            ),
        ]
    );
}

#[test]
fn relayed_status_is_one() {
    assert_eq!(relay(100, &vec![]).status, 100);
    assert_eq!(relay(404, &vec![]).status, 404);
    assert_eq!(relay(999, &vec![]).status, 999);
    assert_eq!(relay(99, &vec![]).status, 500);
    assert_eq!(relay(1000, &vec![]).status, 500);
    assert_eq!(relay(0, &vec![]).status, 500);
}

#[test]
fn proxy_keeps_the_settings_it_was_started_with() {
    let mut config = base_config();
    let state = ProxyState::new(&config);
    config.require_auth = true;
    config.upstream_url = "http://elsewhere".to_string();
    assert!(!state.require_auth);
    assert_eq!(state.upstream_url, "http://127.0.0.1:52495");
}

#[test]
fn failures_to_serve_are_told() {
    assert_eq!(
        npulama::proxy::bind_failure("127.0.0.1:80", "denied"),
        "Failed to bind 127.0.0.1:80: denied"
    );
    assert_eq!(npulama::proxy::serve_failure("gone"), "Server error: gone");
    assert_eq!(npulama::proxy::MAX_BODY_BYTES, 64 * 1024 * 1024);
}

#[test]
fn length_is_put_right_for_a_changed_body_only() {
    let route = Route {
        method: "POST".to_string(),
        url: "http://127.0.0.1:4711/v1/models".to_string(),
        headers: vec![header("host", "here"), header("content-length", "40"), header("accept", "*/*")],
        upstream: "http://127.0.0.1:4711/".to_string(),
    };
    let pair = |name: &str, value: &str| (name.to_string(), value.to_string());
    let changed = route.request_with(b"{}".to_vec(), true);
    assert_eq!(texts(&changed.headers), vec![pair("content-length", "2"), pair("accept", "*/*")]);
    assert_eq!(changed.body, b"{}".to_vec());
    assert_eq!(changed.method, "POST");
    let unchanged = route.request_with(b"{}".to_vec(), false);
    assert_eq!(texts(&unchanged.headers), vec![pair("content-length", "40"), pair("accept", "*/*")]);
}

#[test]
fn no_upstream_url_is_answered_with_503() {
    let response = exchange(base_config(), "", nothing_listening, "GET", "/v1/models", vec![], "");
    assert_eq!(response.status, 503);
    assert_eq!(
        String::from_utf8(response.body.clone()).unwrap(),
        "{\"error\":{\"code\":\"no_model_loaded\",\"message\":\"No model loaded\",\
         \"type\":\"invalid_request_error\"}}"
    );
    assert_eq!(response.header("access-control-allow-origin"), Some("*"));
    let response = exchange(guarded_config(), "", nothing_listening, "GET", "/", vec![], "");
    assert_eq!(response.status, 401);
    let response = exchange(guarded_config(), "", nothing_listening, "OPTIONS", "/", vec![], "");
    assert_eq!(response.status, 200);
}
