use a2a_client::compose::{
    compose_a2a_request, compose_parts, header_list, message_parts, prepare_a2a_message,
    resolve_url,
};
use a2a_client::model::{
    A2AMessageParams, A2AMessagePart, A2ADataPart, A2ATextPart, SettingA2AServer,
    SettingA2AServerParams,
};
use a2a_client::reply::{
    a2a_response, agent_card_body, fetch_outcome, send_outcome, HttpReply, TransportError,
};
use a2a_client::server_store::SettingA2AServerDbManager;

fn server(settings: Option<&str>, headers: Option<&str>) -> SettingA2AServer {
    SettingA2AServer {
        id: Some(1),
        name: "agent".to_string(),
        agent_card_url: "localhost:9999".to_string(),
        agent_card_json: None,
        custom_header_json: headers.map(|h| h.to_string()),
        protocol_data_object_settings: settings.map(|s| s.to_string()),
        enabled: true,
        created_at: None,
        updated_at: None,
    }
}

fn params(text: &str) -> A2AMessageParams {
    A2AMessageParams {
        a2a_server_id: 1,
        a2a_url: "localhost:9999".to_string(),
        task_id: "task-7".to_string(),
        message_id: "msg-3".to_string(),
        header_skill_id: "skill-x".to_string(),
        text: text.to_string(),
    }
}

fn only_text(parts: &[A2AMessagePart]) -> String {
    assert_eq!(parts.len(), 1);
    match &parts[0] {
        A2AMessagePart::Text(t) => {
            assert_eq!(t.kind, "text");
            t.text.clone()
        }
        A2AMessagePart::Data(_) => panic!("expected a text part"),
    }
}

fn only_data(parts: &[A2AMessagePart]) -> String {
    assert_eq!(parts.len(), 1);
    match &parts[0] {
        A2AMessagePart::Data(d) => {
            assert_eq!(d.kind, "data");
            d.data.clone()
        }
        A2AMessagePart::Text(_) => panic!("expected a data part"),
    }
}

#[test]
fn text_mode_without_settings() {
    let parts = compose_parts(&None, "hello".to_string());
    assert_eq!(only_text(&parts), "hello");
}

#[test]
fn data_mode_substitutes_placeholder() {
    let settings = Some("{\"kind\":\"data\",\"data\":\"prefix-{{USER_PROMPT}}-suffix\"}".to_string());
    let parts = compose_parts(&settings, "X".to_string());
    assert_eq!(only_data(&parts), "prefix-X-suffix");
}

#[test]
fn data_mode_replaces_every_occurrence() {
    let settings = Some("{\"data\":\"{{USER_PROMPT}}+{{USER_PROMPT}}\",\"kind\":\"data\"}".to_string());
    let parts = compose_parts(&settings, "ab".to_string());
    assert_eq!(only_data(&parts), "ab+ab");
}

#[test]
fn data_mode_without_template_sends_empty_data() {
    let settings = Some("{\"kind\":\"data\"}".to_string());
    assert_eq!(only_data(&compose_parts(&settings, "hi".to_string())), "");
    let numeric = Some("{\"kind\":\"data\",\"data\":5}".to_string());
    assert_eq!(only_data(&compose_parts(&numeric, "hi".to_string())), "");
}

#[test]
fn other_kinds_and_bad_json_fall_back_to_text() {
    for s in ["{\"kind\":\"text\",\"data\":\"d\"}", "not json", "[1,2]", "{\"kind\":1}"] {
        let parts = compose_parts(&Some(s.to_string()), "plain".to_string());
        assert_eq!(only_text(&parts), "plain");
    }
}

#[test]
fn message_parts_from_parsed_entries() {
    let entries = vec![
        ("data".to_string(), Some("<{{USER_PROMPT}}>".to_string())),
        ("kind".to_string(), Some("data".to_string())),
    ];
    assert_eq!(only_data(&message_parts(&Some(entries), "q".to_string())), "<q>");
    let text_kind = vec![("kind".to_string(), None)];
    assert_eq!(only_text(&message_parts(&Some(text_kind), "q".to_string())), "q");
    assert_eq!(only_text(&message_parts(&None, "q".to_string())), "q");
}

#[test]
fn headers_keep_only_string_values() {
    let custom = vec![
        ("A".to_string(), Some("1".to_string())),
        ("B".to_string(), None),
        ("C".to_string(), Some("3".to_string())),
    ];
    let h = header_list("skill".to_string(), &Some(custom));
    let want: Vec<(String, String)> = vec![
        ("Content-Type".to_string(), "application/json".to_string()),
        ("X-A2A-Skill-Id".to_string(), "skill".to_string()),
        ("A".to_string(), "1".to_string()),
        ("C".to_string(), "3".to_string()),
    ];
    assert_eq!(h, want);
    assert_eq!(header_list("s".to_string(), &None).len(), 2);
}

#[test]
fn url_gets_plain_scheme_when_missing() {
    assert_eq!(resolve_url("localhost:8080/a"), "http://localhost:8080/a");
    assert_eq!(resolve_url("https://secure.example"), "https://secure.example");
    assert_eq!(resolve_url("http://plain.example"), "http://plain.example");
    assert_eq!(resolve_url(""), "http://");
}

#[test]
fn full_request_is_wired_field_by_field() {
    let s = server(None, Some("{\"Authorization\":\"SECRET-REDACTED\",\"Retries\":3}"));
    let r = compose_a2a_request(&s, params("hello"));
    assert_eq!(r.url, "http://localhost:9999");
    assert_eq!(r.body.jsonrpc, "2.0");
    assert_eq!(r.body.id, "msg-3");
    assert_eq!(r.body.method, "message/send");
    assert_eq!(r.body.params.id, "task-7");
    assert_eq!(r.body.params.message.message_id, "msg-3");
    assert_eq!(r.body.params.message.kind, "message");
    assert_eq!(r.body.params.message.role, "user");
    assert_eq!(only_text(&r.body.params.message.parts), "hello");
    assert_eq!(r.body.params.metadata, serde_json::Value::Object(serde_json::Map::new()));
    let want: Vec<(String, String)> = vec![
        ("Content-Type".to_string(), "application/json".to_string()),
        ("X-A2A-Skill-Id".to_string(), "skill-x".to_string()),
        ("Authorization".to_string(), "SECRET-REDACTED".to_string()),
    ];
    assert_eq!(r.headers, want);
}

#[test]
fn unparseable_custom_headers_are_ignored() {
    let s = server(None, Some("{oops"));
    let r = compose_a2a_request(&s, params("x"));
    assert_eq!(r.headers.len(), 2);
}

#[test]
fn missing_server_is_refused_before_sending() {
    let store = SettingA2AServerDbManager::new();
    match prepare_a2a_message(&store, params("x")) {
        Err(m) => assert_eq!(m, "A2A server not found"),
        Ok(_) => panic!("no server is stored"),
    }
}

#[test]
fn stored_server_settings_shape_the_request() {
    let mut store = SettingA2AServerDbManager::new();
    let p = SettingA2AServerParams {
        name: "agent".to_string(),
        agent_card_url: "https://agent.example".to_string(),
        agent_card_json: None,
        custom_header_json: None,
        protocol_data_object_settings: Some(
            "{\"kind\":\"data\",\"data\":\"prefix-{{USER_PROMPT}}-suffix\"}".to_string(),
        ),
        enabled: true,
    };
    store.insert(&p, "t").ok().unwrap();
    let r = match prepare_a2a_message(&store, params("X")) {
        Ok(r) => r,
        Err(m) => panic!("{m}"),
    };
    assert_eq!(r.url, "https://agent.example");
    assert_eq!(only_data(&r.body.params.message.parts), "prefix-X-suffix");
}

#[test]
fn part_constructors_set_their_kind() {
    let t = A2ATextPart::new("a".to_string());
    assert_eq!((t.kind.as_str(), t.text.as_str()), ("text", "a"));
    let d = A2ADataPart::new("b".to_string());
    assert_eq!((d.kind.as_str(), d.data.as_str()), ("data", "b"));
}

fn reply(ok: bool, body: Result<&str, &str>) -> Result<HttpReply, String> {
    Ok(HttpReply {
        status_ok: ok,
        status: if ok { "200 OK".to_string() } else { "500 Internal Server Error".to_string() },
        body: body.map(|b| b.to_string()).map_err(|e| e.to_string()),
    })
}

#[test]
fn send_replies_are_classified() {
    let ok = a2a_response(reply(true, Ok("{\"result\":1}")));
    assert_eq!((ok.code, ok.data.as_deref()), (0, Some("{\"result\":1}")));
    let bad = a2a_response(reply(false, Ok("boom")));
    assert_eq!(bad.code, 1);
    assert_eq!(bad.message, "A2A request failed with status 500 Internal Server Error: boom");
    let unread_bad = a2a_response(reply(false, Err("eof")));
    assert_eq!(unread_bad.message, "A2A request failed with status 500 Internal Server Error: ");
    let unread = a2a_response(reply(true, Err("eof")));
    assert_eq!(unread.message, "Failed to read response body: eof");
    let unsent = a2a_response(Err("refused".to_string()));
    assert_eq!(unsent.message, "Request failed: refused");
    assert!(unsent.data.is_none());
}

#[test]
fn agent_card_replies_are_classified() {
    assert_eq!(agent_card_body(reply(true, Ok("{}"))), Ok("{}".to_string()));
    assert_eq!(
        agent_card_body(reply(false, Ok("nope"))),
        Err("Request failed with status 500 Internal Server Error: nope".to_string())
    );
    assert_eq!(
        agent_card_body(reply(true, Err("eof"))),
        Err("Failed to read response body: eof".to_string())
    );
    assert_eq!(agent_card_body(Err("dns".to_string())), Err("Request failed: dns".to_string()));
}

#[test]
fn transport_failures_keep_their_kind() {
    assert!(matches!(send_outcome(Err("dns".to_string())), Err(TransportError::Unreachable(d)) if d == "dns"));
    match send_outcome(reply(false, Err("eof"))) {
        Err(TransportError::BadStatus { status, body }) => {
            assert_eq!(status, "500 Internal Server Error");
            assert_eq!(body, "");
        }
        _ => panic!("a failed status must be reported as such"),
    }
    assert!(matches!(send_outcome(reply(true, Err("eof"))), Err(TransportError::UnreadableBody(d)) if d == "eof"));
    assert!(matches!(send_outcome(reply(true, Ok("b"))), Ok(b) if b == "b"));
    assert!(matches!(fetch_outcome(reply(false, Err("eof"))), Err(TransportError::UnreadableBody(_))));
    assert!(matches!(fetch_outcome(reply(false, Ok("x"))), Err(TransportError::BadStatus { .. })));
}
