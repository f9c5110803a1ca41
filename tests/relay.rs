use a2a_client::chat::{
    build_chat_messages, chat_roles, error_response, max_output_tokens, role_of,
    validate_completion_request, validate_stream_request, ChatRole,
};
use a2a_client::model::{ChatCompletionParams, ChatMessage, InvokeResponse};
use a2a_client::relay::{
    relay, Arrival, ChunkRead, RelayState, StreamChunk, StreamSession, STREAM_TIMEOUT_SECS,
};
use a2a_client::text::is_blank;

fn content(t: &str, at: u64) -> Arrival {
    Arrival { elapsed_secs: at, read: ChunkRead::Content(t.to_string()) }
}

fn is_started(e: &StreamChunk) -> bool {
    e.status.as_deref() == Some("streaming_started")
        && e.message.as_deref() == Some("Waiting for response...")
        && !e.is_complete
        && e.content.is_empty()
}

fn is_completed(e: &StreamChunk) -> bool {
    e.status.as_deref() == Some("completed")
        && e.message.as_deref() == Some("Streaming completed successfully")
        && e.is_complete
        && e.error.is_none()
}

fn is_content(e: &StreamChunk, t: &str) -> bool {
    e.content == t && !e.is_complete && e.status.is_none() && e.error.is_none()
}

fn is_timeout(e: &StreamChunk) -> bool {
    e.is_complete && e.error.as_deref() == Some("Streaming timeout after 5 minutes") && e.status.is_none()
}

#[test]
fn three_chunks_then_normal_end() {
    let arrivals = vec![content("a", 0), content("b", 1), content("c", 2)];
    let (events, result) = relay(&arrivals);
    assert_eq!(events.len(), 5);
    assert!(is_started(&events[0]));
    assert!(is_content(&events[1], "a"));
    assert!(is_content(&events[2], "b"));
    assert!(is_content(&events[3], "c"));
    assert!(is_completed(&events[4]));
    assert_eq!(result.code, 0);
    assert_eq!(result.data.as_deref(), Some("abc"));
}

#[test]
fn first_chunk_after_ceiling_times_out() {
    let arrivals = vec![content("late", STREAM_TIMEOUT_SECS + 1), content("more", 400)];
    let (events, result) = relay(&arrivals);
    assert_eq!(events.len(), 2);
    assert!(is_started(&events[0]));
    assert!(is_timeout(&events[1]));
    assert_eq!(result.code, 1);
    assert_eq!(result.message, "Streaming timeout after 5 minutes");
}

#[test]
fn chunk_at_the_ceiling_is_still_relayed() {
    let (events, result) = relay(&vec![content("x", STREAM_TIMEOUT_SECS)]);
    assert_eq!(events.len(), 3);
    assert!(is_content(&events[1], "x"));
    assert_eq!(result.data.as_deref(), Some("x"));
}

#[test]
fn read_error_fails_without_terminal_event() {
    let arrivals = vec![
        content("a", 0),
        Arrival { elapsed_secs: 1, read: ChunkRead::Failed("reset".to_string()) },
        content("b", 2),
    ];
    let (events, result) = relay(&arrivals);
    assert_eq!(events.len(), 2);
    assert!(is_content(&events[1], "a"));
    assert_eq!(result.code, 1);
    assert_eq!(result.message, "Stream error: reset");
}

#[test]
fn empty_chunks_emit_nothing() {
    let arrivals = vec![
        Arrival { elapsed_secs: 0, read: ChunkRead::Empty },
        content("z", 1),
        Arrival { elapsed_secs: 2, read: ChunkRead::Empty },
    ];
    let (events, result) = relay(&arrivals);
    assert_eq!(events.len(), 3);
    assert!(is_content(&events[1], "z"));
    assert!(is_completed(&events[2]));
    assert_eq!(result.data.as_deref(), Some("z"));
}

#[test]
fn stream_that_ends_at_once_completes_empty() {
    let (events, result) = relay(&Vec::new());
    assert_eq!(events.len(), 2);
    assert!(is_started(&events[0]));
    assert!(is_completed(&events[1]));
    assert_eq!(result.data.as_deref(), Some(""));
}

#[test]
fn session_steps_track_state() {
    let (mut s, started) = StreamSession::start();
    assert!(is_started(&started));
    let (e, done) = s.on_chunk(3, &ChunkRead::Content("hi".to_string()));
    assert!(is_content(&e.unwrap(), "hi"));
    assert!(done.is_none());
    let (e, done) = s.on_chunk(4, &ChunkRead::Empty);
    assert!(e.is_none() && done.is_none());
    assert_eq!(s.chunk_count, 2);
    assert_eq!(s.full_content, "hi");
    let (last, result) = s.finish();
    assert!(is_completed(&last));
    assert!(matches!(s.state, RelayState::Completed));
    assert_eq!(result.data.as_deref(), Some("hi"));
    let (mut t, _) = StreamSession::start();
    let (e, done) = t.on_chunk(301, &ChunkRead::Failed("x".to_string()));
    assert!(is_timeout(&e.unwrap()));
    assert_eq!(done.unwrap().message, "Streaming timeout after 5 minutes");
    assert!(matches!(t.state, RelayState::TimedOut));
}

fn msg(role: &str, content: &str) -> ChatMessage {
    ChatMessage { role: role.to_string(), content: content.to_string() }
}

#[test]
fn stream_requests_are_validated() {
    assert_eq!(
        validate_stream_request(" \t", &vec![msg("user", "hi")]),
        Err("API key cannot be empty".to_string())
    );
    assert_eq!(
        validate_stream_request("k", &Vec::new()),
        Err("Messages array cannot be empty".to_string())
    );
    assert_eq!(validate_stream_request("k", &vec![msg("user", "hi")]), Ok(()));
    assert_eq!(validate_stream_request("", &Vec::new()), Err("API key cannot be empty".to_string()));
}

#[test]
fn completion_requests_are_validated() {
    let p = |s: &str, u: &str, k: &str| ChatCompletionParams {
        system_prompt: s.to_string(),
        user_prompt: u.to_string(),
        api_key: k.to_string(),
    };
    assert_eq!(validate_completion_request(&p("s", "u", "\u{3000}")), Err("API key cannot be empty".to_string()));
    assert_eq!(
        validate_completion_request(&p(" ", "\n", "k")),
        Err("At least one of system_prompt or user_prompt must be provided".to_string())
    );
    assert_eq!(validate_completion_request(&p("", "u", "k")), Ok(()));
}

#[test]
fn roles_map_with_user_as_fallback() {
    assert!(matches!(role_of("system"), ChatRole::System));
    assert!(matches!(role_of("assistant"), ChatRole::Assistant));
    assert!(matches!(role_of("user"), ChatRole::User));
    assert!(matches!(role_of("tool"), ChatRole::User));
    let roles = chat_roles(&vec![msg("system", "s"), msg("odd", "o")]);
    assert!(matches!(roles[0].0, ChatRole::System));
    assert_eq!(roles[0].1, "s");
    assert!(matches!(roles[1].0, ChatRole::User));
    assert_eq!(roles[1].1, "o");
}

#[test]
fn one_shot_messages_skip_blank_system_prompt() {
    let with = build_chat_messages(&ChatCompletionParams {
        system_prompt: "be brief".to_string(),
        user_prompt: "hi".to_string(),
        api_key: "k".to_string(),
    });
    assert_eq!(with.len(), 2);
    assert!(matches!(with[0].0, ChatRole::System));
    assert_eq!(with[1].1, "hi");
    let without = build_chat_messages(&ChatCompletionParams {
        system_prompt: "  ".to_string(),
        user_prompt: "hi".to_string(),
        api_key: "k".to_string(),
    });
    assert_eq!(without.len(), 1);
    assert!(matches!(without[0].0, ChatRole::User));
}

#[test]
fn small_helpers() {
    assert_eq!(max_output_tokens(None), 4000);
    assert_eq!(max_output_tokens(Some(12)), 12);
    let e = error_response("bad");
    assert_eq!((e.code, e.message.as_str()), (1, "bad"));
    let s: InvokeResponse<i32> = InvokeResponse::success(5);
    assert_eq!((s.code, s.message.as_str(), s.data), (0, "ok", Some(5)));
    let f: InvokeResponse<i32> = InvokeResponse::fail("no".to_string());
    assert_eq!((f.code, f.message.as_str(), f.data), (1, "no", None));
    assert!(is_blank("") && is_blank(" \u{a0}\r\n") && !is_blank(" a "));
}
