use duckdb_server::cache::QueryCache;
use duckdb_server::dispatch::{GetDecision, dispatch_get, dispatch_post};
use duckdb_server::interfaces::{
    AppError, ContentType, HttpWire, QueryResponse, WireBody, encode_http,
};
use duckdb_server::normalize::normalize_text;
use duckdb_server::pool::{PoolGauge, serve_all};
use duckdb_server::query_string::parse_query_string;
use duckdb_server::resolve_config;
use duckdb_server::websocket::{
    ScriptedTurn, SessionEvent, SessionState, WireFrame, encode_duplex, json_escape, run_session,
};

#[test]
fn config_defaults_apply() {
    let c = resolve_config(None, None, None);
    assert_eq!(c.db_path, ":memory:");
    assert_eq!(c.pool_capacity, 10);
    assert_eq!(c.cache_capacity, 1000);
}

#[test]
fn config_values_kept() {
    let c = resolve_config(Some("gateway.db"), Some(4), Some(2));
    assert_eq!(c.db_path, "gateway.db");
    assert_eq!(c.pool_capacity, 4);
    assert_eq!(c.cache_capacity, 2);
}

#[test]
fn post_body_normalizes() {
    let r = normalize_text("{\"type\":\"exec\",\"sql\":\"SELECT 1\"}").unwrap();
    assert_eq!(r.query_type, "exec");
    assert_eq!(r.sql, Some("SELECT 1".to_string()));
    assert_eq!(r.persist, None);
    assert_eq!(r.name, None);
    assert_eq!(r.queries, None);
}

#[test]
fn get_query_normalizes_like_post() {
    let from_get = parse_query_string("type=exec&sql=SELECT+1").unwrap();
    let from_post = normalize_text("{\"type\":\"exec\",\"sql\":\"SELECT 1\"}").unwrap();
    assert_eq!(from_get, from_post);
}

#[test]
fn body_missing_type_is_rejected_not_fatal() {
    let r = normalize_text("{\"sql\":\"SELECT 1\"}");
    assert_eq!(r, Err(AppError::BadRequest));
    let wire = encode_http(r.map(|_| QueryResponse::Empty)).unwrap();
    assert_eq!(wire.status, 400);
    assert_eq!(wire.body, WireBody::Empty);
}

#[test]
fn body_empty_type_is_rejected() {
    assert_eq!(normalize_text("{\"type\":\"\"}"), Err(AppError::BadRequest));
}

#[test]
fn body_not_json_is_rejected() {
    assert_eq!(normalize_text("not json"), Err(AppError::BadRequest));
    assert_eq!(normalize_text("5"), Err(AppError::BadRequest));
}

#[test]
fn body_full_fields_decode() {
    let r = normalize_text(
        "{\"type\":\"create-bundle\",\"persist\":true,\"name\":\"b1\",\"queries\":[\"a\",{\"sql\":\"SELECT 2\"}]}",
    )
    .unwrap();
    assert_eq!(r.query_type, "create-bundle");
    assert_eq!(r.persist, Some(true));
    assert_eq!(r.name, Some("b1".to_string()));
    assert_eq!(
        r.queries,
        Some(vec!["\"a\"".to_string(), "{\"sql\":\"SELECT 2\"}".to_string()])
    );
}

#[test]
fn query_string_missing_type_is_rejected() {
    assert_eq!(parse_query_string("sql=SELECT+1"), Err(AppError::BadRequest));
}

#[test]
fn query_string_percent_decoding() {
    let r = parse_query_string("type=exec&sql=SELECT%20%271%2B1%27&name=a+b").unwrap();
    assert_eq!(r.query_type, "exec");
    assert_eq!(r.sql, Some("SELECT '1+1'".to_string()));
    assert_eq!(r.name, Some("a b".to_string()));
}

#[test]
fn query_string_bad_escape_is_rejected() {
    assert_eq!(parse_query_string("type=exec&sql=%zz"), Err(AppError::BadRequest));
    assert_eq!(parse_query_string("type=exec&sql=%2"), Err(AppError::BadRequest));
}

#[test]
fn query_string_persist_rule() {
    let r = parse_query_string("type=exec&persist=true").unwrap();
    assert_eq!(r.persist, Some(true));
    let r = parse_query_string("type=exec&persist=false").unwrap();
    assert_eq!(r.persist, Some(false));
    assert_eq!(parse_query_string("type=exec&persist=yes"), Err(AppError::BadRequest));
}

#[test]
fn query_string_last_value_wins_and_unknown_ignored() {
    let r = parse_query_string("type=a&type=b&other=z").unwrap();
    assert_eq!(r.query_type, "b");
}

#[test]
fn query_string_queries_key_is_rejected() {
    assert_eq!(parse_query_string("type=exec&queries=x"), Err(AppError::BadRequest));
}

#[test]
fn empty_query_string_is_rejected() {
    assert_eq!(parse_query_string(""), Err(AppError::BadRequest));
}

#[test]
fn wrong_typed_type_field_counts_as_absent() {
    assert_eq!(normalize_text("{\"type\":5}"), Err(AppError::BadRequest));
    assert_eq!(normalize_text("{\"type\":\"exec\",\"persist\":\"yes\"}").unwrap().persist, None);
}

#[test]
fn query_string_plus_escape_roundtrip() {
    let r = parse_query_string("type=exec&sql=1%2B1+%3D+2").unwrap();
    assert_eq!(r.sql, Some("1+1 = 2".to_string()));
}

#[test]
fn query_string_component_without_value() {
    let r = parse_query_string("type=exec&name").unwrap();
    assert_eq!(r.name, Some(String::new()));
}

#[test]
fn dispatch_decides_once() {
    assert_eq!(dispatch_get(true, "type=exec"), GetDecision::Upgrade);
    match dispatch_get(false, "type=exec") {
        GetDecision::Call(Ok(q)) => assert_eq!(q.query_type, "exec"),
        other => panic!("expected a normal call, got {:?}", other),
    }
    let r = dispatch_post("{\"type\":\"exec\"}").unwrap();
    assert_eq!(r.query_type, "exec");
}

#[test]
fn http_encoding_per_variant() {
    let w = encode_http(Ok(QueryResponse::Json("{\"a\":1}".to_string()))).unwrap();
    assert_eq!(w.status, 200);
    assert_eq!(w.content_type, Some(ContentType::Json));
    assert_eq!(w.body, WireBody::Text("{\"a\":1}".to_string()));

    let w = encode_http(Ok(QueryResponse::Arrow(vec![1, 2, 3]))).unwrap();
    assert_eq!(w.status, 200);
    assert_eq!(w.content_type, Some(ContentType::OctetStream));
    assert_eq!(w.body, WireBody::Bytes(vec![1, 2, 3]));

    let w = encode_http(Ok(QueryResponse::Empty)).unwrap();
    assert_eq!(w, HttpWire { status: 200, content_type: None, body: WireBody::Empty });

    let w = encode_http(Ok(QueryResponse::BadRequest)).unwrap();
    assert_eq!(w.status, 400);

    assert!(encode_http(Ok(QueryResponse::Handoff)).is_none());

    let w = encode_http(Err(AppError::Error("boom".to_string()))).unwrap();
    assert_eq!(w.status, 500);
    assert_eq!(w.body, WireBody::Text("Something went wrong: boom".to_string()));
}

#[test]
fn content_type_header_values() {
    assert_eq!(ContentType::Json.as_str(), "application/json");
    assert_eq!(ContentType::OctetStream.as_str(), "application/octet-stream");
}

#[test]
fn encoding_is_deterministic() {
    let a = encode_http(Ok(QueryResponse::Json("x".to_string())));
    let b = encode_http(Ok(QueryResponse::Json("x".to_string())));
    assert_eq!(a, b);
    let a = encode_duplex(Ok(QueryResponse::Arrow(vec![9, 9])));
    let b = encode_duplex(Ok(QueryResponse::Arrow(vec![9, 9])));
    assert_eq!(a, b);
}

#[test]
fn duplex_encoding_per_variant() {
    assert_eq!(
        encode_duplex(Ok(QueryResponse::Json("{\"a\":1}".to_string()))),
        WireFrame::Text("{\"a\":1}".to_string())
    );
    assert_eq!(
        encode_duplex(Ok(QueryResponse::Arrow(vec![7]))),
        WireFrame::Binary(vec![7])
    );
    assert_eq!(encode_duplex(Ok(QueryResponse::Empty)), WireFrame::Text("{}".to_string()));
    assert_eq!(
        encode_duplex(Ok(QueryResponse::Handoff)),
        WireFrame::Text("{\"error\":\"Unknown response Type\"}".to_string())
    );
    assert_eq!(
        encode_duplex(Err(AppError::BadRequest)),
        WireFrame::Text("{\"error\":\"Bad request\"}".to_string())
    );
    assert_eq!(
        encode_duplex(Err(AppError::Error("boom".to_string()))),
        WireFrame::Text("{\"error\":\"boom\"}".to_string())
    );
}

#[test]
fn error_messages_are_escaped() {
    assert_eq!(json_escape("he said \"hi\"\\\n"), "he said \\\"hi\\\"\\\\\\n");
    assert_eq!(json_escape("\u{1}"), "\\u0001");
    assert_eq!(json_escape("\u{1f}"), "\\u001f");
    assert_eq!(
        encode_duplex(Err(AppError::Error("a\"b".to_string()))),
        WireFrame::Text("{\"error\":\"a\\\"b\"}".to_string())
    );
}

#[test]
fn session_invalid_frame_keeps_it_open() {
    let turns = vec![
        ScriptedTurn {
            event: SessionEvent::Text("not json".to_string()),
            outcome: Ok(QueryResponse::Empty),
            send_ok: true,
        },
        ScriptedTurn {
            event: SessionEvent::Text("{\"type\":\"exec\",\"sql\":\"SELECT 1\"}".to_string()),
            outcome: Ok(QueryResponse::Json("[1]".to_string())),
            send_ok: true,
        },
    ];
    let (frames, state) = run_session(turns);
    assert_eq!(
        frames,
        vec![
            WireFrame::Text("{\"error\":\"Bad request\"}".to_string()),
            WireFrame::Text("[1]".to_string()),
        ]
    );
    assert_eq!(state, SessionState::Open);
}

#[test]
fn session_close_sends_nothing_and_stops() {
    let turns = vec![
        ScriptedTurn {
            event: SessionEvent::Text("{\"type\":\"exec\"}".to_string()),
            outcome: Ok(QueryResponse::Empty),
            send_ok: true,
        },
        ScriptedTurn { event: SessionEvent::Close, outcome: Ok(QueryResponse::Empty), send_ok: true },
        ScriptedTurn {
            event: SessionEvent::Text("{\"type\":\"exec\"}".to_string()),
            outcome: Ok(QueryResponse::Json("ignored".to_string())),
            send_ok: true,
        },
    ];
    let (frames, state) = run_session(turns);
    assert_eq!(frames, vec![WireFrame::Text("{}".to_string())]);
    assert_eq!(state, SessionState::Closed);
}

#[test]
fn session_ignores_binary_and_control_frames() {
    let turns = vec![
        ScriptedTurn {
            event: SessionEvent::Binary(vec![1, 2]),
            outcome: Ok(QueryResponse::Empty),
            send_ok: true,
        },
        ScriptedTurn { event: SessionEvent::Control, outcome: Ok(QueryResponse::Empty), send_ok: true },
        ScriptedTurn {
            event: SessionEvent::Text("{\"type\":\"exec\"}".to_string()),
            outcome: Ok(QueryResponse::Arrow(vec![3])),
            send_ok: true,
        },
    ];
    let (frames, state) = run_session(turns);
    assert_eq!(frames, vec![WireFrame::Binary(vec![3])]);
    assert_eq!(state, SessionState::Open);
}

#[test]
fn session_send_failure_closes() {
    let turns = vec![
        ScriptedTurn {
            event: SessionEvent::Text("{\"type\":\"exec\"}".to_string()),
            outcome: Ok(QueryResponse::Empty),
            send_ok: false,
        },
        ScriptedTurn {
            event: SessionEvent::Text("{\"type\":\"exec\"}".to_string()),
            outcome: Ok(QueryResponse::Empty),
            send_ok: true,
        },
    ];
    let (frames, state) = run_session(turns);
    assert_eq!(frames, Vec::<WireFrame>::new());
    assert_eq!(state, SessionState::Closed);
}

#[test]
fn session_recv_failure_closes() {
    let turns = vec![
        ScriptedTurn { event: SessionEvent::Gone, outcome: Ok(QueryResponse::Empty), send_ok: true },
    ];
    let (frames, state) = run_session(turns);
    assert!(frames.is_empty());
    assert_eq!(state, SessionState::Closed);
}

#[test]
fn session_upstream_error_frame() {
    let turns = vec![ScriptedTurn {
        event: SessionEvent::Text("{\"type\":\"exec\"}".to_string()),
        outcome: Err(AppError::Error("engine down".to_string())),
        send_ok: true,
    }];
    let (frames, state) = run_session(turns);
    assert_eq!(frames, vec![WireFrame::Text("{\"error\":\"engine down\"}".to_string())]);
    assert_eq!(state, SessionState::Open);
}

#[test]
fn cache_capacity_one_evicts_between_keys() {
    let mut cache = QueryCache::new(1);
    cache.put("a".to_string(), vec![1]);
    cache.put("b".to_string(), vec![2]);
    assert_eq!(cache.get(&"a".to_string()), None);
    assert_eq!(cache.get(&"b".to_string()), Some(vec![2]));
    assert_eq!(cache.len(), 1);
}

#[test]
fn cache_evicts_least_recently_used() {
    let mut cache = QueryCache::new(2);
    cache.put("a".to_string(), vec![1]);
    cache.put("b".to_string(), vec![2]);
    assert_eq!(cache.get(&"a".to_string()), Some(vec![1]));
    cache.put("c".to_string(), vec![3]);
    assert_eq!(cache.get(&"b".to_string()), None);
    assert_eq!(cache.get(&"a".to_string()), Some(vec![1]));
    assert_eq!(cache.get(&"c".to_string()), Some(vec![3]));
}

#[test]
fn cache_replaces_on_key_collision() {
    let mut cache = QueryCache::new(2);
    cache.put("a".to_string(), vec![1]);
    cache.put("a".to_string(), vec![9]);
    assert_eq!(cache.len(), 1);
    assert_eq!(cache.get(&"a".to_string()), Some(vec![9]));
}

#[test]
fn pool_gauge_respects_capacity() {
    let mut pool = PoolGauge::new(2);
    assert!(pool.try_acquire());
    assert!(pool.try_acquire());
    assert!(!pool.try_acquire());
    pool.release();
    assert!(pool.try_acquire());
}

#[test]
fn pool_serves_more_calls_than_capacity() {
    let outcomes = vec![
        Ok(QueryResponse::Json("1".to_string())),
        Ok(QueryResponse::Empty),
        Err(AppError::BadRequest),
        Ok(QueryResponse::Arrow(vec![4])),
        Err(AppError::Error("x".to_string())),
    ];
    let wires = serve_all(2, outcomes);
    assert_eq!(wires.len(), 5);
    assert_eq!(wires[0].as_ref().unwrap().status, 200);
    assert_eq!(wires[1].as_ref().unwrap().status, 200);
    assert_eq!(wires[2].as_ref().unwrap().status, 400);
    assert_eq!(wires[3].as_ref().unwrap().body, WireBody::Bytes(vec![4]));
    assert_eq!(wires[4].as_ref().unwrap().status, 500);
}
