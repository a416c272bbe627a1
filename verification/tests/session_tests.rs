use barqcoder::session::{
    decode_session, encode_session, Session, SessionEvent, SessionStore, sort_metas, SessionMeta,
};

fn sample_session() -> Session {
    Session {
        id: String::from("session_42"),
        created_at: 1700000000,
        workspace: String::from("/tmp/demo"),
        events: vec![
            SessionEvent::UserInput(String::from("fix the parser")),
            SessionEvent::AgentToken(String::from("Thinking...")),
            SessionEvent::ToolCalled {
                name: String::from("cargo_check"),
                args: String::from("{\"dir\":\".\"}"),
                result: String::from("{\"success\":true}"),
            },
            SessionEvent::EditApplied {
                file: String::from("src/parser.rs"),
                patch: String::from("--- a\n+++ b\n"),
            },
            SessionEvent::Error(String::from("transient failure")),
        ],
    }
}

#[test]
fn test_codec_round_trip_exact() {
    let session = sample_session();
    let bytes = encode_session(&session);
    let back = decode_session(&bytes).unwrap();
    assert_eq!(back, session);
    assert_eq!(back.events, session.events);
}

#[test]
fn test_codec_round_trip_empty_events() {
    let session = Session {
        id: String::new(),
        created_at: 0,
        workspace: String::new(),
        events: Vec::new(),
    };
    let bytes = encode_session(&session);
    let back = decode_session(&bytes).unwrap();
    assert_eq!(back, session);
}

#[test]
fn test_codec_round_trip_unicode() {
    let session = Session {
        id: String::from("s"),
        created_at: 7,
        workspace: String::from("wörk/späce"),
        events: vec![SessionEvent::UserInput(String::from("héllo → wörld 🚀"))],
    };
    let bytes = encode_session(&session);
    let back = decode_session(&bytes).unwrap();
    assert_eq!(back, session);
}

#[test]
fn test_decode_rejects_garbage() {
    assert!(decode_session(&vec![]).is_none());
    assert!(decode_session(&vec![1, 2, 3]).is_none());
    let mut bytes = encode_session(&sample_session());
    bytes.push(0);
    assert!(decode_session(&bytes).is_none(), "trailing bytes must be rejected");
    let mut truncated = encode_session(&sample_session());
    truncated.pop();
    assert!(decode_session(&truncated).is_none());
}

#[test]
fn test_save_then_load_reconstructs_events() {
    let mut store = SessionStore::new("/tmp/demo");
    let session = sample_session();
    store.save(&session);
    let loaded = store.load("session_42").unwrap();
    assert_eq!(loaded.events, session.events);
    assert_eq!(loaded.id, session.id);
    assert_eq!(loaded.created_at, session.created_at);
    assert_eq!(loaded.workspace, session.workspace);
}

#[test]
fn test_save_overwrites_same_id_only() {
    let mut store = SessionStore::new("/tmp/demo");
    let mut a = sample_session();
    store.save(&a);
    let mut b = sample_session();
    b.id = String::from("other");
    b.created_at = 5;
    store.save(&b);
    a.events.push(SessionEvent::Error(String::from("late")));
    store.save(&a);
    assert_eq!(store.load("session_42").unwrap().events.len(), 6);
    assert_eq!(store.load("other").unwrap().created_at, 5);
    assert!(store.load("missing").is_none());
}

#[test]
fn test_replay_nonexistent_is_empty() {
    let store = SessionStore::new("/tmp/demo");
    let events = store.replay("no_such_session");
    assert_eq!(events.len(), 0);
}

#[test]
fn test_replay_preserves_order() {
    let mut store = SessionStore::new("/tmp/demo");
    let session = sample_session();
    store.save(&session);
    let events = store.replay("session_42");
    assert_eq!(events, session.events);
}

#[test]
fn test_list_newest_first() {
    let mut store = SessionStore::new("/tmp/demo");
    for (id, at) in [("a", 10u64), ("b", 30u64), ("c", 20u64)] {
        let mut s = sample_session();
        s.id = String::from(id);
        s.created_at = at;
        store.save(&s);
    }
    let metas = store.list();
    assert_eq!(metas.len(), 3);
    assert_eq!(metas[0].created_at, 30);
    assert_eq!(metas[1].created_at, 20);
    assert_eq!(metas[2].created_at, 10);
    assert_eq!(metas[0].id, "b");
    assert_eq!(metas[0].event_count, 5);
}

#[test]
fn test_list_skips_corrupt_blob() {
    let mut store = SessionStore::new("/tmp/demo");
    store.save(&sample_session());
    store.blobs.push((String::from("broken"), vec![9, 9, 9]));
    let metas = store.list();
    assert_eq!(metas.len(), 1);
    assert_eq!(metas[0].id, "session_42");
}

#[test]
fn test_sort_metas() {
    let meta = |id: &str, at: u64| SessionMeta {
        id: String::from(id),
        created_at: at,
        event_count: 0,
        workspace: String::new(),
    };
    let sorted = sort_metas(vec![meta("x", 1), meta("y", 9), meta("z", 4)]);
    assert_eq!(sorted[0].created_at, 9);
    assert_eq!(sorted[1].created_at, 4);
    assert_eq!(sorted[2].created_at, 1);
}
