use memory_ingest::chunk::{copy_embedding, Chunk};
use memory_ingest::chunking::ChunkRequest;
use memory_ingest::error::IngestError;
use memory_ingest::ingest::{Action, Event, Ingestion, Stage};
use memory_ingest::store_id::StoreId;
use memory_ingest::trace::replay;

const STORE: &str = "ryjl3-tyaaa-aaaaa-aaaba-cai";
const BASE: &str = "http://embed.local";

fn bits(values: &[f32]) -> Vec<u32> {
    values.iter().map(|v| v.to_bits()).collect()
}

fn chunk(sentence: &str, embedding: &[f32]) -> Chunk {
    Chunk::new(sentence.to_string(), bits(embedding))
}

fn begin(store: &str, tag: &str, document: &str, base: Option<&str>) -> Ingestion {
    let (machine, first) = Ingestion::start(
        store.to_string(),
        tag.to_string(),
        document.to_string(),
        base.map(|b| b.to_string()),
    );
    assert_eq!(first, Action::ResolveHandle);
    assert_eq!(machine.stage(), Stage::ResolvingHandle);
    machine
}

fn handle_ok() -> Event {
    Event::HandleResolved { outcome: Ok(()) }
}

fn status(code: u16) -> Event {
    Event::ResponseStatus { status: Ok(code) }
}

fn decoded(chunks: Vec<Chunk>) -> Event {
    Event::Decoded { chunks: Ok(chunks) }
}

fn accepted() -> Event {
    Event::Inserted { outcome: Ok(()) }
}

fn refused(cause: &str) -> Event {
    Event::Inserted { outcome: Err(cause.to_string()) }
}

fn insert(embedding: &[f32], payload: &str) -> Action {
    Action::Insert { embedding: bits(embedding), payload: payload.to_string() }
}

fn bind() -> Action {
    Action::BindClient { store: StoreId { bytes: vec![0, 0, 0, 0, 0, 0, 0, 2, 1, 1] } }
}

fn send(document_literal: &str) -> Action {
    Action::SendChunkRequest {
        request: ChunkRequest {
            url: "http://embed.local/late-chunking".to_string(),
            body: format!("{{\"markdown\":{}}}", document_literal),
        },
    }
}

fn count_inserts(actions: &[Action]) -> usize {
    actions.iter().filter(|a| matches!(a, Action::Insert { .. })).count()
}

fn count_requests(actions: &[Action]) -> usize {
    actions.iter().filter(|a| matches!(a, Action::SendChunkRequest { .. })).count()
}

#[test]
fn two_chunks_are_inserted_in_order() {
    let machine = begin(STORE, "note", "Hello world. Goodbye world.", Some(BASE));
    let (machine, action) = machine.step(handle_ok());
    assert_eq!(action, Some(bind()));
    assert_eq!(machine.stage(), Stage::BindingClient);
    let (machine, action) = machine.step(Event::ClientBound);
    assert_eq!(action, Some(send("\"Hello world. Goodbye world.\"")));
    assert_eq!(machine.stage(), Stage::Requesting);
    let (machine, action) = machine.step(status(200));
    assert_eq!(action, Some(Action::DecodeChunks));
    assert_eq!(machine.stage(), Stage::Decoding);
    let (machine, action) = machine.step(decoded(vec![
        chunk("Hello world.", &[0.1, 0.2]),
        chunk("Goodbye world.", &[0.3, 0.4]),
    ]));
    assert_eq!(
        action,
        Some(insert(&[0.1, 0.2], "{\"tag\":\"note\",\"sentence\":\"Hello world.\"}"))
    );
    assert_eq!(machine.stage(), Stage::Inserting);
    assert_eq!(machine.chunk_count(), 2);
    assert_eq!(machine.inserted(), 0);
    let (machine, action) = machine.step(accepted());
    assert_eq!(
        action,
        Some(insert(&[0.3, 0.4], "{\"tag\":\"note\",\"sentence\":\"Goodbye world.\"}"))
    );
    assert_eq!(machine.inserted(), 1);
    let (machine, action) = machine.step(accepted());
    assert_eq!(action, Some(Action::Finish { outcome: Ok(2) }));
    assert_eq!(machine.stage(), Stage::Done);
    assert_eq!(machine.inserted(), 2);
}

#[test]
fn two_chunks_replayed() {
    let machine = begin(STORE, "note", "Hello world. Goodbye world.", Some(BASE));
    let (machine, actions) = replay(
        machine,
        vec![
            handle_ok(),
            Event::ClientBound,
            status(200),
            decoded(vec![chunk("Hello world.", &[0.1, 0.2]), chunk("Goodbye world.", &[0.3, 0.4])]),
            accepted(),
            accepted(),
        ],
    );
    assert_eq!(
        actions,
        vec![
            bind(),
            send("\"Hello world. Goodbye world.\""),
            Action::DecodeChunks,
            insert(&[0.1, 0.2], "{\"tag\":\"note\",\"sentence\":\"Hello world.\"}"),
            insert(&[0.3, 0.4], "{\"tag\":\"note\",\"sentence\":\"Goodbye world.\"}"),
            Action::Finish { outcome: Ok(2) },
        ]
    );
    assert_eq!(count_requests(&actions), 1);
    assert_eq!(count_inserts(&actions), 2);
    assert_eq!(machine.stage(), Stage::Done);
}

#[test]
fn zero_chunks_succeed_without_an_insert() {
    let machine = begin(STORE, "note", "", Some(BASE));
    let (machine, actions) =
        replay(machine, vec![handle_ok(), Event::ClientBound, status(200), decoded(vec![])]);
    assert_eq!(
        actions,
        vec![bind(), send("\"\""), Action::DecodeChunks, Action::Finish { outcome: Ok(0) }]
    );
    assert_eq!(count_inserts(&actions), 0);
    assert_eq!(machine.stage(), Stage::Done);
    assert_eq!(machine.chunk_count(), 0);
}

#[test]
fn malformed_store_identifier_fails_before_any_request() {
    let machine = begin("not-a-principal", "note", "Hello world.", Some(BASE));
    let (machine, action) = machine.step(handle_ok());
    match action {
        Some(Action::Finish { outcome: Err(IngestError::Validation { id, cause }) }) => {
            assert_eq!(id, "not-a-principal");
            assert!(!cause.is_empty());
        },
        other => panic!("expected a validation error, got {:?}", other),
    }
    assert_eq!(machine.stage(), Stage::Failed);
    let (machine, actions) = replay(
        machine,
        vec![Event::ClientBound, status(200), decoded(vec![chunk("x", &[1.0])]), accepted()],
    );
    assert_eq!(actions, vec![]);
    assert_eq!(machine.stage(), Stage::Failed);
}

#[test]
fn one_request_and_one_insert_per_chunk() {
    for n in 0usize..6 {
        let chunks: Vec<Chunk> =
            (0..n).map(|i| chunk(&format!("Sentence {}.", i), &[i as f32, 0.5])).collect();
        let mut events = vec![handle_ok(), Event::ClientBound, status(201), decoded(chunks)];
        for _ in 0..n {
            events.push(accepted());
        }
        let (machine, actions) = replay(begin(STORE, "t", "doc", Some(BASE)), events);
        assert_eq!(count_requests(&actions), 1);
        assert_eq!(count_inserts(&actions), n);
        assert_eq!(actions.len(), n + 4);
        for i in 0..n {
            assert_eq!(
                actions[3 + i],
                insert(
                    &[i as f32, 0.5],
                    &format!("{{\"tag\":\"t\",\"sentence\":\"Sentence {}.\"}}", i)
                )
            );
        }
        assert_eq!(actions[n + 3], Action::Finish { outcome: Ok(n) });
        assert_eq!(machine.stage(), Stage::Done);
    }
}

#[test]
fn unsuccessful_status_never_reaches_the_store() {
    for code in [400u16, 401, 404, 422, 429, 500, 503, 599, 300, 302, 199, 100] {
        let (machine, actions) = replay(
            begin(STORE, "t", "doc", Some(BASE)),
            vec![
                handle_ok(),
                Event::ClientBound,
                status(code),
                decoded(vec![chunk("x", &[1.0])]),
                Event::ErrorBody { body: Some("denied".to_string()) },
                decoded(vec![chunk("x", &[1.0])]),
                accepted(),
            ],
        );
        assert_eq!(
            actions,
            vec![
                bind(),
                send("\"doc\""),
                Action::ReadErrorBody,
                Action::Finish {
                    outcome: Err(IngestError::Remote { status: code, body: "denied".to_string() }),
                },
            ]
        );
        assert_eq!(count_inserts(&actions), 0);
        assert_eq!(machine.stage(), Stage::Failed);
        assert_eq!(machine.chunk_count(), 0);
    }
}

#[test]
fn unreadable_error_body_degrades_to_an_empty_body() {
    let (_, actions) = replay(
        begin(STORE, "t", "doc", Some(BASE)),
        vec![handle_ok(), Event::ClientBound, status(502), Event::ErrorBody { body: None }],
    );
    assert_eq!(
        actions[3],
        Action::Finish { outcome: Err(IngestError::Remote { status: 502, body: String::new() }) }
    );
}

#[test]
fn missing_configuration_sends_nothing() {
    let (machine, actions) = replay(
        begin(STORE, "t", "doc", None),
        vec![
            handle_ok(),
            Event::ClientBound,
            status(200),
            decoded(vec![chunk("x", &[1.0])]),
            accepted(),
        ],
    );
    assert_eq!(actions, vec![bind(), Action::Finish { outcome: Err(IngestError::Configuration) }]);
    assert_eq!(count_requests(&actions), 0);
    assert_eq!(count_inserts(&actions), 0);
    assert_eq!(machine.stage(), Stage::Failed);
}

#[test]
fn failed_insert_stops_the_run() {
    let chunks = || {
        vec![
            chunk("One.", &[1.0]),
            chunk("Two.", &[2.0]),
            chunk("Three.", &[3.0]),
            chunk("Four.", &[4.0]),
        ]
    };
    for failing in 0usize..4 {
        let mut events = vec![handle_ok(), Event::ClientBound, status(200), decoded(chunks())];
        for _ in 0..failing {
            events.push(accepted());
        }
        events.push(refused("store is full"));
        events.push(accepted());
        events.push(accepted());
        events.push(refused("again"));
        let (machine, actions) = replay(begin(STORE, "n", "doc", Some(BASE)), events);
        assert_eq!(count_inserts(&actions), failing + 1);
        assert_eq!(actions.len(), 3 + failing + 1 + 1);
        let sentences = ["One.", "Two.", "Three.", "Four."];
        for i in 0..=failing {
            assert_eq!(
                actions[3 + i],
                insert(
                    &[(i + 1) as f32],
                    &format!("{{\"tag\":\"n\",\"sentence\":\"{}\"}}", sentences[i])
                )
            );
        }
        assert_eq!(
            actions[actions.len() - 1],
            Action::Finish {
                outcome: Err(IngestError::Insert {
                    inserted: failing,
                    cause: "store is full".to_string(),
                }),
            }
        );
        assert_eq!(machine.stage(), Stage::Failed);
        assert_eq!(machine.inserted(), failing);
    }
}

#[test]
fn handle_failure_is_passed_on() {
    let machine = begin(STORE, "t", "doc", Some(BASE));
    let (machine, action) =
        machine.step(Event::HandleResolved { outcome: Err("no identity".to_string()) });
    assert_eq!(
        action,
        Some(Action::Finish {
            outcome: Err(IngestError::ConfigOrAuth { cause: "no identity".to_string() }),
        })
    );
    assert_eq!(machine.stage(), Stage::Failed);
}

#[test]
fn transport_failure_ends_the_run() {
    let (machine, actions) = replay(
        begin(STORE, "t", "doc", Some(BASE)),
        vec![
            handle_ok(),
            Event::ClientBound,
            Event::ResponseStatus { status: Err("dns error".to_string()) },
            decoded(vec![chunk("x", &[1.0])]),
        ],
    );
    assert_eq!(
        actions[2],
        Action::Finish { outcome: Err(IngestError::Transport { cause: "dns error".to_string() }) }
    );
    assert_eq!(actions.len(), 3);
    assert_eq!(machine.stage(), Stage::Failed);
}

#[test]
fn decode_failure_ends_the_run() {
    let (machine, actions) = replay(
        begin(STORE, "t", "doc", Some(BASE)),
        vec![
            handle_ok(),
            Event::ClientBound,
            status(200),
            Event::Decoded { chunks: Err("expected value at line 1".to_string()) },
            accepted(),
        ],
    );
    assert_eq!(
        actions[3],
        Action::Finish {
            outcome: Err(IngestError::Decode { cause: "expected value at line 1".to_string() }),
        }
    );
    assert_eq!(actions.len(), 4);
    assert_eq!(count_inserts(&actions), 0);
    assert_eq!(machine.stage(), Stage::Failed);
}

#[test]
fn unexpected_event_changes_nothing() {
    let machine = begin(STORE, "tag", "doc", Some(BASE));
    let (machine, action) = machine.step(accepted());
    assert_eq!(action, None);
    assert_eq!(machine.stage(), Stage::ResolvingHandle);
    let (machine, action) = machine.step(status(200));
    assert_eq!(action, None);
    let (machine, action) = machine.step(decoded(vec![chunk("x", &[1.0])]));
    assert_eq!(action, None);
    assert_eq!(machine.chunk_count(), 0);
    let (machine, action) = machine.step(handle_ok());
    assert_eq!(action, Some(bind()));
    let (machine, action) = machine.step(handle_ok());
    assert_eq!(action, None);
    assert_eq!(machine.stage(), Stage::BindingClient);
}

#[test]
fn nothing_happens_after_the_end() {
    let (machine, _) = replay(
        begin(STORE, "t", "doc", Some(BASE)),
        vec![handle_ok(), Event::ClientBound, status(200), decoded(vec![])],
    );
    assert_eq!(machine.stage(), Stage::Done);
    let (machine, actions) = replay(
        machine,
        vec![
            handle_ok(),
            Event::ClientBound,
            status(200),
            decoded(vec![chunk("x", &[1.0])]),
            accepted(),
            refused("late"),
            Event::ErrorBody { body: None },
        ],
    );
    assert_eq!(actions, vec![]);
    assert_eq!(machine.stage(), Stage::Done);
}

#[test]
fn empty_document_is_forwarded() {
    let (_, actions) =
        replay(begin(STORE, "t", "", Some(BASE)), vec![handle_ok(), Event::ClientBound]);
    assert_eq!(actions[1], send("\"\""));
}

#[test]
fn every_chunk_carries_the_same_tag() {
    let (_, actions) = replay(
        begin(STORE, "shared \"tag\"", "doc", Some(BASE)),
        vec![
            handle_ok(),
            Event::ClientBound,
            status(200),
            decoded(vec![chunk("a", &[]), chunk("b", &[0.0]), chunk("c", &[-1.5, 2.5])]),
            accepted(),
            accepted(),
            accepted(),
        ],
    );
    let mut seen = 0;
    for action in &actions {
        if let Action::Insert { payload, .. } = action {
            let value: serde_json::Value = serde_json::from_str(payload).unwrap();
            assert_eq!(value.get("tag").unwrap().as_str().unwrap(), "shared \"tag\"");
            seen += 1;
        }
    }
    assert_eq!(seen, 3);
}

#[test]
fn embedding_is_handed_on_unchanged() {
    let values = [0.0f32, -0.0, 1.0, -1.0, f32::MIN_POSITIVE, f32::MAX, f32::INFINITY, 0.1, 0.2];
    let (_, actions) = replay(
        begin(STORE, "t", "doc", Some(BASE)),
        vec![handle_ok(), Event::ClientBound, status(200), decoded(vec![chunk("s", &values)])],
    );
    match &actions[3] {
        Action::Insert { embedding, .. } => {
            let back: Vec<f32> = embedding.iter().map(|b| f32::from_bits(*b)).collect();
            assert_eq!(back.len(), values.len());
            for (a, b) in back.iter().zip(values.iter()) {
                assert_eq!(a.to_bits(), b.to_bits());
            }
        },
        other => panic!("expected an insert, got {:?}", other),
    }
}

#[test]
fn copy_of_an_embedding_is_equal() {
    assert_eq!(copy_embedding(&vec![]), Vec::<u32>::new());
    assert_eq!(copy_embedding(&vec![1, 2, 3, u32::MAX]), vec![1, 2, 3, u32::MAX]);
}

#[test]
fn getters_show_what_was_given() {
    let machine = begin(STORE, "diary", "doc", Some(BASE));
    assert_eq!(machine.store_id(), STORE);
    assert_eq!(machine.tag(), "diary");
    assert_eq!(machine.chunk_count(), 0);
    assert_eq!(machine.inserted(), 0);
}

#[test]
fn chunk_holds_what_it_was_given() {
    let made = Chunk::new("Hello world.".to_string(), bits(&[0.1, 0.2]));
    assert_eq!(made.sentence, "Hello world.");
    assert_eq!(made.embedding, vec![0.1f32.to_bits(), 0.2f32.to_bits()]);
}

#[test]
fn identifier_is_read_without_regard_to_case() {
    let machine = begin("RYJL3-TYAAA-AAAAA-AAABA-CAI", "t", "doc", Some(BASE));
    let (machine, action) = machine.step(handle_ok());
    assert_eq!(action, Some(bind()));
    assert_eq!(machine.store_id(), "RYJL3-TYAAA-AAAAA-AAABA-CAI");
}
