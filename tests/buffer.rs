use jetstream_turbo::buffer::{
    on_event, on_tick, should_process_message, BufferAction, MessageBuffer,
};
use jetstream_turbo::models::{CommitData, JetstreamMessage, Operation, Record};

fn create_test_message(seq: u64) -> JetstreamMessage {
    JetstreamMessage {
        did: "did:plc:test".to_string(),
        seq,
        time_us: 1640995200000000,
        commit: CommitData {
            seq,
            rebase: false,
            time_us: 1640995200000000,
            operation: Operation::Create {
                record: Record {
                    uri: format!("at://did:plc:test/app.bsky.feed.post/{}", seq),
                    cid: "bafyrei".to_string(),
                    author: "did:plc:test".to_string(),
                    record_type: "app.bsky.feed.post".to_string(),
                    created_at: "2022-01-01T00:00:00Z".to_string(),
                    text: Some(format!("Test message {}", seq)),
                    embed_record_uri: None,
                    labels: None,
                    langs: None,
                    reply: None,
                    tags: None,
                    facets: None,
                },
            },
        },
    }
}

#[test]
fn test_message_buffer_basic() {
    let mut buffer = MessageBuffer::new(3, 5000, 0);

    assert!(buffer.is_empty());
    assert!(!buffer.is_ready(0));
    assert_eq!(buffer.len(), 0);

    let ready = buffer.add(create_test_message(1), 0);
    assert!(!ready);
    assert!(!buffer.is_ready(0));
    assert_eq!(buffer.len(), 1);

    let ready = buffer.add(create_test_message(2), 0);
    assert!(!ready);
    assert!(!buffer.is_ready(0));
    assert_eq!(buffer.len(), 2);

    let ready = buffer.add(create_test_message(3), 0);
    assert!(ready);
    assert!(buffer.is_ready(0));
    assert_eq!(buffer.len(), 3);
}

#[test]
fn test_message_buffer_drain() {
    let mut buffer = MessageBuffer::new(2, 5000, 0);

    buffer.add(create_test_message(1), 0);
    buffer.add(create_test_message(2), 0);

    assert_eq!(buffer.len(), 2);
    assert!(buffer.is_ready(0));

    let messages = buffer.drain(0);

    assert_eq!(messages.len(), 2);
    assert!(buffer.is_empty());
    assert!(!buffer.is_ready(0));
    assert_eq!(buffer.len(), 0);
}

#[test]
fn test_message_buffer_time_based_flush() {
    let mut buffer = MessageBuffer::new(10, 100, 0);

    buffer.add(create_test_message(1), 0);

    assert!(!buffer.is_ready(0));

    // 150 ms later
    assert!(buffer.is_ready(150));
}

#[test]
fn shard_predicate() {
    let m = create_test_message(7);
    assert!(should_process_message(&m, 0, 0));
    assert!(should_process_message(&m, 3, 1));
    assert!(!should_process_message(&m, 3, 2));
}

#[test]
fn full_buffer_is_handed_off_in_order() {
    let mut buffer = MessageBuffer::new(2, 200, 0);
    assert!(matches!(on_event(&mut buffer, create_test_message(1), 0, 0, 10), BufferAction::Wait));
    match on_event(&mut buffer, create_test_message(2), 0, 0, 20) {
        BufferAction::Process { batch } => {
            assert_eq!(batch.len(), 2);
            assert_eq!(batch[0].seq, 1);
            assert_eq!(batch[1].seq, 2);
        }
        BufferAction::Wait => panic!("expected a batch"),
    }
    assert!(buffer.is_empty());
}

#[test]
fn tick_flushes_a_lone_event() {
    let mut buffer = MessageBuffer::new(25, 200, 0);
    on_event(&mut buffer, create_test_message(1), 0, 0, 5);
    match on_tick(&mut buffer, 200) {
        BufferAction::Process { batch } => assert_eq!(batch.len(), 1),
        BufferAction::Wait => panic!("expected a batch"),
    }
    assert!(matches!(on_tick(&mut buffer, 400), BufferAction::Wait));
}

#[test]
fn events_outside_the_shard_are_dropped() {
    let mut buffer = MessageBuffer::new(1, 200, 0);
    assert!(matches!(on_event(&mut buffer, create_test_message(4), 2, 1, 0), BufferAction::Wait));
    assert!(buffer.is_empty());
}
