use jetstream_turbo::coalescer::BatchCoalescer;

fn keys(n: usize) -> Vec<String> {
    (0..n).map(|i| format!("did:plc:{:04}", i)).collect()
}

#[test]
fn forty_keys_make_two_requests() {
    let mut c = BatchCoalescer::new(25, 50, 0);
    c.add(keys(40));
    let first = c.next_batch(10, false).unwrap();
    assert_eq!(first.len(), 25);
    assert!(c.next_batch(10, false).is_none());
    let second = c.next_batch(10, true).unwrap();
    assert_eq!(second.len(), 15);
    assert_eq!(second[0], "did:plc:0025");
    assert_eq!(c.batches_total, 2);
    assert_eq!(c.batches_partial, 1);
}

#[test]
fn drain_all_splits_in_order() {
    let mut c = BatchCoalescer::new(25, 50, 0);
    c.add(keys(40));
    let batches = c.drain_all(0);
    assert_eq!(batches.len(), 2);
    assert_eq!(batches[0].len(), 25);
    assert_eq!(batches[1].len(), 15);
    assert_eq!(batches[1][14], "did:plc:0039");
    assert!(c.pending.is_empty());
}

#[test]
fn deadline_flushes_partial_batch() {
    let mut c = BatchCoalescer::new(25, 50, 1000);
    c.add(keys(3));
    assert!(c.next_batch(1049, false).is_none());
    let b = c.next_batch(1050, false).unwrap();
    assert_eq!(b.len(), 3);
    assert_eq!(c.last_flush_ms, 1050);
    assert_eq!(c.batches_partial, 1);
}

#[test]
fn no_request_for_empty_pending() {
    let mut c = BatchCoalescer::new(25, 50, 0);
    assert!(c.next_batch(10_000, true).is_none());
    assert!(c.drain_all(0).is_empty());
    assert_eq!(c.batches_total, 0);
}

#[test]
fn exact_multiple_has_no_partial_batch() {
    let mut c = BatchCoalescer::new(10, 50, 0);
    c.add(keys(30));
    let batches = c.drain_all(0);
    assert_eq!(batches.len(), 3);
    assert_eq!(c.batches_partial, 0);
    assert_eq!(c.batches_total, 3);
}

#[test]
fn partial_share_every_tenth_flush() {
    let mut c = BatchCoalescer::new(10, 0, 0);
    for i in 0..10 {
        c.add(keys(if i % 2 == 0 { 10 } else { 3 }));
        assert!(c.next_batch(1, true).is_some());
        if i < 9 {
            assert_eq!(c.partial_percentage(), None);
        }
    }
    assert_eq!(c.partial_percentage(), Some(50));
}
