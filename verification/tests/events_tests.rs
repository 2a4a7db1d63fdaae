use jdbg_core::AttachOutcome;
use jdbg_core::BpLocation;
use jdbg_core::DebugCore;
use jdbg_core::EventDetails;
use jdbg_core::EventKind;
use jdbg_core::SourceLocation;
use jdbg_core::TargetDesc;

fn attach(core: &mut DebugCore, name: &str) -> String {
    let id = core
        .begin_attach(
            &Some(name.to_string()),
            &TargetDesc::Remote { host: "localhost".to_string(), port: 5005 },
        )
        .expect("reserve id");
    core.finish_attach(
        &id,
        &AttachOutcome::Confirmed { vm_name: "TestVM".to_string(), vm_version: "21".to_string() },
    )
    .expect("confirm attach");
    id
}

fn exception_event(n: i64) -> EventDetails {
    EventDetails::Exception {
        thread_id: n,
        exception_class: "java.lang.Error".to_string(),
        message: "boom".to_string(),
    }
}

fn hit_location() -> SourceLocation {
    SourceLocation {
        class_name: "ClassA".to_string(),
        method_name: "run".to_string(),
        source_name: "ClassA.java".to_string(),
        line_number: 10,
    }
}

#[test]
fn test_poll_events() {
    // Attach, install a line breakpoint, take the hit, and poll it
    // back: exactly that one event, with nothing left beyond the
    // window.
    let mut core = DebugCore::new(64);
    let sid = attach(&mut core, "s1");
    let some = Some(sid.clone());
    let bp = core
        .add_breakpoint(
            &some,
            &BpLocation::Line { class_name: "ClassA".to_string(), line: 10 },
            &None,
            true,
            true,
        )
        .expect("add breakpoint");

    let (events, remaining) = core.poll_events(&some, 0, &Vec::new()).expect("poll");
    assert_eq!(events.len(), 0);
    assert_eq!(remaining, 0);

    core.on_breakpoint_hit(bp.id, 1, &hit_location(), 1000).expect("delivered");

    let (events, remaining) = core.poll_events(&some, 1, &Vec::new()).expect("poll");
    assert_eq!(events.len(), 1);
    assert_eq!(remaining, 0);
    match &events[0].details {
        EventDetails::BreakpointHit { breakpoint_id, thread_id, location } => {
            assert_eq!(*breakpoint_id, bp.id);
            assert_eq!(*thread_id, 1);
            assert_eq!(location.line_number, 10);
        }
        other => panic!("unexpected payload: {:?}", other),
    }

    // Poll does not remove: the same event comes back again.
    let (events, _) = core.poll_events(&some, 0, &Vec::new()).expect("poll");
    assert_eq!(events.len(), 1);

    core.clear_events(&some).expect("clear");
    let info = core.event_info(&some).expect("info");
    assert_eq!(info.buffered_count, 0);
}

#[test]
fn test_poll_limit_and_filter() {
    let mut core = DebugCore::new(64);
    let sid = attach(&mut core, "s1");
    let some = Some(sid.clone());
    for n in 0..5 {
        core.ingest_event(&sid, exception_event(n), 100 + n).expect("ingest");
    }
    core.on_thread_start(&sid, 9, &"worker".to_string(), 200).expect("thread start");

    // Limit cuts the window; the remainder is counted, not dropped.
    let (events, remaining) = core.poll_events(&some, 2, &Vec::new()).expect("poll");
    assert_eq!(events.len(), 2);
    assert_eq!(remaining, 4);

    // A filter sees only its kinds.
    let filter = vec![EventKind::ThreadStart];
    let (events, remaining) = core.poll_events(&some, 0, &filter).expect("poll");
    assert_eq!(events.len(), 1);
    assert_eq!(remaining, 0);
    let filter = vec![EventKind::Exception];
    let (events, _) = core.poll_events(&some, 0, &filter).expect("poll");
    assert_eq!(events.len(), 5);
}

#[test]
fn test_wait_for_event() {
    let mut core = DebugCore::new(64);
    let sid = attach(&mut core, "s1");
    let some = Some(sid.clone());

    // Nothing yet: a fresh waiter starts its cursor at the next
    // sequence number and gets empty, which is what the blocking
    // loop returns on timeout.
    let cursor = core.next_event_seq(&some).expect("cursor");
    assert_eq!(cursor, 0);
    assert_eq!(core.wait_events(&some, cursor, &Vec::new()).expect("wait").len(), 0);

    let seq = core.ingest_event(&sid, exception_event(1), 500).expect("ingest");
    assert_eq!(seq, 0);

    // The waiter's cursor now points at the new event: it receives it.
    let events = core.wait_events(&some, cursor, &Vec::new()).expect("wait");
    assert_eq!(events.len(), 1);
    assert_eq!(events[0].seq, 0);

    // Having seen it, the waiter moves its cursor past it and waits on.
    let events = core.wait_events(&some, 1, &Vec::new()).expect("wait");
    assert_eq!(events.len(), 0);
    let seq2 = core.ingest_event(&sid, exception_event(2), 600).expect("ingest");
    assert_eq!(seq2, 1);
    let events = core.wait_events(&some, 1, &Vec::new()).expect("wait");
    assert_eq!(events.len(), 1);
    assert_eq!(events[0].seq, 1);
}

#[test]
fn test_two_waiters_see_same_event() {
    // Two concurrent waiters each hold their own cursor; both
    // independently observe the same single event, and a third caller
    // arriving after the event still receives it from the buffer —
    // until a clear empties it.
    let mut core = DebugCore::new(64);
    let sid = attach(&mut core, "s1");
    let some = Some(sid.clone());

    let start = core.next_event_seq(&some).expect("cursor");
    let waiter1 = start;
    let waiter2 = start;

    // Both waiters poll their cursors: nothing yet.
    assert_eq!(core.wait_events(&some, waiter1, &Vec::new()).expect("wait").len(), 0);
    assert_eq!(core.wait_events(&some, waiter2, &Vec::new()).expect("wait").len(), 0);

    core.ingest_event(&sid, exception_event(1), 1000).expect("ingest");

    let seen1 = core.wait_events(&some, waiter1, &Vec::new()).expect("wait");
    let seen2 = core.wait_events(&some, waiter2, &Vec::new()).expect("wait");
    assert_eq!(seen1.len(), 1);
    assert_eq!(seen2.len(), 1);
    assert_eq!(seen1[0].seq, seen2[0].seq);

    // A third caller arriving afterwards still finds it buffered.
    let late = core.next_event_seq(&some).expect("cursor") - 1;
    let seen3 = core.wait_events(&some, late, &Vec::new()).expect("wait");
    assert_eq!(seen3.len(), 1);

    core.clear_events(&some).expect("clear");
    let seen4 = core.wait_events(&some, late, &Vec::new()).expect("wait");
    assert_eq!(seen4.len(), 0);
}

#[test]
fn test_event_info() {
    let mut core = DebugCore::new(4);
    let sid = attach(&mut core, "s1");
    let some = Some(sid.clone());

    let info = core.event_info(&some).expect("info");
    assert_eq!(info.buffered_count, 0);
    assert_eq!(info.buffer_capacity, 4);
    assert!(!info.events_dropped);
    assert_eq!(info.oldest_timestamp, 0);
    assert_eq!(info.newest_timestamp, 0);

    core.ingest_event(&sid, exception_event(1), 111).expect("ingest");
    core.ingest_event(&sid, exception_event(2), 222).expect("ingest");
    let info = core.event_info(&some).expect("info");
    assert_eq!(info.buffered_count, 2);
    assert!(!info.events_dropped);
    assert_eq!(info.oldest_timestamp, 111);
    assert_eq!(info.newest_timestamp, 222);
}

#[test]
fn test_clear_events() {
    let mut core = DebugCore::new(64);
    let sid = attach(&mut core, "s1");
    let some = Some(sid.clone());
    core.ingest_event(&sid, exception_event(1), 100).expect("ingest");
    core.ingest_event(&sid, exception_event(2), 200).expect("ingest");

    core.clear_events(&some).expect("clear");
    let info = core.event_info(&some).expect("info");
    assert_eq!(info.buffered_count, 0);
    assert!(!info.events_dropped);

    // The sequence counter is not reset: numbering continues.
    let seq = core.ingest_event(&sid, exception_event(3), 300).expect("ingest");
    assert_eq!(seq, 2);
}

#[test]
fn test_buffer_overflow_drops_oldest() {
    // Capacity 4, insert 4 + 3 events: exactly 4 remain, the dropped
    // counter reads 3, and the oldest retained event is the 4th
    // inserted.
    let mut core = DebugCore::new(4);
    let sid = attach(&mut core, "s1");
    let some = Some(sid.clone());
    for n in 0..7 {
        core.ingest_event(&sid, exception_event(n), 1000 + n).expect("ingest");
    }
    let info = core.event_info(&some).expect("info");
    assert_eq!(info.buffered_count, 4);
    assert!(info.events_dropped);
    assert_eq!(info.dropped_count, 3);
    assert_eq!(info.oldest_timestamp, 1003);

    let (events, _) = core.poll_events(&some, 0, &Vec::new()).expect("poll");
    assert_eq!(events.len(), 4);
    assert_eq!(events[0].seq, 3);
    assert_eq!(events[3].seq, 6);
}

#[test]
fn test_sequence_numbers_agree_across_modes() {
    // Poll, wait, and subscription deliver the same events with the
    // same strictly increasing sequence numbers over the window they
    // share.
    let mut core = DebugCore::new(64);
    let sid = attach(&mut core, "s1");
    let some = Some(sid.clone());

    let mut sub = core.subscribe(&some).expect("subscribe");
    for n in 0..5 {
        core.ingest_event(&sid, exception_event(n), 10 + n).expect("ingest");
    }

    let (polled, _) = core.poll_events(&some, 0, &Vec::new()).expect("poll");
    let waited = core.wait_events(&some, 2, &Vec::new()).expect("wait");
    let streamed = core.subscription_poll(&mut sub).expect("stream");

    let polled_seqs: Vec<u64> = polled.iter().map(|e| e.seq).collect();
    let waited_seqs: Vec<u64> = waited.iter().map(|e| e.seq).collect();
    let streamed_seqs: Vec<u64> = streamed.iter().map(|e| e.seq).collect();

    assert_eq!(polled_seqs, vec![0, 1, 2, 3, 4]);
    assert_eq!(streamed_seqs, polled_seqs);
    // The wait window starts past its cursor and matches poll there.
    assert_eq!(waited_seqs, vec![2, 3, 4]);
    for w in polled_seqs.windows(2) {
        assert!(w[0] < w[1]);
    }
}

#[test]
fn test_subscription_starts_now_and_advances() {
    let mut core = DebugCore::new(64);
    let sid = attach(&mut core, "s1");
    let some = Some(sid.clone());

    core.ingest_event(&sid, exception_event(0), 1).expect("ingest");
    // A subscription delivers events from the moment of subscription
    // onward: the earlier event is not replayed.
    let mut sub = core.subscribe(&some).expect("subscribe");
    assert_eq!(core.subscription_poll(&mut sub).expect("stream").len(), 0);

    core.ingest_event(&sid, exception_event(1), 2).expect("ingest");
    core.ingest_event(&sid, exception_event(2), 3).expect("ingest");
    let batch = core.subscription_poll(&mut sub).expect("stream");
    assert_eq!(batch.len(), 2);
    assert_eq!(batch[0].seq, 1);
    // The cursor moved past what was delivered.
    assert_eq!(core.subscription_poll(&mut sub).expect("stream").len(), 0);

    // Detaching the session ends the stream with a terminal error.
    core.detach(&some).expect("detach");
    assert!(matches!(
        core.subscription_poll(&mut sub),
        Err(jdbg_core::ErrorKind::NotFound)
    ));
}

#[test]
fn test_events_do_not_cross_sessions() {
    let mut core = DebugCore::new(64);
    let s1 = attach(&mut core, "s1");
    let s2 = attach(&mut core, "s2");
    core.ingest_event(&s1, exception_event(1), 100).expect("ingest");
    let (e1, _) = core.poll_events(&Some(s1), 0, &Vec::new()).expect("poll");
    let (e2, _) = core.poll_events(&Some(s2), 0, &Vec::new()).expect("poll");
    assert_eq!(e1.len(), 1);
    assert_eq!(e2.len(), 0);
}
