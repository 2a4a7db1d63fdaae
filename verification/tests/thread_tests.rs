use jdbg_core::AttachOutcome;
use jdbg_core::DebugCore;
use jdbg_core::ErrorKind;
use jdbg_core::TargetDesc;
use jdbg_core::ThreadStatus;
use jdbg_core::filter_suspended;
use jdbg_core::find_thread;

fn attach(core: &mut DebugCore, name: &str) -> String {
    let id = core
        .begin_attach(
            &Some(name.to_string()),
            &TargetDesc::Remote { host: "localhost".to_string(), port: 5005 },
        )
        .expect("reserve id");
    core.finish_attach(
        &id,
        &AttachOutcome::Confirmed { vm_name: "TestVM".to_string(), vm_version: "21".to_string() },
    )
    .expect("confirm attach");
    id
}

#[test]
fn test_thread_operations() {
    let mut core = DebugCore::new(64);
    let sid = attach(&mut core, "s1");
    let some = Some(sid.clone());

    core.on_thread_start(&sid, 1, &"main".to_string(), 1).expect("thread");
    core.on_thread_start(&sid, 2, &"worker-0".to_string(), 2).expect("thread");
    // A repeated start notification for a tracked id changes nothing.
    core.on_thread_start(&sid, 1, &"main".to_string(), 3).expect("thread");

    let threads = core.list_threads(&some).expect("threads");
    assert_eq!(threads.len(), 2);
    assert_eq!(threads[0].id, 1);
    assert_eq!(threads[0].name, "main");
    assert_eq!(threads[0].status, ThreadStatus::Running);
    assert!(!threads[0].suspended);

    core.suspend(&some, &Some(2)).expect("suspend worker");
    let threads = core.list_threads(&some).expect("threads");
    let worker = threads.iter().find(|t| t.id == 2).unwrap();
    assert_eq!(worker.status, ThreadStatus::Suspended);
    assert!(worker.suspended);

    // The suspended-only view keeps order and loses the running ones.
    let suspended = filter_suspended(&threads);
    assert_eq!(suspended.len(), 1);
    assert_eq!(suspended[0].id, 2);

    // Lookup by id.
    assert_eq!(find_thread(&threads, 1), Some(0));
    assert_eq!(find_thread(&threads, 2), Some(1));
    assert_eq!(find_thread(&threads, 3), None);

    // A dead thread leaves the list.
    core.on_thread_death(&sid, 2, &"worker-0".to_string(), 9).expect("death");
    let threads = core.list_threads(&some).expect("threads");
    assert_eq!(threads.len(), 1);
    assert_eq!(threads[0].id, 1);
}

#[test]
fn test_select_thread_resets_frame() {
    let mut core = DebugCore::new(64);
    let sid = attach(&mut core, "s1");
    let some = Some(sid.clone());
    core.on_thread_start(&sid, 1, &"main".to_string(), 1).expect("thread");
    core.suspend(&some, &Some(1)).expect("suspend");
    core.select_thread(&some, 1).expect("select");
    core.select_frame(&some, 3).expect("select frame");
    // Selecting a thread again resets the frame to the innermost one;
    // observable through the step target resolving to that thread.
    core.select_thread(&some, 1).expect("select again");
    assert!(matches!(core.select_thread(&some, 7), Err(ErrorKind::NotFound)));
}

#[test]
fn test_frame_and_variable_reads_need_suspension() {
    let mut core = DebugCore::new(64);
    let sid = attach(&mut core, "s1");
    let some = Some(sid.clone());
    core.on_thread_start(&sid, 1, &"main".to_string(), 1).expect("thread");

    // A running thread has no frames to read.
    assert!(matches!(
        core.resolve_suspended_thread(&some, &Some(1)),
        Err(ErrorKind::ThreadNotSuspended)
    ));
    assert!(matches!(
        core.select_frame(&some, 0),
        Err(ErrorKind::NotFound)
    ));

    core.suspend(&some, &Some(1)).expect("suspend");
    assert_eq!(core.resolve_suspended_thread(&some, &Some(1)).expect("resolved"), 1);

    // The selected thread stands in when none is given.
    core.select_thread(&some, 1).expect("select");
    assert_eq!(core.resolve_suspended_thread(&some, &None).expect("resolved"), 1);
    core.select_frame(&some, 0).expect("frame 0");
    assert!(matches!(core.select_frame(&some, -1), Err(ErrorKind::NotFound)));

    assert!(matches!(
        core.resolve_suspended_thread(&some, &Some(42)),
        Err(ErrorKind::NotFound)
    ));
}
