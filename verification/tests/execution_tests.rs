use jdbg_core::AttachOutcome;
use jdbg_core::DebugCore;
use jdbg_core::ErrorKind;
use jdbg_core::EventDetails;
use jdbg_core::SourceLocation;
use jdbg_core::StepDepth;
use jdbg_core::TargetDesc;

fn attach(core: &mut DebugCore, name: &str) -> String {
    let id = core
        .begin_attach(
            &Some(name.to_string()),
            &TargetDesc::Remote { host: "localhost".to_string(), port: 5005 },
        )
        .expect("reserve id");
    core.finish_attach(
        &id,
        &AttachOutcome::Confirmed { vm_name: "TestVM".to_string(), vm_version: "21".to_string() },
    )
    .expect("confirm attach");
    id
}

fn step_location() -> SourceLocation {
    SourceLocation {
        class_name: "com.example.Main".to_string(),
        method_name: "main".to_string(),
        source_name: "Main.java".to_string(),
        line_number: 42,
    }
}

#[test]
fn test_suspend_and_resume() {
    let mut core = DebugCore::new(64);
    let sid = attach(&mut core, "s1");
    let some = Some(sid.clone());
    core.on_thread_start(&sid, 1, &"main".to_string(), 1).expect("thread");
    core.on_thread_start(&sid, 2, &"worker".to_string(), 2).expect("thread");

    // Suspending without a thread id suspends every thread.
    let (target, all) = core.suspend(&some, &None).expect("suspend all");
    assert_eq!(target, "s1");
    assert_eq!(all, None);
    let threads = core.list_threads(&some).expect("threads");
    assert!(threads.iter().all(|t| t.suspended));

    // Resuming one thread leaves the other suspended.
    core.resume(&some, &Some(2)).expect("resume worker");
    let threads = core.list_threads(&some).expect("threads");
    assert!(threads.iter().find(|t| t.id == 1).unwrap().suspended);
    assert!(!threads.iter().find(|t| t.id == 2).unwrap().suspended);

    // An unknown thread id is reported.
    assert!(matches!(core.resume(&some, &Some(99)), Err(ErrorKind::NotFound)));
}

#[test]
fn test_step_over() {
    let mut core = DebugCore::new(64);
    let sid = attach(&mut core, "s1");
    let some = Some(sid.clone());
    core.on_thread_start(&sid, 1, &"main".to_string(), 1).expect("thread");
    core.suspend(&some, &Some(1)).expect("suspend");

    let req = core.request_step(&some, &Some(1), StepDepth::Over).expect("step");
    assert_eq!(req.thread_id, 1);
    assert_eq!(req.depth, StepDepth::Over);

    let done = core.step_completed(&sid, &step_location(), 900).expect("completed");
    assert_eq!(done.thread_id, 1);

    // The step emitted a step-completed event with the new location.
    let filter = vec![jdbg_core::EventKind::StepCompleted];
    let (events, _) = core.poll_events(&some, 0, &filter).expect("poll");
    assert_eq!(events.len(), 1);
    match &events[0].details {
        EventDetails::StepCompleted { thread_id, location } => {
            assert_eq!(*thread_id, 1);
            assert_eq!(location.line_number, 42);
        }
        other => panic!("unexpected payload: {:?}", other),
    }

    // The stepped thread stands suspended; the request is spent.
    let threads = core.list_threads(&some).expect("threads");
    assert!(threads[0].suspended);
    assert!(matches!(core.step_completed(&sid, &step_location(), 901), Err(ErrorKind::StepFailed)));
}

#[test]
fn test_step_requires_suspended_thread() {
    let mut core = DebugCore::new(64);
    let sid = attach(&mut core, "s1");
    let some = Some(sid.clone());
    core.on_thread_start(&sid, 1, &"main".to_string(), 1).expect("thread");

    let r = core.request_step(&some, &Some(1), StepDepth::Into);
    assert!(matches!(r, Err(ErrorKind::ThreadNotSuspended)));
    // No thread given and none selected: nothing to step.
    let r = core.request_step(&some, &None, StepDepth::Into);
    assert!(matches!(r, Err(ErrorKind::NotFound)));
}

#[test]
fn test_step_uses_selected_thread() {
    let mut core = DebugCore::new(64);
    let sid = attach(&mut core, "s1");
    let some = Some(sid.clone());
    core.on_thread_start(&sid, 5, &"main".to_string(), 1).expect("thread");
    core.suspend(&some, &Some(5)).expect("suspend");
    core.select_thread(&some, 5).expect("select");

    let req = core.request_step(&some, &None, StepDepth::Out).expect("step");
    assert_eq!(req.thread_id, 5);
}

#[test]
fn test_continue_clears_pending_step() {
    let mut core = DebugCore::new(64);
    let sid = attach(&mut core, "s1");
    let some = Some(sid.clone());
    core.on_thread_start(&sid, 1, &"main".to_string(), 1).expect("thread");
    core.suspend(&some, &None).expect("suspend");
    core.request_step(&some, &Some(1), StepDepth::Over).expect("step");

    // Continue resumes every thread and drops the pending step.
    let target = core.continue_all(&some).expect("continue");
    assert_eq!(target, "s1");
    let threads = core.list_threads(&some).expect("threads");
    assert!(threads.iter().all(|t| !t.suspended));
    assert!(matches!(core.step_completed(&sid, &step_location(), 1), Err(ErrorKind::StepFailed)));
}

#[test]
fn test_step_failed_drops_request() {
    let mut core = DebugCore::new(64);
    let sid = attach(&mut core, "s1");
    let some = Some(sid.clone());
    core.on_thread_start(&sid, 1, &"main".to_string(), 1).expect("thread");
    core.suspend(&some, &Some(1)).expect("suspend");
    core.request_step(&some, &Some(1), StepDepth::Over).expect("step");

    let dropped = core.step_failed(&sid).expect("failed step");
    assert_eq!(dropped.thread_id, 1);
    assert!(matches!(core.step_failed(&sid), Err(ErrorKind::StepFailed)));
    // No step event was emitted for the failed step.
    let filter = vec![jdbg_core::EventKind::StepCompleted];
    let (events, _) = core.poll_events(&some, 0, &filter).expect("poll");
    assert_eq!(events.len(), 0);
}
