use jdbg_core::AttachOutcome;
use jdbg_core::ConnState;
use jdbg_core::DebugCore;
use jdbg_core::ErrorKind;
use jdbg_core::TargetDesc;

fn remote_target() -> TargetDesc {
    TargetDesc::Remote { host: "localhost".to_string(), port: 5005 }
}

fn confirmed() -> AttachOutcome {
    AttachOutcome::Confirmed { vm_name: "TestVM".to_string(), vm_version: "21".to_string() }
}

fn attach(core: &mut DebugCore, name: &str) -> String {
    let id = core
        .begin_attach(&Some(name.to_string()), &remote_target())
        .expect("reserve id");
    core.finish_attach(&id, &confirmed()).expect("confirm attach");
    id
}

#[test]
fn test_session_attach_and_detach() {
    let mut core = DebugCore::new(64);
    let id = attach(&mut core, "s1");
    assert_eq!(id, "s1");

    let s = core.get_session(&Some("s1".to_string())).expect("session exists");
    assert_eq!(s.id, "s1");
    assert_eq!(s.state, ConnState::Attached);
    assert_eq!(s.vm_name, "TestVM");
    assert_eq!(s.vm_version, "21");

    // The first attached session becomes active.
    let (sessions, active) = core.list_sessions();
    assert_eq!(sessions.len(), 1);
    assert_eq!(active, "s1");

    let released = core.detach(&Some("s1".to_string())).expect("detach");
    assert_eq!(released, "s1");
    let (sessions, active) = core.list_sessions();
    assert_eq!(sessions.len(), 0);
    assert_eq!(active, "");

    assert!(matches!(
        core.get_session(&Some("s1".to_string())),
        Err(ErrorKind::NotFound)
    ));
}

#[test]
fn test_attach_duplicate_id_fails() {
    let mut core = DebugCore::new(64);
    attach(&mut core, "s1");
    let r = core.begin_attach(&Some("s1".to_string()), &remote_target());
    assert!(matches!(r, Err(ErrorKind::AlreadyExists)));
}

#[test]
fn test_attach_timeout_retains_nothing() {
    let mut core = DebugCore::new(64);
    let id = core
        .begin_attach(&Some("slow".to_string()), &remote_target())
        .expect("reserve id");
    let r = core.finish_attach(&id, &AttachOutcome::TimedOut);
    assert!(matches!(r, Err(ErrorKind::Timeout)));
    let (sessions, _) = core.list_sessions();
    assert_eq!(sessions.len(), 0);
}

#[test]
fn test_attach_failure_reports_bridge() {
    let mut core = DebugCore::new(64);
    let id = core
        .begin_attach(&None, &TargetDesc::Local { pid: 4321 })
        .expect("reserve id");
    let r = core.finish_attach(&id, &AttachOutcome::Failed);
    assert!(matches!(r, Err(ErrorKind::BridgeUnavailable)));
    let (sessions, _) = core.list_sessions();
    assert_eq!(sessions.len(), 0);
}

#[test]
fn test_generated_ids_are_fresh() {
    let mut core = DebugCore::new(64);
    let a = attach(&mut core, "s0");
    let b = {
        let id = core.begin_attach(&None, &remote_target()).expect("generated id");
        core.finish_attach(&id, &confirmed()).expect("confirm");
        id
    };
    let c = {
        let id = core.begin_attach(&None, &remote_target()).expect("generated id");
        core.finish_attach(&id, &confirmed()).expect("confirm");
        id
    };
    assert_ne!(a, b);
    assert_ne!(a, c);
    assert_ne!(b, c);
    let (sessions, _) = core.list_sessions();
    assert_eq!(sessions.len(), 3);
}

#[test]
fn test_no_active_session() {
    let mut core = DebugCore::new(64);
    assert!(matches!(core.get_session(&None), Err(ErrorKind::NoActiveSession)));
    assert!(matches!(
        core.get_session(&Some(String::new())),
        Err(ErrorKind::NoActiveSession)
    ));
    attach(&mut core, "s1");
    // The active session answers for an omitted or empty id.
    assert_eq!(core.get_session(&None).expect("active").id, "s1");
    assert_eq!(core.get_session(&Some(String::new())).expect("active").id, "s1");
}

#[test]
fn test_second_attach_keeps_active() {
    let mut core = DebugCore::new(64);
    attach(&mut core, "s1");
    attach(&mut core, "s2");
    let (_, active) = core.list_sessions();
    assert_eq!(active, "s1");
    core.set_active(&"s2".to_string()).expect("select s2");
    let (_, active) = core.list_sessions();
    assert_eq!(active, "s2");
    assert!(matches!(
        core.set_active(&"nope".to_string()),
        Err(ErrorKind::NotFound)
    ));
}

#[test]
fn test_detaching_active_leaves_none_active() {
    let mut core = DebugCore::new(64);
    attach(&mut core, "s1");
    attach(&mut core, "s2");
    core.detach(&Some("s1".to_string())).expect("detach active");
    // No session becomes active automatically.
    let (sessions, active) = core.list_sessions();
    assert_eq!(sessions.len(), 1);
    assert_eq!(active, "");
    assert!(matches!(core.get_session(&None), Err(ErrorKind::NoActiveSession)));
}

#[test]
fn test_detach_cascades() {
    let mut core = DebugCore::new(64);
    let sid = attach(&mut core, "s1");
    core.add_breakpoint(
        &Some(sid.clone()),
        &jdbg_core::BpLocation::Line { class_name: "com.example.A".to_string(), line: 10 },
        &None,
        true,
        true,
    )
    .expect("add breakpoint");
    core.catch_exception(&Some(sid.clone()), &"java.lang.Error".to_string(), true, true)
        .expect("catch");
    core.on_thread_start(&sid, 1, &"main".to_string(), 1000).expect("thread start");

    core.detach(&Some(sid.clone())).expect("detach");

    let some = Some(sid.clone());
    assert!(matches!(core.list_breakpoints(&some), Err(ErrorKind::NotFound)));
    assert!(matches!(core.list_exception_breakpoints(&some), Err(ErrorKind::NotFound)));
    assert!(matches!(core.list_threads(&some), Err(ErrorKind::NotFound)));
    assert!(matches!(core.event_info(&some), Err(ErrorKind::NotFound)));
    assert!(matches!(core.poll_events(&some, 0, &Vec::new()), Err(ErrorKind::NotFound)));
    assert!(matches!(core.wait_events(&some, 0, &Vec::new()), Err(ErrorKind::NotFound)));
}

#[test]
fn test_bridge_lost_marks_session() {
    let mut core = DebugCore::new(64);
    let sid = attach(&mut core, "s1");
    core.mark_bridge_lost(&sid).expect("mark");
    let s = core.get_session(&Some(sid.clone())).expect("still registered");
    assert_eq!(s.state, ConnState::Error);
    // Operations that need the bridge now fail until detach...
    let r = core.add_breakpoint(
        &Some(sid.clone()),
        &jdbg_core::BpLocation::Line { class_name: "A".to_string(), line: 1 },
        &None,
        true,
        true,
    );
    assert!(matches!(r, Err(ErrorKind::BridgeUnavailable)));
    assert!(matches!(core.continue_all(&Some(sid.clone())), Err(ErrorKind::BridgeUnavailable)));
    // ...while detach itself still works.
    core.detach(&Some(sid)).expect("detach errored session");
}
