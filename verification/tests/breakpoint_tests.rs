use jdbg_core::AttachOutcome;
use jdbg_core::BpLocation;
use jdbg_core::DebugCore;
use jdbg_core::ErrorKind;
use jdbg_core::TargetDesc;

fn attach(core: &mut DebugCore, name: &str) -> String {
    let id = core
        .begin_attach(
            &Some(name.to_string()),
            &TargetDesc::Remote { host: "localhost".to_string(), port: 5005 },
        )
        .expect("reserve id");
    core.finish_attach(
        &id,
        &AttachOutcome::Confirmed { vm_name: "TestVM".to_string(), vm_version: "21".to_string() },
    )
    .expect("confirm attach");
    id
}

#[test]
fn test_breakpoint_lifecycle() {
    let mut core = DebugCore::new(64);
    let sid = attach(&mut core, "s1");
    let some = Some(sid.clone());

    let line_bp = core
        .add_breakpoint(
            &some,
            &BpLocation::Line { class_name: "com.jdbg.test.Main".to_string(), line: 166 },
            &None,
            true,
            true,
        )
        .expect("add line breakpoint");
    assert!(line_bp.enabled);
    assert_eq!(line_bp.hit_count, 0);
    assert_eq!(line_bp.session_id, "s1");

    let method_bp = core
        .add_breakpoint(
            &some,
            &BpLocation::Method {
                class_name: "com.jdbg.test.Calculator".to_string(),
                method_name: "add".to_string(),
                signature: None,
            },
            &None,
            true,
            true,
        )
        .expect("add method breakpoint");
    assert_ne!(line_bp.id, method_bp.id);

    let listed = core.list_breakpoints(&some).expect("list");
    assert_eq!(listed.len(), 2);
    assert_eq!(listed[0].id, line_bp.id);
    assert_eq!(listed[1].id, method_bp.id);

    let disabled = core.disable_breakpoint(line_bp.id).expect("disable");
    assert!(!disabled.enabled);
    let listed = core.list_breakpoints(&some).expect("list");
    assert!(!listed[0].enabled);
    assert!(listed[1].enabled);

    let enabled = core.enable_breakpoint(line_bp.id).expect("enable");
    assert!(enabled.enabled);
    let listed = core.list_breakpoints(&some).expect("list");
    assert!(listed[0].enabled);

    let removed = core.remove_breakpoint(line_bp.id).expect("remove");
    assert_eq!(removed.id, line_bp.id);
    let listed = core.list_breakpoints(&some).expect("list");
    assert_eq!(listed.len(), 1);
    assert_eq!(listed[0].id, method_bp.id);

    core.clear_breakpoints(&some).expect("clear");
    let listed = core.list_breakpoints(&some).expect("list");
    assert_eq!(listed.len(), 0);
}

#[test]
fn test_breakpoint_ids_not_reused() {
    let mut core = DebugCore::new(64);
    let sid = attach(&mut core, "s1");
    let some = Some(sid);
    let loc = BpLocation::Line { class_name: "A".to_string(), line: 1 };
    let a = core.add_breakpoint(&some, &loc, &None, true, true).expect("add");
    core.remove_breakpoint(a.id).expect("remove");
    let b = core.add_breakpoint(&some, &loc, &None, true, true).expect("add again");
    assert_ne!(a.id, b.id);
}

#[test]
fn test_invalid_location_records_nothing() {
    let mut core = DebugCore::new(64);
    let sid = attach(&mut core, "s1");
    let some = Some(sid);
    let loc = BpLocation::Line { class_name: "no.such.Class".to_string(), line: 5 };
    // The bridge could not install the instrumentation.
    let r = core.add_breakpoint(&some, &loc, &None, true, false);
    assert!(matches!(r, Err(ErrorKind::InvalidLocation)));
    assert_eq!(core.list_breakpoints(&some).expect("list").len(), 0);
}

#[test]
fn test_unknown_breakpoint_id() {
    let mut core = DebugCore::new(64);
    attach(&mut core, "s1");
    assert!(matches!(core.remove_breakpoint(99), Err(ErrorKind::NotFound)));
    assert!(matches!(core.enable_breakpoint(99), Err(ErrorKind::NotFound)));
    assert!(matches!(core.disable_breakpoint(99), Err(ErrorKind::NotFound)));
}

#[test]
fn test_hit_increments_exactly_once() {
    let mut core = DebugCore::new(64);
    let sid = attach(&mut core, "s1");
    let some = Some(sid.clone());
    core.on_thread_start(&sid, 7, &"worker".to_string(), 1).expect("thread");
    let loc = BpLocation::Line { class_name: "com.example.A".to_string(), line: 10 };
    let bp = core.add_breakpoint(&some, &loc, &None, true, true).expect("add");

    let hit_loc = jdbg_core::SourceLocation {
        class_name: "com.example.A".to_string(),
        method_name: "run".to_string(),
        source_name: "A.java".to_string(),
        line_number: 10,
    };
    let owner = core.on_breakpoint_hit(bp.id, 7, &hit_loc, 1000);
    assert_eq!(owner, Some(sid.clone()));
    let listed = core.list_breakpoints(&some).expect("list");
    assert_eq!(listed[0].hit_count, 1);

    // The hitting thread stands suspended at the breakpoint.
    let threads = core.list_threads(&some).expect("threads");
    assert_eq!(threads.len(), 1);
    assert!(threads[0].suspended);

    // A notification for a removed breakpoint is discarded.
    core.remove_breakpoint(bp.id).expect("remove");
    let owner = core.on_breakpoint_hit(bp.id, 7, &hit_loc, 2000);
    assert_eq!(owner, None);
}

#[test]
fn test_exception_breakpoints() {
    let mut core = DebugCore::new(64);
    let sid = attach(&mut core, "s1");
    let some = Some(sid.clone());

    let ex = core
        .catch_exception(&some, &"java.lang.NullPointerException".to_string(), true, true)
        .expect("catch");
    assert!(ex.caught);
    assert!(ex.uncaught);
    assert_eq!(ex.session_id, "s1");

    let uncaught_only = core
        .catch_exception(&some, &"java.io.IOException".to_string(), false, true)
        .expect("catch");
    assert!(!uncaught_only.caught);

    let listed = core.list_exception_breakpoints(&some).expect("list");
    assert_eq!(listed.len(), 2);
    assert_eq!(listed[0].exception_class, "java.lang.NullPointerException");

    // Ignore by id.
    let removed = core.ignore_exception(ex.id).expect("ignore");
    assert_eq!(removed.id, ex.id);
    let listed = core.list_exception_breakpoints(&some).expect("list");
    assert_eq!(listed.len(), 1);

    // Ignore by class: the front end resolves the class to an id first.
    let found = jdbg_core::find_exception_by_class(
        &listed,
        &sid,
        &"java.io.IOException".to_string(),
    );
    assert_eq!(found, Some(uncaught_only.id));
    core.ignore_exception(uncaught_only.id).expect("ignore");
    assert_eq!(core.list_exception_breakpoints(&some).expect("list").len(), 0);

    assert!(matches!(core.ignore_exception(12345), Err(ErrorKind::NotFound)));
}
