use jdbg_core::BpLocation;
use jdbg_core::Config;
use jdbg_core::ErrorKind;
use jdbg_core::EventKind;
use jdbg_core::Output;
use jdbg_core::OutputFormat;
use jdbg_core::ServerAddr;
use jdbg_core::StepDepth;
use jdbg_core::choose_breakpoint_location;
use jdbg_core::default_server;
use jdbg_core::error_code;
use jdbg_core::error_info;
use jdbg_core::error_message;
use jdbg_core::kind_name;
use jdbg_core::parse_filter;
use jdbg_core::parse_kind;
use jdbg_core::parse_server_addr;
use jdbg_core::parse_u64;
use jdbg_core::step_depth_from_flags;

#[test]
fn test_output_modes() {
    let o = Output::new(OutputFormat::Json, false);
    assert!(o.is_json());
    assert!(!o.is_text());
    let o = Output::new(OutputFormat::Text, true);
    assert!(o.is_text());
    assert!(!o.is_json());
    assert!(o.verbose);
    assert_eq!(OutputFormat::default(), OutputFormat::Text);
}

#[test]
fn test_config_default() {
    let c = Config::default();
    assert_eq!(c.server, "");
    assert!(c.format.is_none());
    assert!(c.source_paths.is_empty());
    assert_eq!(default_server(), "tcp://127.0.0.1:5005");
}

#[test]
fn test_step_depth_flags() {
    assert_eq!(step_depth_from_flags(true, false, false), StepDepth::Into);
    assert_eq!(step_depth_from_flags(true, true, true), StepDepth::Into);
    assert_eq!(step_depth_from_flags(false, false, true), StepDepth::Out);
    assert_eq!(step_depth_from_flags(false, true, false), StepDepth::Over);
    assert_eq!(step_depth_from_flags(false, false, false), StepDepth::Over);
}

#[test]
fn test_choose_breakpoint_location() {
    let class = "com.example.A".to_string();
    match choose_breakpoint_location(&class, &Some(12), &None) {
        Some(BpLocation::Line { class_name, line }) => {
            assert_eq!(class_name, "com.example.A");
            assert_eq!(line, 12);
        }
        other => panic!("unexpected location: {:?}", other),
    }
    // A line wins even when a method is also given.
    match choose_breakpoint_location(&class, &Some(3), &Some("run".to_string())) {
        Some(BpLocation::Line { line, .. }) => assert_eq!(line, 3),
        other => panic!("unexpected location: {:?}", other),
    }
    match choose_breakpoint_location(&class, &None, &Some("run".to_string())) {
        Some(BpLocation::Method { method_name, signature, .. }) => {
            assert_eq!(method_name, "run");
            assert!(signature.is_none());
        }
        other => panic!("unexpected location: {:?}", other),
    }
    assert!(choose_breakpoint_location(&class, &None, &None).is_none());
}

#[test]
fn test_parse_server_addr() {
    match parse_server_addr("unix:///tmp/jdbg.sock") {
        ServerAddr::Unix { path } => assert_eq!(path, "/tmp/jdbg.sock"),
        other => panic!("unexpected: {:?}", other),
    }
    match parse_server_addr("tcp://127.0.0.1:5005") {
        ServerAddr::Tcp { addr } => assert_eq!(addr, "127.0.0.1:5005"),
        other => panic!("unexpected: {:?}", other),
    }
    match parse_server_addr("localhost:5005") {
        ServerAddr::Tcp { addr } => assert_eq!(addr, "localhost:5005"),
        other => panic!("unexpected: {:?}", other),
    }
}

#[test]
fn test_parse_u64() {
    assert_eq!(parse_u64("0"), Some(0));
    assert_eq!(parse_u64("42"), Some(42));
    assert_eq!(parse_u64("18446744073709551615"), Some(u64::MAX));
    assert_eq!(parse_u64("18446744073709551616"), None);
    assert_eq!(parse_u64(""), None);
    assert_eq!(parse_u64("12a"), None);
    assert_eq!(parse_u64("-3"), None);
    assert_eq!(parse_u64("007"), Some(7));
}

#[test]
fn test_event_kind_names() {
    let kinds = [
        EventKind::BreakpointHit,
        EventKind::StepCompleted,
        EventKind::Exception,
        EventKind::ThreadStart,
        EventKind::ThreadDeath,
        EventKind::VmDeath,
        EventKind::VmDisconnect,
    ];
    for k in kinds {
        // Naming then parsing gives the kind back.
        assert_eq!(parse_kind(&kind_name(k)), Some(k));
    }
    assert_eq!(kind_name(EventKind::BreakpointHit), "breakpoint_hit");
    assert_eq!(parse_kind(&"no_such_kind".to_string()), None);

    let names = vec![
        "breakpoint_hit".to_string(),
        "bogus".to_string(),
        "vm_death".to_string(),
    ];
    let filter = parse_filter(&names);
    assert_eq!(filter, vec![EventKind::BreakpointHit, EventKind::VmDeath]);
}

#[test]
fn test_error_codes_and_messages() {
    assert_eq!(error_code(ErrorKind::NotFound), "NOT_FOUND");
    assert_eq!(error_code(ErrorKind::AlreadyExists), "ALREADY_EXISTS");
    assert_eq!(error_code(ErrorKind::InvalidLocation), "INVALID_LOCATION");
    assert_eq!(error_code(ErrorKind::NoActiveSession), "NO_ACTIVE_SESSION");
    assert_eq!(error_code(ErrorKind::ThreadNotSuspended), "THREAD_NOT_SUSPENDED");
    assert_eq!(error_code(ErrorKind::Timeout), "TIMEOUT");
    assert_eq!(error_code(ErrorKind::StepFailed), "STEP_FAILED");
    assert_eq!(error_code(ErrorKind::BridgeUnavailable), "BRIDGE_UNAVAILABLE");

    assert_eq!(error_message(ErrorKind::Timeout), "operation timed out");
    let info = error_info(ErrorKind::NoActiveSession);
    assert_eq!(info.code, "NO_ACTIVE_SESSION");
    assert_eq!(info.message, "no session id given and no session is active");
}

#[test]
fn test_decimal_rendering() {
    assert_eq!(jdbg_core::u64_to_dec(0), "0");
    assert_eq!(jdbg_core::u64_to_dec(7), "7");
    assert_eq!(jdbg_core::u64_to_dec(105), "105");
    assert_eq!(jdbg_core::u64_to_dec(u64::MAX), "18446744073709551615");
    // Rendering and parsing are inverse on these values.
    assert_eq!(parse_u64(&jdbg_core::u64_to_dec(987654321)), Some(987654321));
}

#[test]
fn test_fresh_session_id_avoids_existing() {
    let existing = vec!["s0".to_string(), "alpha".to_string()];
    let id = jdbg_core::fresh_session_id(&existing, 1);
    assert!(!existing.contains(&id));

    // Even when the counter-based candidate is taken, the result is
    // fresh.
    let existing = vec!["s1".to_string(), "a-rather-long-session-name".to_string()];
    let id = jdbg_core::fresh_session_id(&existing, 1);
    assert!(!existing.contains(&id));
}

#[test]
fn test_status_response_wrapping() {
    let ok = jdbg_core::status_response(Ok(()));
    assert!(ok.success);
    assert!(ok.error.is_none());

    let err = jdbg_core::status_response(Err(ErrorKind::BridgeUnavailable));
    assert!(!err.success);
    let info = err.error.expect("structured error");
    assert_eq!(info.code, "BRIDGE_UNAVAILABLE");
    assert_eq!(info.message, "runtime bridge connection lost");
}
