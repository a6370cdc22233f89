use pixi_pty::errors::PtyError;
use pixi_pty::invocation::PtyInvocation;
use pixi_pty::invocation::PtyInvocationKind;
use pixi_pty::invocation::PtyShellInvocation;
use pixi_pty::registry::SessionRegistry;
use pixi_pty::session::PtyHandle;

fn shell_invocation() -> PtyInvocation {
    PtyInvocation {
        cwd: "/ws".to_string(),
        manifest: "/ws/pixi.toml".to_string(),
        kind: PtyInvocationKind::Shell(PtyShellInvocation {
            environment: "default".to_string(),
        }),
    }
}

fn session(id: &str) -> PtyHandle {
    PtyHandle::new(id.to_string(), shell_invocation(), Some(7))
}

#[test]
fn unknown_id_is_not_found() {
    let mut registry = SessionRegistry::new();
    assert!(!registry.is_running("nope"));
    assert_eq!(registry.get_buffer("nope"), "");
    assert!(registry.exit_event("nope").is_none());
    assert_eq!(registry.write_ready("nope"), Err(PtyError::NotFound));
    assert_eq!(registry.resize_ready("nope"), Err(PtyError::NotFound));
    assert_eq!(registry.kill_request("nope"), Err(PtyError::NotFound));
    assert!(registry.live_ids().is_empty());
}

#[test]
fn add_and_query_a_live_session() {
    let mut registry = SessionRegistry::new();
    assert!(registry.add_pty("a".to_string(), session("a")).is_ok());
    assert!(registry.is_running("a"));
    assert_eq!(registry.get_buffer("a"), "");
    assert!(registry.write_ready("a").is_ok());
    assert!(registry.resize_ready("a").is_ok());
    assert_eq!(registry.live_ids(), vec!["a".to_string()]);
}

#[test]
fn duplicate_id_is_a_conflict() {
    let mut registry = SessionRegistry::new();
    assert!(registry.add_pty("a".to_string(), session("a")).is_ok());
    assert_eq!(
        registry.add_pty("a".to_string(), session("a")),
        Err(PtyError::Conflict)
    );
    assert_eq!(registry.live_ids(), vec!["a".to_string()]);
}

#[test]
fn output_flows_into_the_buffer() {
    let mut registry = SessionRegistry::new();
    registry.add_pty("a".to_string(), session("a")).unwrap();
    let chunk = registry.ingest_chunk("a", b"hi there").unwrap();
    assert_eq!(chunk, "hi there");
    assert_eq!(registry.get_buffer("a"), "hi there");
    assert!(registry.ingest_chunk("missing", b"x").is_none());
}

#[test]
fn closed_streams_surface_errors_per_session() {
    let mut registry = SessionRegistry::new();
    registry.add_pty("a".to_string(), session("a")).unwrap();
    registry.add_pty("b".to_string(), session("b")).unwrap();
    registry.close_streams("a").unwrap();
    assert_eq!(registry.write_ready("a"), Err(PtyError::WriterClosed));
    assert_eq!(registry.resize_ready("a"), Err(PtyError::MasterClosed));
    // The other session is unaffected.
    assert!(registry.write_ready("b").is_ok());
    assert!(registry.resize_ready("b").is_ok());
}

#[test]
fn buffer_is_restored_after_exit() {
    let mut registry = SessionRegistry::new();
    registry.add_pty("a".to_string(), session("a")).unwrap();
    registry.ingest_chunk("a", b"final output").unwrap();
    let (banner, record) = registry
        .finish_session("a", Some(0), None, true, 3)
        .unwrap();
    registry.remove_pty("a", record.clone());
    // The session is gone, but the buffer is still retrievable and equals
    // the exit record's buffer.
    assert!(!registry.is_running("a"));
    assert!(registry.live_ids().is_empty());
    assert_eq!(registry.get_buffer("a"), record.buffer);
    assert_eq!(record.buffer, format!("final output{}", banner));
    let stored = registry.exit_event("a").unwrap();
    assert_eq!(stored.buffer, record.buffer);
    assert_eq!(stored.exit_code, Some(0));
}

#[test]
fn record_appears_only_after_removal() {
    let mut registry = SessionRegistry::new();
    registry.add_pty("a".to_string(), session("a")).unwrap();
    let (_banner, record) = registry
        .finish_session("a", Some(0), None, true, 1)
        .unwrap();
    // Sealed but not yet retired: still in the live map, no record yet.
    assert_eq!(registry.live_ids(), vec!["a".to_string()]);
    assert!(registry.exit_event("a").is_none());
    registry.remove_pty("a", record);
    // Retired: gone from the live map, exactly one record retained.
    assert!(registry.live_ids().is_empty());
    assert!(registry.exit_event("a").is_some());
}

#[test]
fn new_session_discards_the_old_record() {
    let mut registry = SessionRegistry::new();
    registry.add_pty("a".to_string(), session("a")).unwrap();
    registry.ingest_chunk("a", b"old run").unwrap();
    let (_banner, record) = registry
        .finish_session("a", Some(0), None, true, 1)
        .unwrap();
    registry.remove_pty("a", record);
    assert_ne!(registry.get_buffer("a"), "");
    // A fresh session under the same id supersedes the record: the old
    // buffer is no longer retrievable.
    registry.add_pty("a".to_string(), session("a")).unwrap();
    assert!(registry.exit_event("a").is_none());
    assert_eq!(registry.get_buffer("a"), "");
}

#[test]
fn kill_flow_through_the_registry() {
    let mut registry = SessionRegistry::new();
    registry.add_pty("a".to_string(), session("a")).unwrap();
    assert_eq!(registry.kill_request("a"), Ok(true));
    assert_eq!(registry.kill_escalate("a"), Ok(Some(7)));
    let (banner, record) = registry
        .finish_session("a", None, Some("SIGKILL".to_string()), false, 6)
        .unwrap();
    assert_eq!(banner, "\r\n\n[Process killed after 6s]\n\n\r");
    assert!(!record.success);
    registry.remove_pty("a", record);
    // A repeated kill request on the retired id reports not-found, as the
    // original surfaced it.
    assert_eq!(registry.kill_request("a"), Err(PtyError::NotFound));
}

#[test]
fn kill_request_after_finish_is_a_no_op() {
    let mut registry = SessionRegistry::new();
    registry.add_pty("a".to_string(), session("a")).unwrap();
    registry
        .finish_session("a", Some(0), None, true, 1)
        .unwrap();
    assert_eq!(registry.kill_request("a"), Ok(false));
    assert_eq!(registry.kill_request("a"), Ok(false));
    assert!(!registry.is_running("a"));
}

#[test]
fn finished_session_takes_no_more_output() {
    let mut registry = SessionRegistry::new();
    registry.add_pty("a".to_string(), session("a")).unwrap();
    registry
        .finish_session("a", Some(0), None, true, 1)
        .unwrap();
    assert!(registry.ingest_chunk("a", b"late").is_none());
}

#[test]
fn escalation_without_a_kill_request_is_a_no_op() {
    let mut registry = SessionRegistry::new();
    registry.add_pty("a".to_string(), session("a")).unwrap();
    assert_eq!(registry.kill_escalate("a"), Ok(None));
    assert!(registry.is_running("a"));
}

#[test]
fn sessions_are_independent() {
    let mut registry = SessionRegistry::new();
    registry.add_pty("a".to_string(), session("a")).unwrap();
    registry.add_pty("b".to_string(), session("b")).unwrap();
    registry.ingest_chunk("a", b"alpha").unwrap();
    registry.ingest_chunk("b", b"beta").unwrap();
    assert_eq!(registry.get_buffer("a"), "alpha");
    assert_eq!(registry.get_buffer("b"), "beta");
    assert_eq!(
        registry.live_ids(),
        vec!["a".to_string(), "b".to_string()]
    );
}
