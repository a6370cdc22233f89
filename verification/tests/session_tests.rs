use pixi_pty::errors::PtyError;
use pixi_pty::invocation::PtyInvocation;
use pixi_pty::invocation::PtyInvocationKind;
use pixi_pty::invocation::PtyShellInvocation;
use pixi_pty::session::PtyHandle;
use pixi_pty::session::TerminationKind;
use pixi_pty::session::GRACE_PERIOD_SECS;
use pixi_pty::session::INTERRUPT_BYTE;
use pixi_pty::session::READ_CHUNK_BYTES;

fn shell_invocation() -> PtyInvocation {
    PtyInvocation {
        cwd: "/ws".to_string(),
        manifest: "/ws/pixi.toml".to_string(),
        kind: PtyInvocationKind::Shell(PtyShellInvocation {
            environment: "default".to_string(),
        }),
    }
}

fn fresh_session() -> PtyHandle {
    PtyHandle::new("s1".to_string(), shell_invocation(), Some(4242))
}

#[test]
fn protocol_constants() {
    assert_eq!(GRACE_PERIOD_SECS, 5);
    assert_eq!(READ_CHUNK_BYTES, 8192);
    assert_eq!(INTERRUPT_BYTE, 0x03);
}

#[test]
fn fresh_session_is_running_with_open_streams() {
    let session = fresh_session();
    assert!(session.is_running());
    assert_eq!(session.termination, TerminationKind::Finished);
    assert!(session.check_write().is_ok());
    assert!(session.check_resize().is_ok());
}

#[test]
fn closed_streams_reject_write_and_resize() {
    let mut session = fresh_session();
    session.close_streams();
    assert_eq!(session.check_write(), Err(PtyError::WriterClosed));
    assert_eq!(session.check_resize(), Err(PtyError::MasterClosed));
}

#[test]
fn ingest_decodes_and_retains_output() {
    let mut session = fresh_session();
    let chunk = session.ingest_chunk(b"hello ");
    assert_eq!(chunk, "hello ");
    let chunk = session.ingest_chunk(b"world");
    assert_eq!(chunk, "world");
    assert_eq!(session.buffer.buffered_output(), "hello world");
}

#[test]
fn ingest_replaces_invalid_utf8() {
    let mut session = fresh_session();
    let chunk = session.ingest_chunk(&[0xff, b'(']);
    assert_eq!(chunk, "\u{fffd}(");
}

#[test]
fn finish_appends_banner_and_builds_record() {
    let mut session = fresh_session();
    session.ingest_chunk(b"output");
    let (banner, record) = session.finish(Some(0), None, true, 65);
    assert_eq!(banner, "\r\n\n[Process finished after 1m 5s]\n\n\r");
    assert!(!session.is_running());
    assert_eq!(record.id, "s1");
    assert_eq!(record.exit_code, Some(0));
    assert_eq!(record.signal, None);
    assert!(record.success);
    assert_eq!(record.buffer, format!("output{}", banner));
    assert_eq!(session.buffer.buffered_output(), record.buffer);
}

#[test]
fn finish_after_zero_seconds_formats_zero() {
    let mut session = fresh_session();
    let (banner, _record) = session.finish(Some(1), None, false, 0);
    assert_eq!(banner, "\r\n\n[Process finished after 0s]\n\n\r");
}

#[test]
fn cooperative_kill_stops_the_session() {
    let mut session = fresh_session();
    let interrupt = session.kill_requested();
    assert!(interrupt);
    assert_eq!(session.termination, TerminationKind::Stopped);
    // The child exits within the grace period: no escalation, the banner
    // says stopped.
    let (banner, record) = session.finish(None, Some("SIGINT".to_string()), false, 2);
    assert_eq!(banner, "\r\n\n[Process stopped after 2s]\n\n\r");
    assert_eq!(record.signal, Some("SIGINT".to_string()));
}

#[test]
fn ignored_interrupt_escalates_to_kill() {
    let mut session = fresh_session();
    let interrupt = session.kill_requested();
    assert!(interrupt);
    assert_eq!(session.termination, TerminationKind::Stopped);
    // The grace period elapses without an exit: escalation marks the
    // session killed and hands back the pid for forced termination.
    let pid = session.kill_escalated();
    assert_eq!(pid, Some(4242));
    assert_eq!(session.termination, TerminationKind::Killed);
    let (banner, _record) = session.finish(None, Some("SIGKILL".to_string()), false, 6);
    assert_eq!(banner, "\r\n\n[Process killed after 6s]\n\n\r");
}

#[test]
fn kill_after_finish_is_a_no_op_twice() {
    let mut session = fresh_session();
    session.finish(Some(0), None, true, 1);
    let termination = session.termination;
    assert!(!session.kill_requested());
    assert_eq!(session.termination, termination);
    assert!(!session.is_running());
    assert!(!session.kill_requested());
    assert_eq!(session.termination, termination);
    assert!(!session.is_running());
}

#[test]
fn banner_evicts_like_any_chunk() {
    let mut session = fresh_session();
    let big = "z".repeat(1024 * 1024 - 10);
    session.ingest_chunk(big.as_bytes());
    let (banner, record) = session.finish(Some(0), None, true, 1);
    // The banner pushes the total over the cap, so the big chunk goes
    // and only the banner remains.
    assert_eq!(record.buffer, banner);
}
