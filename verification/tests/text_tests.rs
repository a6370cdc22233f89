use pixi_pty::errors::PtyError;
use pixi_pty::text::strip_ansi_escapes;

#[test]
fn strips_color_escape_sequences() {
    assert_eq!(strip_ansi_escapes("\x1b[32mfoo\x1b[m bar"), "foo bar");
}

#[test]
fn strips_cursor_and_style_sequences() {
    assert_eq!(
        strip_ansi_escapes("\x1b[1;31mbold red\x1b[0m and \x1b[4munderline\x1b[24m"),
        "bold red and underline"
    );
}

#[test]
fn plain_text_passes_through() {
    assert_eq!(strip_ansi_escapes("no escapes here"), "no escapes here");
    assert_eq!(strip_ansi_escapes(""), "");
}

#[test]
fn error_descriptions() {
    assert_eq!(PtyError::PtyOpenFailed.describe(), "failed to open PTY");
    assert_eq!(
        PtyError::SpawnFailed.describe(),
        "failed to spawn PTY command"
    );
    assert_eq!(
        PtyError::StreamAcquisitionFailed.describe(),
        "failed to acquire PTY streams"
    );
    assert_eq!(PtyError::WriterClosed.describe(), "PTY writer closed");
    assert_eq!(PtyError::MasterClosed.describe(), "PTY master closed");
    assert_eq!(PtyError::NotFound.describe(), "PTY not found");
    assert_eq!(
        PtyError::Conflict.describe(),
        "PTY id already registered"
    );
}
