use batch_orchestrator::events::EngineEvent;
use batch_orchestrator::steps::utils::{
    decode_log_line, pick_decoding, pipe_forwarder, pipe_read_error, strip_line_end,
};

#[test]
fn utf8_lines_are_taken_as_they_are() {
    assert_eq!(decode_log_line(b"plain ascii"), "plain ascii");
    assert_eq!(decode_log_line("héllo 한글".as_bytes()), "héllo 한글");
    assert_eq!(decode_log_line(b""), "");
}

#[test]
fn legacy_bytes_are_decoded() {
    // "한글" in the encoding of code page 949.
    assert_eq!(decode_log_line(&[0xC7, 0xD1, 0xB1, 0xDB]), "한글");
    assert_eq!(decode_log_line(&[b'o', b'k', b' ', 0xB0, 0xA1]), "ok 가");
}

#[test]
fn bytes_of_no_known_encoding_come_out_with_replacements() {
    assert_eq!(decode_log_line(&[b'a', 0xFF, b'b']), "a\u{FFFD}b");
    assert_eq!(decode_log_line(&[0x80]), "\u{FFFD}");
}

#[test]
fn decoding_is_picked_in_order() {
    let legacy = ("legacy".to_string(), false);
    assert_eq!(pick_decoding(Some("utf8".to_string()), legacy.clone(), "lossy".to_string()), "utf8");
    assert_eq!(pick_decoding(None, legacy, "lossy".to_string()), "legacy");
    assert_eq!(pick_decoding(None, ("broken".to_string(), true), "lossy".to_string()), "lossy");
}

#[test]
fn line_endings_are_cut_off() {
    for (input, expected) in [
        (&b"line\n"[..], &b"line"[..]),
        (b"line\r\n", b"line"),
        (b"line", b"line"),
        (b"line\n\n\r\r\n", b"line"),
        (b"\n", b""),
        (b"", b""),
        (b"a\nb\n", b"a\nb"),
        (b"\rx", b"\rx"),
    ] {
        let mut buffer = input.to_vec();
        strip_line_end(&mut buffer);
        assert_eq!(buffer, expected);
    }
}

#[test]
fn output_is_forwarded_as_tagged_log_lines() {
    match pipe_forwarder("s1", "STDOUT", b"hello\r\n".to_vec()) {
        EngineEvent::StepLog { step_id, line } => {
            assert_eq!(step_id, "s1");
            assert_eq!(line, "STDOUT: hello");
        }
        other => panic!("unexpected {:?}", other),
    }
    match pipe_forwarder("s1", "sqlldr STDERR", vec![0xC7, 0xD1, b'\n']) {
        EngineEvent::StepLog { line, .. } => assert_eq!(line, "sqlldr STDERR: 한"),
        other => panic!("unexpected {:?}", other),
    }
    match pipe_read_error("s2", "STDERR", "broken pipe") {
        EngineEvent::StepLog { step_id, line } => {
            assert_eq!(step_id, "s2");
            assert_eq!(line, "STDERR read error: broken pipe");
        }
        other => panic!("unexpected {:?}", other),
    }
}
