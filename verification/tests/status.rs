use shell_process::event::{CommandEvent, TerminatedPayload};
use shell_process::status::{ExitStatus, Output};

fn exit(code: Option<i32>, signal: Option<i32>) -> CommandEvent {
    CommandEvent::Terminated(TerminatedPayload { code, signal })
}

#[test]
fn success_is_exit_code_zero() {
    assert!(ExitStatus::collect(&[exit(Some(0), None)]).success());
    assert_eq!(ExitStatus::collect(&[exit(Some(0), None)]).code(), Some(0));
}

#[test]
fn nonzero_code_is_no_success() {
    for code in [1, -1, 2, 255, i32::MAX, i32::MIN] {
        let status = ExitStatus::collect(&[exit(Some(code), None)]);
        assert_eq!(status.code(), Some(code));
        assert!(!status.success());
    }
}

#[test]
fn absent_code_is_no_success() {
    let status = ExitStatus::new();
    assert_eq!(status.code(), None);
    assert!(!status.success());
    assert!(!ExitStatus::collect(&[]).success());
}

#[test]
fn signal_terminated_exit_is_no_success() {
    let status = ExitStatus::collect(&[exit(None, Some(9))]);
    assert_eq!(status.code(), None);
    assert!(!status.success());
    let with_zero_signal = ExitStatus::collect(&[exit(None, Some(0))]);
    assert!(!with_zero_signal.success());
}

#[test]
fn status_keeps_only_the_code_of_terminated() {
    let events = vec![
        CommandEvent::Stdout(b"0".to_vec()),
        CommandEvent::Error("0".to_string()),
        exit(Some(1), None),
    ];
    assert_eq!(ExitStatus::collect(&events).code(), Some(1));
}

#[test]
fn status_of_stream_without_terminated_has_no_code() {
    let events = vec![
        CommandEvent::Stdout(b"out".to_vec()),
        CommandEvent::Stderr(b"err".to_vec()),
        CommandEvent::Error("wait failed".to_string()),
    ];
    assert_eq!(ExitStatus::collect(&events).code(), None);
}

#[test]
fn observe_takes_the_code_of_each_terminated() {
    let mut status = ExitStatus::new();
    status.observe(&CommandEvent::Stdout(b"x".to_vec()));
    assert_eq!(status.code(), None);
    status.observe(&exit(Some(4), None));
    assert_eq!(status.code(), Some(4));
    status.observe(&CommandEvent::Error("e".to_string()));
    assert_eq!(status.code(), Some(4));
    status.observe(&exit(None, Some(15)));
    assert_eq!(status.code(), None);
}

#[test]
fn new_output_is_empty() {
    let output = Output::new();
    assert_eq!(output.status.code(), None);
    assert_eq!(output.stdout, Vec::<u8>::new());
    assert_eq!(output.stderr, Vec::<u8>::new());
}

#[test]
fn output_appends_a_line_feed_to_each_record() {
    let events = vec![
        CommandEvent::Stdout(b"one".to_vec()),
        CommandEvent::Stderr(b"warn".to_vec()),
        CommandEvent::Stdout(Vec::new()),
        CommandEvent::Stdout(b"two".to_vec()),
        exit(Some(0), None),
    ];
    let output = Output::collect(&events);
    assert_eq!(output.stdout, b"one\n\ntwo\n".to_vec());
    assert_eq!(output.stderr, b"warn\n".to_vec());
    assert!(output.status.success());
}

#[test]
fn output_drops_error_events() {
    let events = vec![
        CommandEvent::Stdout(b"kept".to_vec()),
        CommandEvent::Error("read failed".to_string()),
        CommandEvent::Stderr(b"also kept".to_vec()),
        exit(Some(2), None),
    ];
    let output = Output::collect(&events);
    assert_eq!(output.stdout, b"kept\n".to_vec());
    assert_eq!(output.stderr, b"also kept\n".to_vec());
    assert_eq!(output.status.code(), Some(2));
}

#[test]
fn output_observe_is_one_step_of_collect() {
    let mut output = Output::new();
    output.observe(&CommandEvent::Stderr(b"e".to_vec()));
    assert_eq!(output.stderr, b"e\n".to_vec());
    assert_eq!(output.stdout, Vec::<u8>::new());
    output.observe(&exit(Some(1), None));
    assert_eq!(output.status.code(), Some(1));
    output.observe(&CommandEvent::Error("x".to_string()));
    assert_eq!(output.status.code(), Some(1));
    assert_eq!(output.stderr, b"e\n".to_vec());
}

#[test]
fn output_with_one_stderr_line_and_exit_zero() {
    let events = vec![CommandEvent::Stderr(b"only line".to_vec()), exit(Some(0), None)];
    let output = Output::collect(&events);
    assert_eq!(output.stdout, Vec::<u8>::new());
    assert_eq!(output.stderr, b"only line\n".to_vec());
    assert!(output.status.success());
}

#[test]
fn status_of_exit_code_one() {
    assert_eq!(ExitStatus::collect(&[exit(Some(1), None)]).code(), Some(1));
}
