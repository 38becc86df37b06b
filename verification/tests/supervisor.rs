use shell_process::event::{CommandEvent, Stream, TerminatedPayload};
use shell_process::supervisor::Supervisor;

fn terminated(code: Option<i32>, signal: Option<i32>) -> CommandEvent {
    CommandEvent::Terminated(TerminatedPayload { code, signal })
}

#[test]
fn new_supervisor_reads_both_pipes() {
    let supervisor = Supervisor::new();
    assert!(!supervisor.is_finished());
    assert!(supervisor.wants_read(Stream::Stdout));
    assert!(supervisor.wants_read(Stream::Stderr));
}

#[test]
fn exit_is_kept_back_until_both_pipes_are_drained() {
    let mut supervisor = Supervisor::new();
    assert_eq!(supervisor.on_exit(Some(0), None), Vec::<CommandEvent>::new());
    assert!(!supervisor.is_finished());
    assert_eq!(
        supervisor.on_read(Stream::Stdout, b"late line\n"),
        vec![CommandEvent::Stdout(b"late line".to_vec())]
    );
    assert_eq!(supervisor.on_read(Stream::Stdout, b""), Vec::<CommandEvent>::new());
    assert!(!supervisor.is_finished());
    assert!(!supervisor.wants_read(Stream::Stdout));
    assert!(supervisor.wants_read(Stream::Stderr));
    assert_eq!(supervisor.on_read(Stream::Stderr, b""), vec![terminated(Some(0), None)]);
    assert!(supervisor.is_finished());
}

#[test]
fn exit_after_drain_is_sent_at_once() {
    let mut supervisor = Supervisor::new();
    supervisor.on_read(Stream::Stdout, b"");
    supervisor.on_read(Stream::Stderr, b"");
    assert!(!supervisor.is_finished());
    assert_eq!(supervisor.on_exit(Some(3), None), vec![terminated(Some(3), None)]);
    assert!(supervisor.is_finished());
}

#[test]
fn last_record_comes_before_the_terminal_event() {
    let mut supervisor = Supervisor::new();
    supervisor.on_read(Stream::Stderr, b"");
    supervisor.on_read(Stream::Stdout, b"unterminated");
    supervisor.on_exit(Some(0), None);
    assert_eq!(
        supervisor.on_read(Stream::Stdout, b""),
        vec![CommandEvent::Stdout(b"unterminated".to_vec()), terminated(Some(0), None)]
    );
}

#[test]
fn nothing_is_sent_after_the_terminal_event() {
    let mut supervisor = Supervisor::new();
    supervisor.on_read(Stream::Stdout, b"");
    supervisor.on_read(Stream::Stderr, b"");
    supervisor.on_exit(Some(0), None);
    assert!(supervisor.is_finished());
    assert_eq!(supervisor.on_read(Stream::Stdout, b"x\n"), Vec::<CommandEvent>::new());
    assert_eq!(supervisor.on_read_error(Stream::Stderr, "e".to_string()), Vec::<CommandEvent>::new());
    assert_eq!(supervisor.on_exit(Some(1), None), Vec::<CommandEvent>::new());
    assert_eq!(supervisor.on_wait_error("w".to_string()), Vec::<CommandEvent>::new());
    assert!(supervisor.is_finished());
}

#[test]
fn only_the_first_return_of_the_wait_counts() {
    let mut supervisor = Supervisor::new();
    supervisor.on_exit(Some(7), None);
    supervisor.on_exit(Some(8), None);
    supervisor.on_wait_error("ignored".to_string());
    supervisor.on_read(Stream::Stdout, b"");
    assert_eq!(supervisor.on_read(Stream::Stderr, b""), vec![terminated(Some(7), None)]);
}

#[test]
fn wait_failure_stands_in_for_the_terminal_event() {
    let mut supervisor = Supervisor::new();
    assert_eq!(supervisor.on_wait_error("no child".to_string()), Vec::<CommandEvent>::new());
    supervisor.on_read(Stream::Stdout, b"");
    assert_eq!(
        supervisor.on_read(Stream::Stderr, b""),
        vec![CommandEvent::Error("no child".to_string())]
    );
    assert!(supervisor.is_finished());
    assert_eq!(supervisor.on_exit(Some(0), None), Vec::<CommandEvent>::new());
}

#[test]
fn read_failure_closes_one_pipe_only() {
    let mut supervisor = Supervisor::new();
    assert_eq!(
        supervisor.on_read_error(Stream::Stdout, "bad read".to_string()),
        vec![CommandEvent::Error("bad read".to_string())]
    );
    assert!(!supervisor.wants_read(Stream::Stdout));
    assert!(supervisor.wants_read(Stream::Stderr));
    assert_eq!(
        supervisor.on_read(Stream::Stderr, b"still here\n"),
        vec![CommandEvent::Stderr(b"still here".to_vec())]
    );
    supervisor.on_exit(None, Some(9));
    assert_eq!(supervisor.on_read(Stream::Stderr, b""), vec![terminated(None, Some(9))]);
}

#[test]
fn read_failure_can_release_the_terminal_event() {
    let mut supervisor = Supervisor::new();
    supervisor.on_exit(Some(2), None);
    supervisor.on_read(Stream::Stdout, b"");
    assert_eq!(
        supervisor.on_read_error(Stream::Stderr, "gone".to_string()),
        vec![CommandEvent::Error("gone".to_string()), terminated(Some(2), None)]
    );
    assert!(supervisor.is_finished());
}

#[test]
fn streams_are_split_independently() {
    let mut supervisor = Supervisor::new();
    assert_eq!(supervisor.on_read(Stream::Stdout, b"out"), Vec::<CommandEvent>::new());
    assert_eq!(supervisor.on_read(Stream::Stderr, b"err"), Vec::<CommandEvent>::new());
    assert_eq!(
        supervisor.on_read(Stream::Stdout, b"put\n"),
        vec![CommandEvent::Stdout(b"output".to_vec())]
    );
    assert_eq!(
        supervisor.on_read(Stream::Stderr, b"or\r"),
        vec![CommandEvent::Stderr(b"error".to_vec())]
    );
}

#[test]
fn stdout_events_are_the_records_of_stdout_in_order() {
    let stream: &[u8] = b"first\nsecond\r\nthird";
    let mut supervisor = Supervisor::new();
    let mut events = Vec::new();
    for chunk in stream.chunks(4) {
        events.extend(supervisor.on_read(Stream::Stdout, chunk));
        events.extend(supervisor.on_read(Stream::Stderr, b"noise\n"));
    }
    events.extend(supervisor.on_read(Stream::Stdout, b""));
    let stdout: Vec<Vec<u8>> = events
        .iter()
        .filter_map(|e| match e {
            CommandEvent::Stdout(record) => Some(record.clone()),
            _ => None,
        })
        .collect();
    assert_eq!(
        stdout,
        vec![b"first".to_vec(), b"second".to_vec(), Vec::new(), b"third".to_vec()]
    );
}

#[test]
fn terminated_is_the_last_event_of_a_spawn() {
    let mut supervisor = Supervisor::new();
    let mut events = Vec::new();
    events.extend(supervisor.on_read(Stream::Stdout, b"a\nb"));
    events.extend(supervisor.on_exit(Some(0), None));
    events.extend(supervisor.on_read(Stream::Stderr, b"warn\n"));
    events.extend(supervisor.on_read(Stream::Stderr, b""));
    events.extend(supervisor.on_read(Stream::Stdout, b""));
    events.extend(supervisor.on_read(Stream::Stdout, b"ignored\n"));
    events.extend(supervisor.on_exit(Some(5), None));
    let at: Vec<usize> = events
        .iter()
        .enumerate()
        .filter(|(_, e)| matches!(e, CommandEvent::Terminated(_)))
        .map(|(i, _)| i)
        .collect();
    assert_eq!(at, vec![events.len() - 1]);
    assert_eq!(events.len(), 4);
}
