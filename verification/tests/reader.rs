use shell_process::event::{tag, CommandEvent, Stream};
use shell_process::guard::CompletionGuard;
use shell_process::reader::{PipeReader, ReaderState};

#[test]
fn tag_wraps_record_in_event_of_its_stream() {
    assert_eq!(tag(Stream::Stdout, b"x".to_vec()), CommandEvent::Stdout(b"x".to_vec()));
    assert_eq!(tag(Stream::Stderr, b"x".to_vec()), CommandEvent::Stderr(b"x".to_vec()));
}

#[test]
fn new_reader_is_open() {
    let reader = PipeReader::new(Stream::Stderr);
    assert_eq!(reader.stream(), Stream::Stderr);
    assert_eq!(reader.state(), ReaderState::Open);
    assert!(reader.is_open());
}

#[test]
fn read_sends_one_event_per_completed_record() {
    let mut reader = PipeReader::new(Stream::Stdout);
    let events = reader.on_read(b"one\ntwo\r\nthr");
    assert_eq!(
        events,
        vec![
            CommandEvent::Stdout(b"one".to_vec()),
            CommandEvent::Stdout(b"two".to_vec()),
            CommandEvent::Stdout(Vec::new()),
        ]
    );
    assert!(reader.is_open());
    let events = reader.on_read(b"ee\n");
    assert_eq!(events, vec![CommandEvent::Stdout(b"three".to_vec())]);
}

#[test]
fn read_of_no_bytes_ends_the_stream_and_flushes() {
    let mut reader = PipeReader::new(Stream::Stderr);
    assert_eq!(reader.on_read(b"no newline"), Vec::<CommandEvent>::new());
    let events = reader.on_read(b"");
    assert_eq!(events, vec![CommandEvent::Stderr(b"no newline".to_vec())]);
    assert_eq!(reader.state(), ReaderState::Ended);
    assert!(!reader.is_open());
}

#[test]
fn end_on_a_record_boundary_sends_nothing() {
    let mut reader = PipeReader::new(Stream::Stdout);
    assert_eq!(reader.on_read(b"line\n"), vec![CommandEvent::Stdout(b"line".to_vec())]);
    assert_eq!(reader.on_read(b""), Vec::<CommandEvent>::new());
    assert_eq!(reader.state(), ReaderState::Ended);
}

#[test]
fn ended_reader_sends_nothing_more() {
    let mut reader = PipeReader::new(Stream::Stdout);
    reader.on_read(b"");
    assert_eq!(reader.on_read(b"late\n"), Vec::<CommandEvent>::new());
    assert_eq!(reader.on_error("late".to_string()), Vec::<CommandEvent>::new());
    assert_eq!(reader.state(), ReaderState::Ended);
}

#[test]
fn failed_read_sends_one_error_and_stops() {
    let mut reader = PipeReader::new(Stream::Stdout);
    assert_eq!(reader.on_read(b"ok\npart"), vec![CommandEvent::Stdout(b"ok".to_vec())]);
    let events = reader.on_error("broken pipe".to_string());
    assert_eq!(events, vec![CommandEvent::Error("broken pipe".to_string())]);
    assert_eq!(reader.state(), ReaderState::Failed);
    assert_eq!(reader.on_read(b"more\n"), Vec::<CommandEvent>::new());
    assert_eq!(reader.on_read(b""), Vec::<CommandEvent>::new());
    assert_eq!(reader.on_error("again".to_string()), Vec::<CommandEvent>::new());
    assert_eq!(reader.state(), ReaderState::Failed);
}

#[test]
fn guard_is_free_once_every_reader_has_released() {
    let mut guard = CompletionGuard::new(2);
    assert!(!guard.try_exclusive());
    guard.release_shared();
    assert!(!guard.try_exclusive());
    guard.release_shared();
    assert!(guard.try_exclusive());
    guard.release_shared();
    assert!(guard.try_exclusive());
}

#[test]
fn guard_without_readers_is_free() {
    assert!(CompletionGuard::new(0).try_exclusive());
}
