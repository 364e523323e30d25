use mog::capture::{CaptureEvent, CaptureStep, Stream, StreamCapture};
use mog::run::{
    context_id_envvar, spawn_environment, Action, AmbientContext, Event, ExecState, ExitOutcome,
    KeyValue, Orchestrator, RunError, RunOpt, StoreFailure, StoreStep,
};
use mog::props::PropertyValue;
use mog::util::MetadataStoreOpt;

fn opt() -> RunOpt {
    RunOpt {
        mlmd: MetadataStoreOpt { database: "sqlite::memory:".to_string() },
        envs: vec![],
        secret_envs: vec![],
        custom_properties: vec![],
        execution_name: None,
        execution_id_envvar: "MLMD_EXECUTION_ID".to_string(),
        context_name: None,
        storage: None,
        result_dir: None,
        sweep_result_dir: false,
        forbid_dirty: false,
        command_name: "echo".to_string(),
        command_args: vec!["hello".to_string()],
    }
}

/// Drives a run up to the capture, checking each action.
fn started(o: &RunOpt) -> Orchestrator {
    let (mut m, a) = Orchestrator::new(o, AmbientContext::Absent);
    assert_eq!(a, Action::RegisterType);
    assert_eq!(m.step(Event::TypeRegistered(Ok(1))), Action::PostExecution { type_id: 1 });
    assert_eq!(m.step(Event::ExecutionPosted(Ok(7))), Action::Spawn { execution_id: 7, context_id: None });
    assert_eq!(m.step(Event::Spawned(true)), Action::MarkRunning { execution_id: 7 });
    assert_eq!(m.step(Event::MarkedRunning(Ok(()))), Action::Capture);
    m
}

fn capture(events: Vec<CaptureEvent>) -> (Vec<u8>, Vec<u8>, Option<ExitOutcome>) {
    let mut c = StreamCapture::new();
    let (mut out, mut err, mut end) = (vec![], vec![], None);
    for e in events {
        match c.step(&e) {
            CaptureStep::Save(Stream::Stdout) => {
                if let CaptureEvent::Data(_, b) = &e {
                    out.extend_from_slice(b)
                }
            }
            CaptureStep::Save(Stream::Stderr) => {
                if let CaptureEvent::Data(_, b) = &e {
                    err.extend_from_slice(b)
                }
            }
            CaptureStep::Wait => {}
            CaptureStep::Finish(o) => end = Some(o),
        }
    }
    (out, err, end)
}

fn exit_code(props: &[(String, PropertyValue)]) -> Option<i32> {
    props.iter().find_map(|(k, v)| match v {
        PropertyValue::Int(i) if k == "exit_code" => Some(*i),
        _ => None,
    })
}

#[test]
fn echo_hello_completes_with_exit_code_zero() {
    let (out, err, end) = capture(vec![
        CaptureEvent::Data(Stream::Stdout, b"hello\n".to_vec()),
        CaptureEvent::Closed(Stream::Stdout),
        CaptureEvent::Closed(Stream::Stderr),
        CaptureEvent::Exited(Some(0)),
    ]);
    assert_eq!(out, b"hello\n");
    assert!(err.is_empty());
    let mut m = started(&opt());
    let a = m.step(Event::Captured(end.unwrap()));
    assert_eq!(a, Action::Upload { upload: false, sweep: false });
    assert_eq!(
        m.step(Event::Uploaded(None, None)),
        Action::MarkTerminal { execution_id: 7, state: ExecState::Complete }
    );
    assert_eq!(exit_code(&m.terminal_properties()), Some(0));
    assert_eq!(m.step(Event::TerminalWritten(Ok(()))), Action::Succeed);
}

#[test]
fn false_fails_with_exit_code_one() {
    let mut m = started(&opt());
    m.step(Event::Captured(ExitOutcome::Exited(Some(1))));
    assert_eq!(
        m.step(Event::Uploaded(None, None)),
        Action::MarkTerminal { execution_id: 7, state: ExecState::Failed }
    );
    assert_eq!(exit_code(&m.terminal_properties()), Some(1));
    assert_eq!(m.step(Event::TerminalWritten(Ok(()))), Action::Fail(RunError::ChildFailed));
}

#[test]
fn capture_failure_fails_without_exit_code() {
    let mut m = started(&opt());
    m.step(Event::Captured(ExitOutcome::CaptureFailed));
    assert_eq!(
        m.step(Event::Uploaded(None, None)),
        Action::MarkTerminal { execution_id: 7, state: ExecState::Failed }
    );
    assert_eq!(exit_code(&m.terminal_properties()), None);
    assert_eq!(m.step(Event::TerminalWritten(Ok(()))), Action::Fail(RunError::Capture));
}

#[test]
fn killed_child_fails_without_exit_code() {
    let mut m = started(&opt());
    m.step(Event::Captured(ExitOutcome::Exited(None)));
    assert_eq!(
        m.step(Event::Uploaded(None, None)),
        Action::MarkTerminal { execution_id: 7, state: ExecState::Failed }
    );
    assert_eq!(exit_code(&m.terminal_properties()), None);
}

#[test]
fn storage_uris_are_recorded_after_upload() {
    let mut o = opt();
    o.storage = Some("/usr/bin/upload".to_string());
    o.result_dir = Some("out".to_string());
    o.sweep_result_dir = true;
    let mut m = started(&o);
    assert_eq!(
        m.step(Event::Captured(ExitOutcome::Exited(Some(0)))),
        Action::Upload { upload: true, sweep: true }
    );
    m.step(Event::Uploaded(Some("s3://o".to_string()), None));
    let names: Vec<String> = m.terminal_properties().into_iter().map(|(k, _)| k).collect();
    assert_eq!(names, vec!["storage", "stdout_uri", "exit_code"]);
}

#[test]
fn uris_are_ignored_without_storage() {
    let mut m = started(&opt());
    m.step(Event::Captured(ExitOutcome::Exited(Some(0))));
    m.step(Event::Uploaded(Some("s3://o".to_string()), Some("s3://e".to_string())));
    let names: Vec<String> = m.terminal_properties().into_iter().map(|(k, _)| k).collect();
    assert_eq!(names, vec!["exit_code"]);
}

#[test]
fn context_race_converges_on_one_id() {
    let mut o = opt();
    o.context_name = Some("exp".to_string());
    let mut runs = vec![];
    for created in [true, false] {
        let (mut m, _) = Orchestrator::new(&o, AmbientContext::Absent);
        m.step(Event::TypeRegistered(Ok(1)));
        assert_eq!(m.step(Event::ExecutionPosted(Ok(if created { 10 } else { 11 }))), Action::RegisterContextType);
        assert_eq!(m.step(Event::ContextTypeRegistered(Ok(2))), Action::PostContext { context_type_id: 2 });
        let a = if created {
            m.step(Event::ContextPosted(Ok(5)))
        } else {
            assert_eq!(m.step(Event::ContextPosted(Err(StoreFailure::NameAlreadyExists))), Action::LookupContext);
            m.step(Event::ContextsFound(Ok(vec![5, 9])))
        };
        runs.push(a);
        assert_eq!(m.step(Event::Associated(Ok(()))), Action::Spawn {
            execution_id: if created { 10 } else { 11 },
            context_id: Some(5),
        });
    }
    assert_eq!(runs[0], Action::Associate { context_id: 5, execution_id: 10 });
    assert_eq!(runs[1], Action::Associate { context_id: 5, execution_id: 11 });
}

#[test]
fn context_lookup_without_match_fails() {
    let mut o = opt();
    o.context_name = Some("exp".to_string());
    let (mut m, _) = Orchestrator::new(&o, AmbientContext::Absent);
    m.step(Event::TypeRegistered(Ok(1)));
    m.step(Event::ExecutionPosted(Ok(3)));
    m.step(Event::ContextTypeRegistered(Ok(2)));
    m.step(Event::ContextPosted(Err(StoreFailure::NameAlreadyExists)));
    assert_eq!(m.step(Event::ContextsFound(Ok(vec![]))), Action::Fail(RunError::ContextNotFound));
}

#[test]
fn inherited_context_is_associated() {
    let (mut m, _) = Orchestrator::new(&opt(), AmbientContext::Id(42));
    m.step(Event::TypeRegistered(Ok(1)));
    assert_eq!(m.step(Event::ExecutionPosted(Ok(3))), Action::Associate { context_id: 42, execution_id: 3 });
    assert_eq!(m.step(Event::Associated(Ok(()))), Action::Spawn { execution_id: 3, context_id: Some(42) });
}

#[test]
fn malformed_inherited_context_fails_after_posting() {
    let (mut m, _) = Orchestrator::new(&opt(), AmbientContext::Malformed);
    m.step(Event::TypeRegistered(Ok(1)));
    assert_eq!(m.step(Event::ExecutionPosted(Ok(3))), Action::Fail(RunError::MalformedContextId));
}

#[test]
fn spawn_failure_never_marks_running() {
    let (mut m, _) = Orchestrator::new(&opt(), AmbientContext::Absent);
    m.step(Event::TypeRegistered(Ok(1)));
    m.step(Event::ExecutionPosted(Ok(3)));
    assert_eq!(m.step(Event::Spawned(false)), Action::Fail(RunError::Spawn));
    assert_eq!(m.step(Event::MarkedRunning(Ok(()))), Action::Fail(RunError::OutOfOrder));
}

#[test]
fn store_failures_name_their_step() {
    let (mut m, _) = Orchestrator::new(&opt(), AmbientContext::Absent);
    assert_eq!(m.step(Event::TypeRegistered(Err(StoreFailure::Other))), Action::Fail(RunError::Store(StoreStep::RegisterType)));
    let (mut m, _) = Orchestrator::new(&opt(), AmbientContext::Absent);
    m.step(Event::TypeRegistered(Ok(1)));
    assert_eq!(m.step(Event::ExecutionPosted(Err(StoreFailure::NameAlreadyExists))), Action::Fail(RunError::NameCollision));
    let (mut m, _) = Orchestrator::new(&opt(), AmbientContext::Absent);
    m.step(Event::TypeRegistered(Ok(1)));
    assert_eq!(m.step(Event::ExecutionPosted(Err(StoreFailure::Other))), Action::Fail(RunError::Store(StoreStep::PostExecution)));
    let mut m = started(&opt());
    m.step(Event::Captured(ExitOutcome::Exited(Some(0))));
    m.step(Event::Uploaded(None, None));
    assert_eq!(m.step(Event::TerminalWritten(Err(StoreFailure::Other))), Action::Fail(RunError::Store(StoreStep::MarkTerminal)));
    let (mut m, _) = Orchestrator::new(&opt(), AmbientContext::Absent);
    m.step(Event::TypeRegistered(Ok(1)));
    m.step(Event::ExecutionPosted(Ok(3)));
    m.step(Event::Spawned(true));
    assert_eq!(m.step(Event::MarkedRunning(Err(StoreFailure::Other))), Action::Fail(RunError::Store(StoreStep::MarkRunning)));
}

#[test]
fn record_is_posted_once() {
    let (mut m, _) = Orchestrator::new(&opt(), AmbientContext::Absent);
    assert_eq!(m.step(Event::TypeRegistered(Ok(1))), Action::PostExecution { type_id: 1 });
    assert_eq!(m.step(Event::TypeRegistered(Ok(1))), Action::Fail(RunError::OutOfOrder));
    assert_eq!(m.step(Event::TypeRegistered(Ok(1))), Action::Fail(RunError::OutOfOrder));
}

#[test]
fn child_environment_order() {
    let mut o = opt();
    o.envs = vec![KeyValue { key: "A".to_string(), value: "1".to_string() }];
    o.secret_envs = vec![KeyValue { key: "TOKEN".to_string(), value: "xyz".to_string() }];
    let env = spawn_environment(&o, "7", Some("5"));
    let expect: Vec<(String, String)> = vec![
        ("A".to_string(), "1".to_string()),
        ("TOKEN".to_string(), "xyz".to_string()),
        (context_id_envvar(), "5".to_string()),
        ("MLMD_EXECUTION_ID".to_string(), "7".to_string()),
    ];
    assert_eq!(env, expect);
    assert_eq!(spawn_environment(&o, "7", None).len(), 3);
}

#[test]
fn capture_keeps_interleaved_bytes_per_stream() {
    let (out, err, end) = capture(vec![
        CaptureEvent::Data(Stream::Stderr, b"e1".to_vec()),
        CaptureEvent::Data(Stream::Stdout, b"o1".to_vec()),
        CaptureEvent::Exited(Some(3)),
        CaptureEvent::Data(Stream::Stdout, b"o2".to_vec()),
        CaptureEvent::Closed(Stream::Stdout),
        CaptureEvent::Data(Stream::Stderr, b"e2".to_vec()),
        CaptureEvent::Closed(Stream::Stderr),
    ]);
    assert_eq!(out, b"o1o2");
    assert_eq!(err, b"e1e2");
    assert_eq!(end, Some(ExitOutcome::Exited(Some(3))));
}

#[test]
fn capture_waits_for_both_streams_and_exit() {
    let mut c = StreamCapture::new();
    assert_eq!(c.step(&CaptureEvent::Closed(Stream::Stdout)), CaptureStep::Wait);
    assert_eq!(c.step(&CaptureEvent::Exited(Some(0))), CaptureStep::Wait);
    assert_eq!(c.step(&CaptureEvent::Closed(Stream::Stderr)), CaptureStep::Finish(ExitOutcome::Exited(Some(0))));
}

#[test]
fn capture_io_error_ends_capture() {
    let mut c = StreamCapture::new();
    assert_eq!(c.step(&CaptureEvent::Failed), CaptureStep::Finish(ExitOutcome::CaptureFailed));
    assert_eq!(c.step(&CaptureEvent::Failed), CaptureStep::Wait);
}

#[test]
fn rejected_provenance_ends_run_before_any_request() {
    let rejected: Result<mog::props::ExecutionProperties, RunError> = Err(RunError::DirtyTree);
    let (mut m, a) = Orchestrator::start(&opt(), &rejected, AmbientContext::Absent);
    assert_eq!(a, Action::Fail(RunError::DirtyTree));
    assert_eq!(m.step(Event::TypeRegistered(Ok(1))), Action::Fail(RunError::OutOfOrder));
}
