//! The run subcommand: its options and the state machine that drives one run.
//!
//! The machine decides; the caller performs each [`Action`] (a metadata store
//! request, spawning the child, capturing its output, uploading) and hands
//! back what happened as an [`Event`].
use vstd::prelude::*;
use crate::git::opt_view;
use crate::props::{ExecutionProperties, PropertyValue, ValueView, entries_view};
use crate::text::{find_char, first_index, first_line, first_line_of, integer_text, parse_i32, trim, trimmed};
use crate::util::MetadataStoreOpt;
use vstd::string::*;

verus! {

/// A `KEY=VALUE` assignment given on the command line.
#[derive(Clone, Debug)]
pub struct KeyValue {
    pub key: String,
    pub value: String,
}

impl KeyValue {
    /// Splits `KEY=VALUE` at its first `=`. Without one, the whole text is the
    /// key and the value is the one given (the caller reads it from the
    /// environment variable of that name); `None` when there is none.
    pub fn parse(s: &str, value_from_env: Option<String>) -> (r: Option<KeyValue>)
        ensures
            match first_index(s@, '=') {
                Some(i) => r matches Some(kv) && kv.key@ == s@.subrange(0, i) && kv.value@
                    == s@.subrange(i + 1, s@.len() as int),
                None => match value_from_env {
                    Some(v) => r matches Some(kv) && kv.key@ == s@ && kv.value == v,
                    None => r is None,
                },
            },
    {
        match find_char(s, '=') {
            Some(i) => {
                let n = s.unicode_len();
                Some(
                    KeyValue {
                        key: s.substring_char(0, i).to_owned(),
                        value: s.substring_char(i + 1, n).to_owned(),
                    },
                )
            },
            None => match value_from_env {
                Some(v) => Some(KeyValue { key: s.to_owned(), value: v }),
                None => None,
            },
        }
    }
}

/// The URI that an uploader reported: the first line of its output, trimmed,
/// when it succeeded and that line is not blank.
pub open spec fn reported_uri(success: bool, output: Seq<char>) -> Option<Seq<char>> {
    if success && trimmed(first_line(output)).len() > 0 {
        Some(trimmed(first_line(output)))
    } else {
        None
    }
}

/// Reads the URI from what the uploader printed and whether it exited successfully.
pub fn uploaded_uri(success: bool, output: &str) -> (r: Option<String>)
    ensures
        opt_view(r) == reported_uri(success, output@),
{
    if !success {
        return None;
    }
    let line = trim(first_line_of(output));
    if line.as_str().unicode_len() == 0 {
        None
    } else {
        Some(line)
    }
}

/// Options of one run.
pub struct RunOpt {
    pub mlmd: MetadataStoreOpt,
    pub envs: Vec<KeyValue>,
    pub secret_envs: Vec<KeyValue>,
    pub custom_properties: Vec<KeyValue>,
    pub execution_name: Option<String>,
    pub execution_id_envvar: String,
    pub context_name: Option<String>,
    pub storage: Option<String>,
    pub result_dir: Option<String>,
    pub sweep_result_dir: bool,
    pub forbid_dirty: bool,
    pub command_name: String,
    pub command_args: Vec<String>,
}

/// Lifecycle state of an execution record.
#[derive(Clone, Copy, Debug, PartialEq, Eq, Structural)]
pub enum ExecState {
    New,
    Running,
    Complete,
    Failed,
}

/// The metadata store request that failed.
#[derive(Clone, Copy, Debug, PartialEq, Eq, Structural)]
pub enum StoreStep {
    RegisterType,
    PostExecution,
    RegisterContextType,
    PostContext,
    LookupContext,
    Associate,
    MarkRunning,
    MarkTerminal,
}

/// Why a run failed.
#[derive(Clone, Copy, Debug, PartialEq, Eq, Structural)]
pub enum RunError {
    /// The working tree has uncommitted changes and dirty runs are forbidden.
    DirtyTree,
    /// A metadata store request failed.
    Store(StoreStep),
    /// The execution name is already used by another execution of this type.
    NameCollision,
    /// The inherited context id is not an integer.
    MalformedContextId,
    /// The context could neither be created nor found.
    ContextNotFound,
    /// The child process could not be spawned.
    Spawn,
    /// Reading or saving the child's output failed.
    Capture,
    /// The child did not exit with status 0.
    ChildFailed,
    /// An event came that the current phase does not expect.
    OutOfOrder,
}

/// How a metadata store request failed.
#[derive(Clone, Copy, Debug, PartialEq, Eq, Structural)]
pub enum StoreFailure {
    NameAlreadyExists,
    Other,
}

/// How the child's run ended.
#[derive(Clone, Copy, Debug, PartialEq, Eq, Structural)]
pub enum ExitOutcome {
    /// The child exited; its exit code, absent when a signal ended it.
    Exited(Option<i32>),
    /// Reading or saving its output failed.
    CaptureFailed,
}

/// The context id inherited from a parent run, if any.
#[derive(Clone, Copy, Debug, PartialEq, Eq, Structural)]
pub enum AmbientContext {
    Absent,
    Id(i32),
    Malformed,
}

/// Where a run stands.
#[derive(Clone, Copy, Debug, PartialEq, Eq, Structural)]
pub enum Phase {
    RegisteringType,
    PostingExecution,
    RegisteringContextType,
    PostingContext,
    LookingUpContext,
    Associating,
    Spawning,
    MarkingRunning,
    Capturing,
    Uploading,
    Finalizing,
    Finished,
}

/// What happened after an action was performed.
pub enum Event {
    TypeRegistered(Result<i32, StoreFailure>),
    ExecutionPosted(Result<i32, StoreFailure>),
    ContextTypeRegistered(Result<i32, StoreFailure>),
    ContextPosted(Result<i32, StoreFailure>),
    ContextsFound(Result<Vec<i32>, StoreFailure>),
    Associated(Result<(), StoreFailure>),
    /// Whether the child was spawned.
    Spawned(bool),
    MarkedRunning(Result<(), StoreFailure>),
    Captured(ExitOutcome),
    /// The URIs of the uploaded stdout and stderr captures.
    Uploaded(Option<String>, Option<String>),
    TerminalWritten(Result<(), StoreFailure>),
}

/// What the caller is to do next.
#[derive(Clone, Copy, Debug, PartialEq, Eq, Structural)]
pub enum Action {
    /// Upsert the execution type with the property manifest.
    RegisterType,
    /// Create the execution record in state `New`.
    PostExecution { type_id: i32 },
    /// Upsert the context type.
    RegisterContextType,
    /// Create the named context.
    PostContext { context_type_id: i32 },
    /// Find the named context by type and name.
    LookupContext,
    /// Associate the execution with the context.
    Associate { context_id: i32, execution_id: i32 },
    /// Spawn the child with the run's environment.
    Spawn { execution_id: i32, context_id: Option<i32> },
    /// Mark the execution `Running`.
    MarkRunning { execution_id: i32 },
    /// Capture the child's output until it has exited.
    Capture,
    /// Upload the captures when `upload`; remove the result directory when `sweep`.
    Upload { upload: bool, sweep: bool },
    /// Write the terminal state with the final properties.
    MarkTerminal { execution_id: i32, state: ExecState },
    /// The run is over and succeeded.
    Succeed,
    /// The run is over and failed.
    Fail(RunError),
}

/// State of one run.
pub struct Orchestrator {
    pub phase: Phase,
    pub has_context_name: bool,
    pub ambient_context: AmbientContext,
    pub storage: Option<String>,
    pub sweep: bool,
    /// Meaningful once the execution was posted.
    pub execution_id: i32,
    pub context_id: Option<i32>,
    pub outcome: Option<ExitOutcome>,
    pub stdout_uri: Option<String>,
    pub stderr_uri: Option<String>,
}

/// Reads the context id inherited from a parent run, given the text of its
/// environment variable.
pub fn ambient_context(text: Option<&str>) -> (r: AmbientContext)
    ensures
        r == (match text {
            None => AmbientContext::Absent,
            Some(t) => match integer_text(t@) {
                Some(v) => if i32::MIN <= v <= i32::MAX {
                    AmbientContext::Id(v as i32)
                } else {
                    AmbientContext::Malformed
                },
                None => AmbientContext::Malformed,
            },
        }),
{
    match text {
        None => AmbientContext::Absent,
        Some(t) => match parse_i32(t) {
            Some(v) => AmbientContext::Id(v),
            None => AmbientContext::Malformed,
        },
    }
}

/// The name of the environment variable that carries the context id to a child.
pub open spec fn context_id_envvar_spec() -> Seq<char> {
    "MOG_CONTEXT_ID"@
}

pub fn context_id_envvar() -> (r: String)
    ensures
        r@ == context_id_envvar_spec(),
{
    proof {
        reveal_strlit("MOG_CONTEXT_ID");
    }
    "MOG_CONTEXT_ID".to_owned()
}

/// The keys and values of a list of assignments.
pub open spec fn pairs_of(kvs: Seq<KeyValue>) -> Seq<(Seq<char>, Seq<char>)> {
    kvs.map_values(|kv: KeyValue| (kv.key@, kv.value@))
}

/// The assignments of a list of string pairs.
pub open spec fn string_pairs(v: Seq<(String, String)>) -> Seq<(Seq<char>, Seq<char>)> {
    v.map_values(|p: (String, String)| (p.0@, p.1@))
}

/// The variables set for the child, in the order in which they are applied
/// (a later one wins): the plain assignments, the secret ones, the context id
/// when there is one, and the execution id under the configured name.
pub open spec fn child_environment(
    opt: RunOpt,
    execution_id: Seq<char>,
    context_id: Option<Seq<char>>,
) -> Seq<(Seq<char>, Seq<char>)> {
    pairs_of(opt.envs@) + pairs_of(opt.secret_envs@) + match context_id {
        Some(c) => seq![(context_id_envvar_spec(), c)],
        None => seq![],
    } + seq![(opt.execution_id_envvar@, execution_id)]
}

pub(crate) fn push_assignments(r: &mut Vec<(String, String)>, kvs: &Vec<KeyValue>)
    ensures
        string_pairs(final(r)@) == string_pairs(old(r)@) + pairs_of(kvs@),
{
    let ghost start = r@;
    let mut i: usize = 0;
    while i < kvs.len()
        invariant
            i <= kvs@.len(),
            string_pairs(r@) == string_pairs(start) + pairs_of(kvs@.subrange(0, i as int)),
        decreases kvs@.len() - i,
    {
        let kv = &kvs[i];
        let ghost before = r@;
        r.push((kv.key.clone(), kv.value.clone()));
        proof {
            assert(string_pairs(r@) =~= string_pairs(before).push((kv.key@, kv.value@)));
            assert(pairs_of(kvs@.subrange(0, i + 1)) =~= pairs_of(kvs@.subrange(0, i as int)).push(
                (kvs@[i as int].key@, kvs@[i as int].value@),
            ));
            assert(string_pairs(r@) =~= string_pairs(start) + pairs_of(kvs@.subrange(0, i + 1)));
        }
        i = i + 1;
    }
    proof {
        assert(kvs@.subrange(0, kvs@.len() as int) =~= kvs@);
    }
}

/// The environment assignments for the child; the ids are given as decimal text.
pub fn spawn_environment(opt: &RunOpt, execution_id: &str, context_id: Option<&str>) -> (r: Vec<
    (String, String),
>)
    ensures
        string_pairs(r@) == child_environment(
            *opt,
            execution_id@,
            match context_id {
                Some(c) => Some(c@),
                None => None,
            },
        ),
{
    let mut r: Vec<(String, String)> = Vec::new();
    proof {
        assert(string_pairs(r@) =~= Seq::<(Seq<char>, Seq<char>)>::empty());
    }
    push_assignments(&mut r, &opt.envs);
    push_assignments(&mut r, &opt.secret_envs);
    if let Some(c) = context_id {
        r.push((context_id_envvar(), c.to_owned()));
    }
    r.push((opt.execution_id_envvar.clone(), execution_id.to_owned()));
    proof {
        let ctx = match context_id {
            Some(c) => Some(c@),
            None => None,
        };
        assert(string_pairs(r@) =~= child_environment(*opt, execution_id@, ctx));
    }
    r
}

/// The terminal state that an outcome earns: `Complete` exactly for exit status 0.
pub open spec fn terminal_state(outcome: Option<ExitOutcome>) -> ExecState {
    if outcome == Some(ExitOutcome::Exited(Some(0))) {
        ExecState::Complete
    } else {
        ExecState::Failed
    }
}

/// The error with which a run ends that did not complete.
pub open spec fn child_error(outcome: Option<ExitOutcome>) -> RunError {
    if outcome == Some(ExitOutcome::CaptureFailed) {
        RunError::Capture
    } else {
        RunError::ChildFailed
    }
}

impl Orchestrator {
    /// A run that has done nothing yet.
    pub open spec fn initial(
        has_context_name: bool,
        ambient_context: AmbientContext,
        storage: Option<String>,
        sweep: bool,
    ) -> Orchestrator {
        Orchestrator {
            phase: Phase::RegisteringType,
            has_context_name,
            ambient_context,
            storage,
            sweep,
            execution_id: 0,
            context_id: None,
            outcome: None,
            stdout_uri: None,
            stderr_uri: None,
        }
    }

    /// The properties written with the terminal state, in this order: `storage`
    /// when configured, `stdout_uri` and `stderr_uri` when uploaded, and
    /// `exit_code` when the child exited with a code.
    pub open spec fn terminal_entries(self) -> Seq<(Seq<char>, ValueView)> {
        let storage = match self.storage {
            Some(s) => seq![("storage"@, ValueView::Text(s@))],
            None => seq![],
        };
        let out = match self.stdout_uri {
            Some(u) => seq![("stdout_uri"@, ValueView::Text(u@))],
            None => seq![],
        };
        let err = match self.stderr_uri {
            Some(u) => seq![("stderr_uri"@, ValueView::Text(u@))],
            None => seq![],
        };
        let code = match self.outcome {
            Some(ExitOutcome::Exited(Some(c))) => seq![("exit_code"@, ValueView::Int(c as int))],
            _ => seq![],
        };
        storage + out + err + code
    }

    pub open spec fn failed(self, err: RunError) -> (Orchestrator, Action) {
        (Orchestrator { phase: Phase::Finished, ..self }, Action::Fail(err))
    }

    pub open spec fn spawning(self) -> (Orchestrator, Action) {
        (
            Orchestrator { phase: Phase::Spawning, ..self },
            Action::Spawn { execution_id: self.execution_id, context_id: self.context_id },
        )
    }

    pub open spec fn associating(self, context_id: i32) -> (Orchestrator, Action) {
        (
            Orchestrator { phase: Phase::Associating, context_id: Some(context_id), ..self },
            Action::Associate { context_id, execution_id: self.execution_id },
        )
    }

    /// What follows the creation of the execution record.
    pub open spec fn after_posting(self) -> (Orchestrator, Action) {
        if self.has_context_name {
            (
                Orchestrator { phase: Phase::RegisteringContextType, ..self },
                Action::RegisterContextType,
            )
        } else {
            match self.ambient_context {
                AmbientContext::Absent => self.spawning(),
                AmbientContext::Id(c) => self.associating(c),
                AmbientContext::Malformed => self.failed(RunError::MalformedContextId),
            }
        }
    }

    /// The transition of the machine on one event: the next state and action.
    pub open spec fn next(self, e: Event) -> (Orchestrator, Action) {
        match (self.phase, e) {
            (Phase::RegisteringType, Event::TypeRegistered(Ok(t))) => (
                Orchestrator { phase: Phase::PostingExecution, ..self },
                Action::PostExecution { type_id: t },
            ),
            (Phase::RegisteringType, Event::TypeRegistered(Err(_))) => self.failed(
                RunError::Store(StoreStep::RegisterType),
            ),
            (Phase::PostingExecution, Event::ExecutionPosted(Ok(id))) => Orchestrator {
                execution_id: id,
                ..self
            }.after_posting(),
            (Phase::PostingExecution, Event::ExecutionPosted(Err(f))) => if f
                == StoreFailure::NameAlreadyExists {
                self.failed(RunError::NameCollision)
            } else {
                self.failed(RunError::Store(StoreStep::PostExecution))
            },
            (Phase::RegisteringContextType, Event::ContextTypeRegistered(Ok(t))) => (
                Orchestrator { phase: Phase::PostingContext, ..self },
                Action::PostContext { context_type_id: t },
            ),
            (Phase::RegisteringContextType, Event::ContextTypeRegistered(Err(_))) => self.failed(
                RunError::Store(StoreStep::RegisterContextType),
            ),
            (Phase::PostingContext, Event::ContextPosted(Ok(c))) => self.associating(c),
            (Phase::PostingContext, Event::ContextPosted(Err(f))) => if f
                == StoreFailure::NameAlreadyExists {
                (Orchestrator { phase: Phase::LookingUpContext, ..self }, Action::LookupContext)
            } else {
                self.failed(RunError::Store(StoreStep::PostContext))
            },
            (Phase::LookingUpContext, Event::ContextsFound(Ok(ids))) => if ids@.len() > 0 {
                self.associating(ids@[0])
            } else {
                self.failed(RunError::ContextNotFound)
            },
            (Phase::LookingUpContext, Event::ContextsFound(Err(_))) => self.failed(
                RunError::Store(StoreStep::LookupContext),
            ),
            (Phase::Associating, Event::Associated(Ok(_))) => self.spawning(),
            (Phase::Associating, Event::Associated(Err(_))) => self.failed(
                RunError::Store(StoreStep::Associate),
            ),
            (Phase::Spawning, Event::Spawned(spawned)) => if spawned {
                (
                    Orchestrator { phase: Phase::MarkingRunning, ..self },
                    Action::MarkRunning { execution_id: self.execution_id },
                )
            } else {
                self.failed(RunError::Spawn)
            },
            (Phase::MarkingRunning, Event::MarkedRunning(Ok(_))) => (
                Orchestrator { phase: Phase::Capturing, ..self },
                Action::Capture,
            ),
            (Phase::MarkingRunning, Event::MarkedRunning(Err(_))) => self.failed(
                RunError::Store(StoreStep::MarkRunning),
            ),
            (Phase::Capturing, Event::Captured(o)) => (
                Orchestrator { phase: Phase::Uploading, outcome: Some(o), ..self },
                Action::Upload { upload: self.storage is Some, sweep: self.sweep },
            ),
            (Phase::Uploading, Event::Uploaded(out, err)) => (
                Orchestrator {
                    phase: Phase::Finalizing,
                    stdout_uri: if self.storage is Some {
                        out
                    } else {
                        None
                    },
                    stderr_uri: if self.storage is Some {
                        err
                    } else {
                        None
                    },
                    ..self
                },
                Action::MarkTerminal {
                    execution_id: self.execution_id,
                    state: terminal_state(self.outcome),
                },
            ),
            (Phase::Finalizing, Event::TerminalWritten(Ok(_))) => if terminal_state(self.outcome)
                == ExecState::Complete {
                (Orchestrator { phase: Phase::Finished, ..self }, Action::Succeed)
            } else {
                self.failed(child_error(self.outcome))
            },
            (Phase::Finalizing, Event::TerminalWritten(Err(_))) => self.failed(
                RunError::Store(StoreStep::MarkTerminal),
            ),
            _ => self.failed(RunError::OutOfOrder),
        }
    }

    fn fail(&mut self, err: RunError) -> (a: Action)
        ensures
            (*final(self), a) == old(self).failed(err),
    {
        self.phase = Phase::Finished;
        Action::Fail(err)
    }

    fn spawn(&mut self) -> (a: Action)
        ensures
            (*final(self), a) == old(self).spawning(),
    {
        self.phase = Phase::Spawning;
        Action::Spawn { execution_id: self.execution_id, context_id: self.context_id }
    }

    fn associate(&mut self, context_id: i32) -> (a: Action)
        ensures
            (*final(self), a) == old(self).associating(context_id),
    {
        self.phase = Phase::Associating;
        self.context_id = Some(context_id);
        Action::Associate { context_id, execution_id: self.execution_id }
    }

    fn posted(&mut self) -> (a: Action)
        ensures
            (*final(self), a) == old(self).after_posting(),
    {
        if self.has_context_name {
            self.phase = Phase::RegisteringContextType;
            Action::RegisterContextType
        } else {
            match self.ambient_context {
                AmbientContext::Absent => self.spawn(),
                AmbientContext::Id(c) => self.associate(c),
                AmbientContext::Malformed => self.fail(RunError::MalformedContextId),
            }
        }
    }

    /// Advances the run by one event and says what to do next.
    pub fn step(&mut self, event: Event) -> (a: Action)
        ensures
            (*final(self), a) == old(self).next(event),
    {
        let phase = self.phase;
        match event {
            Event::TypeRegistered(r) => {
                if phase != Phase::RegisteringType {
                    return self.fail(RunError::OutOfOrder);
                }
                match r {
                    Ok(t) => {
                        self.phase = Phase::PostingExecution;
                        Action::PostExecution { type_id: t }
                    },
                    Err(_) => self.fail(RunError::Store(StoreStep::RegisterType)),
                }
            },
            Event::ExecutionPosted(r) => {
                if phase != Phase::PostingExecution {
                    return self.fail(RunError::OutOfOrder);
                }
                match r {
                    Ok(id) => {
                        self.execution_id = id;
                        self.posted()
                    },
                    Err(StoreFailure::NameAlreadyExists) => self.fail(RunError::NameCollision),
                    Err(StoreFailure::Other) => self.fail(
                        RunError::Store(StoreStep::PostExecution),
                    ),
                }
            },
            Event::ContextTypeRegistered(r) => {
                if phase != Phase::RegisteringContextType {
                    return self.fail(RunError::OutOfOrder);
                }
                match r {
                    Ok(t) => {
                        self.phase = Phase::PostingContext;
                        Action::PostContext { context_type_id: t }
                    },
                    Err(_) => self.fail(RunError::Store(StoreStep::RegisterContextType)),
                }
            },
            Event::ContextPosted(r) => {
                if phase != Phase::PostingContext {
                    return self.fail(RunError::OutOfOrder);
                }
                match r {
                    Ok(c) => self.associate(c),
                    Err(StoreFailure::NameAlreadyExists) => {
                        self.phase = Phase::LookingUpContext;
                        Action::LookupContext
                    },
                    Err(StoreFailure::Other) => self.fail(RunError::Store(StoreStep::PostContext)),
                }
            },
            Event::ContextsFound(r) => {
                if phase != Phase::LookingUpContext {
                    return self.fail(RunError::OutOfOrder);
                }
                match r {
                    Ok(ids) => {
                        if ids.len() > 0 {
                            self.associate(ids[0])
                        } else {
                            self.fail(RunError::ContextNotFound)
                        }
                    },
                    Err(_) => self.fail(RunError::Store(StoreStep::LookupContext)),
                }
            },
            Event::Associated(r) => {
                if phase != Phase::Associating {
                    return self.fail(RunError::OutOfOrder);
                }
                match r {
                    Ok(_) => self.spawn(),
                    Err(_) => self.fail(RunError::Store(StoreStep::Associate)),
                }
            },
            Event::Spawned(spawned) => {
                if phase != Phase::Spawning {
                    return self.fail(RunError::OutOfOrder);
                }
                if spawned {
                    self.phase = Phase::MarkingRunning;
                    Action::MarkRunning { execution_id: self.execution_id }
                } else {
                    self.fail(RunError::Spawn)
                }
            },
            Event::MarkedRunning(r) => {
                if phase != Phase::MarkingRunning {
                    return self.fail(RunError::OutOfOrder);
                }
                match r {
                    Ok(_) => {
                        self.phase = Phase::Capturing;
                        Action::Capture
                    },
                    Err(_) => self.fail(RunError::Store(StoreStep::MarkRunning)),
                }
            },
            Event::Captured(o) => {
                if phase != Phase::Capturing {
                    return self.fail(RunError::OutOfOrder);
                }
                self.phase = Phase::Uploading;
                self.outcome = Some(o);
                Action::Upload { upload: self.storage.is_some(), sweep: self.sweep }
            },
            Event::Uploaded(out, err) => {
                if phase != Phase::Uploading {
                    return self.fail(RunError::OutOfOrder);
                }
                let upload = self.storage.is_some();
                self.phase = Phase::Finalizing;
                self.stdout_uri = if upload {
                    out
                } else {
                    None
                };
                self.stderr_uri = if upload {
                    err
                } else {
                    None
                };
                Action::MarkTerminal {
                    execution_id: self.execution_id,
                    state: self.final_state(),
                }
            },
            Event::TerminalWritten(r) => {
                if phase != Phase::Finalizing {
                    return self.fail(RunError::OutOfOrder);
                }
                match r {
                    Ok(_) => {
                        if self.final_state() == ExecState::Complete {
                            self.phase = Phase::Finished;
                            Action::Succeed
                        } else if self.outcome == Some(ExitOutcome::CaptureFailed) {
                            self.fail(RunError::Capture)
                        } else {
                            self.fail(RunError::ChildFailed)
                        }
                    },
                    Err(_) => self.fail(RunError::Store(StoreStep::MarkTerminal)),
                }
            },
        }
    }

    /// A run once its provenance was built, with its first action. With a
    /// provenance it registers the execution type; a rejected provenance (such
    /// as a dirty tree where dirty runs are forbidden) ends the run at once with
    /// that error, before any store request.
    pub fn start(
        opt: &RunOpt,
        provenance: &Result<ExecutionProperties, RunError>,
        ambient_context: AmbientContext,
    ) -> (r: (Orchestrator, Action))
        ensures
            provenance is Ok ==> r == (start_of(*opt, ambient_context), Action::RegisterType),
            *provenance matches Err(e) ==> r == (rejected_of(*opt, ambient_context), Action::Fail(e)),
    {
        let (mut m, a) = Orchestrator::new(opt, ambient_context);
        match provenance {
            Ok(_) => (m, a),
            Err(e) => {
                let f = m.fail(*e);
                (m, f)
            },
        }
    }

    /// A run at its start, with the first action: register the execution type.
    pub fn new(opt: &RunOpt, ambient_context: AmbientContext) -> (r: (Orchestrator, Action))
        ensures
            r.0 == Orchestrator::initial(
                opt.context_name is Some,
                ambient_context,
                opt.storage,
                opt.result_dir is Some && opt.sweep_result_dir,
            ),
            r.1 == Action::RegisterType,
    {
        let storage = match &opt.storage {
            Some(s) => Some(s.clone()),
            None => None,
        };
        (
            Orchestrator {
                phase: Phase::RegisteringType,
                has_context_name: opt.context_name.is_some(),
                ambient_context,
                storage,
                sweep: opt.result_dir.is_some() && opt.sweep_result_dir,
                execution_id: 0,
                context_id: None,
                outcome: None,
                stdout_uri: None,
                stderr_uri: None,
            },
            Action::RegisterType,
        )
    }

    /// The final properties written with the terminal state: the storage
    /// location, the URIs of the uploaded captures, and the exit code.
    pub fn terminal_properties(&self) -> (r: Vec<(String, PropertyValue)>)
        ensures
            entries_view(r@) == self.terminal_entries(),
    {
        let mut r: Vec<(String, PropertyValue)> = Vec::new();
        if let Some(s) = &self.storage {
            r.push(("storage".to_owned(), PropertyValue::String(s.clone())));
        }
        if let Some(u) = &self.stdout_uri {
            r.push(("stdout_uri".to_owned(), PropertyValue::String(u.clone())));
        }
        if let Some(u) = &self.stderr_uri {
            r.push(("stderr_uri".to_owned(), PropertyValue::String(u.clone())));
        }
        if let Some(ExitOutcome::Exited(Some(code))) = self.outcome {
            r.push(("exit_code".to_owned(), PropertyValue::Int(code)));
        }
        proof {
            reveal_strlit("storage");
            reveal_strlit("stdout_uri");
            reveal_strlit("stderr_uri");
            reveal_strlit("exit_code");
            assert(entries_view(r@) =~= self.terminal_entries());
        }
        r
    }

    /// The terminal state that the run's outcome earns.
    pub fn final_state(&self) -> (r: ExecState)
        ensures
            r == terminal_state(self.outcome),
    {
        if self.outcome == Some(ExitOutcome::Exited(Some(0))) {
            ExecState::Complete
        } else {
            ExecState::Failed
        }
    }
}

/// The state in which a run with these options starts.
pub open spec fn start_of(opt: RunOpt, ambient: AmbientContext) -> Orchestrator {
    Orchestrator::initial(
        opt.context_name is Some,
        ambient,
        opt.storage,
        opt.result_dir is Some && opt.sweep_result_dir,
    )
}

/// A run with these options that ended before its first action.
pub open spec fn rejected_of(opt: RunOpt, ambient: AmbientContext) -> Orchestrator {
    Orchestrator { phase: Phase::Finished, ..start_of(opt, ambient) }
}

/// The actions that a run in state `s` takes on the events `evs`, one per event.
pub open spec fn trace(s: Orchestrator, evs: Seq<Event>) -> Seq<Action>
    decreases evs.len(),
{
    if evs.len() == 0 {
        seq![]
    } else {
        seq![s.next(evs[0]).1] + trace(s.next(evs[0]).0, evs.drop_first())
    }
}

/// How many times the actions create an execution record.
pub open spec fn posts(acts: Seq<Action>) -> nat
    decreases acts.len(),
{
    if acts.len() == 0 {
        0
    } else {
        (if acts[0] is PostExecution {
            1nat
        } else {
            0nat
        }) + posts(acts.drop_first())
    }
}

proof fn lemma_trace_unfold(s: Orchestrator, evs: Seq<Event>)
    requires
        evs.len() > 0,
    ensures
        trace(s, evs).len() == evs.len(),
        trace(s, evs)[0] == s.next(evs[0]).1,
        forall|k: int|
            1 <= k < evs.len() ==> #[trigger] trace(s, evs)[k] == trace(
                s.next(evs[0]).0,
                evs.drop_first(),
            )[k - 1],
{
    lemma_trace_len(s.next(evs[0]).0, evs.drop_first());
}

proof fn lemma_trace_len(s: Orchestrator, evs: Seq<Event>)
    ensures
        trace(s, evs).len() == evs.len(),
    decreases evs.len(),
{
    if evs.len() > 0 {
        lemma_trace_len(s.next(evs[0]).0, evs.drop_first());
    }
}

proof fn lemma_posts_bound(s: Orchestrator, evs: Seq<Event>)
    ensures
        posts(trace(s, evs)) <= (if s.phase == Phase::RegisteringType {
            1nat
        } else {
            0nat
        }),
    decreases evs.len(),
{
    if evs.len() > 0 {
        let t = s.next(evs[0]).0;
        lemma_posts_bound(t, evs.drop_first());
        assert(trace(s, evs).drop_first() =~= trace(t, evs.drop_first()));
    }
}

proof fn lemma_spawn_preceded(s: Orchestrator, evs: Seq<Event>, k: int)
    requires
        0 <= k < trace(s, evs).len(),
        trace(s, evs)[k] is Spawn,
    ensures
        (s.phase != Phase::RegisteringType && s.phase != Phase::Finished) || exists|j: int|
            0 <= j < k && trace(s, evs)[j] is PostExecution,
    decreases evs.len(),
{
    lemma_trace_len(s, evs);
    lemma_trace_unfold(s, evs);
    let t = s.next(evs[0]).0;
    if k > 0 {
        lemma_trace_len(t, evs.drop_first());
        lemma_spawn_preceded(t, evs.drop_first(), k - 1);
        if exists|j: int| 0 <= j < k - 1 && trace(t, evs.drop_first())[j] is PostExecution {
            let j = choose|j: int| 0 <= j < k - 1 && trace(t, evs.drop_first())[j] is PostExecution;
            assert(trace(s, evs)[j + 1] is PostExecution);
        } else if s.phase == Phase::RegisteringType {
            assert(trace(s, evs)[0] is PostExecution);
        }
    }
}

proof fn lemma_terminal_from_capture(s: Orchestrator, evs: Seq<Event>, k: int)
    requires
        0 <= k < trace(s, evs).len(),
        trace(s, evs)[k] is MarkTerminal,
    ensures
        (s.phase == Phase::Uploading && k == 0 && trace(s, evs)[k]->state == terminal_state(
            s.outcome,
        )) || exists|j: int, o: ExitOutcome|
            0 <= j < k && evs[j] == Event::Captured(o) && trace(s, evs)[k]->state
                == terminal_state(Some(o)),
    decreases evs.len(),
{
    lemma_trace_len(s, evs);
    lemma_trace_unfold(s, evs);
    let t = s.next(evs[0]).0;
    let rest = evs.drop_first();
    if k > 0 {
        lemma_trace_len(t, rest);
        lemma_terminal_from_capture(t, rest, k - 1);
        if exists|j: int, o: ExitOutcome|
            0 <= j < k - 1 && rest[j] == Event::Captured(o) && trace(t, rest)[k - 1]->state
                == terminal_state(Some(o)) {
            let (j, o) = choose|j: int, o: ExitOutcome|
                0 <= j < k - 1 && rest[j] == Event::Captured(o) && trace(t, rest)[k - 1]->state
                    == terminal_state(Some(o));
            assert(evs[j + 1] == Event::Captured(o));
        } else {
            let o = evs[0]->Captured_0;
            assert(evs[0] == Event::Captured(o));
        }
    }
}

proof fn lemma_finished_stays(s: Orchestrator, evs: Seq<Event>)
    requires
        s.phase == Phase::Finished,
    ensures
        forall|k: int|
            0 <= k < evs.len() ==> #[trigger] trace(s, evs)[k] == Action::Fail(RunError::OutOfOrder),
    decreases evs.len(),
{
    if evs.len() > 0 {
        lemma_trace_unfold(s, evs);
        lemma_finished_stays(s.next(evs[0]).0, evs.drop_first());
    }
}

/// A run whose provenance was rejected (a dirty tree where dirty runs are
/// forbidden) makes no store request and spawns nothing: whatever events come,
/// it only reports that it is over.
pub proof fn lemma_rejected_run_writes_nothing(opt: RunOpt, ambient: AmbientContext, evs: Seq<Event>)
    ensures
        forall|k: int|
            0 <= k < evs.len() ==> #[trigger] trace(rejected_of(opt, ambient), evs)[k]
                == Action::Fail(RunError::OutOfOrder),
{
    lemma_finished_stays(rejected_of(opt, ambient), evs);
}

/// Every run creates its execution record at most once, and creates it when
/// the execution type was registered; the child is spawned only after the
/// record was created.
pub proof fn lemma_one_record_before_spawn(
    opt: RunOpt,
    ambient: AmbientContext,
    evs: Seq<Event>,
)
    ensures
        posts(trace(start_of(opt, ambient), evs)) <= 1,
        evs.len() > 0 ==> (evs[0] matches Event::TypeRegistered(Ok(t)) ==> trace(
            start_of(opt, ambient),
            evs,
        )[0] == Action::PostExecution { type_id: t }),
        forall|k: int|
            0 <= k < evs.len() && (#[trigger] trace(start_of(opt, ambient), evs)[k]) is Spawn
                ==> exists|j: int|
                0 <= j < k && trace(start_of(opt, ambient), evs)[j] is PostExecution,
{
    let s = start_of(opt, ambient);
    lemma_posts_bound(s, evs);
    lemma_trace_len(s, evs);
    if evs.len() > 0 {
        lemma_trace_unfold(s, evs);
    }
    assert forall|k: int|
        0 <= k < evs.len() && (#[trigger] trace(s, evs)[k]) is Spawn implies exists|j: int|
            0 <= j < k && trace(s, evs)[j] is PostExecution by {
        lemma_spawn_preceded(s, evs, k);
    }
}

/// The terminal state that a run writes is `Complete` exactly when the child
/// exited with status 0 and its output was captured, and `Failed` otherwise.
pub proof fn lemma_terminal_state_follows_exit(
    opt: RunOpt,
    ambient: AmbientContext,
    evs: Seq<Event>,
    k: int,
)
    requires
        0 <= k < evs.len(),
        trace(start_of(opt, ambient), evs)[k] is MarkTerminal,
    ensures
        exists|j: int, o: ExitOutcome|
            0 <= j < k && evs[j] == Event::Captured(o) && (trace(start_of(opt, ambient), evs)[k]->state
                == ExecState::Complete <==> o == ExitOutcome::Exited(Some(0))),
{
    lemma_trace_len(start_of(opt, ambient), evs);
    lemma_terminal_from_capture(start_of(opt, ambient), evs, k);
}

/// Two runs that ask for the same new context converge on one id: the one whose
/// create succeeds associates the id it created; the one whose create fails
/// because the name exists looks the context up, and associates the first
/// match, which is that id.
pub proof fn lemma_context_race(a: Orchestrator, b: Orchestrator, id: i32, found: Vec<i32>)
    requires
        a.phase == Phase::PostingContext,
        b.phase == Phase::PostingContext,
        found@.len() > 0,
        found@[0] == id,
    ensures
        a.next(Event::ContextPosted(Ok(id))).1 == (Action::Associate {
            context_id: id,
            execution_id: a.execution_id,
        }),
        a.next(Event::ContextPosted(Ok(id))).0.context_id == Some(id),
        b.next(Event::ContextPosted(Err(StoreFailure::NameAlreadyExists))).1
            == Action::LookupContext,
        ({
            let b1 = b.next(Event::ContextPosted(Err(StoreFailure::NameAlreadyExists))).0;
            &&& b1.next(Event::ContextsFound(Ok(found))).1 == (Action::Associate {
                context_id: id,
                execution_id: b.execution_id,
            })
            &&& b1.next(Event::ContextsFound(Ok(found))).0.context_id == Some(id)
        }),
{
}

} // verus!
