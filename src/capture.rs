//! Capture of a child's stdout and stderr.
//!
//! The two pipes are drained independently (one reader per pipe); each chunk
//! read, each end of file, the child's exit and any I/O failure arrive here as
//! a [`CaptureEvent`]. The capture saves every chunk to its own stream's file
//! and ends once the child has exited and both pipes have closed.
use vstd::prelude::*;
use crate::run::ExitOutcome;

verus! {

/// One of the child's output streams.
#[derive(Clone, Copy, Debug, PartialEq, Eq, Structural)]
pub enum Stream {
    Stdout,
    Stderr,
}

/// What a reader or the waiter observed.
pub enum CaptureEvent {
    /// Bytes read from a stream.
    Data(Stream, Vec<u8>),
    /// A stream reached end of file.
    Closed(Stream),
    /// The child exited, with its exit code when it has one.
    Exited(Option<i32>),
    /// Reading or writing a stream failed.
    Failed,
}

/// What to do with an event.
#[derive(Clone, Copy, Debug, PartialEq, Eq, Structural)]
pub enum CaptureStep {
    /// Append the chunk to this stream's file, then pass it through.
    Save(Stream),
    /// Nothing to do; wait for the next event.
    Wait,
    /// The capture is over.
    Finish(ExitOutcome),
}

/// Where a capture stands.
pub struct StreamCapture {
    pub stdout_open: bool,
    pub stderr_open: bool,
    /// The child's exit, once it has exited.
    pub exit: Option<Option<i32>>,
    pub done: bool,
}

impl StreamCapture {
    /// The end of a capture whose streams are in this state, if it is over.
    pub open spec fn ending(self) -> (StreamCapture, CaptureStep) {
        match self.exit {
            Some(code) => if !self.stdout_open && !self.stderr_open && !self.done {
                (StreamCapture { done: true, ..self }, CaptureStep::Finish(ExitOutcome::Exited(code)))
            } else {
                (self, CaptureStep::Wait)
            },
            None => (self, CaptureStep::Wait),
        }
    }

    /// The transition on one event.
    pub open spec fn next(self, e: CaptureEvent) -> (StreamCapture, CaptureStep) {
        match e {
            CaptureEvent::Data(s, _) => (self, CaptureStep::Save(s)),
            CaptureEvent::Closed(Stream::Stdout) => StreamCapture {
                stdout_open: false,
                ..self
            }.ending(),
            CaptureEvent::Closed(Stream::Stderr) => StreamCapture {
                stderr_open: false,
                ..self
            }.ending(),
            CaptureEvent::Exited(code) => if self.exit is None {
                StreamCapture { exit: Some(code), ..self }.ending()
            } else {
                (self, CaptureStep::Wait)
            },
            CaptureEvent::Failed => if self.done {
                (self, CaptureStep::Wait)
            } else {
                (StreamCapture { done: true, ..self }, CaptureStep::Finish(ExitOutcome::CaptureFailed))
            },
        }
    }

    /// A capture of a child that was just spawned.
    pub fn new() -> (r: StreamCapture)
        ensures
            r == (StreamCapture { stdout_open: true, stderr_open: true, exit: None, done: false }),
    {
        StreamCapture { stdout_open: true, stderr_open: true, exit: None, done: false }
    }

    fn end(&mut self) -> (r: CaptureStep)
        ensures
            (*final(self), r) == old(self).ending(),
    {
        match self.exit {
            Some(code) => {
                if !self.stdout_open && !self.stderr_open && !self.done {
                    self.done = true;
                    CaptureStep::Finish(ExitOutcome::Exited(code))
                } else {
                    CaptureStep::Wait
                }
            },
            None => CaptureStep::Wait,
        }
    }

    /// Takes one event and says what to do with it.
    pub fn step(&mut self, e: &CaptureEvent) -> (r: CaptureStep)
        ensures
            (*final(self), r) == old(self).next(*e),
    {
        match e {
            CaptureEvent::Data(s, _) => CaptureStep::Save(*s),
            CaptureEvent::Closed(Stream::Stdout) => {
                self.stdout_open = false;
                self.end()
            },
            CaptureEvent::Closed(Stream::Stderr) => {
                self.stderr_open = false;
                self.end()
            },
            CaptureEvent::Exited(code) => {
                if self.exit.is_none() {
                    self.exit = Some(*code);
                    self.end()
                } else {
                    CaptureStep::Wait
                }
            },
            CaptureEvent::Failed => {
                if self.done {
                    CaptureStep::Wait
                } else {
                    self.done = true;
                    CaptureStep::Finish(ExitOutcome::CaptureFailed)
                }
            },
        }
    }
}

/// A capture ends with the child's exit status only once the child has exited
/// with it and both streams have reached end of file, and ends at most once.
pub proof fn lemma_capture_ends_after_exit_and_eof(c: StreamCapture, e: CaptureEvent)
    ensures
        c.next(e).1 matches CaptureStep::Finish(ExitOutcome::Exited(code)) ==> c.next(e).0.exit
            == Some(code) && !c.next(e).0.stdout_open && !c.next(e).0.stderr_open && !c.done,
        c.done ==> !(c.next(e).1 is Finish) && c.next(e).0.done,
{
}

/// The steps that a capture in state `c` takes on the events `evs`.
pub open spec fn capture_trace(c: StreamCapture, evs: Seq<CaptureEvent>) -> Seq<CaptureStep>
    decreases evs.len(),
{
    if evs.len() == 0 {
        seq![]
    } else {
        seq![c.next(evs[0]).1] + capture_trace(c.next(evs[0]).0, evs.drop_first())
    }
}

/// The bytes that the child wrote to stream `s`, in the order read.
pub open spec fn sent(evs: Seq<CaptureEvent>, s: Stream) -> Seq<u8>
    decreases evs.len(),
{
    if evs.len() == 0 {
        seq![]
    } else {
        (match evs[0] {
            CaptureEvent::Data(t, b) => if t == s {
                b@
            } else {
                seq![]
            },
            _ => seq![],
        }) + sent(evs.drop_first(), s)
    }
}

/// The bytes appended to the file of stream `s`: the chunk of each event
/// whose step is `Save(s)`.
pub open spec fn saved(steps: Seq<CaptureStep>, evs: Seq<CaptureEvent>, s: Stream) -> Seq<u8>
    decreases evs.len(),
{
    if evs.len() == 0 || steps.len() == 0 {
        seq![]
    } else {
        (if steps[0] == CaptureStep::Save(s) {
            match evs[0] {
                CaptureEvent::Data(_, b) => b@,
                _ => seq![],
            }
        } else {
            seq![]
        }) + saved(steps.drop_first(), evs.drop_first(), s)
    }
}

/// Each stream's file ends up holding exactly the bytes the child wrote to
/// that stream, in order, whatever the interleaving of the two streams, the
/// ends of file and the exit: nothing is lost, duplicated or misrouted.
pub proof fn lemma_capture_keeps_bytes(c: StreamCapture, evs: Seq<CaptureEvent>, s: Stream)
    ensures
        saved(capture_trace(c, evs), evs, s) == sent(evs, s),
    decreases evs.len(),
{
    if evs.len() > 0 {
        let t = c.next(evs[0]).0;
        lemma_capture_keeps_bytes(t, evs.drop_first(), s);
        let steps = capture_trace(c, evs);
        assert(steps.drop_first() =~= capture_trace(t, evs.drop_first()));
    }
}

proof fn lemma_capture_trace_len(c: StreamCapture, evs: Seq<CaptureEvent>)
    ensures
        capture_trace(c, evs).len() == evs.len(),
    decreases evs.len(),
{
    if evs.len() > 0 {
        lemma_capture_trace_len(c.next(evs[0]).0, evs.drop_first());
    }
}

/// The capture may still end: it is not over, and it is not holding back an
/// end that is already due.
pub open spec fn can_end(c: StreamCapture) -> bool {
    !c.done && !(!c.stdout_open && !c.stderr_open && c.exit is Some)
}

/// The events still to come let the capture end with exit code `code`.
pub open spec fn ends_with(c: StreamCapture, evs: Seq<CaptureEvent>, code: Option<i32>) -> bool {
    &&& forall|i: int| 0 <= i < evs.len() ==> !(#[trigger] evs[i] is Failed)
    &&& c.stdout_open ==> exists|i: int|
        0 <= i < evs.len() && #[trigger] evs[i] == CaptureEvent::Closed(Stream::Stdout)
    &&& c.stderr_open ==> exists|i: int|
        0 <= i < evs.len() && #[trigger] evs[i] == CaptureEvent::Closed(Stream::Stderr)
    &&& c.exit == Some(code) || (c.exit is None && (exists|i: int|
        0 <= i < evs.len() && #[trigger] evs[i] == CaptureEvent::Exited(code)) && forall|i: int|
        0 <= i < evs.len() && (#[trigger] evs[i] is Exited) ==> evs[i] == CaptureEvent::Exited(
        code,
    ))
}

/// A capture without I/O failure ends, and ends with the child's exit status:
/// once both streams have closed and the child has exited, whatever the order,
/// some step is `Finish(Exited(code))`.
pub proof fn lemma_capture_ends_with_exit(c: StreamCapture, evs: Seq<CaptureEvent>, code: Option<i32>)
    requires
        can_end(c),
        ends_with(c, evs, code),
    ensures
        exists|k: int|
            0 <= k < evs.len() && #[trigger] capture_trace(c, evs)[k] == CaptureStep::Finish(
                ExitOutcome::Exited(code),
            ),
    decreases evs.len(),
{
    if evs.len() == 0 {
        assert(false);
    } else {
        let e0 = evs[0];
        let (t, a) = c.next(e0);
        let rest = evs.drop_first();
        assert(capture_trace(c, evs)[0] == a);
        assert(!(e0 is Failed));
        if a == CaptureStep::Finish(ExitOutcome::Exited(code)) {
        } else {
            if e0 is Exited && c.exit is None {
                assert(evs[0] is Exited);
            }
            assert(can_end(t));
            assert forall|i: int| 0 <= i < rest.len() implies !(#[trigger] rest[i] is Failed) by {
                assert(rest[i] == evs[i + 1]);
            }
            if t.stdout_open {
                let i = choose|i: int|
                    0 <= i < evs.len() && #[trigger] evs[i] == CaptureEvent::Closed(Stream::Stdout);
                assert(i != 0);
                assert(rest[i - 1] == evs[i]);
            }
            if t.stderr_open {
                let i = choose|i: int|
                    0 <= i < evs.len() && #[trigger] evs[i] == CaptureEvent::Closed(Stream::Stderr);
                assert(i != 0);
                assert(rest[i - 1] == evs[i]);
            }
            if t.exit is None {
                let i = choose|i: int| 0 <= i < evs.len() && #[trigger] evs[i] == CaptureEvent::Exited(code);
                assert(i != 0);
                assert(rest[i - 1] == evs[i]);
                assert forall|j: int| 0 <= j < rest.len() && (#[trigger] rest[j] is Exited) implies rest[j]
                    == CaptureEvent::Exited(code) by {
                    assert(rest[j] == evs[j + 1]);
                }
            }
            lemma_capture_ends_with_exit(t, rest, code);
            let k = choose|k: int|
                0 <= k < rest.len() && #[trigger] capture_trace(t, rest)[k] == CaptureStep::Finish(
                    ExitOutcome::Exited(code),
                );
            lemma_capture_trace_len(t, rest);
            assert(capture_trace(c, evs) == seq![a] + capture_trace(t, rest));
            assert(capture_trace(c, evs)[k + 1] == capture_trace(t, rest)[k]);
        }
    }
}

} // verus!
