//! Running a command in a pseudo-terminal: the decisions of the read loop
//! (stop, timeout, buffer cap) and the conversion of the captured output.
use vstd::prelude::*;
use crate::ir::{from_vt100, screen_capture, Capture, VtScreen};

verus! {

/// Most output bytes kept from one command (5 MB).
pub const MAX_BUFFER: usize = 5 * 1024 * 1024;

/// Longest run of one command, in seconds.
pub const TIMEOUT_SECS: u64 = 120;

/// Error of a capture run, with its message.
#[derive(Debug)]
pub struct CaptureError(pub String);

/// Result of running a command in a PTY.
#[derive(Debug)]
pub struct RunOutcome {
    pub capture: Capture,
    pub exit_code: Option<u32>,
    pub truncated: bool,
    pub timed_out: bool,
}

/// What the read loop has gathered so far.
#[derive(Debug, Clone, Copy, PartialEq, Eq, Structural)]
pub struct ReadState {
    /// Bytes of output kept.
    pub buffered: usize,
    /// Output was cut at `MAX_BUFFER`.
    pub truncated: bool,
    /// The command ran past its deadline.
    pub timed_out: bool,
    /// The stop flag ended the run.
    pub stopped: bool,
}

/// What happened in one turn of the read loop. The loop checks the stop flag
/// first, then the deadline, then reads.
#[derive(Debug)]
pub enum ReadEvent {
    /// The stop flag was raised.
    StopRequested,
    /// The deadline passed.
    DeadlinePassed,
    /// A read returned this many bytes (0 at end of stream).
    Data(usize),
    /// A read was interrupted by a signal.
    Interrupted,
    /// A read failed with this message.
    Failed(String),
}

/// What the read loop does next.
#[derive(Debug, PartialEq, Eq)]
pub enum ReadAction {
    /// Keep the first `keep` bytes just read, then read again.
    Continue { keep: usize },
    /// Keep the first `keep` bytes just read, kill the command when `kill`,
    /// and stop reading.
    Finish { keep: usize, kill: bool },
    /// Stop with this error.
    Fail(String),
}

/// The state of the read loop before anything is read.
pub open spec fn initial_read_state() -> ReadState {
    ReadState { buffered: 0, truncated: false, timed_out: false, stopped: false }
}

/// The state of a read loop holds at most `MAX_BUFFER` bytes, and exactly
/// that many once truncated.
pub open spec fn read_state_ok(s: ReadState) -> bool {
    &&& s.buffered <= MAX_BUFFER
    &&& s.truncated ==> s.buffered == MAX_BUFFER
}

/// One decision of the read loop: a stop request kills the command and
/// marks the run stopped; a passed deadline kills it and marks the run timed out; a read keeps its
/// bytes while they fit under `MAX_BUFFER` and otherwise keeps what fits,
/// marks the output truncated and kills the command; the end of the stream
/// finishes; an interrupted read is retried; a failed read is an error.
pub open spec fn read_step_spec(s: ReadState, e: ReadEvent) -> (ReadState, ReadAction) {
    match e {
        ReadEvent::StopRequested => (
            ReadState { stopped: true, ..s },
            ReadAction::Finish { keep: 0, kill: true },
        ),
        ReadEvent::DeadlinePassed => (
            ReadState { timed_out: true, ..s },
            ReadAction::Finish { keep: 0, kill: true },
        ),
        ReadEvent::Data(n) => if n == 0 {
            (s, ReadAction::Finish { keep: 0, kill: false })
        } else if s.buffered + n <= MAX_BUFFER {
            (ReadState { buffered: (s.buffered + n) as usize, ..s }, ReadAction::Continue { keep: n })
        } else {
            (
                ReadState { buffered: MAX_BUFFER, truncated: true, ..s },
                ReadAction::Finish { keep: (MAX_BUFFER - s.buffered) as usize, kill: true },
            )
        },
        ReadEvent::Interrupted => (s, ReadAction::Continue { keep: 0 }),
        ReadEvent::Failed(msg) => (s, ReadAction::Fail(msg)),
    }
}

impl ReadState {
    /// The state before anything is read.
    pub fn new() -> (s: ReadState)
        ensures
            s == initial_read_state(),
            read_state_ok(s),
    {
        ReadState { buffered: 0, truncated: false, timed_out: false, stopped: false }
    }

    /// Decides what the read loop does after an event, and the next state.
    pub fn step(self, event: ReadEvent) -> (r: (ReadState, ReadAction))
        requires
            read_state_ok(self),
        ensures
            r == read_step_spec(self, event),
            read_state_ok(r.0),
    {
        match event {
            ReadEvent::StopRequested => (
                ReadState { stopped: true, ..self },
                ReadAction::Finish { keep: 0, kill: true },
            ),
            ReadEvent::DeadlinePassed => (
                ReadState { timed_out: true, ..self },
                ReadAction::Finish { keep: 0, kill: true },
            ),
            ReadEvent::Data(n) => {
                if n == 0 {
                    (self, ReadAction::Finish { keep: 0, kill: false })
                } else if n <= MAX_BUFFER - self.buffered {
                    (ReadState { buffered: self.buffered + n, ..self }, ReadAction::Continue { keep: n })
                } else {
                    (
                        ReadState { buffered: MAX_BUFFER, truncated: true, ..self },
                        ReadAction::Finish { keep: MAX_BUFFER - self.buffered, kill: true },
                    )
                }
            },
            ReadEvent::Interrupted => (self, ReadAction::Continue { keep: 0 }),
            ReadEvent::Failed(msg) => (self, ReadAction::Fail(msg)),
        }
    }
}

/// Whatever the events, the read loop never keeps more than `MAX_BUFFER`
/// bytes, and it keeps exactly as many bytes as the actions tell it to.
pub proof fn read_loop_bounded(s: ReadState, e: ReadEvent)
    requires
        read_state_ok(s),
    ensures
        read_state_ok(read_step_spec(s, e).0),
        match read_step_spec(s, e).1 {
            ReadAction::Continue { keep } => read_step_spec(s, e).0.buffered == s.buffered + keep,
            ReadAction::Finish { keep, kill: _ } => read_step_spec(s, e).0.buffered == s.buffered + keep,
            ReadAction::Fail(_) => read_step_spec(s, e).0 == s,
        },
{
}

/// Total size of a sequence of reads.
pub open spec fn total_read(ns: Seq<usize>) -> int
    decreases ns.len(),
{
    if ns.len() == 0 {
        0
    } else {
        ns[0] + total_read(ns.skip(1))
    }
}

/// The state after reads of the given sizes when the loop keeps every one of
/// them and reads on; `None` when some read does not continue the loop.
pub open spec fn feed_reads(s: ReadState, ns: Seq<usize>) -> Option<ReadState>
    decreases ns.len(),
{
    if ns.len() == 0 {
        Some(s)
    } else {
        let (t, a) = read_step_spec(s, ReadEvent::Data(ns[0]));
        if a == (ReadAction::Continue { keep: ns[0] }) {
            feed_reads(t, ns.skip(1))
        } else {
            None
        }
    }
}

proof fn feed_reads_fit(s: ReadState, ns: Seq<usize>)
    requires
        forall|i: int| 0 <= i < ns.len() ==> #[trigger] ns[i] > 0,
        s.buffered + total_read(ns) <= MAX_BUFFER,
    ensures
        total_read(ns) >= 0,
        feed_reads(s, ns) == Some(ReadState { buffered: (s.buffered + total_read(ns)) as usize, ..s }),
    decreases ns.len(),
{
    if ns.len() > 0 {
        let rest = ns.skip(1);
        assert forall|i: int| 0 <= i < rest.len() implies #[trigger] rest[i] > 0 by {
            assert(rest[i] == ns[i + 1]);
        }
        total_read_nonneg(rest);
        assert(ns[0] > 0);
        let t = ReadState { buffered: (s.buffered + ns[0]) as usize, ..s };
        feed_reads_fit(t, rest);
    }
}

proof fn total_read_nonneg(ns: Seq<usize>)
    ensures
        total_read(ns) >= 0,
    decreases ns.len(),
{
    if ns.len() > 0 {
        total_read_nonneg(ns.skip(1));
    }
}

/// A clean run: from the start, reads of non-empty chunks that together fit
/// under `MAX_BUFFER` each continue the loop and keep all their bytes; the
/// end of the stream then finishes without killing the command, with no
/// flag set, so the run keeps its exit code (see `finish_capture`).
pub proof fn clean_run(ns: Seq<usize>)
    requires
        forall|i: int| 0 <= i < ns.len() ==> #[trigger] ns[i] > 0,
        total_read(ns) <= MAX_BUFFER,
    ensures
        feed_reads(initial_read_state(), ns) == Some(ReadState { buffered: total_read(ns) as usize, ..initial_read_state() }),
        read_step_spec(ReadState { buffered: total_read(ns) as usize, ..initial_read_state() }, ReadEvent::Data(0))
            == (ReadState { buffered: total_read(ns) as usize, ..initial_read_state() }, ReadAction::Finish { keep: 0, kill: false }),
{
    feed_reads_fit(initial_read_state(), ns);
}

/// A read that overflows the buffer after a run of reads that fit keeps
/// exactly the bytes that fill `MAX_BUFFER`, marks the output truncated and
/// kills the command: never more than `MAX_BUFFER` bytes are kept.
pub proof fn overflow_truncates(ns: Seq<usize>, n: usize)
    requires
        forall|i: int| 0 <= i < ns.len() ==> #[trigger] ns[i] > 0,
        total_read(ns) <= MAX_BUFFER,
        total_read(ns) + n > MAX_BUFFER,
    ensures
        ({
            let st = ReadState { buffered: total_read(ns) as usize, ..initial_read_state() };
            &&& feed_reads(initial_read_state(), ns) == Some(st)
            &&& read_step_spec(st, ReadEvent::Data(n)) == (
                ReadState { buffered: MAX_BUFFER, truncated: true, ..st },
                ReadAction::Finish { keep: (MAX_BUFFER - total_read(ns)) as usize, kill: true },
            )
            &&& total_read(ns) + (MAX_BUFFER - total_read(ns)) == MAX_BUFFER
        }),
{
    feed_reads_fit(initial_read_state(), ns);
}

/// The outcome of a run: the captured output, processed by a `rows` × `cols`
/// terminal, converted to a capture with the command as its command line.
/// A run that the stop flag or the deadline killed has no exit code: the
/// code the killed process reports is not the command's own.
pub fn finish_capture(
    raw: &[u8],
    command: &str,
    rows: u16,
    cols: u16,
    exit_code: Option<u32>,
    state: ReadState,
) -> (out: RunOutcome)
    requires
        rows >= 1,
        cols >= 2,
    ensures
        out.capture@ == screen_capture(raw@, rows, cols, command@),
        out.exit_code == (if state.timed_out || state.stopped { None } else { exit_code }),
        out.truncated == state.truncated,
        out.timed_out == state.timed_out,
{
    let mut screen = VtScreen::new(rows, cols);
    screen.process(raw);
    assert(screen.input() =~= raw@);
    let capture = from_vt100(&screen, String::from_str(command));
    let exit_code = if state.timed_out || state.stopped { None } else { exit_code };
    RunOutcome { capture, exit_code, truncated: state.truncated, timed_out: state.timed_out }
}

} // verus!
