//! The decisions of the PulseAudio and PipeWire outputs while a stream
//! plays: whether the next audio callback decodes, and which events it
//! reports to the player, from the state of the stream and what the decoder
//! gave. The callbacks themselves, and the decoding, stay with the outputs.

use vstd::prelude::*;

verus! {

/// What one fill of the raw output buffer from the decoder gave.
#[derive(Debug, Clone, Copy, PartialEq, Eq, Structural)]
pub enum FillOutcome {
    /// Samples, with more to come.
    Decoded,
    /// The last samples of the stream.
    EndOfStream,
    /// The data stream failed.
    StreamError,
}

/// The state of a PipeWire stream's process callback.
#[derive(Debug, Clone, Copy, PartialEq, Eq, Structural)]
pub enum ProcessState {
    /// Decoding.
    Running,
    /// Decoding is over; what is buffered is played out.
    Draining,
}

/// The outcome of one PipeWire process callback: the next state, and
/// whether the player is told that decoding ended. (A failed stream is
/// reported by the callback as each failure happens.)
#[derive(Debug, Clone, Copy, PartialEq, Eq, Structural)]
pub struct ProcessStep {
    pub state: ProcessState,
    pub end_of_decode: bool,
}

/// Whether a process callback in `state` decodes.
pub fn process_decodes(state: ProcessState) -> (r: bool)
    ensures
        r == (state == ProcessState::Running),
{
    match state {
        ProcessState::Running => true,
        ProcessState::Draining => false,
    }
}

/// The outcome of a process callback in `state`, whose fills gave `fill`
/// (`None` when it did not decode; `StreamError` when any of its fills
/// failed). A failed stream stops decoding without an end-of-decode report;
/// the end of the stream is reported when decoding stops on it.
pub open spec fn process_step_for(state: ProcessState, fill: Option<FillOutcome>) -> ProcessStep {
    match state {
        ProcessState::Draining => ProcessStep { state: ProcessState::Draining, end_of_decode: false },
        ProcessState::Running => match fill {
            Some(FillOutcome::StreamError) => ProcessStep {
                state: ProcessState::Draining,
                end_of_decode: false,
            },
            Some(FillOutcome::EndOfStream) => ProcessStep {
                state: ProcessState::Draining,
                end_of_decode: true,
            },
            _ => ProcessStep { state: ProcessState::Running, end_of_decode: false },
        },
    }
}

/// Decides the outcome of a PipeWire process callback.
pub fn process_step(state: ProcessState, fill: Option<FillOutcome>) -> (r: ProcessStep)
    ensures
        r == process_step_for(state, fill),
{
    match state {
        ProcessState::Draining => ProcessStep { state: ProcessState::Draining, end_of_decode: false },
        ProcessState::Running => match fill {
            Some(FillOutcome::StreamError) => ProcessStep {
                state: ProcessState::Draining,
                end_of_decode: false,
            },
            Some(FillOutcome::EndOfStream) => ProcessStep {
                state: ProcessState::Draining,
                end_of_decode: true,
            },
            _ => ProcessStep { state: ProcessState::Running, end_of_decode: false },
        },
    }
}

/// The number of end-of-decode reports that process callbacks make from
/// `state` when their fills, where they decode, give `fills` in order.
pub open spec fn process_reports(state: ProcessState, fills: Seq<FillOutcome>) -> nat
    decreases fills.len(),
{
    if fills.len() == 0 {
        0
    } else {
        let fill = if state == ProcessState::Running {
            Some(fills[0])
        } else {
            None
        };
        let step = process_step_for(state, fill);
        (if step.end_of_decode {
            1nat
        } else {
            0nat
        }) + process_reports(step.state, fills.skip(1))
    }
}

/// However often PipeWire calls back, a stream reports the end of decoding
/// at most once, and never once it is draining: after the end of the stream
/// or a failure.
pub proof fn lemma_process_reports_once(state: ProcessState, fills: Seq<FillOutcome>)
    ensures
        process_reports(state, fills) <= 1,
        state == ProcessState::Draining ==> process_reports(state, fills) == 0,
    decreases fills.len(),
{
    if fills.len() > 0 {
        lemma_process_reports_once(state, fills.skip(1));
        lemma_process_reports_once(ProcessState::Draining, fills.skip(1));
    }
}

/// The state of a PulseAudio stream's write callback.
#[derive(Debug, Clone, Copy, PartialEq, Eq, Structural)]
pub enum WriteState {
    /// Nothing written yet.
    Starting,
    /// Decoding.
    Running,
    /// Decoding is over; what is buffered is played out.
    Draining,
    /// Everything was handed to the server.
    Drained,
}

/// How a write callback starts: the state it goes on in, whether it tells
/// the player that the track started, and whether it decodes.
#[derive(Debug, Clone, Copy, PartialEq, Eq, Structural)]
pub struct WriteStart {
    pub state: WriteState,
    pub track_started: bool,
    pub decode: bool,
}

/// How a write callback in `state` starts: the first one reports the track
/// as started; callbacks decode until decoding is over.
pub open spec fn write_start_for(state: WriteState) -> WriteStart {
    match state {
        WriteState::Starting => WriteStart { state: WriteState::Running, track_started: true, decode: true },
        WriteState::Running => WriteStart { state: WriteState::Running, track_started: false, decode: true },
        _ => WriteStart { state, track_started: false, decode: false },
    }
}

/// Decides how a PulseAudio write callback starts.
pub fn write_start(state: WriteState) -> (r: WriteStart)
    ensures
        r == write_start_for(state),
{
    match state {
        WriteState::Starting => WriteStart { state: WriteState::Running, track_started: true, decode: true },
        WriteState::Running => WriteStart { state: WriteState::Running, track_started: false, decode: true },
        _ => WriteStart { state, track_started: false, decode: false },
    }
}

/// How a write callback ends: the next state, and whether the player is
/// told that the format is not supported and that decoding ended.
#[derive(Debug, Clone, Copy, PartialEq, Eq, Structural)]
pub struct WriteEnd {
    pub state: WriteState,
    pub not_supported: bool,
    pub end_of_decode: bool,
}

/// How a write callback that went on in `state` ends, when its fill gave
/// `fill` (`None` when it did not decode) and the buffer is `buffer_empty`
/// after writing. A failed stream is reported as not supported and also
/// ends decoding; a draining stream whose buffer ran empty is drained.
pub open spec fn write_end_for(state: WriteState, fill: Option<FillOutcome>, buffer_empty: bool) -> WriteEnd {
    let (s, not_supported, end_of_decode) = match fill {
        Some(FillOutcome::StreamError) => (WriteState::Draining, true, true),
        Some(FillOutcome::EndOfStream) => (WriteState::Draining, false, true),
        _ => (state, false, false),
    };
    WriteEnd {
        state: if s == WriteState::Draining && buffer_empty {
            WriteState::Drained
        } else {
            s
        },
        not_supported,
        end_of_decode,
    }
}

/// Decides how a PulseAudio write callback ends.
pub fn write_end(state: WriteState, fill: Option<FillOutcome>, buffer_empty: bool) -> (r: WriteEnd)
    ensures
        r == write_end_for(state, fill, buffer_empty),
{
    let (s, not_supported, end_of_decode) = match fill {
        Some(FillOutcome::StreamError) => (WriteState::Draining, true, true),
        Some(FillOutcome::EndOfStream) => (WriteState::Draining, false, true),
        _ => (state, false, false),
    };
    let drained = match s {
        WriteState::Draining => buffer_empty,
        _ => false,
    };
    WriteEnd {
        state: if drained {
            WriteState::Drained
        } else {
            s
        },
        not_supported,
        end_of_decode,
    }
}

/// Whether an underflow in `state` means that the track has been played
/// out: only once everything was handed to the server.
pub fn underflow_drained(state: WriteState) -> (r: bool)
    ensures
        r == (state == WriteState::Drained),
{
    match state {
        WriteState::Drained => true,
        _ => false,
    }
}

/// The state after one write callback in `state` whose fill, if it decodes,
/// gives `fill`, with the buffer `buffer_empty` after writing, and whether
/// it reported the track started and the end of decoding.
pub open spec fn write_callback(state: WriteState, fill: FillOutcome, buffer_empty: bool) -> (
    WriteState,
    bool,
    bool,
) {
    let start = write_start_for(state);
    let end = write_end_for(
        start.state,
        if start.decode {
            Some(fill)
        } else {
            None
        },
        buffer_empty,
    );
    (end.state, start.track_started, end.end_of_decode)
}

/// The number of track-started and of end-of-decode reports that write
/// callbacks make from `state`, with fills `fills` and buffers after
/// writing `empties`, in order.
pub open spec fn write_reports(state: WriteState, fills: Seq<FillOutcome>, empties: Seq<bool>) -> (
    nat,
    nat,
)
    decreases fills.len(),
{
    if fills.len() == 0 || empties.len() == 0 {
        (0, 0)
    } else {
        let (next, started, ended) = write_callback(state, fills[0], empties[0]);
        let (s, e) = write_reports(next, fills.skip(1), empties.skip(1));
        ((if started {
            1nat
        } else {
            0nat
        }) + s, (if ended {
            1nat
        } else {
            0nat
        }) + e)
    }
}

/// However often PulseAudio calls back, a stream reports its start at most
/// once, and only from its first callback on, and the end of decoding at
/// most once, and never once decoding is over.
pub proof fn lemma_write_reports_once(state: WriteState, fills: Seq<FillOutcome>, empties: Seq<bool>)
    ensures
        write_reports(state, fills, empties).0 <= 1,
        write_reports(state, fills, empties).1 <= 1,
        state != WriteState::Starting ==> write_reports(state, fills, empties).0 == 0,
        (state == WriteState::Draining || state == WriteState::Drained) ==> write_reports(
            state,
            fills,
            empties,
        ).1 == 0,
    decreases fills.len(),
{
    if fills.len() > 0 && empties.len() > 0 {
        let (next, started, ended) = write_callback(state, fills[0], empties[0]);
        lemma_write_reports_once(next, fills.skip(1), empties.skip(1));
    }
}

/// A PipeWire stream keeps decoding while its fills give samples, stops
/// decoding on the end of the stream, which it reports, or on a failure,
/// which it does not report as an end, and does nothing more once draining.
pub proof fn lemma_process_steps(state: ProcessState, fill: Option<FillOutcome>)
    ensures
        ({
            let s = process_step_for(state, fill);
            &&& (s.state == ProcessState::Running) == (state == ProcessState::Running && fill
                != Some(FillOutcome::EndOfStream) && fill != Some(FillOutcome::StreamError))
            &&& s.end_of_decode == (state == ProcessState::Running && fill == Some(
                FillOutcome::EndOfStream,
            ))
        }),
{
}

/// A PulseAudio write callback reports the track started on the first
/// callback only, and decodes while the stream is starting or running.
/// After decoding, the end of the stream ends decoding and is reported; a
/// failure is reported as not supported and also as the end of decoding;
/// samples keep the stream as it was. A stream whose decoding is over is
/// drained once its buffer is empty, and an underflow then means the track
/// was played out.
pub proof fn lemma_write_steps(state: WriteState, fill: Option<FillOutcome>, buffer_empty: bool)
    ensures
        write_start_for(state).track_started == (state == WriteState::Starting),
        write_start_for(state).decode == (state == WriteState::Starting || state
            == WriteState::Running),
        write_start_for(state).state == if state == WriteState::Starting {
            WriteState::Running
        } else {
            state
        },
        ({
            let e = write_end_for(state, fill, buffer_empty);
            let ended = fill == Some(FillOutcome::EndOfStream) || fill == Some(
                FillOutcome::StreamError,
            );
            let over = ended || state == WriteState::Draining;
            &&& e.not_supported == (fill == Some(FillOutcome::StreamError))
            &&& e.end_of_decode == ended
            &&& e.state == if over && buffer_empty {
                WriteState::Drained
            } else if over {
                WriteState::Draining
            } else {
                state
            }
        }),
{
}

} // verus!
