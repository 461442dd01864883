use lms_player::output::{
    process_decodes, process_step, underflow_drained, write_end, write_start, FillOutcome,
    ProcessState, WriteState,
};

#[test]
fn pipewire_process_steps() {
    assert!(process_decodes(ProcessState::Running));
    assert!(!process_decodes(ProcessState::Draining));
    let s = process_step(ProcessState::Running, Some(FillOutcome::Decoded));
    assert_eq!((s.state, s.end_of_decode), (ProcessState::Running, false));
    let s = process_step(ProcessState::Running, Some(FillOutcome::EndOfStream));
    assert_eq!((s.state, s.end_of_decode), (ProcessState::Draining, true));
    let s = process_step(ProcessState::Running, Some(FillOutcome::StreamError));
    assert_eq!((s.state, s.end_of_decode), (ProcessState::Draining, false));
    let s = process_step(ProcessState::Draining, None);
    assert_eq!((s.state, s.end_of_decode), (ProcessState::Draining, false));
}

#[test]
fn pipewire_reports_end_of_decode_once() {
    let fills = [
        FillOutcome::Decoded,
        FillOutcome::Decoded,
        FillOutcome::EndOfStream,
        FillOutcome::EndOfStream,
        FillOutcome::StreamError,
    ];
    let mut state = ProcessState::Running;
    let mut ends = 0;
    for f in fills {
        let fill = if process_decodes(state) { Some(f) } else { None };
        let step = process_step(state, fill);
        if step.end_of_decode {
            ends += 1;
        }
        state = step.state;
    }
    assert_eq!(ends, 1);
}

#[test]
fn pulse_write_steps() {
    let s = write_start(WriteState::Starting);
    assert_eq!((s.state, s.track_started, s.decode), (WriteState::Running, true, true));
    let s = write_start(WriteState::Running);
    assert_eq!((s.state, s.track_started, s.decode), (WriteState::Running, false, true));
    let s = write_start(WriteState::Draining);
    assert_eq!((s.state, s.track_started, s.decode), (WriteState::Draining, false, false));
    let s = write_start(WriteState::Drained);
    assert_eq!((s.state, s.track_started, s.decode), (WriteState::Drained, false, false));

    let e = write_end(WriteState::Running, Some(FillOutcome::Decoded), true);
    assert_eq!((e.state, e.not_supported, e.end_of_decode), (WriteState::Running, false, false));
    let e = write_end(WriteState::Running, Some(FillOutcome::EndOfStream), false);
    assert_eq!((e.state, e.not_supported, e.end_of_decode), (WriteState::Draining, false, true));
    let e = write_end(WriteState::Running, Some(FillOutcome::EndOfStream), true);
    assert_eq!((e.state, e.not_supported, e.end_of_decode), (WriteState::Drained, false, true));
    let e = write_end(WriteState::Running, Some(FillOutcome::StreamError), false);
    assert_eq!((e.state, e.not_supported, e.end_of_decode), (WriteState::Draining, true, true));
    let e = write_end(WriteState::Draining, None, false);
    assert_eq!((e.state, e.not_supported, e.end_of_decode), (WriteState::Draining, false, false));
    let e = write_end(WriteState::Draining, None, true);
    assert_eq!((e.state, e.not_supported, e.end_of_decode), (WriteState::Drained, false, false));
    let e = write_end(WriteState::Drained, None, false);
    assert_eq!(e.state, WriteState::Drained);

    assert!(underflow_drained(WriteState::Drained));
    assert!(!underflow_drained(WriteState::Draining));
    assert!(!underflow_drained(WriteState::Running));
    assert!(!underflow_drained(WriteState::Starting));
}

#[test]
fn pulse_reports_start_and_end_once() {
    let mut state = WriteState::Starting;
    let (mut starts, mut ends) = (0, 0);
    for (f, empty) in [
        (FillOutcome::Decoded, false),
        (FillOutcome::EndOfStream, false),
        (FillOutcome::EndOfStream, false),
        (FillOutcome::Decoded, true),
        (FillOutcome::EndOfStream, true),
    ] {
        let start = write_start(state);
        if start.track_started {
            starts += 1;
        }
        let fill = if start.decode { Some(f) } else { None };
        let end = write_end(start.state, fill, empty);
        if end.end_of_decode {
            ends += 1;
        }
        state = end.state;
    }
    assert_eq!((starts, ends), (1, 1));
    assert_eq!(state, WriteState::Drained);
}
