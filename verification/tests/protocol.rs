use std::collections::VecDeque;

use plotstream::command::Command;
use plotstream::session::{SessionError, State};

fn queue_of(state: &State) -> Vec<Command> {
    state.reqs.iter().cloned().collect()
}

fn ready_state() -> State {
    let mut s = State::new();
    s.ready = Some(true);
    s.reqs = VecDeque::new();
    s
}

#[test]
fn wire_encodings() {
    assert_eq!(Command::Heartbeat.encode(), "M400");
    assert_eq!(Command::PromptsSupported.encode(), "M876 P1");
    assert_eq!(Command::PromptAnswerContinue.encode(), "M876 S0");
    assert_eq!(Command::Pen(90, 250).encode(), "M280 P0 S90 T250");
    assert_eq!(Command::Pen(0, 0).encode(), "M280 P0 S0 T0");
    assert_eq!(Command::Pen(180, 65535).encode(), "M280 P0 S180 T65535");
    assert_eq!(Command::MotorsEngage.encode(), "M17");
    assert_eq!(Command::MotorsDisengage.encode(), "M18");
    assert_eq!(Command::FindHome.encode(), "G28 X Y");
    assert_eq!(Command::Raw("G1 X10 Y10".to_string()).encode(), "G1 X10 Y10");
    assert_eq!(Command::EmergencyStop.encode(), "M112");
}

#[test]
fn sentinel_has_no_encoding() {
    assert_eq!(Command::Die.encode_checked(), None);
    assert_eq!(Command::Heartbeat.encode_checked(), Some("M400".to_string()));
}

#[test]
fn new_state_queues_opening_sequence() {
    let s = State::new();
    assert_eq!(s.ready, None);
    assert_eq!(s.last_line_number_sent, 0);
    assert_eq!(
        queue_of(&s),
        vec![
            Command::Heartbeat,
            Command::PromptsSupported,
            Command::Pen(90, 250),
            Command::MotorsEngage,
            Command::FindHome,
        ]
    );
}

#[test]
fn try_send_waits_for_readiness() {
    let mut s = State::new();
    // Readiness unknown: nothing may leave the queue.
    assert_eq!(s.try_send(), None);
    s.ready = Some(false);
    assert_eq!(s.try_send(), None);
    assert_eq!(queue_of(&s).len(), 5);
    assert_eq!(s.last_line_number_sent, 0);
}

#[test]
fn single_command_outstanding() {
    let mut s = State::new();
    s.apply_line(b"//action:notification Polargraph Ready.").unwrap();
    assert_eq!(s.ready, Some(true));

    // One send: further sends are blocked immediately.
    assert_eq!(s.try_send(), Some(Command::Heartbeat));
    assert_eq!(s.ready, Some(false));
    assert_eq!(s.last_line_number_sent, 1);
    assert_eq!(s.try_send(), None);

    // A line that is not an acknowledgment keeps sending blocked.
    s.apply_line(b"echo:busy: processing").unwrap();
    assert_eq!(s.try_send(), None);

    // The acknowledgment reopens it for exactly one more command.
    s.apply_line(b"ok").unwrap();
    assert_eq!(s.try_send(), Some(Command::PromptsSupported));
    assert_eq!(s.try_send(), None);
    assert_eq!(s.last_line_number_sent, 2);
}

#[test]
fn sentinel_pops_without_transmitting() {
    let mut s = ready_state();
    s.reqs.push_back(Command::Die);
    assert_eq!(s.try_send(), Some(Command::Die));
    // Nothing was transmitted: readiness and the sent count are untouched.
    assert_eq!(s.ready, Some(true));
    assert_eq!(s.last_line_number_sent, 0);
    assert!(s.reqs.is_empty());
}

#[test]
fn prompt_answer_preempts_queue() {
    for prior in [None, Some(false), Some(true)] {
        let mut s = State::new();
        s.ready = prior;
        s.apply_line(b"//action:prompt_show").unwrap();
        assert_eq!(s.ready, Some(true));
        let q = queue_of(&s);
        assert_eq!(q[0], Command::PromptAnswerContinue);
        // All previously queued work stands behind the answer.
        assert_eq!(q.len(), 6);
        assert_eq!(q[1], Command::Heartbeat);
    }
}

#[test]
fn halt_error_is_fatal_in_any_state() {
    for prior in [None, Some(false), Some(true)] {
        let mut s = State::new();
        s.ready = prior;
        let r = s.apply_line(b"Error: Printer halted. kill() called!");
        assert_eq!(
            r,
            Err(SessionError::FatalHalt(
                "Error: Printer halted. kill() called!".to_string()
            ))
        );
        // The failure is reported; the state is left as it was.
        assert_eq!(s.ready, prior);
        assert_eq!(queue_of(&s).len(), 5);
    }
}

#[test]
fn other_error_pauses_without_clearing_queue() {
    let mut s = ready_state();
    s.reqs.push_back(Command::Heartbeat);
    let r = s.apply_line(b"Error: Probing Failed");
    assert_eq!(r, Ok(()));
    assert_eq!(s.ready, Some(false));
    assert_eq!(queue_of(&s), vec![Command::Heartbeat]);
}

#[test]
fn garbage_bytes_are_reported() {
    let mut s = ready_state();
    let r = s.apply_line(&[0xff, 0xfe, b'o', b'k']);
    assert_eq!(r, Err(SessionError::Garbage(vec![0xff, 0xfe, b'o', b'k'])));
    assert_eq!(s.ready, Some(true));
}

#[test]
fn unrecognized_line_changes_nothing() {
    let mut s = State::new();
    s.apply_line(b"echo: Free Memory: 4012").unwrap();
    assert_eq!(s.ready, None);
    assert_eq!(queue_of(&s).len(), 5);
    assert_eq!(s.last_line_number_sent, 0);
}

#[test]
fn duplicate_ok_is_idempotent() {
    let mut s = ready_state();
    s.reqs.push_back(Command::Heartbeat);
    s.apply_line(b"ok").unwrap();
    assert_eq!(s.ready, Some(true));
    assert_eq!(queue_of(&s), vec![Command::Heartbeat]);
    assert_eq!(s.last_line_number_sent, 0);
    // A duplicate acknowledgment with nothing outstanding is a no-op.
    s.apply_line(b"ok").unwrap();
    assert_eq!(s.ready, Some(true));
    assert_eq!(queue_of(&s), vec![Command::Heartbeat]);
    assert_eq!(s.last_line_number_sent, 0);
}

#[test]
fn interrupt_queues_three_stops_drained_one_per_ack() {
    let mut s = ready_state();
    s.reqs.push_back(Command::Raw("G1 X1 Y1".to_string()));
    s.on_interrupt();
    let q = queue_of(&s);
    assert_eq!(
        &q[..3],
        &[
            Command::EmergencyStop,
            Command::EmergencyStop,
            Command::EmergencyStop
        ]
    );
    assert_eq!(q.len(), 4);

    // Each acknowledgment lets exactly one stop through.
    assert_eq!(s.try_send(), Some(Command::EmergencyStop));
    assert_eq!(s.try_send(), None);
    s.apply_line(b"ok").unwrap();
    assert_eq!(s.try_send(), Some(Command::EmergencyStop));
    assert_eq!(s.try_send(), None);
    s.apply_line(b"ok").unwrap();
    assert_eq!(s.try_send(), Some(Command::EmergencyStop));
    assert_eq!(s.try_send(), None);
    s.apply_line(b"ok").unwrap();
    // The original work is still there, behind the stops.
    assert_eq!(s.try_send(), Some(Command::Raw("G1 X1 Y1".to_string())));
    assert_eq!(s.last_line_number_sent, 4);
}

#[test]
fn wants_program_only_when_ready_and_empty() {
    let mut s = State::new();
    assert!(!s.wants_program());
    s.ready = Some(true);
    assert!(!s.wants_program());
    s.reqs = VecDeque::new();
    assert!(s.wants_program());
    s.ready = Some(false);
    assert!(!s.wants_program());
}

#[test]
fn loader_filters_and_appends_closing_sequence() {
    let mut s = ready_state();
    let lines = vec![
        "".to_string(),
        "; comment".to_string(),
        "G1 X10 Y10".to_string(),
        "G28 X Y".to_string(),
    ];
    s.load_program(&lines);
    // The first retained line is not the find-home encoding, so nothing
    // is dropped: both program lines pass through, then the closing
    // sequence parks the device and ends the run.
    assert_eq!(
        queue_of(&s),
        vec![
            Command::Raw("G1 X10 Y10".to_string()),
            Command::Raw("G28 X Y".to_string()),
            Command::Pen(90, 250),
            Command::FindHome,
            Command::MotorsDisengage,
            Command::Die,
        ]
    );
}

#[test]
fn loader_drops_leading_find_home_once() {
    let mut s = ready_state();
    let lines = vec![
        "; heading comment".to_string(),
        "G28 X Y".to_string(),
        "G28 X Y".to_string(),
        "G1 X10 Y10".to_string(),
    ];
    s.load_program(&lines);
    assert_eq!(
        queue_of(&s),
        vec![
            Command::Raw("G28 X Y".to_string()),
            Command::Raw("G1 X10 Y10".to_string()),
            Command::Pen(90, 250),
            Command::FindHome,
            Command::MotorsDisengage,
            Command::Die,
        ]
    );
}

#[test]
fn loader_empty_program_still_parks_and_ends() {
    let mut s = ready_state();
    s.load_program(&Vec::new());
    assert_eq!(
        queue_of(&s),
        vec![
            Command::Pen(90, 250),
            Command::FindHome,
            Command::MotorsDisengage,
            Command::Die,
        ]
    );
}

#[test]
fn loader_keeps_whitespace_only_line() {
    // A line of blanks is neither empty nor a comment: it passes through.
    let mut s = ready_state();
    s.load_program(&vec!["   ".to_string(), "\t; tab comment".to_string()]);
    assert_eq!(
        queue_of(&s),
        vec![
            Command::Raw("   ".to_string()),
            Command::Pen(90, 250),
            Command::FindHome,
            Command::MotorsDisengage,
            Command::Die,
        ]
    );
}

#[test]
fn full_run_to_sentinel() {
    // An end-to-end pass over the state machine: readiness, drain of the
    // opening sequence, program load, and the terminal sentinel.
    let mut s = State::new();
    s.apply_line(b"start").unwrap();
    s.apply_line(b"//action:notification Polargraph Ready.").unwrap();
    let mut sent = Vec::new();
    loop {
        if s.wants_program() {
            s.load_program(&vec!["G1 X5 Y5".to_string()]);
        }
        match s.try_send() {
            Some(Command::Die) => break,
            Some(cmd) => {
                sent.push(cmd.encode());
                s.apply_line(b"ok").unwrap();
            }
            None => s.apply_line(b"ok").unwrap(),
        }
    }
    assert_eq!(
        sent,
        vec![
            "M400",
            "M876 P1",
            "M280 P0 S90 T250",
            "M17",
            "G28 X Y",
            "G1 X5 Y5",
            "M280 P0 S90 T250",
            "G28 X Y",
            "M18",
        ]
    );
}
