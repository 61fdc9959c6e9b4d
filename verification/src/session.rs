//! Session state machine: readiness tracking, the pending command queue,
//! the at-most-one-outstanding-command send rule, inbound line
//! classification, and the program loader.

use std::collections::VecDeque;

use vstd::prelude::*;
use vstd::slice::slice_to_vec;
use vstd::string::StringExecFns;
use vstd::utf8::{decode_utf8, valid_utf8};

use crate::command::{Command, CmdModel, wire_text};
use crate::text::{
    bytes_as_text, contains_seq, contains_text, has_prefix, is_comment, is_comment_line,
    starts_with, str_eq,
};

verus! {

/// Mathematical model of the session: the readiness flag, the pending
/// queue front-to-back, and the count of commands sent so far.
#[verifier::ext_equal]
pub ghost struct SessionModel {
    pub ready: Option<bool>,
    pub reqs: Seq<CmdModel>,
    pub sent: nat,
}

/// The semantic classes of inbound lines, in classification priority
/// order.
pub ghost enum LineClass {
    /// Bytes that are not well-formed text.
    Garbage,
    /// The device's ready notification.
    Ready,
    /// The acknowledgment of the outstanding command.
    Ack,
    /// The device shows an interactive prompt.
    Prompt,
    /// An error line indicating the device halted: fatal.
    Halt,
    /// Any other error line: pause until the device resumes.
    Pause,
    /// Anything else: observed only, no state change.
    Other,
}

pub open spec fn ready_text() -> Seq<char> {
    "//action:notification Polargraph Ready."@
}

pub open spec fn ack_text() -> Seq<char> {
    "ok"@
}

pub open spec fn prompt_text() -> Seq<char> {
    "//action:prompt_show"@
}

pub open spec fn error_prefix() -> Seq<char> {
    "Error:"@
}

pub open spec fn halt_marker() -> Seq<char> {
    "Printer halted"@
}

/// Classification of a validated text line, matched by literal content
/// or prefix, in priority order.
pub open spec fn text_class(t: Seq<char>) -> LineClass {
    if t == ready_text() {
        LineClass::Ready
    } else if t == ack_text() {
        LineClass::Ack
    } else if t == prompt_text() {
        LineClass::Prompt
    } else if has_prefix(t, error_prefix()) {
        if contains_seq(t, halt_marker()) {
            LineClass::Halt
        } else {
            LineClass::Pause
        }
    } else {
        LineClass::Other
    }
}

/// Classification of one reassembled line of raw bytes.
pub open spec fn line_class(bytes: Seq<u8>) -> LineClass {
    if !valid_utf8(bytes) {
        LineClass::Garbage
    } else {
        text_class(decode_utf8(bytes))
    }
}

/// The reaction of the session to a classified line.  Fatal classes and
/// unrecognized lines leave the state unchanged; the fatal report itself
/// is in the classifier's result.
pub open spec fn react(s: SessionModel, c: LineClass) -> SessionModel {
    match c {
        LineClass::Ready => SessionModel { ready: Some(true), ..s },
        LineClass::Ack => SessionModel { ready: Some(true), ..s },
        LineClass::Prompt => SessionModel {
            ready: Some(true),
            reqs: seq![CmdModel::PromptAnswerContinue] + s.reqs,
            ..s
        },
        LineClass::Pause => SessionModel { ready: Some(false), ..s },
        LineClass::Garbage => s,
        LineClass::Halt => s,
        LineClass::Other => s,
    }
}

/// The send step: when the device is ready and work is queued, the front
/// command leaves the queue.  The terminal sentinel leaves readiness and
/// the sent count untouched — nothing is transmitted for it; any other
/// command marks the device busy and counts as sent.
pub open spec fn try_send_model(s: SessionModel) -> (SessionModel, Option<CmdModel>) {
    if s.ready == Some(true) && s.reqs.len() > 0 {
        let c = s.reqs[0];
        if c is Die {
            (SessionModel { reqs: s.reqs.drop_first(), ..s }, Some(c))
        } else {
            (
                SessionModel {
                    ready: Some(false),
                    reqs: s.reqs.drop_first(),
                    sent: s.sent + 1,
                },
                Some(c),
            )
        }
    } else {
        (s, None)
    }
}

/// The interrupt reaction: three emergency stops preempt the queue.
pub open spec fn interrupt_model(s: SessionModel) -> SessionModel {
    SessionModel {
        reqs: seq![
            CmdModel::EmergencyStop,
            CmdModel::EmergencyStop,
            CmdModel::EmergencyStop,
        ] + s.reqs,
        ..s
    }
}

/// The commands queued at session start.
pub open spec fn initial_cmds() -> Seq<CmdModel> {
    seq![
        CmdModel::Heartbeat,
        CmdModel::PromptsSupported,
        CmdModel::Pen(90, 250),
        CmdModel::MotorsEngage,
        CmdModel::FindHome,
    ]
}

/// A program line that survives filtering: not blank, not a comment.
pub open spec fn retained(line: Seq<char>) -> bool {
    line.len() > 0 && !is_comment(line)
}

/// No line of `lines` survives filtering.
pub open spec fn none_retained(lines: Seq<Seq<char>>) -> bool {
    forall|i: int| 0 <= i < lines.len() ==> !retained(lines[i])
}

/// What one program line adds to the queue.  A blank or comment line
/// adds nothing; the first retained line, when it is textually the
/// find-home encoding, is dropped once (`drop_pending`); everything else
/// passes through.
pub open spec fn line_cmds(line: Seq<char>, drop_pending: bool) -> Seq<CmdModel> {
    if !retained(line) {
        seq![]
    } else if drop_pending && line == wire_text(CmdModel::FindHome) {
        seq![]
    } else {
        seq![CmdModel::Raw(line)]
    }
}

/// The commands a program contributes, in program order.  `drop_pending`
/// records whether the one-shot find-home drop is still available; it is
/// spent on the first retained line.
pub open spec fn program_commands(lines: Seq<Seq<char>>, drop_pending: bool) -> Seq<CmdModel>
    decreases lines.len(),
{
    if lines.len() == 0 {
        seq![]
    } else {
        line_cmds(lines[0], drop_pending) + program_commands(
            lines.drop_first(),
            drop_pending && !retained(lines[0]),
        )
    }
}

/// The fixed closing sequence: park the pen, re-home, release the
/// motors, then the terminal sentinel.
pub open spec fn closing_cmds() -> Seq<CmdModel> {
    seq![
        CmdModel::Pen(90, 250),
        CmdModel::FindHome,
        CmdModel::MotorsDisengage,
        CmdModel::Die,
    ]
}

proof fn lemma_program_snoc(lines: Seq<Seq<char>>, l: Seq<char>, p: bool)
    ensures
        program_commands(lines.push(l), p) =~= program_commands(lines, p) + line_cmds(
            l,
            p && none_retained(lines),
        ),
    decreases lines.len(),
{
    if lines.len() == 0 {
        assert(lines.push(l)[0] == l);
        assert(lines.push(l).drop_first() =~= Seq::<Seq<char>>::empty());
        assert(none_retained(lines));
        assert(program_commands(lines.push(l), p) =~= line_cmds(l, p) + program_commands(
            Seq::<Seq<char>>::empty(),
            p && !retained(l),
        ));
        assert(program_commands(lines, p) =~= Seq::<CmdModel>::empty());
        assert(line_cmds(l, p) + Seq::<CmdModel>::empty() =~= line_cmds(l, p));
    } else {
        let rest = lines.drop_first();
        let p2 = p && !retained(lines[0]);
        assert(lines.push(l)[0] == lines[0]);
        assert(lines.push(l).drop_first() =~= rest.push(l));
        lemma_program_snoc(rest, l, p2);
        assert(none_retained(lines) == (!retained(lines[0]) && none_retained(
            lines.drop_first(),
        ))) by {
            if !retained(lines[0]) && none_retained(lines.drop_first()) {
                assert forall|i: int| 0 <= i < lines.len() implies !retained(lines[i]) by {
                    if i > 0 {
                        assert(lines[i] == lines.drop_first()[i - 1]);
                    }
                }
            }
            if none_retained(lines) {
                assert forall|i: int|
                    0 <= i < lines.drop_first().len() implies !retained(
                    lines.drop_first()[i],
                ) by {
                    assert(lines.drop_first()[i] == lines[i + 1]);
                }
            }
        }
        assert(program_commands(lines.push(l), p) =~= line_cmds(lines[0], p) + program_commands(
            rest.push(l),
            p2,
        ));
        assert(line_cmds(l, p2 && none_retained(rest)) == line_cmds(l, p && none_retained(lines)));
        assert(program_commands(lines, p) =~= line_cmds(lines[0], p) + program_commands(rest, p2));
        assert(line_cmds(lines[0], p) + (program_commands(rest, p2) + line_cmds(
            l,
            p && none_retained(lines),
        )) =~= (line_cmds(lines[0], p) + program_commands(rest, p2)) + line_cmds(
            l,
            p && none_retained(lines),
        ));
    }
}

/// A fault that ends the run: raw bytes that are not text, or a line
/// reporting that the device halted.
#[derive(Debug, PartialEq)]
pub enum SessionError {
    /// The offending bytes, kept for the operator's report.
    Garbage(Vec<u8>),
    /// The halt line, kept for the operator's report.
    FatalHalt(String),
}

/// The session state: created once, it drives the whole run.
pub struct State {
    /// Readiness: `None` until the device is first heard from, then
    /// `Some(true)` when the next command may be sent and `Some(false)`
    /// while one is outstanding or the device reported trouble.
    pub ready: Option<bool>,
    /// The pending queue, front first.
    pub reqs: VecDeque<Command>,
    /// How many commands have been sent, for diagnostic correlation.
    pub last_line_number_sent: u32,
}

impl View for State {
    type V = SessionModel;

    open spec fn view(&self) -> SessionModel {
        SessionModel {
            ready: self.ready,
            reqs: self.reqs@.map_values(|c: Command| c@),
            sent: self.last_line_number_sent as nat,
        }
    }
}

impl State {
    /// A fresh session: readiness unknown, nothing sent, and the fixed
    /// opening sequence queued.
    pub fn new() -> (s: State)
        ensures
            s@.ready is None,
            s@.sent == 0,
            s@.reqs =~= initial_cmds(),
    {
        let mut reqs: VecDeque<Command> = VecDeque::new();
        reqs.push_back(Command::Heartbeat);
        reqs.push_back(Command::PromptsSupported);
        reqs.push_back(Command::Pen(90, 250));
        reqs.push_back(Command::MotorsEngage);
        reqs.push_back(Command::FindHome);
        let s = State { ready: None, reqs, last_line_number_sent: 0 };
        proof {
            assert(s@.reqs =~= initial_cmds());
        }
        s
    }

    /// Pops and returns the front command when the device is ready and
    /// work is queued; otherwise does nothing.  The caller transmits the
    /// returned command — unless it is the terminal sentinel, which ends
    /// the run instead and is never encoded.
    pub fn try_send(&mut self) -> (r: Option<Command>)
        requires
            old(self).last_line_number_sent < u32::MAX,
        ensures
            final(self)@ =~= try_send_model(old(self)@).0,
            match r {
                Some(c) => try_send_model(old(self)@).1 == Some(c@),
                None => try_send_model(old(self)@).1 is None,
            },
    {
        let is_ready = match self.ready {
            Some(true) => true,
            _ => false,
        };
        if is_ready && self.reqs.len() > 0 {
            match self.reqs.pop_front() {
                Some(req) => {
                    proof {
                        assert(self@.reqs =~= old(self)@.reqs.drop_first());
                    }
                    if matches!(req, Command::Die) {
                        return Some(req);
                    }
                    self.ready = Some(false);
                    self.last_line_number_sent = self.last_line_number_sent + 1;
                    Some(req)
                },
                None => vstd::pervasive::unreached(),
            }
        } else {
            None
        }
    }

    /// Applies one inbound line to the session.  The state changes by
    /// [`react`] on the line's class; garbage bytes and a halt line are
    /// returned as the fault to report, with the offending line kept.
    pub fn apply_line(&mut self, line: &[u8]) -> (r: Result<(), SessionError>)
        ensures
            final(self)@ =~= react(old(self)@, line_class(line@)),
            match r {
                Ok(_) => !(line_class(line@) is Garbage) && !(line_class(line@) is Halt),
                Err(SessionError::Garbage(raw)) => line_class(line@) is Garbage && raw@ == line@,
                Err(SessionError::FatalHalt(t)) => line_class(line@) is Halt && t@ == decode_utf8(
                    line@,
                ),
            },
    {
        match bytes_as_text(line) {
            None => Err(SessionError::Garbage(slice_to_vec(line))),
            Some(t) => {
                if str_eq(t, "//action:notification Polargraph Ready.") {
                    self.ready = Some(true);
                    Ok(())
                } else if str_eq(t, "ok") {
                    self.ready = Some(true);
                    Ok(())
                } else if str_eq(t, "//action:prompt_show") {
                    self.ready = Some(true);
                    self.reqs.push_front(Command::PromptAnswerContinue);
                    proof {
                        assert(self@.reqs =~= seq![CmdModel::PromptAnswerContinue] + old(
                            self,
                        )@.reqs);
                    }
                    Ok(())
                } else if starts_with(t, "Error:") {
                    if contains_text(t, "Printer halted") {
                        Err(SessionError::FatalHalt(String::from_str(t)))
                    } else {
                        self.ready = Some(false);
                        Ok(())
                    }
                } else {
                    Ok(())
                }
            },
        }
    }

    /// Loads a filtered command program and the fixed closing sequence
    /// onto the back of the queue: blank and comment lines are skipped,
    /// a leading find-home line is dropped once, every other line is
    /// enqueued as a raw passthrough command in program order, and the
    /// closing sequence (including the terminal sentinel) always follows.
    pub fn load_program(&mut self, lines: &Vec<String>)
        ensures
            final(self)@.ready == old(self)@.ready,
            final(self)@.sent == old(self)@.sent,
            final(self)@.reqs =~= old(self)@.reqs + program_commands(lines.deep_view(), true)
                + closing_cmds(),
    {
        let ghost lv = lines.deep_view();
        let mut pending = true;
        let mut i: usize = 0;
        while i < lines.len()
            invariant
                i <= lines.len(),
                lv == lines.deep_view(),
                lv.len() == lines@.len(),
                self.ready == old(self).ready,
                self.last_line_number_sent == old(self).last_line_number_sent,
                self@.reqs =~= old(self)@.reqs + program_commands(lv.take(i as int), true),
                pending == none_retained(lv.take(i as int)),
            decreases lines.len() - i,
        {
            let line: &String = &lines[i];
            let ghost nxt = lv.take(i + 1);
            proof {
                assert(lv[i as int] == lines@[i as int]@);
                assert(nxt =~= lv.take(i as int).push(lv[i as int]));
                lemma_program_snoc(lv.take(i as int), lv[i as int], true);
                if none_retained(lv.take(i as int)) && !retained(lv[i as int]) {
                    assert forall|j: int| 0 <= j < nxt.len() implies !retained(nxt[j]) by {
                        if j < i {
                            assert(nxt[j] == lv.take(i as int)[j]);
                        } else {
                            assert(nxt[j] == lv[i as int]);
                        }
                    }
                }
            }
            if line.as_str().is_empty() {
                proof {
                    assert(!retained(line@));
                }
            } else if is_comment_line(line.as_str()) {
                proof {
                    assert(!retained(line@));
                }
            } else if pending && str_eq(line.as_str(), "G28 X Y") {
                pending = false;
                proof {
                    assert(line_cmds(lv[i as int], true && none_retained(lv.take(i as int)))
                        =~= Seq::<CmdModel>::empty());
                }
            } else {
                let ghost prev = self@.reqs;
                self.reqs.push_back(Command::Raw(line.clone()));
                pending = false;
                proof {
                    assert(self@.reqs =~= prev.push(CmdModel::Raw(line@)));
                    assert(line_cmds(lv[i as int], none_retained(lv.take(i as int))) =~= seq![
                        CmdModel::Raw(line@),
                    ]);
                }
            }
            proof {
                if retained(lv[i as int]) {
                    assert(!none_retained(nxt)) by {
                        assert(nxt[i as int] == lv[i as int]);
                    }
                }
            }
            i = i + 1;
        }
        proof {
            assert(lv.take(lines@.len() as int) =~= lv);
        }
        let ghost mid = self@.reqs;
        self.reqs.push_back(Command::Pen(90, 250));
        self.reqs.push_back(Command::FindHome);
        self.reqs.push_back(Command::MotorsDisengage);
        self.reqs.push_back(Command::Die);
        proof {
            assert(self@.reqs =~= mid + closing_cmds());
        }
    }

    /// Whether the program loader should run: the device is ready and no
    /// work is pending.
    pub fn wants_program(&self) -> (r: bool)
        ensures
            r == (self@.ready == Some(true) && self@.reqs.len() == 0),
    {
        let is_ready = match self.ready {
            Some(true) => true,
            _ => false,
        };
        is_ready && self.reqs.len() == 0
    }

    /// The interrupt reaction: pushes three emergency stops to the front
    /// of the queue, so they preempt all pending work.
    pub fn on_interrupt(&mut self)
        ensures
            final(self)@ =~= interrupt_model(old(self)@),
    {
        self.reqs.push_front(Command::EmergencyStop);
        self.reqs.push_front(Command::EmergencyStop);
        self.reqs.push_front(Command::EmergencyStop);
        proof {
            assert(self@.reqs =~= seq![
                CmdModel::EmergencyStop,
                CmdModel::EmergencyStop,
                CmdModel::EmergencyStop,
            ] + old(self)@.reqs);
        }
    }
}

} // verus!
