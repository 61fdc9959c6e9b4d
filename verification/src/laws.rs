//! The protocol engine's guarantees, stated and proved over the session
//! model that every executable contract is tied to.

use vstd::prelude::*;

use crate::command::CmdModel;
use crate::session::{
    LineClass, SessionModel, error_prefix, halt_marker, interrupt_model, react, text_class,
    try_send_model,
};
use crate::text::{contains_seq, has_prefix};

verus! {

/// At most one command is outstanding.  When the send step releases a
/// transmittable command, the device is marked busy, and the send step
/// releases nothing further from that state.
pub proof fn lemma_send_blocks_until_ready(s: SessionModel)
    requires
        try_send_model(s).1 matches Some(c) && !(c is Die),
    ensures
        try_send_model(s).0.ready == Some(false),
        try_send_model(try_send_model(s).0).1 is None,
        try_send_model(try_send_model(s).0).0 == try_send_model(s).0,
{
}

/// A line class that turns readiness to ready.
pub open spec fn ready_setting(c: LineClass) -> bool {
    c is Ready || c is Ack || c is Prompt
}

/// The session after reacting to a run of classified lines, in order.
pub open spec fn react_all(s: SessionModel, cs: Seq<LineClass>) -> SessionModel
    decreases cs.len(),
{
    if cs.len() == 0 {
        s
    } else {
        react_all(react(s, cs[0]), cs.drop_first())
    }
}

proof fn lemma_blocked_run(s: SessionModel, cs: Seq<LineClass>)
    requires
        s.ready != Some(true),
        forall|i: int| 0 <= i < cs.len() ==> !ready_setting(cs[i]),
    ensures
        react_all(s, cs).ready != Some(true),
    decreases cs.len(),
{
    if cs.len() != 0 {
        assert(!ready_setting(cs[0]));
        assert forall|i: int| 0 <= i < cs.drop_first().len() implies !ready_setting(
            cs.drop_first()[i],
        ) by {
            assert(cs.drop_first()[i] == cs[i + 1]);
        }
        lemma_blocked_run(react(s, cs[0]), cs.drop_first());
    }
}

/// At most one command is outstanding, over whole runs: once a command
/// has been released, no further command is released across any
/// sequence of inbound lines that does not turn readiness to ready.
pub proof fn lemma_single_outstanding(s: SessionModel, cs: Seq<LineClass>)
    requires
        try_send_model(s).1 matches Some(c) && !(c is Die),
        forall|i: int| 0 <= i < cs.len() ==> !ready_setting(cs[i]),
    ensures
        react_all(try_send_model(s).0, cs).ready != Some(true),
        try_send_model(react_all(try_send_model(s).0, cs)).1 is None,
        try_send_model(react_all(try_send_model(s).0, cs)).0 == react_all(
            try_send_model(s).0,
            cs,
        ),
{
    lemma_blocked_run(try_send_model(s).0, cs);
}

/// While the device has not (re)declared readiness, sending stays blocked:
/// nothing is released, and neither a non-readiness line nor an
/// interrupt opens it.
pub proof fn lemma_send_stays_blocked(s: SessionModel, c: LineClass)
    requires
        s.ready != Some(true),
        !(c is Ready),
        !(c is Ack),
        !(c is Prompt),
    ensures
        try_send_model(s).1 is None,
        try_send_model(s).0 == s,
        react(s, c).ready != Some(true),
        interrupt_model(s).ready == s.ready,
{
}

/// The terminal sentinel is popped but never transmitted: readiness and
/// the sent counter stay untouched, so nothing reaches the wire for it.
/// (Its absence of a wire encoding is `encode_checked`'s contract.)
pub proof fn lemma_sentinel_not_transmitted(s: SessionModel)
    requires
        try_send_model(s).1 == Some(CmdModel::Die),
    ensures
        try_send_model(s).0.ready == s.ready,
        try_send_model(s).0.sent == s.sent,
        try_send_model(s).0.reqs == s.reqs.drop_first(),
{
}

/// A prompt line makes the device ready and puts the continue answer at
/// the very front of the queue, ahead of all previously queued work —
/// whatever readiness was before.
pub proof fn lemma_prompt_preempts(s: SessionModel)
    ensures
        react(s, LineClass::Prompt).ready == Some(true),
        react(s, LineClass::Prompt).reqs =~= seq![CmdModel::PromptAnswerContinue] + s.reqs,
        react(s, LineClass::Prompt).reqs[0] == CmdModel::PromptAnswerContinue,
        react(s, LineClass::Prompt).sent == s.sent,
{
}

/// An error line carrying the halt indicator always classifies as fatal,
/// whatever else the line holds; `apply_line` then reports the fault on
/// every state.
pub proof fn lemma_halt_is_fatal(t: Seq<char>)
    requires
        has_prefix(t, error_prefix()),
        contains_seq(t, halt_marker()),
    ensures
        text_class(t) is Halt,
{
    reveal_strlit("Error:");
    reveal_strlit("//action:notification Polargraph Ready.");
    reveal_strlit("ok");
    reveal_strlit("//action:prompt_show");
    assert(t.subrange(0, error_prefix().len() as int)[0] == t[0]);
    assert(t[0] == 'E');
}

/// One interrupt puts exactly three emergency stops at the front of the
/// queue, and they drain one at a time on successive acknowledgments,
/// leaving the previously queued work intact behind them.
pub proof fn lemma_interrupt_drain(s: SessionModel)
    ensures
        interrupt_model(s).reqs =~= seq![
            CmdModel::EmergencyStop,
            CmdModel::EmergencyStop,
            CmdModel::EmergencyStop,
        ] + s.reqs,
        interrupt_model(s).ready == s.ready,
        interrupt_model(s).sent == s.sent,
        ({
            let u1 = try_send_model(react(interrupt_model(s), LineClass::Ack));
            let u2 = try_send_model(react(u1.0, LineClass::Ack));
            let u3 = try_send_model(react(u2.0, LineClass::Ack));
            u1.1 == Some(CmdModel::EmergencyStop) && u2.1 == Some(CmdModel::EmergencyStop)
                && u3.1 == Some(CmdModel::EmergencyStop) && u3.0.reqs =~= s.reqs
        }),
{
    let es = CmdModel::EmergencyStop;
    let q0 = seq![es, es, es] + s.reqs;
    assert(q0.len() == 3 + s.reqs.len());
    assert(q0[0] == es);
    assert(q0.drop_first() =~= seq![es, es] + s.reqs);
    let q1 = q0.drop_first();
    assert(q1[0] == es);
    assert(q1.drop_first() =~= seq![es] + s.reqs);
    let q2 = q1.drop_first();
    assert(q2[0] == es);
    assert(q2.drop_first() =~= s.reqs);
}

/// Processing an acknowledgment is idempotent: it sets readiness ready
/// and touches nothing else, so a duplicate `ok` with no command
/// outstanding changes nothing further.
pub proof fn lemma_ack_idempotent(s: SessionModel)
    ensures
        react(s, LineClass::Ack).ready == Some(true),
        react(s, LineClass::Ack).reqs == s.reqs,
        react(s, LineClass::Ack).sent == s.sent,
        react(react(s, LineClass::Ack), LineClass::Ack) == react(s, LineClass::Ack),
{
}

} // verus!
