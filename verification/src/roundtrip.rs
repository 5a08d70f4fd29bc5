//! The law that ties recording to playback: compiling a recording and
//! playing the result sends the recorded events again.

use vstd::prelude::*;

use crate::compile::{
    compile_from, event_dx, event_dy, lemma_run_end_bounds, ms_between, nonzero_duration, run_end,
    spec_compile, sum_dx, sum_dy, wait_for, TimedEvent,
};
use crate::event::RawEvent;
use crate::input::MoveMode;
use crate::macro_def::Step;
use crate::player::spec_step_ops;
use crate::player_laws::{ops_events, step_events, steps_events};

verus! {

/// The events of a recording, without their times.
pub open spec fn recorded_events(raw: Seq<TimedEvent>) -> Seq<RawEvent> {
    raw.map_values(|t: TimedEvent| t.event)
}

/// Whether a recording replays exactly: every mouse-down is immediately
/// followed by its mouse-up, every mouse-up immediately follows its
/// mouse-down, and no two mouse moves are adjacent. (Compilation turns a lone
/// mouse-down into a full click, drops a lone mouse-up, and merges adjacent
/// moves, so on other recordings playback differs from what was recorded.)
pub open spec fn replays_exactly(raw: Seq<TimedEvent>) -> bool {
    &&& forall|i: int|
        0 <= i < raw.len() && (#[trigger] raw[i]).event is MouseDown ==> i + 1 < raw.len() && raw[i
            + 1].event == (RawEvent::MouseUp { button: raw[i].event->MouseDown_button })
    &&& forall|i: int|
        0 <= i < raw.len() && (#[trigger] raw[i]).event is MouseUp ==> i >= 1 && raw[i - 1].event
            == (RawEvent::MouseDown { button: raw[i].event->MouseUp_button })
    &&& forall|i: int|
        0 <= i < raw.len() && (#[trigger] raw[i]).event is MouseMove ==> i + 1 >= raw.len() || !(
        raw[i + 1].event is MouseMove)
}

/// The events of concatenated step lists are the concatenated events.
pub proof fn lemma_steps_events_concat(a: Seq<Step>, b: Seq<Step>)
    ensures
        steps_events(a + b) == steps_events(a) + steps_events(b),
    decreases a.len(),
{
    if a.len() == 0 {
        assert(a + b =~= b);
        assert(steps_events(a) + steps_events(b) =~= steps_events(b));
    } else {
        lemma_steps_events_concat(a.drop_first(), b);
        assert((a + b).drop_first() =~= a.drop_first() + b);
        assert((a + b)[0] == a[0]);
        assert(step_events(a[0]) + (steps_events(a.drop_first()) + steps_events(b))
            =~= step_events(a[0]) + steps_events(a.drop_first()) + steps_events(b));
    }
}

proof fn lemma_steps_events_single(s: Step)
    ensures
        steps_events(seq![s]) == step_events(s),
{
    assert(seq![s].drop_first() =~= Seq::<Step>::empty());
    assert(steps_events(Seq::<Step>::empty()) == Seq::<RawEvent>::empty());
    assert(step_events(s) + Seq::<RawEvent>::empty() =~= step_events(s));
}

proof fn lemma_wait_events(gap: u32)
    ensures
        steps_events(wait_for(gap)) == Seq::<RawEvent>::empty(),
{
    if gap >= 20 {
        lemma_steps_events_single(Step::Wait { min_ms: gap, max_ms: gap });
        reveal_with_fuel(ops_events, 2);
    }
}

proof fn lemma_pair_events(s: Step, e1: RawEvent, e2: RawEvent)
    requires
        spec_step_ops(s).len() == 3,
        spec_step_ops(s)[0] == crate::player::StepOp::Send(e1),
        spec_step_ops(s)[1] is Sleep,
        spec_step_ops(s)[2] == crate::player::StepOp::Send(e2),
    ensures
        step_events(s) == seq![e1, e2],
{
    let ops = spec_step_ops(s);
    reveal_with_fuel(ops_events, 4);
    assert(ops.drop_first().drop_first().drop_first().len() == 0);
    assert(ops.drop_first()[0] == ops[1]);
    assert(ops.drop_first().drop_first()[0] == ops[2]);
    assert(step_events(s) =~= seq![e1, e2]);
}

proof fn lemma_single_events(s: Step, e: RawEvent)
    requires
        spec_step_ops(s) == seq![crate::player::StepOp::Send(e)],
    ensures
        step_events(s) == seq![e],
{
    reveal_with_fuel(ops_events, 2);
    assert(spec_step_ops(s).drop_first().len() == 0);
    assert(step_events(s) =~= seq![e]);
}

/// Piece emitted at `i` followed by the rest.
proof fn lemma_piece(w: Seq<Step>, s: Step, rest: Seq<Step>)
    ensures
        steps_events(w.push(s) + rest) == steps_events(w) + step_events(s) + steps_events(rest),
{
    assert(w.push(s) =~= w + seq![s]);
    lemma_steps_events_concat(w.push(s), rest);
    lemma_steps_events_concat(w, seq![s]);
    lemma_steps_events_single(s);
}

/// What the recursion needs at `i`.
pub open spec fn replays_from(raw: Seq<TimedEvent>, i: int) -> bool {
    forall|t: u64|
        #![trigger compile_from(raw, i, t)]
        steps_events(compile_from(raw, i, t)) == recorded_events(raw).skip(i)
}

proof fn lemma_case_pair(raw: Seq<TimedEvent>, i: int, last_at: u64)
    requires
        0 <= i,
        i + 1 < raw.len(),
        (raw[i].event is KeyDown && raw[i + 1].event == (RawEvent::KeyUp {
            key: raw[i].event->KeyDown_key,
        })) || (raw[i].event is MouseDown && raw[i + 1].event == (RawEvent::MouseUp {
            button: raw[i].event->MouseDown_button,
        })),
        replays_from(raw, i + 2),
    ensures
        steps_events(compile_from(raw, i, last_at)) == recorded_events(raw).skip(i),
{
    let ev = recorded_events(raw);
    let cur = raw[i];
    let w = wait_for(ms_between(last_at, cur.at));
    lemma_wait_events(ms_between(last_at, cur.at));
    let rest = compile_from(raw, i + 2, raw[i + 1].at);
    assert(steps_events(rest) == ev.skip(i + 2));
    match cur.event {
        RawEvent::KeyDown { key } => {
            let s = Step::KeyPress { key, hold_ms: ms_between(cur.at, raw[i + 1].at) };
            assert(compile_from(raw, i, last_at) == w.push(s) + rest);
            lemma_piece(w, s, rest);
            lemma_pair_events(s, RawEvent::KeyDown { key }, RawEvent::KeyUp { key });
        },
        RawEvent::MouseDown { button } => {
            let s = Step::MouseClick { button, hold_ms: ms_between(cur.at, raw[i + 1].at), at: None };
            assert(compile_from(raw, i, last_at) == w.push(s) + rest);
            lemma_piece(w, s, rest);
            lemma_pair_events(s, RawEvent::MouseDown { button }, RawEvent::MouseUp { button });
        },
        _ => {},
    }
    assert(ev.skip(i) =~= seq![ev[i], ev[i + 1]] + ev.skip(i + 2));
    assert(Seq::<RawEvent>::empty() + seq![ev[i], ev[i + 1]] + ev.skip(i + 2) =~= ev.skip(i));
}

proof fn lemma_case_single(raw: Seq<TimedEvent>, i: int, last_at: u64, s: Step)
    requires
        0 <= i < raw.len(),
        compile_from(raw, i, last_at) == wait_for(ms_between(last_at, raw[i].at)).push(s)
            + compile_from(raw, i + 1, raw[i].at),
        step_events(s) == seq![raw[i].event],
        replays_from(raw, i + 1),
    ensures
        steps_events(compile_from(raw, i, last_at)) == recorded_events(raw).skip(i),
{
    let ev = recorded_events(raw);
    let w = wait_for(ms_between(last_at, raw[i].at));
    lemma_wait_events(ms_between(last_at, raw[i].at));
    let rest = compile_from(raw, i + 1, raw[i].at);
    assert(steps_events(rest) == ev.skip(i + 1));
    lemma_piece(w, s, rest);
    assert(ev.skip(i) =~= seq![ev[i]] + ev.skip(i + 1));
    assert(Seq::<RawEvent>::empty() + seq![ev[i]] + ev.skip(i + 1) =~= ev.skip(i));
}

/// Whether the compilation of `raw[i..]` starts a fresh event (not the
/// mouse-up of a click).
pub open spec fn token_start(raw: Seq<TimedEvent>, i: int) -> bool {
    i < raw.len() ==> !(raw[i].event is MouseUp)
}

proof fn lemma_compile_replays_from(raw: Seq<TimedEvent>, i: int)
    requires
        replays_exactly(raw),
        0 <= i <= raw.len(),
        token_start(raw, i),
    ensures
        replays_from(raw, i),
    decreases raw.len() - i,
{
    let ev = recorded_events(raw);
    if i == raw.len() {
        assert forall|t: u64| #![trigger compile_from(raw, i, t)]
            steps_events(compile_from(raw, i, t)) == ev.skip(i) by {
            assert(ev.skip(i) =~= Seq::<RawEvent>::empty());
        }
    } else {
        let cur = raw[i];
        match cur.event {
            RawEvent::KeyDown { key } => {
                if i + 1 < raw.len() && raw[i + 1].event == (RawEvent::KeyUp { key }) {
                    if i + 2 < raw.len() && raw[i + 2].event is MouseUp {
                        assert(raw[i + 2].event is MouseUp);
                    }
                    lemma_compile_replays_from(raw, i + 2);
                    assert forall|t: u64| #![trigger compile_from(raw, i, t)]
                        steps_events(compile_from(raw, i, t)) == ev.skip(i) by {
                        lemma_case_pair(raw, i, t);
                    }
                } else {
                    if i + 1 < raw.len() && raw[i + 1].event is MouseUp {
                        assert(raw[i + 1].event is MouseUp);
                    }
                    lemma_compile_replays_from(raw, i + 1);
                    let s = Step::KeyDown { key };
                    lemma_single_events(s, RawEvent::KeyDown { key });
                    assert forall|t: u64| #![trigger compile_from(raw, i, t)]
                        steps_events(compile_from(raw, i, t)) == ev.skip(i) by {
                        lemma_case_single(raw, i, t, s);
                    }
                }
            },
            RawEvent::KeyUp { key } => {
                if i + 1 < raw.len() && raw[i + 1].event is MouseUp {
                    assert(raw[i + 1].event is MouseUp);
                }
                lemma_compile_replays_from(raw, i + 1);
                let s = Step::KeyUp { key };
                lemma_single_events(s, RawEvent::KeyUp { key });
                assert forall|t: u64| #![trigger compile_from(raw, i, t)]
                    steps_events(compile_from(raw, i, t)) == ev.skip(i) by {
                    lemma_case_single(raw, i, t, s);
                }
            },
            RawEvent::MouseDown { button } => {
                assert(raw[i].event is MouseDown);
                if i + 2 < raw.len() && raw[i + 2].event is MouseUp {
                    assert(raw[i + 2].event is MouseUp);
                }
                lemma_compile_replays_from(raw, i + 2);
                assert forall|t: u64| #![trigger compile_from(raw, i, t)]
                    steps_events(compile_from(raw, i, t)) == ev.skip(i) by {
                    lemma_case_pair(raw, i, t);
                }
            },
            RawEvent::MouseUp { .. } => {},
            RawEvent::MouseMove { dx, dy } => {
                assert(raw[i].event is MouseMove);
                lemma_run_end_bounds(raw, i + 1);
                assert(run_end(raw, i + 1) == i + 1);
                if i + 1 < raw.len() && raw[i + 1].event is MouseUp {
                    assert(raw[i + 1].event is MouseUp);
                }
                lemma_compile_replays_from(raw, i + 1);
                let s = Step::MouseMove {
                    to: crate::input::Point { x: dx, y: dy },
                    mode: MoveMode::Relative,
                    duration_ms: None,
                };
                lemma_single_events(s, RawEvent::MouseMove { dx, dy });
                assert forall|t: u64| #![trigger compile_from(raw, i, t)]
                    steps_events(compile_from(raw, i, t)) == ev.skip(i) by {
                    assert(ms_between(cur.at, raw[i].at) == 0);
                    assert(sum_dx(raw, i, i + 1) == dx);
                    assert(sum_dy(raw, i, i + 1) == dy);
                    assert(nonzero_duration(0) == None::<u32>);
                    lemma_case_single(raw, i, t, s);
                }
            },
            RawEvent::MouseWheel { delta } => {
                if i + 1 < raw.len() && raw[i + 1].event is MouseUp {
                    assert(raw[i + 1].event is MouseUp);
                }
                lemma_compile_replays_from(raw, i + 1);
                let s = Step::MouseScroll { delta };
                lemma_single_events(s, RawEvent::MouseWheel { delta });
                assert forall|t: u64| #![trigger compile_from(raw, i, t)]
                    steps_events(compile_from(raw, i, t)) == ev.skip(i) by {
                    lemma_case_single(raw, i, t, s);
                }
            },
        }
    }
}

/// Law (record, then play, gives the recording back): for a recording in
/// which mouse buttons are only clicked (down immediately followed by up) and
/// no two mouse moves are adjacent, the events that playing its compiled
/// steps sends are exactly the recorded events, in order. Waits only pause.
pub proof fn lemma_compile_then_play(raw: Seq<TimedEvent>)
    requires
        replays_exactly(raw),
    ensures
        steps_events(spec_compile(raw)) == recorded_events(raw),
{
    if raw.len() == 0 {
        assert(recorded_events(raw) =~= Seq::<RawEvent>::empty());
    } else {
        if raw[0].event is MouseUp {
            assert(raw[0].event is MouseUp);
        }
        lemma_compile_replays_from(raw, 0);
        assert(steps_events(compile_from(raw, 0, raw[0].at)) == recorded_events(raw).skip(0));
        assert(recorded_events(raw).skip(0) =~= recorded_events(raw));
    }
}

} // verus!
