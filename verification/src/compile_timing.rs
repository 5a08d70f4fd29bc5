//! How compiled steps account for the time of a recording: holds, move
//! durations and waits together cover the time from the first event to the
//! last, each stretch once.

use vstd::prelude::*;

use crate::compile::{
    compile_from, lemma_run_end_bounds, ms_between, nonzero_duration, run_end, spec_compile,
    sum_dx, sum_dy, wait_for, TimedEvent,
};
use crate::event::RawEvent;
use crate::input::{MoveMode, Point};
use crate::macro_def::Step;

verus! {

/// The milliseconds that playing a step takes by its own fields: a press's
/// or click's hold, a move's duration, a wait's (shortest) pause.
pub open spec fn step_time_ms(s: Step) -> int {
    match s {
        Step::KeyPress { hold_ms, .. } => hold_ms as int,
        Step::MouseClick { hold_ms, .. } => hold_ms as int,
        Step::MouseMove { duration_ms, .. } => match duration_ms {
            Some(d) => d as int,
            None => 0,
        },
        Step::Wait { min_ms, .. } => min_ms as int,
        _ => 0,
    }
}

/// The milliseconds that a list of steps takes, summed over its steps.
pub open spec fn steps_time_ms(s: Seq<Step>) -> int
    decreases s.len(),
{
    if s.len() == 0 {
        0
    } else {
        step_time_ms(s[0]) + steps_time_ms(s.drop_first())
    }
}

/// Whether the capture times of a recording never go back.
pub open spec fn times_ordered(raw: Seq<TimedEvent>) -> bool {
    forall|a: int, b: int| 0 <= a <= b < raw.len() ==> #[trigger] raw[a].at <= #[trigger] raw[b].at
}

proof fn lemma_time_concat(a: Seq<Step>, b: Seq<Step>)
    ensures
        steps_time_ms(a + b) == steps_time_ms(a) + steps_time_ms(b),
    decreases a.len(),
{
    if a.len() == 0 {
        assert(a + b =~= b);
    } else {
        lemma_time_concat(a.drop_first(), b);
        assert((a + b).drop_first() =~= a.drop_first() + b);
        assert((a + b)[0] == a[0]);
    }
}

/// The time of a gap's wait (if any) followed by `st`, then `rest`.
proof fn lemma_time_case(w: Seq<Step>, st: Step, rest: Seq<Step>)
    ensures
        steps_time_ms(w.push(st) + rest) == steps_time_ms(w) + step_time_ms(st) + steps_time_ms(
            rest,
        ),
{
    assert(w.push(st) =~= w + seq![st]);
    lemma_time_concat(w + seq![st], rest);
    lemma_time_concat(w, seq![st]);
    assert(seq![st].drop_first() =~= Seq::<Step>::empty());
    assert(steps_time_ms(Seq::<Step>::empty()) == 0);
    assert(steps_time_ms(seq![st]) == step_time_ms(st) + steps_time_ms(seq![st].drop_first()));
}

/// Whole milliseconds between two instants no further apart than the
/// largest `u32` count of milliseconds: the floor of the nanoseconds.
proof fn lemma_ms_floor(a: u64, b: u64)
    requires
        a <= b,
        b - a <= u32::MAX * 1_000_000,
    ensures
        ms_between(a, b) * 1_000_000 <= b - a,
        ms_between(a, b) * 1_000_000 > b - a - 1_000_000,
        a == b ==> ms_between(a, b) == 0,
{
    let d: int = b - a;
    assert(d == 1_000_000 * (d / 1_000_000) + d % 1_000_000) by {
        vstd::arithmetic::div_mod::lemma_fundamental_div_mod(d, 1_000_000);
    }
    assert(0 <= d % 1_000_000 < 1_000_000) by {
        vstd::arithmetic::div_mod::lemma_mod_pos_bound(d, 1_000_000);
    }
}

/// The wait for a gap of `g` nanoseconds stands for all of it but less than
/// the threshold, and for none of it more.
proof fn lemma_wait_time(a: u64, b: u64)
    requires
        a <= b,
        b - a <= u32::MAX * 1_000_000,
    ensures
        steps_time_ms(wait_for(ms_between(a, b))) * 1_000_000 <= b - a,
        steps_time_ms(wait_for(ms_between(a, b))) * 1_000_000 + 20_000_000 > b - a,
        a == b ==> steps_time_ms(wait_for(ms_between(a, b))) == 0,
{
    lemma_ms_floor(a, b);
    let ms = ms_between(a, b);
    let w = wait_for(ms);
    assert(steps_time_ms(Seq::<Step>::empty()) == 0);
    if ms >= 20 {
        assert(w == seq![Step::Wait { min_ms: ms, max_ms: ms }]);
        assert(w.drop_first() =~= Seq::<Step>::empty());
        assert(steps_time_ms(w) == step_time_ms(w[0]) + steps_time_ms(w.drop_first()));
        assert(steps_time_ms(w) == ms);
    } else {
        assert(w =~= Seq::<Step>::empty());
        assert(steps_time_ms(w) == 0);
    }
}

proof fn lemma_time_from(raw: Seq<TimedEvent>, i: int, last_at: u64)
    requires
        raw.len() > 0,
        0 <= i <= raw.len(),
        times_ordered(raw),
        raw[raw.len() - 1].at - raw[0].at <= u32::MAX * 1_000_000,
        i == 0 ==> last_at == raw[0].at,
        i > 0 ==> last_at == raw[i - 1].at,
    ensures
        steps_time_ms(compile_from(raw, i, last_at)) * 1_000_000 <= raw[raw.len() - 1].at - last_at,
        steps_time_ms(compile_from(raw, i, last_at)) * 1_000_000 + 20_000_000 * (raw.len() - i)
            >= raw[raw.len() - 1].at - last_at + (if i < raw.len() && last_at == raw[i].at {
            20_000_000int
        } else {
            0int
        }),
    decreases raw.len() - i,
{
    let n = raw.len() as int;
    let end = raw[n - 1].at;
    if i < n {
        let cur = raw[i];
        assert(raw[0].at <= last_at <= cur.at <= end);
        lemma_wait_time(last_at, cur.at);
        let w = wait_for(ms_between(last_at, cur.at));
        let c = compile_from(raw, i, last_at);
        match cur.event {
            RawEvent::KeyDown { key } => {
                if i + 1 < n && raw[i + 1].event == (RawEvent::KeyUp { key }) {
                    let up = raw[i + 1].at;
                    assert(cur.at <= up <= end);
                    lemma_ms_floor(cur.at, up);
                    let st = Step::KeyPress { key, hold_ms: ms_between(cur.at, up) };
                    lemma_time_from(raw, i + 2, up);
                    lemma_time_case(w, st, compile_from(raw, i + 2, up));
                } else {
                    lemma_time_from(raw, i + 1, cur.at);
                    lemma_time_case(w, Step::KeyDown { key }, compile_from(raw, i + 1, cur.at));
                }
            },
            RawEvent::KeyUp { key } => {
                lemma_time_from(raw, i + 1, cur.at);
                lemma_time_case(w, Step::KeyUp { key }, compile_from(raw, i + 1, cur.at));
            },
            RawEvent::MouseDown { button } => {
                if i + 1 < n && raw[i + 1].event == (RawEvent::MouseUp { button }) {
                    let up = raw[i + 1].at;
                    assert(cur.at <= up <= end);
                    lemma_ms_floor(cur.at, up);
                    let st = Step::MouseClick { button, hold_ms: ms_between(cur.at, up), at: None };
                    lemma_time_from(raw, i + 2, up);
                    lemma_time_case(w, st, compile_from(raw, i + 2, up));
                } else {
                    lemma_time_from(raw, i + 1, cur.at);
                    lemma_time_case(
                        w,
                        Step::MouseClick { button, hold_ms: 0, at: None },
                        compile_from(raw, i + 1, cur.at),
                    );
                }
            },
            RawEvent::MouseUp { .. } => {
                lemma_time_from(raw, i + 1, cur.at);
                lemma_time_concat(w, compile_from(raw, i + 1, cur.at));
            },
            RawEvent::MouseWheel { delta } => {
                lemma_time_from(raw, i + 1, cur.at);
                lemma_time_case(w, Step::MouseScroll { delta }, compile_from(raw, i + 1, cur.at));
            },
            RawEvent::MouseMove { .. } => {
                lemma_run_end_bounds(raw, i + 1);
                let j = run_end(raw, i + 1);
                let last = raw[j - 1].at;
                assert(cur.at <= last <= end);
                lemma_ms_floor(cur.at, last);
                let st = Step::MouseMove {
                    to: Point { x: sum_dx(raw, i, j), y: sum_dy(raw, i, j) },
                    mode: MoveMode::Relative,
                    duration_ms: nonzero_duration(ms_between(cur.at, last)),
                };
                assert(step_time_ms(st) == ms_between(cur.at, last));
                lemma_time_from(raw, j, last);
                lemma_time_case(w, st, compile_from(raw, j, last));
            },
        }
    }
}

/// Law (a recording's time is accounted once): for a recording whose
/// capture times never go back and span no more than `u32::MAX`
/// milliseconds, the holds, move durations and waits of its compiled steps
/// add up to no more than the time from its first event to its last, and
/// fall short of it by less than the wait threshold (20 ms) per gap between
/// consecutive events: a gap is counted once, inside the step that spans it
/// or as the wait before the next step, measured from the event just before.
pub proof fn lemma_compiled_time_spans(raw: Seq<TimedEvent>)
    requires
        raw.len() > 0,
        times_ordered(raw),
        raw[raw.len() - 1].at - raw[0].at <= u32::MAX * 1_000_000,
    ensures
        steps_time_ms(spec_compile(raw)) * 1_000_000 <= raw[raw.len() - 1].at - raw[0].at,
        steps_time_ms(spec_compile(raw)) * 1_000_000 >= raw[raw.len() - 1].at - raw[0].at
            - 20_000_000 * (raw.len() - 1),
{
    lemma_time_from(raw, 0, raw[0].at);
}

} // verus!
