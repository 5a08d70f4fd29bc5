//! Compilation of a timestamped raw event stream into macro steps.

use vstd::prelude::*;

use crate::event::RawEvent;
use crate::input::{MoveMode, Point};
use crate::macro_def::Step;

verus! {

/// Minimum `Wait` that survives compilation; shorter gaps are dropped.
pub const MIN_WAIT_MS: u32 = 20;

/// One raw event with its capture time, in nanoseconds on a monotonic clock.
#[derive(Debug, Clone, Copy, PartialEq, Eq, Structural)]
pub struct TimedEvent {
    pub event: RawEvent,
    pub at: u64,
}

/// Whole milliseconds from `a` to `b` (nanosecond instants), zero when `b`
/// is not later than `a`, capped at `u32::MAX`.
pub open spec fn ms_between(a: u64, b: u64) -> u32 {
    if b <= a {
        0
    } else if (b - a) / 1_000_000 > u32::MAX {
        u32::MAX
    } else {
        ((b - a) / 1_000_000) as u32
    }
}

/// Whole milliseconds from `a` to `b`, saturating at zero and `u32::MAX`.
pub fn duration_ms_between(a: u64, b: u64) -> (r: u32)
    ensures
        r == ms_between(a, b),
{
    if b <= a {
        0
    } else {
        let ms = (b - a) / 1_000_000;
        if ms > u32::MAX as u64 {
            u32::MAX
        } else {
            ms as u32
        }
    }
}

/// `a + b` clamped to the `i32` range.
pub open spec fn sat_add(a: i32, b: i32) -> i32 {
    if a + b > i32::MAX {
        i32::MAX
    } else if a + b < i32::MIN {
        i32::MIN
    } else {
        (a + b) as i32
    }
}

/// `a + b` clamped to the `i32` range.
pub fn saturating_add_i32(a: i32, b: i32) -> (r: i32)
    ensures
        r == sat_add(a, b),
{
    let s: i64 = a as i64 + b as i64;
    if s > i32::MAX as i64 {
        i32::MAX
    } else if s < i32::MIN as i64 {
        i32::MIN
    } else {
        s as i32
    }
}

/// The `Wait` step for a gap, or nothing when the gap is below the threshold.
pub open spec fn wait_for(gap: u32) -> Seq<Step> {
    if gap >= MIN_WAIT_MS {
        seq![Step::Wait { min_ms: gap, max_ms: gap }]
    } else {
        Seq::empty()
    }
}

/// Index of the first event at or after `j` that is not a mouse move.
pub open spec fn run_end(raw: Seq<TimedEvent>, j: int) -> int
    decreases raw.len() - j,
{
    if j < 0 || j >= raw.len() {
        raw.len() as int
    } else if raw[j].event is MouseMove {
        run_end(raw, j + 1)
    } else {
        j
    }
}

/// Horizontal motion of a mouse-move event (zero for other events).
pub open spec fn event_dx(e: RawEvent) -> i32 {
    match e {
        RawEvent::MouseMove { dx, .. } => dx,
        _ => 0,
    }
}

/// Vertical motion of a mouse-move event (zero for other events).
pub open spec fn event_dy(e: RawEvent) -> i32 {
    match e {
        RawEvent::MouseMove { dy, .. } => dy,
        _ => 0,
    }
}

/// Saturating left-to-right sum of the horizontal motions of `raw[i..j]`.
pub open spec fn sum_dx(raw: Seq<TimedEvent>, i: int, j: int) -> i32
    decreases j - i,
{
    if j <= i + 1 {
        event_dx(raw[i].event)
    } else {
        sat_add(sum_dx(raw, i, j - 1), event_dx(raw[j - 1].event))
    }
}

/// Saturating left-to-right sum of the vertical motions of `raw[i..j]`.
pub open spec fn sum_dy(raw: Seq<TimedEvent>, i: int, j: int) -> i32
    decreases j - i,
{
    if j <= i + 1 {
        event_dy(raw[i].event)
    } else {
        sat_add(sum_dy(raw, i, j - 1), event_dy(raw[j - 1].event))
    }
}

/// `Some(d)` for a nonzero duration, `None` for zero.
pub open spec fn nonzero_duration(d: u32) -> Option<u32> {
    if d > 0 {
        Some(d)
    } else {
        None
    }
}

/// The steps compiled from `raw[i..]`, where `last_at` is the end of the
/// previously emitted step. Each event first contributes the `Wait` for its
/// gap since `last_at`, then:
/// * a key-down immediately followed by the matching key-up becomes one
///   key press holding for the time between them; otherwise a key-down stays
///   a key-down, and a key-up a key-up;
/// * a mouse-down immediately followed by the matching mouse-up becomes one
///   click; a lone mouse-down becomes a click held for zero; a lone mouse-up
///   is dropped;
/// * a run of consecutive mouse moves becomes one relative move by the
///   saturating sum of their deltas, lasting from the first to the last of
///   them (`None` when that is zero);
/// * a wheel event becomes a scroll.
pub open spec fn compile_from(raw: Seq<TimedEvent>, i: int, last_at: u64) -> Seq<Step>
    decreases raw.len() - i,
{
    if i < 0 || i >= raw.len() {
        Seq::empty()
    } else {
        let cur = raw[i];
        let w = wait_for(ms_between(last_at, cur.at));
        match cur.event {
            RawEvent::KeyDown { key } => {
                if i + 1 < raw.len() && raw[i + 1].event == (RawEvent::KeyUp { key }) {
                    w.push(Step::KeyPress { key, hold_ms: ms_between(cur.at, raw[i + 1].at) })
                        + compile_from(raw, i + 2, raw[i + 1].at)
                } else {
                    w.push(Step::KeyDown { key }) + compile_from(raw, i + 1, cur.at)
                }
            },
            RawEvent::KeyUp { key } => w.push(Step::KeyUp { key }) + compile_from(
                raw,
                i + 1,
                cur.at,
            ),
            RawEvent::MouseDown { button } => {
                if i + 1 < raw.len() && raw[i + 1].event == (RawEvent::MouseUp { button }) {
                    w.push(
                        Step::MouseClick {
                            button,
                            hold_ms: ms_between(cur.at, raw[i + 1].at),
                            at: None,
                        },
                    ) + compile_from(raw, i + 2, raw[i + 1].at)
                } else {
                    w.push(Step::MouseClick { button, hold_ms: 0, at: None }) + compile_from(
                        raw,
                        i + 1,
                        cur.at,
                    )
                }
            },
            RawEvent::MouseUp { .. } => w + compile_from(raw, i + 1, cur.at),
            RawEvent::MouseMove { .. } => {
                proof {
                    lemma_run_end_bounds(raw, i + 1);
                }
                let j = run_end(raw, i + 1);
                if j <= i {
                    Seq::empty()
                } else {
                    w.push(
                        Step::MouseMove {
                            to: Point { x: sum_dx(raw, i, j), y: sum_dy(raw, i, j) },
                            mode: MoveMode::Relative,
                            duration_ms: nonzero_duration(ms_between(cur.at, raw[j - 1].at)),
                        },
                    ) + compile_from(raw, j, raw[j - 1].at)
                }
            },
            RawEvent::MouseWheel { delta } => w.push(Step::MouseScroll { delta }) + compile_from(
                raw,
                i + 1,
                cur.at,
            ),
        }
    }
}

/// The steps compiled from a whole recording.
pub open spec fn spec_compile(raw: Seq<TimedEvent>) -> Seq<Step> {
    if raw.len() == 0 {
        Seq::empty()
    } else {
        compile_from(raw, 0, raw[0].at)
    }
}

pub proof fn lemma_run_end_bounds(raw: Seq<TimedEvent>, j: int)
    requires
        0 <= j,
    ensures
        j <= run_end(raw, j) <= raw.len() || (j > raw.len() && run_end(raw, j) == raw.len()),
        forall|k: int| j <= k < run_end(raw, j) ==> (#[trigger] raw[k]).event is MouseMove,
        run_end(raw, j) < raw.len() ==> !(raw[run_end(raw, j)].event is MouseMove),
    decreases raw.len() - j,
{
    if j < raw.len() && raw[j].event is MouseMove {
        lemma_run_end_bounds(raw, j + 1);
    }
}

/// Whether `e` is a mouse move.
pub fn is_mouse_move(e: RawEvent) -> (r: bool)
    ensures
        r == e is MouseMove,
{
    match e {
        RawEvent::MouseMove { .. } => true,
        _ => false,
    }
}

/// Appends `w` (the gap's `Wait`, if any) for the gap from `last_at` to `at`.
fn push_wait(out: &mut Vec<Step>, last_at: u64, at: u64)
    ensures
        final(out)@ == old(out)@ + wait_for(ms_between(last_at, at)),
{
    let ms = duration_ms_between(last_at, at);
    if ms >= MIN_WAIT_MS {
        out.push(Step::Wait { min_ms: ms, max_ms: ms });
    }
    proof {
        assert(final(out)@ =~= old(out)@ + wait_for(ms_between(last_at, at)));
    }
}

/// The end of the move run starting at `raw[i]` and its summed motion.
fn coalesce_moves(raw: &[TimedEvent], i: usize) -> (r: (usize, i32, i32))
    requires
        i < raw@.len(),
        raw@[i as int].event is MouseMove,
    ensures
        r.0 == run_end(raw@, i + 1),
        i < r.0 <= raw@.len(),
        r.1 == sum_dx(raw@, i as int, r.0 as int),
        r.2 == sum_dy(raw@, i as int, r.0 as int),
{
    let n = raw.len();
    let (mut total_dx, mut total_dy) = match raw[i].event {
        RawEvent::MouseMove { dx, dy } => (dx, dy),
        _ => (0, 0),
    };
    let mut j: usize = i + 1;
    proof {
        lemma_run_end_bounds(raw@, i + 1);
    }
    while j < n && is_mouse_move(raw[j].event)
        invariant
            n == raw@.len(),
            i < j <= n,
            j <= run_end(raw@, i as int + 1),
            run_end(raw@, j as int) == run_end(raw@, i as int + 1),
            total_dx == sum_dx(raw@, i as int, j as int),
            total_dy == sum_dy(raw@, i as int, j as int),
        decreases n - j,
    {
        proof {
            lemma_run_end_bounds(raw@, j as int + 1);
        }
        match raw[j].event {
            RawEvent::MouseMove { dx: ndx, dy: ndy } => {
                total_dx = saturating_add_i32(total_dx, ndx);
                total_dy = saturating_add_i32(total_dy, ndy);
            },
            _ => {},
        }
        j = j + 1;
    }
    (j, total_dx, total_dy)
}

/// Compiles a recording into steps (see [`compile_from`] for the rules).
#[verifier::rlimit(40)]
pub fn compile_events(raw: &[TimedEvent]) -> (r: Vec<Step>)
    ensures
        r@ == spec_compile(raw@),
{
    let mut out: Vec<Step> = Vec::new();
    if raw.len() == 0 {
        return out;
    }
    let n = raw.len();
    let mut i: usize = 0;
    let mut last_at: u64 = raw[0].at;
    while i < n
        invariant
            n == raw@.len(),
            0 < n,
            i <= n,
            spec_compile(raw@) == out@ + compile_from(raw@, i as int, last_at),
        decreases n - i,
    {
        let ghost before = out@;
        let ghost rest = compile_from(raw@, i as int, last_at);
        let cur = raw[i];
        push_wait(&mut out, last_at, cur.at);
        let ghost w = wait_for(ms_between(last_at, cur.at));
        match cur.event {
            RawEvent::KeyDown { key } => {
                if i + 1 < n && raw[i + 1].event == (RawEvent::KeyUp { key }) {
                    let next_at = raw[i + 1].at;
                    let hold = duration_ms_between(cur.at, next_at);
                    out.push(Step::KeyPress { key, hold_ms: hold });
                    proof {
                        let tail = compile_from(raw@, i + 2, next_at);
                        assert(rest == w.push(Step::KeyPress { key, hold_ms: hold }) + tail);
                        assert(out@ + tail =~= before + rest);
                    }
                    last_at = next_at;
                    i = i + 2;
                    continue;
                }
                out.push(Step::KeyDown { key });
                proof {
                    let tail = compile_from(raw@, i + 1, cur.at);
                    assert(out@ + tail =~= before + rest);
                }
            },
            RawEvent::KeyUp { key } => {
                out.push(Step::KeyUp { key });
                proof {
                    let tail = compile_from(raw@, i + 1, cur.at);
                    assert(out@ + tail =~= before + rest);
                }
            },
            RawEvent::MouseDown { button } => {
                if i + 1 < n && raw[i + 1].event == (RawEvent::MouseUp { button }) {
                    let next_at = raw[i + 1].at;
                    let hold = duration_ms_between(cur.at, next_at);
                    out.push(Step::MouseClick { button, hold_ms: hold, at: None });
                    proof {
                        let tail = compile_from(raw@, i + 2, next_at);
                        assert(out@ + tail =~= before + rest);
                    }
                    last_at = next_at;
                    i = i + 2;
                    continue;
                }
                out.push(Step::MouseClick { button, hold_ms: 0, at: None });
                proof {
                    let tail = compile_from(raw@, i + 1, cur.at);
                    assert(out@ + tail =~= before + rest);
                }
            },
            RawEvent::MouseUp { .. } => {
                proof {
                    let tail = compile_from(raw@, i + 1, cur.at);
                    assert(out@ + tail =~= before + rest);
                }
            },
            RawEvent::MouseMove { .. } => {
                let first_at = cur.at;
                let (j, total_dx, total_dy) = coalesce_moves(raw, i);
                let end_at = raw[j - 1].at;
                let dur = duration_ms_between(first_at, end_at);
                let duration_ms = if dur > 0 {
                    Some(dur)
                } else {
                    None
                };
                out.push(
                    Step::MouseMove {
                        to: Point { x: total_dx, y: total_dy },
                        mode: MoveMode::Relative,
                        duration_ms,
                    },
                );
                proof {
                    let tail = compile_from(raw@, j as int, end_at);
                    assert(out@ + tail =~= before + rest);
                }
                last_at = end_at;
                i = j;
                continue;
            },
            RawEvent::MouseWheel { delta } => {
                out.push(Step::MouseScroll { delta });
                proof {
                    let tail = compile_from(raw@, i + 1, cur.at);
                    assert(out@ + tail =~= before + rest);
                }
            },
        }
        last_at = cur.at;
        i = i + 1;
    }
    proof {
        assert(out@ + compile_from(raw@, i as int, last_at) =~= out@);
    }
    out
}


/// The form every compiled step has: a `Wait` has equal bounds of at least
/// [`MIN_WAIT_MS`], a move is relative and its duration, when it has one, is
/// not zero, and a click has no position.
pub open spec fn compiled_shape(s: Step) -> bool {
    match s {
        Step::Wait { min_ms, max_ms } => min_ms == max_ms && min_ms >= MIN_WAIT_MS,
        Step::MouseMove { mode, duration_ms, .. } => mode == MoveMode::Relative && duration_ms
            != Some(0u32),
        Step::MouseClick { at, .. } => at is None,
        _ => true,
    }
}

/// Whether every step of `s` has the compiled form.
pub open spec fn all_compiled_shape(s: Seq<Step>) -> bool {
    forall|k: int| 0 <= k < s.len() ==> #[trigger] compiled_shape(s[k])
}

proof fn lemma_shape_concat(a: Seq<Step>, b: Seq<Step>)
    requires
        all_compiled_shape(a),
        all_compiled_shape(b),
    ensures
        all_compiled_shape(a + b),
{
    assert forall|k: int| 0 <= k < (a + b).len() implies #[trigger] compiled_shape((a + b)[k]) by {
        if k < a.len() {
            assert((a + b)[k] == a[k]);
        } else {
            assert((a + b)[k] == b[k - a.len()]);
        }
    }
}

proof fn lemma_shape_from(raw: Seq<TimedEvent>, i: int, last_at: u64)
    ensures
        all_compiled_shape(compile_from(raw, i, last_at)),
    decreases raw.len() - i,
{
    if 0 <= i < raw.len() {
        let cur = raw[i];
        let w = wait_for(ms_between(last_at, cur.at));
        assert(all_compiled_shape(w));
        match cur.event {
            RawEvent::KeyDown { key } => {
                if i + 1 < raw.len() && raw[i + 1].event == (RawEvent::KeyUp { key }) {
                    lemma_shape_from(raw, i + 2, raw[i + 1].at);
                    let st = Step::KeyPress { key, hold_ms: ms_between(cur.at, raw[i + 1].at) };
                    lemma_shape_concat(w, seq![st]);
                    assert(w.push(st) =~= w + seq![st]);
                    lemma_shape_concat(w.push(st), compile_from(raw, i + 2, raw[i + 1].at));
                } else {
                    lemma_shape_from(raw, i + 1, cur.at);
                    lemma_shape_concat(w, seq![Step::KeyDown { key }]);
                    assert(w.push(Step::KeyDown { key }) =~= w + seq![Step::KeyDown { key }]);
                    lemma_shape_concat(w.push(Step::KeyDown { key }), compile_from(raw, i + 1, cur.at));
                }
            },
            RawEvent::KeyUp { key } => {
                lemma_shape_from(raw, i + 1, cur.at);
                lemma_shape_concat(w, seq![Step::KeyUp { key }]);
                assert(w.push(Step::KeyUp { key }) =~= w + seq![Step::KeyUp { key }]);
                lemma_shape_concat(w.push(Step::KeyUp { key }), compile_from(raw, i + 1, cur.at));
            },
            RawEvent::MouseDown { button } => {
                if i + 1 < raw.len() && raw[i + 1].event == (RawEvent::MouseUp { button }) {
                    lemma_shape_from(raw, i + 2, raw[i + 1].at);
                    let st = Step::MouseClick {
                        button,
                        hold_ms: ms_between(cur.at, raw[i + 1].at),
                        at: None,
                    };
                    lemma_shape_concat(w, seq![st]);
                    assert(w.push(st) =~= w + seq![st]);
                    lemma_shape_concat(w.push(st), compile_from(raw, i + 2, raw[i + 1].at));
                } else {
                    lemma_shape_from(raw, i + 1, cur.at);
                    let st = Step::MouseClick { button, hold_ms: 0, at: None };
                    lemma_shape_concat(w, seq![st]);
                    assert(w.push(st) =~= w + seq![st]);
                    lemma_shape_concat(w.push(st), compile_from(raw, i + 1, cur.at));
                }
            },
            RawEvent::MouseUp { .. } => {
                lemma_shape_from(raw, i + 1, cur.at);
                lemma_shape_concat(w, compile_from(raw, i + 1, cur.at));
            },
            RawEvent::MouseMove { .. } => {
                lemma_run_end_bounds(raw, i + 1);
                let j = run_end(raw, i + 1);
                if j > i {
                    lemma_shape_from(raw, j, raw[j - 1].at);
                    let st = Step::MouseMove {
                        to: Point { x: sum_dx(raw, i, j), y: sum_dy(raw, i, j) },
                        mode: MoveMode::Relative,
                        duration_ms: nonzero_duration(ms_between(cur.at, raw[j - 1].at)),
                    };
                    lemma_shape_concat(w, seq![st]);
                    assert(w.push(st) =~= w + seq![st]);
                    lemma_shape_concat(w.push(st), compile_from(raw, j, raw[j - 1].at));
                }
            },
            RawEvent::MouseWheel { delta } => {
                lemma_shape_from(raw, i + 1, cur.at);
                lemma_shape_concat(w, seq![Step::MouseScroll { delta }]);
                assert(w.push(Step::MouseScroll { delta }) =~= w + seq![Step::MouseScroll { delta }]);
                lemma_shape_concat(
                    w.push(Step::MouseScroll { delta }),
                    compile_from(raw, i + 1, cur.at),
                );
            },
        }
    }
}

/// Every step that compilation produces has the compiled form: each `Wait`
/// lasts exactly its gap, which is at least [`MIN_WAIT_MS`] (shorter gaps
/// are dropped); each mouse move is relative, with no duration or a nonzero
/// one; each click carries no position.
pub proof fn lemma_compiled_steps_shape(raw: Seq<TimedEvent>)
    ensures
        all_compiled_shape(spec_compile(raw)),
{
    if raw.len() > 0 {
        lemma_shape_from(raw, 0, raw[0].at);
    }
}

} // verus!
