//! What compilation keeps of a recording: every key press and release,
//! every button press, every wheel turn in order, and the total motion.

use vstd::prelude::*;

use crate::compile::{
    compile_from, event_dx, event_dy, lemma_run_end_bounds, ms_between, nonzero_duration, run_end,
    spec_compile, sum_dx, sum_dy, wait_for, TimedEvent,
};
use crate::event::RawEvent;
use crate::input::{MoveMode, Point};
use crate::macro_def::Step;

verus! {

/// What `f` reports of each step of `s`, concatenated.
pub open spec fn step_report(s: Seq<Step>, f: spec_fn(Step) -> Seq<int>) -> Seq<int>
    decreases s.len(),
{
    if s.len() == 0 {
        Seq::empty()
    } else {
        f(s[0]) + step_report(s.drop_first(), f)
    }
}

/// What `g` reports of each event of `raw[i..]`, concatenated.
pub open spec fn event_report(raw: Seq<TimedEvent>, i: int, g: spec_fn(RawEvent) -> Seq<int>) -> Seq<int>
    decreases raw.len() - i,
{
    if i < 0 || i >= raw.len() {
        Seq::empty()
    } else {
        g(raw[i].event) + event_report(raw, i + 1, g)
    }
}

/// Whether a step report `f` and an event report `g` agree with how
/// compilation turns events into steps: a press reports what its key's down
/// and up report, a click what its button's down reports, a scroll what its
/// wheel turn reports; waits, moves, button releases and mouse motion report
/// nothing.
pub open spec fn reports_agree(f: spec_fn(Step) -> Seq<int>, g: spec_fn(RawEvent) -> Seq<int>) -> bool {
    &&& forall|s: Step| (s is Wait || s is MouseMove) ==> #[trigger] f(s) == Seq::<int>::empty()
    &&& forall|e: RawEvent| (e is MouseUp || e is MouseMove) ==> #[trigger] g(e) == Seq::<int>::empty()
    &&& forall|s: Step|
        #[trigger] f(s) == match s {
            Step::KeyPress { key, .. } => g(RawEvent::KeyDown { key }) + g(RawEvent::KeyUp { key }),
            Step::KeyDown { key } => g(RawEvent::KeyDown { key }),
            Step::KeyUp { key } => g(RawEvent::KeyUp { key }),
            Step::MouseClick { button, .. } => g(RawEvent::MouseDown { button }),
            Step::MouseScroll { delta } => g(RawEvent::MouseWheel { delta }),
            _ => Seq::<int>::empty(),
        }
}

proof fn lemma_step_report_concat(a: Seq<Step>, b: Seq<Step>, f: spec_fn(Step) -> Seq<int>)
    ensures
        step_report(a + b, f) == step_report(a, f) + step_report(b, f),
    decreases a.len(),
{
    if a.len() == 0 {
        assert(a + b =~= b);
        assert(Seq::<int>::empty() + step_report(b, f) =~= step_report(b, f));
    } else {
        lemma_step_report_concat(a.drop_first(), b, f);
        assert((a + b).drop_first() =~= a.drop_first() + b);
        assert((a + b)[0] == a[0]);
        assert(f(a[0]) + (step_report(a.drop_first(), f) + step_report(b, f)) =~= f(a[0])
            + step_report(a.drop_first(), f) + step_report(b, f));
    }
}

proof fn lemma_step_report_single(s: Step, f: spec_fn(Step) -> Seq<int>)
    ensures
        step_report(seq![s], f) == f(s),
{
    assert(seq![s].drop_first() =~= Seq::<Step>::empty());
    assert(step_report(Seq::<Step>::empty(), f) == Seq::<int>::empty());
    assert(step_report(seq![s], f) == f(seq![s][0]) + step_report(seq![s].drop_first(), f));
    assert(f(s) + Seq::<int>::empty() =~= f(s));
}

/// The report of `w` (a gap's wait, if any) followed by `st`, then `rest`.
proof fn lemma_report_case(w: Seq<Step>, st: Step, rest: Seq<Step>, f: spec_fn(Step) -> Seq<int>)
    requires
        forall|k: int| 0 <= k < w.len() ==> (#[trigger] w[k]) is Wait,
        forall|s: Step| (s is Wait || s is MouseMove) ==> #[trigger] f(s) == Seq::<int>::empty(),
    ensures
        step_report(w.push(st) + rest, f) == f(st) + step_report(rest, f),
{
    lemma_wait_report(w, f);
    assert(w.push(st) =~= w + seq![st]);
    lemma_step_report_concat(w + seq![st], rest, f);
    lemma_step_report_concat(w, seq![st], f);
    lemma_step_report_single(st, f);
    assert(Seq::<int>::empty() + f(st) =~= f(st));
}

proof fn lemma_wait_report(w: Seq<Step>, f: spec_fn(Step) -> Seq<int>)
    requires
        forall|k: int| 0 <= k < w.len() ==> (#[trigger] w[k]) is Wait,
        forall|s: Step| (s is Wait || s is MouseMove) ==> #[trigger] f(s) == Seq::<int>::empty(),
    ensures
        step_report(w, f) == Seq::<int>::empty(),
    decreases w.len(),
{
    if w.len() > 0 {
        assert(w.drop_first().len() < w.len());
        assert forall|k: int| 0 <= k < w.drop_first().len() implies (#[trigger] w.drop_first()[k]) is Wait by {
            assert(w.drop_first()[k] == w[k + 1]);
        }
        lemma_wait_report(w.drop_first(), f);
        assert(w[0] is Wait);
        assert(f(w[0]) + Seq::<int>::empty() =~= Seq::<int>::empty());
    }
}

/// A run of moves reports nothing.
proof fn lemma_move_run_report(raw: Seq<TimedEvent>, i: int, j: int, g: spec_fn(RawEvent) -> Seq<int>)
    requires
        0 <= i <= j <= raw.len(),
        forall|k: int| i <= k < j ==> (#[trigger] raw[k]).event is MouseMove,
        forall|e: RawEvent| (e is MouseUp || e is MouseMove) ==> #[trigger] g(e) == Seq::<int>::empty(),
    ensures
        event_report(raw, i, g) == event_report(raw, j, g),
    decreases j - i,
{
    if i < j {
        lemma_move_run_report(raw, i + 1, j, g);
        assert(raw[i].event is MouseMove);
        assert(g(raw[i].event) + event_report(raw, i + 1, g) =~= event_report(raw, i + 1, g));
    }
}

proof fn lemma_report_from(
    raw: Seq<TimedEvent>,
    i: int,
    last_at: u64,
    f: spec_fn(Step) -> Seq<int>,
    g: spec_fn(RawEvent) -> Seq<int>,
)
    requires
        0 <= i,
        reports_agree(f, g),
    ensures
        step_report(compile_from(raw, i, last_at), f) == event_report(raw, i, g),
    decreases raw.len() - i,
{
    if i < raw.len() {
        let cur = raw[i];
        let w = wait_for(ms_between(last_at, cur.at));
        assert forall|k: int| 0 <= k < w.len() implies (#[trigger] w[k]) is Wait by {}
        match cur.event {
            RawEvent::KeyDown { key } => {
                if i + 1 < raw.len() && raw[i + 1].event == (RawEvent::KeyUp { key }) {
                    let st = Step::KeyPress { key, hold_ms: ms_between(cur.at, raw[i + 1].at) };
                    lemma_report_from(raw, i + 2, raw[i + 1].at, f, g);
                    lemma_report_case(w, st, compile_from(raw, i + 2, raw[i + 1].at), f);
                    assert(f(st) == g(RawEvent::KeyDown { key }) + g(RawEvent::KeyUp { key }));
                    assert(event_report(raw, i + 1, g) == g(raw[i + 1].event) + event_report(
                        raw,
                        i + 2,
                        g,
                    ));
                    assert(event_report(raw, i, g) == g(cur.event) + (g(raw[i + 1].event)
                        + event_report(raw, i + 2, g)));
                    assert(g(cur.event) + (g(raw[i + 1].event) + event_report(raw, i + 2, g))
                        =~= g(cur.event) + g(raw[i + 1].event) + event_report(raw, i + 2, g));
                } else {
                    let st = Step::KeyDown { key };
                    lemma_report_from(raw, i + 1, cur.at, f, g);
                    lemma_report_case(w, st, compile_from(raw, i + 1, cur.at), f);
                    assert(f(st) == g(cur.event));
                }
            },
            RawEvent::KeyUp { key } => {
                let st = Step::KeyUp { key };
                lemma_report_from(raw, i + 1, cur.at, f, g);
                lemma_report_case(w, st, compile_from(raw, i + 1, cur.at), f);
                assert(f(st) == g(cur.event));
            },
            RawEvent::MouseDown { button } => {
                if i + 1 < raw.len() && raw[i + 1].event == (RawEvent::MouseUp { button }) {
                    let st = Step::MouseClick {
                        button,
                        hold_ms: ms_between(cur.at, raw[i + 1].at),
                        at: None,
                    };
                    lemma_report_from(raw, i + 2, raw[i + 1].at, f, g);
                    lemma_report_case(w, st, compile_from(raw, i + 2, raw[i + 1].at), f);
                    assert(f(st) == g(cur.event));
                    assert(g(raw[i + 1].event) == Seq::<int>::empty());
                    assert(event_report(raw, i + 1, g) == g(raw[i + 1].event) + event_report(
                        raw,
                        i + 2,
                        g,
                    ));
                    assert(event_report(raw, i, g) == g(cur.event) + (g(raw[i + 1].event)
                        + event_report(raw, i + 2, g)));
                    assert(g(raw[i + 1].event) + event_report(raw, i + 2, g) =~= event_report(
                        raw,
                        i + 2,
                        g,
                    ));
                } else {
                    let st = Step::MouseClick { button, hold_ms: 0, at: None };
                    lemma_report_from(raw, i + 1, cur.at, f, g);
                    lemma_report_case(w, st, compile_from(raw, i + 1, cur.at), f);
                    assert(f(st) == g(cur.event));
                }
            },
            RawEvent::MouseUp { .. } => {
                lemma_report_from(raw, i + 1, cur.at, f, g);
                lemma_wait_report(w, f);
                lemma_step_report_concat(w, compile_from(raw, i + 1, cur.at), f);
                assert(g(cur.event) == Seq::<int>::empty());
                assert(Seq::<int>::empty() + event_report(raw, i + 1, g) =~= event_report(
                    raw,
                    i + 1,
                    g,
                ));
            },
            RawEvent::MouseMove { .. } => {
                lemma_run_end_bounds(raw, i + 1);
                let j = run_end(raw, i + 1);
                let st = Step::MouseMove {
                    to: Point { x: sum_dx(raw, i, j), y: sum_dy(raw, i, j) },
                    mode: MoveMode::Relative,
                    duration_ms: nonzero_duration(ms_between(cur.at, raw[j - 1].at)),
                };
                lemma_report_from(raw, j, raw[j - 1].at, f, g);
                lemma_report_case(w, st, compile_from(raw, j, raw[j - 1].at), f);
                assert(f(st) == Seq::<int>::empty());
                lemma_move_run_report(raw, i, j, g);
                assert(Seq::<int>::empty() + step_report(compile_from(raw, j, raw[j - 1].at), f)
                    =~= step_report(compile_from(raw, j, raw[j - 1].at), f));
            },
            RawEvent::MouseWheel { delta } => {
                let st = Step::MouseScroll { delta };
                lemma_report_from(raw, i + 1, cur.at, f, g);
                lemma_report_case(w, st, compile_from(raw, i + 1, cur.at), f);
                assert(f(st) == g(cur.event));
            },
        }
    }
}

/// A mark for each key press or key-down step.
pub open spec fn presses_and_downs() -> spec_fn(Step) -> Seq<int> {
    |s: Step| if s is KeyPress || s is KeyDown { seq![0int] } else { Seq::empty() }
}

/// A mark for each key-down event.
pub open spec fn key_downs() -> spec_fn(RawEvent) -> Seq<int> {
    |e: RawEvent| if e is KeyDown { seq![0int] } else { Seq::empty() }
}

/// A mark for each key press or key-up step.
pub open spec fn presses_and_ups() -> spec_fn(Step) -> Seq<int> {
    |s: Step| if s is KeyPress || s is KeyUp { seq![0int] } else { Seq::empty() }
}

/// A mark for each key-up event.
pub open spec fn key_ups() -> spec_fn(RawEvent) -> Seq<int> {
    |e: RawEvent| if e is KeyUp { seq![0int] } else { Seq::empty() }
}

/// A mark for each click step.
pub open spec fn clicks() -> spec_fn(Step) -> Seq<int> {
    |s: Step| if s is MouseClick { seq![0int] } else { Seq::empty() }
}

/// A mark for each mouse-down event.
pub open spec fn mouse_downs() -> spec_fn(RawEvent) -> Seq<int> {
    |e: RawEvent| if e is MouseDown { seq![0int] } else { Seq::empty() }
}

/// The delta of each scroll step.
pub open spec fn scroll_deltas() -> spec_fn(Step) -> Seq<int> {
    |s: Step|
        match s {
            Step::MouseScroll { delta } => seq![delta as int],
            _ => Seq::empty(),
        }
}

/// The delta of each wheel event.
pub open spec fn wheel_deltas() -> spec_fn(RawEvent) -> Seq<int> {
    |e: RawEvent|
        match e {
            RawEvent::MouseWheel { delta } => seq![delta as int],
            _ => Seq::empty(),
        }
}

/// Law (compilation loses no key, button or wheel input): in the steps
/// compiled from a recording, key presses plus key downs are as many as the
/// recorded key downs; key presses plus key ups as many as the recorded key
/// ups; clicks as many as the recorded mouse downs; and the scroll deltas,
/// in order, are the recorded wheel deltas.
pub proof fn lemma_compile_keeps_inputs(raw: Seq<TimedEvent>)
    ensures
        step_report(spec_compile(raw), presses_and_downs()).len() == event_report(
            raw,
            0,
            key_downs(),
        ).len(),
        step_report(spec_compile(raw), presses_and_ups()).len() == event_report(raw, 0, key_ups()).len(),
        step_report(spec_compile(raw), clicks()).len() == event_report(raw, 0, mouse_downs()).len(),
        step_report(spec_compile(raw), scroll_deltas()) == event_report(raw, 0, wheel_deltas()),
{
    if raw.len() > 0 {
        lemma_report_from(raw, 0, raw[0].at, presses_and_downs(), key_downs());
        lemma_report_from(raw, 0, raw[0].at, presses_and_ups(), key_ups());
        lemma_report_from(raw, 0, raw[0].at, clicks(), mouse_downs());
        lemma_report_from(raw, 0, raw[0].at, scroll_deltas(), wheel_deltas());
    }
}


/// The sum of a sequence of integers.
pub open spec fn total(s: Seq<int>) -> int
    decreases s.len(),
{
    if s.len() == 0 {
        0
    } else {
        s[0] + total(s.drop_first())
    }
}

proof fn lemma_total_concat(a: Seq<int>, b: Seq<int>)
    ensures
        total(a + b) == total(a) + total(b),
    decreases a.len(),
{
    if a.len() == 0 {
        assert(a + b =~= b);
    } else {
        lemma_total_concat(a.drop_first(), b);
        assert((a + b).drop_first() =~= a.drop_first() + b);
        assert((a + b)[0] == a[0]);
    }
}

/// Exact (unbounded) sum of the horizontal motions of `raw[i..j]`.
pub open spec fn exact_dx(raw: Seq<TimedEvent>, i: int, j: int) -> int
    decreases j - i,
{
    if i >= j {
        0
    } else {
        event_dx(raw[i].event) + exact_dx(raw, i + 1, j)
    }
}

/// Exact (unbounded) sum of the vertical motions of `raw[i..j]`.
pub open spec fn exact_dy(raw: Seq<TimedEvent>, i: int, j: int) -> int
    decreases j - i,
{
    if i >= j {
        0
    } else {
        event_dy(raw[i].event) + exact_dy(raw, i + 1, j)
    }
}

/// Whether `i` starts a run of moves: nothing, or something other than a
/// move, comes before it.
pub open spec fn run_start(raw: Seq<TimedEvent>, i: int) -> bool {
    i == 0 || !(raw[i - 1].event is MouseMove)
}

/// Whether, in every run of consecutive moves in `raw`, the running sums
/// of the motions from the start of the run fit an `i32`, horizontally and
/// vertically.
pub open spec fn runs_fit(raw: Seq<TimedEvent>) -> bool {
    forall|i: int, j: int|
        0 <= i < j <= raw.len() && run_start(raw, i) && (forall|k: int|
            i <= k < j ==> (#[trigger] raw[k]).event is MouseMove) ==> i32::MIN
            <= #[trigger] exact_dx(raw, i, j) <= i32::MAX && i32::MIN <= exact_dy(raw, i, j)
            <= i32::MAX
}

proof fn lemma_exact_split(raw: Seq<TimedEvent>, i: int, j: int)
    requires
        i < j,
    ensures
        exact_dx(raw, i, j) == exact_dx(raw, i, j - 1) + event_dx(raw[j - 1].event),
        exact_dy(raw, i, j) == exact_dy(raw, i, j - 1) + event_dy(raw[j - 1].event),
    decreases j - i,
{
    if i + 1 < j {
        lemma_exact_split(raw, i + 1, j);
        assert(exact_dx(raw, i, j - 1) == event_dx(raw[i].event) + exact_dx(raw, i + 1, j - 1));
        assert(exact_dy(raw, i, j - 1) == event_dy(raw[i].event) + exact_dy(raw, i + 1, j - 1));
    } else {
        assert(exact_dx(raw, i + 1, j) == 0);
        assert(exact_dy(raw, i + 1, j) == 0);
        assert(exact_dx(raw, i, j - 1) == 0);
        assert(exact_dy(raw, i, j - 1) == 0);
    }
}

proof fn lemma_total_single(x: int)
    ensures
        total(seq![x]) == x,
{
    assert(seq![x].drop_first() =~= Seq::<int>::empty());
    assert(total(Seq::<int>::empty()) == 0);
    assert(total(seq![x]) == seq![x][0] + total(seq![x].drop_first()));
}

/// Without overflow, the saturating sums of a run are its exact sums.
proof fn lemma_run_sums_exact(raw: Seq<TimedEvent>, i: int, j: int)
    requires
        runs_fit(raw),
        run_start(raw, i),
        0 <= i < j <= raw.len(),
        forall|k: int| i <= k < j ==> (#[trigger] raw[k]).event is MouseMove,
    ensures
        sum_dx(raw, i, j) == exact_dx(raw, i, j),
        sum_dy(raw, i, j) == exact_dy(raw, i, j),
    decreases j - i,
{
    lemma_exact_split(raw, i, j);
    if j > i + 1 {
        lemma_run_sums_exact(raw, i, j - 1);
        assert(i32::MIN <= exact_dx(raw, i, j) <= i32::MAX);
    } else {
        assert(exact_dx(raw, i, i) == 0);
        assert(exact_dy(raw, i, i) == 0);
    }
}

/// A mark for each move step.
pub open spec fn move_steps() -> spec_fn(Step) -> Seq<int> {
    |s: Step| if s is MouseMove { seq![0int] } else { Seq::empty() }
}

/// A mark for each move event.
pub open spec fn move_events() -> spec_fn(RawEvent) -> Seq<int> {
    |e: RawEvent| if e is MouseMove { seq![0int] } else { Seq::empty() }
}

/// The horizontal motion of each move step.
pub open spec fn step_xs() -> spec_fn(Step) -> Seq<int> {
    |s: Step|
        match s {
            Step::MouseMove { to, .. } => seq![to.x as int],
            _ => Seq::empty(),
        }
}

/// The vertical motion of each move step.
pub open spec fn step_ys() -> spec_fn(Step) -> Seq<int> {
    |s: Step|
        match s {
            Step::MouseMove { to, .. } => seq![to.y as int],
            _ => Seq::empty(),
        }
}

/// The horizontal motion of each move event.
pub open spec fn event_xs() -> spec_fn(RawEvent) -> Seq<int> {
    |e: RawEvent|
        match e {
            RawEvent::MouseMove { dx, .. } => seq![dx as int],
            _ => Seq::empty(),
        }
}

/// The vertical motion of each move event.
pub open spec fn event_ys() -> spec_fn(RawEvent) -> Seq<int> {
    |e: RawEvent|
        match e {
            RawEvent::MouseMove { dy, .. } => seq![dy as int],
            _ => Seq::empty(),
        }
}

/// Over a run of moves, the events report one mark each and their exact
/// motions.
proof fn lemma_move_run_events(raw: Seq<TimedEvent>, i: int, j: int)
    requires
        0 <= i <= j <= raw.len(),
        forall|k: int| i <= k < j ==> (#[trigger] raw[k]).event is MouseMove,
    ensures
        event_report(raw, i, move_events()).len() == (j - i) + event_report(raw, j, move_events()).len(),
        total(event_report(raw, i, event_xs())) == exact_dx(raw, i, j) + total(event_report(raw, j, event_xs())),
        total(event_report(raw, i, event_ys())) == exact_dy(raw, i, j) + total(event_report(raw, j, event_ys())),
    decreases j - i,
{
    if i < j {
        lemma_move_run_events(raw, i + 1, j);
        let e = raw[i].event;
        assert(e is MouseMove);
        lemma_total_concat(event_xs()(e), event_report(raw, i + 1, event_xs()));
        lemma_total_concat(event_ys()(e), event_report(raw, i + 1, event_ys()));
        lemma_total_single(event_dx(e) as int);
        lemma_total_single(event_dy(e) as int);
    }
}

/// A step that reports `f(st)` preceded by a gap's wait.
proof fn lemma_move_case_total(w: Seq<Step>, st: Step, rest: Seq<Step>, f: spec_fn(Step) -> Seq<int>)
    requires
        forall|k: int| 0 <= k < w.len() ==> (#[trigger] w[k]) is Wait,
        forall|s: Step| s is Wait ==> #[trigger] f(s) == Seq::<int>::empty(),
    ensures
        step_report(w.push(st) + rest, f) == f(st) + step_report(rest, f),
    decreases w.len(),
{
    lemma_wait_only(w, f);
    assert(w.push(st) =~= w + seq![st]);
    lemma_step_report_concat(w + seq![st], rest, f);
    lemma_step_report_concat(w, seq![st], f);
    lemma_step_report_single(st, f);
    assert(Seq::<int>::empty() + f(st) =~= f(st));
}

proof fn lemma_wait_only(w: Seq<Step>, f: spec_fn(Step) -> Seq<int>)
    requires
        forall|k: int| 0 <= k < w.len() ==> (#[trigger] w[k]) is Wait,
        forall|s: Step| s is Wait ==> #[trigger] f(s) == Seq::<int>::empty(),
    ensures
        step_report(w, f) == Seq::<int>::empty(),
    decreases w.len(),
{
    if w.len() > 0 {
        assert forall|k: int| 0 <= k < w.drop_first().len() implies (#[trigger] w.drop_first()[k]) is Wait by {
            assert(w.drop_first()[k] == w[k + 1]);
        }
        lemma_wait_only(w.drop_first(), f);
        assert(w[0] is Wait);
        assert(f(w[0]) + Seq::<int>::empty() =~= Seq::<int>::empty());
    }
}

proof fn lemma_moves_from(raw: Seq<TimedEvent>, i: int, last_at: u64)
    requires
        0 <= i,
        i < raw.len() && raw[i].event is MouseMove ==> run_start(raw, i),
    ensures
        step_report(compile_from(raw, i, last_at), move_steps()).len() <= event_report(
            raw,
            i,
            move_events(),
        ).len(),
        runs_fit(raw) ==> total(step_report(compile_from(raw, i, last_at), step_xs())) == total(
            event_report(raw, i, event_xs()),
        ),
        runs_fit(raw) ==> total(step_report(compile_from(raw, i, last_at), step_ys())) == total(
            event_report(raw, i, event_ys()),
        ),
    decreases raw.len() - i,
{
    if i < raw.len() {
        let cur = raw[i];
        let w = wait_for(ms_between(last_at, cur.at));
        assert forall|k: int| 0 <= k < w.len() implies (#[trigger] w[k]) is Wait by {}
        let c = compile_from(raw, i, last_at);
        let (next, rest, st_opt, consumed) = match cur.event {
            RawEvent::KeyDown { key } => if i + 1 < raw.len() && raw[i + 1].event == (RawEvent::KeyUp { key }) {
                (i + 2, raw[i + 1].at, Some(Step::KeyPress { key, hold_ms: ms_between(cur.at, raw[i + 1].at) }), 2int)
            } else {
                (i + 1, cur.at, Some(Step::KeyDown { key }), 1int)
            },
            RawEvent::KeyUp { key } => (i + 1, cur.at, Some(Step::KeyUp { key }), 1int),
            RawEvent::MouseDown { button } => if i + 1 < raw.len() && raw[i + 1].event == (RawEvent::MouseUp { button }) {
                (i + 2, raw[i + 1].at, Some(Step::MouseClick { button, hold_ms: ms_between(cur.at, raw[i + 1].at), at: None }), 2int)
            } else {
                (i + 1, cur.at, Some(Step::MouseClick { button, hold_ms: 0, at: None }), 1int)
            },
            RawEvent::MouseUp { .. } => (i + 1, cur.at, None, 1int),
            RawEvent::MouseWheel { delta } => (i + 1, cur.at, Some(Step::MouseScroll { delta }), 1int),
            RawEvent::MouseMove { .. } => (i, cur.at, None, 0int),
        };
        if cur.event is MouseMove {
            lemma_run_end_bounds(raw, i + 1);
            let j = run_end(raw, i + 1);
            let st = Step::MouseMove {
                to: Point { x: sum_dx(raw, i, j), y: sum_dy(raw, i, j) },
                mode: MoveMode::Relative,
                duration_ms: nonzero_duration(ms_between(cur.at, raw[j - 1].at)),
            };
            let tail = compile_from(raw, j, raw[j - 1].at);
            assert(c == w.push(st) + tail);
            lemma_moves_from(raw, j, raw[j - 1].at);
            lemma_move_case_total(w, st, tail, move_steps());
            lemma_move_case_total(w, st, tail, step_xs());
            lemma_move_case_total(w, st, tail, step_ys());
            assert forall|k: int| i <= k < j implies (#[trigger] raw[k]).event is MouseMove by {
                if k > i {
                    assert(raw[k].event is MouseMove);
                }
            }
            lemma_move_run_events(raw, i, j);
            if runs_fit(raw) {
                lemma_run_sums_exact(raw, i, j);
            }
            lemma_total_concat(seq![sum_dx(raw, i, j) as int], step_report(tail, step_xs()));
            lemma_total_concat(seq![sum_dy(raw, i, j) as int], step_report(tail, step_ys()));
            lemma_total_single(sum_dx(raw, i, j) as int);
            lemma_total_single(sum_dy(raw, i, j) as int);
        } else {
            let tail = compile_from(raw, next, rest);
            lemma_moves_from(raw, next, rest);
            if consumed == 2 {
                assert(event_report(raw, i + 1, move_events()) == move_events()(raw[i + 1].event)
                    + event_report(raw, i + 2, move_events()));
                assert(event_report(raw, i + 1, event_xs()) == event_xs()(raw[i + 1].event)
                    + event_report(raw, i + 2, event_xs()));
                assert(event_report(raw, i + 1, event_ys()) == event_ys()(raw[i + 1].event)
                    + event_report(raw, i + 2, event_ys()));
                assert(move_events()(raw[i + 1].event) =~= Seq::<int>::empty());
                assert(event_xs()(raw[i + 1].event) =~= Seq::<int>::empty());
                assert(event_ys()(raw[i + 1].event) =~= Seq::<int>::empty());
            }
            assert(move_events()(cur.event) =~= Seq::<int>::empty());
            assert(event_xs()(cur.event) =~= Seq::<int>::empty());
            assert(event_ys()(cur.event) =~= Seq::<int>::empty());
            assert(Seq::<int>::empty() + event_report(raw, i + 1, move_events()) =~= event_report(raw, i + 1, move_events()));
            assert(Seq::<int>::empty() + event_report(raw, i + 1, event_xs()) =~= event_report(raw, i + 1, event_xs()));
            assert(Seq::<int>::empty() + event_report(raw, i + 1, event_ys()) =~= event_report(raw, i + 1, event_ys()));
            match st_opt {
                Some(st) => {
                    assert(c == w.push(st) + tail);
                    lemma_move_case_total(w, st, tail, move_steps());
                    lemma_move_case_total(w, st, tail, step_xs());
                    lemma_move_case_total(w, st, tail, step_ys());
                    assert(move_steps()(st) =~= Seq::<int>::empty());
                    assert(step_xs()(st) =~= Seq::<int>::empty());
                    assert(step_ys()(st) =~= Seq::<int>::empty());
                    assert(Seq::<int>::empty() + step_report(tail, move_steps()) =~= step_report(tail, move_steps()));
                    assert(Seq::<int>::empty() + step_report(tail, step_xs()) =~= step_report(tail, step_xs()));
                    assert(Seq::<int>::empty() + step_report(tail, step_ys()) =~= step_report(tail, step_ys()));
                },
                None => {
                    assert(c == w + tail);
                    lemma_wait_only(w, move_steps());
                    lemma_wait_only(w, step_xs());
                    lemma_wait_only(w, step_ys());
                    lemma_step_report_concat(w, tail, move_steps());
                    lemma_step_report_concat(w, tail, step_xs());
                    lemma_step_report_concat(w, tail, step_ys());
                    assert(Seq::<int>::empty() + step_report(tail, move_steps()) =~= step_report(tail, move_steps()));
                    assert(Seq::<int>::empty() + step_report(tail, step_xs()) =~= step_report(tail, step_xs()));
                    assert(Seq::<int>::empty() + step_report(tail, step_ys()) =~= step_report(tail, step_ys()));
                },
            }
        }
    }
}

/// Law (compilation keeps the motion): the steps compiled from a recording
/// hold no more moves than the recording, and, when the running sums of
/// every run of consecutive moves fit an `i32` (so that the saturating sums
/// never saturate), their motions add up to exactly the recorded motion,
/// horizontally and vertically.
pub proof fn lemma_compile_keeps_motion(raw: Seq<TimedEvent>)
    ensures
        step_report(spec_compile(raw), move_steps()).len() <= event_report(raw, 0, move_events()).len(),
        runs_fit(raw) ==> total(step_report(spec_compile(raw), step_xs())) == total(
            event_report(raw, 0, event_xs()),
        ),
        runs_fit(raw) ==> total(step_report(spec_compile(raw), step_ys())) == total(
            event_report(raw, 0, event_ys()),
        ),
{
    if raw.len() > 0 {
        lemma_moves_from(raw, 0, raw[0].at);
    }
}

} // verus!
