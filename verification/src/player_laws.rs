//! What a playback sends: the events of each step, and the laws that tie the
//! player's transitions to them.

use vstd::prelude::*;

use crate::event::RawEvent;
use crate::input::{KeyCode, MouseButton, MoveMode, Point};
use crate::macro_def::{PlaybackMode, Step};
use crate::player::{
    PlaybackIter,
    lemma_stream_target_bounds, player_wf, spec_iter_next, spec_iterations, spec_new_player,
    spec_next, spec_step_ops, stream_chunk, stream_target, Cursor, PlannedAction, Player, StepOp,
    STREAM_CHUNK_MS,
};

use vstd::arithmetic::div_mod::lemma_div_is_ordered;

verus! {

/// The nonzero chunks sent by a streamed move of `(dx, dy)` over `d`
/// chunks, from chunk `c` on, when `(sx, sy)` has been sent so far.
pub open spec fn stream_rest(dx: i32, dy: i32, d: u32, c: int, sx: int, sy: int) -> Seq<RawEvent>
    decreases d + 1 - c,
{
    if c < 1 || c > d {
        Seq::empty()
    } else {
        let e = stream_chunk(c, dx, dy, d, sx, sy);
        let rest = stream_rest(
            dx,
            dy,
            d,
            c + 1,
            stream_target(c, dx as int, d as int),
            stream_target(c, dy as int, d as int),
        );
        if e == (RawEvent::MouseMove { dx: 0, dy: 0 }) {
            rest
        } else {
            seq![e] + rest
        }
    }
}

/// The events that one operation sends when it runs to its end.
pub open spec fn op_events(op: StepOp) -> Seq<RawEvent> {
    match op {
        StepOp::Send(e) => seq![e],
        StepOp::Stream { dx, dy, duration_ms } => stream_rest(dx, dy, duration_ms, 1, 0, 0),
        _ => Seq::empty(),
    }
}

/// The events that a sequence of operations sends.
pub open spec fn ops_events(ops: Seq<StepOp>) -> Seq<RawEvent>
    decreases ops.len(),
{
    if ops.len() == 0 {
        Seq::empty()
    } else {
        op_events(ops[0]) + ops_events(ops.drop_first())
    }
}

/// The events that playing one step sends, when no stop interrupts it.
pub open spec fn step_events(s: Step) -> Seq<RawEvent> {
    ops_events(spec_step_ops(s))
}

/// The events that playing the steps once sends, when no stop interrupts.
pub open spec fn steps_events(steps: Seq<Step>) -> Seq<RawEvent>
    decreases steps.len(),
{
    if steps.len() == 0 {
        Seq::empty()
    } else {
        step_events(steps[0]) + steps_events(steps.drop_first())
    }
}

/// `s` repeated `n` times.
pub open spec fn repeat_events(s: Seq<RawEvent>, n: nat) -> Seq<RawEvent>
    decreases n,
{
    if n == 0 {
        Seq::empty()
    } else {
        s + repeat_events(s, (n - 1) as nat)
    }
}

/// Iterations still to start, for a finite playback.
pub open spec fn iterations_left(p: Player) -> nat {
    match p.iter.remaining {
        Some(n) => n as nat,
        None => 0,
    }
}

/// The events owed after the current step.
pub open spec fn after_step(p: Player, steps: Seq<Step>, step: int) -> Seq<RawEvent> {
    steps_events(steps.skip(step + 1)) + repeat_events(steps_events(steps), iterations_left(p))
}

/// The events that a finite playback still owes from this state, when no
/// stop interrupts it.
pub open spec fn remaining_sends(p: Player, steps: Seq<Step>) -> Seq<RawEvent> {
    match p.cursor {
        Cursor::Finished => Seq::empty(),
        Cursor::Boundary => repeat_events(steps_events(steps), iterations_left(p)),
        Cursor::StepStart { step } => steps_events(steps.skip(step as int)) + repeat_events(
            steps_events(steps),
            iterations_left(p),
        ),
        Cursor::InStep { step, op } => ops_events(spec_step_ops(steps[step as int]).skip(op as int))
            + after_step(p, steps, step as int),
        Cursor::Streaming { step, op, chunk, sent_x, sent_y } => {
            match spec_step_ops(steps[step as int])[op as int] {
                StepOp::Stream { dx, dy, duration_ms } => stream_rest(
                    dx,
                    dy,
                    duration_ms,
                    chunk as int,
                    sent_x as int,
                    sent_y as int,
                ) + ops_events(spec_step_ops(steps[step as int]).skip(op + 1)) + after_step(
                    p,
                    steps,
                    step as int,
                ),
                _ => Seq::empty(),
            }
        },
        Cursor::ChunkPause { step, op, chunk, sent_x, sent_y } => {
            match spec_step_ops(steps[step as int])[op as int] {
                StepOp::Stream { dx, dy, duration_ms } => stream_rest(
                    dx,
                    dy,
                    duration_ms,
                    chunk + 1,
                    sent_x as int,
                    sent_y as int,
                ) + ops_events(spec_step_ops(steps[step as int]).skip(op + 1)) + after_step(
                    p,
                    steps,
                    step as int,
                ),
                _ => Seq::empty(),
            }
        },
    }
}

/// The event a planned action sends, if any.
pub open spec fn action_sends(a: PlannedAction) -> Seq<RawEvent> {
    match a {
        PlannedAction::Send(e) => seq![e],
        _ => Seq::empty(),
    }
}

proof fn lemma_ops_events_skip(ops: Seq<StepOp>, k: int)
    requires
        0 <= k < ops.len(),
    ensures
        ops_events(ops.skip(k)) == op_events(ops[k]) + ops_events(ops.skip(k + 1)),
{
    assert(ops.skip(k).drop_first() =~= ops.skip(k + 1));
    assert(ops.skip(k)[0] == ops[k]);
}

proof fn lemma_ops_events_end(ops: Seq<StepOp>, k: int)
    requires
        k == ops.len(),
    ensures
        ops_events(ops.skip(k)) == Seq::<RawEvent>::empty(),
{
    assert(ops.skip(k).len() == 0);
}

proof fn lemma_steps_events_skip(steps: Seq<Step>, k: int)
    requires
        0 <= k < steps.len(),
    ensures
        steps_events(steps.skip(k)) == step_events(steps[k]) + steps_events(steps.skip(k + 1)),
{
    assert(steps.skip(k).drop_first() =~= steps.skip(k + 1));
    assert(steps.skip(k)[0] == steps[k]);
}

/// A stream chunk is the difference of two successive targets, and it fits
/// in an `i32` exactly.
pub proof fn lemma_stream_chunk_exact(c: int, total: i32, d: u32)
    requires
        1 <= c <= d,
    ensures
        (stream_target(c, total as int, d as int) - stream_target(c - 1, total as int, d as int))
            as i32 == stream_target(c, total as int, d as int) - stream_target(
            c - 1,
            total as int,
            d as int,
        ),
{
    lemma_stream_target_bounds(c, total as int, d as int);
    lemma_stream_target_bounds(c - 1, total as int, d as int);
    let m: int = if total >= 0 { total as int } else { -(total as int) };
    assert((c - 1) * m <= c * m) by (nonlinear_arith)
        requires
            c >= 1,
            m >= 0,
    ;
    lemma_div_is_ordered((c - 1) * m, c * m, d as int);
    if total < 0 {
        assert(c * total == -(c * m)) by (nonlinear_arith)
            requires
                m == -total,
        ;
        assert((c - 1) * total == -((c - 1) * m)) by (nonlinear_arith)
            requires
                m == -total,
        ;
        assert((c - 1) * total <= 0) by (nonlinear_arith)
            requires
                c >= 1,
                total < 0,
        ;
        assert(c * total < 0) by (nonlinear_arith)
            requires
                c >= 1,
                total < 0,
        ;
        if (c - 1) * total == 0 {
            assert((0int) / (d as int) == 0);
        }
    } else {
        assert(c * total == c * m);
        assert((c - 1) * total == (c - 1) * m);
        assert((c - 1) * total >= 0) by (nonlinear_arith)
            requires
                c >= 1,
                total >= 0,
        ;
    }
}

/// Shorthand for the law checked at each kind of cursor.
pub open spec fn next_keeps_owed(p: Player, steps: Seq<Step>) -> bool {
    &&& player_wf(spec_next(p, steps, false).0, steps)
    &&& spec_next(p, steps, false).0.iter.remaining is Some
    &&& action_sends(spec_next(p, steps, false).1) + remaining_sends(
        spec_next(p, steps, false).0,
        steps,
    ) == remaining_sends(p, steps)
}

proof fn lemma_next_boundary(p: Player, steps: Seq<Step>)
    requires
        player_wf(p, steps),
        p.iter.remaining is Some,
        p.cursor is Boundary,
    ensures
        next_keeps_owed(p, steps),
{
    let (q, a, _) = spec_next(p, steps, false);
    let all = steps_events(steps);
    let n = p.iter.remaining->0;
    if n == 0 {
        assert(action_sends(a) + remaining_sends(q, steps) =~= remaining_sends(p, steps));
    } else {
        assert(steps.skip(0) =~= steps);
        assert(iterations_left(q) == n - 1);
        assert(repeat_events(all, n as nat) == all + repeat_events(all, (n - 1) as nat));
        assert(action_sends(a) + remaining_sends(q, steps) =~= remaining_sends(p, steps));
    }
}

proof fn lemma_next_step_start(p: Player, steps: Seq<Step>, step: usize)
    requires
        player_wf(p, steps),
        p.iter.remaining is Some,
        p.cursor == (Cursor::StepStart { step }),
    ensures
        next_keeps_owed(p, steps),
{
    let (q, a, _) = spec_next(p, steps, false);
    if step >= steps.len() {
        assert(steps.skip(step as int).len() == 0);
        assert(action_sends(a) + remaining_sends(q, steps) =~= remaining_sends(p, steps));
    } else {
        lemma_steps_events_skip(steps, step as int);
        assert(spec_step_ops(steps[step as int]).skip(0) =~= spec_step_ops(steps[step as int]));
        assert(action_sends(a) + remaining_sends(q, steps) =~= remaining_sends(p, steps));
    }
}

proof fn lemma_next_in_step(p: Player, steps: Seq<Step>, step: usize, op: usize)
    requires
        player_wf(p, steps),
        p.iter.remaining is Some,
        p.cursor == (Cursor::InStep { step, op }),
    ensures
        next_keeps_owed(p, steps),
{
    let (q, a, _) = spec_next(p, steps, false);
    let ops = spec_step_ops(steps[step as int]);
    if op >= ops.len() {
        lemma_ops_events_end(ops, op as int);
        assert(action_sends(a) + remaining_sends(q, steps) =~= remaining_sends(p, steps));
    } else {
        lemma_ops_events_skip(ops, op as int);
        match ops[op as int] {
            StepOp::Stream { dx, dy, duration_ms } => {
                lemma_stream_target_bounds(0, dx as int, duration_ms as int);
                lemma_stream_target_bounds(0, dy as int, duration_ms as int);
                assert(action_sends(a) + remaining_sends(q, steps) =~= remaining_sends(p, steps));
            },
            _ => {
                assert(action_sends(a) + remaining_sends(q, steps) =~= remaining_sends(p, steps));
            },
        }
    }
}

proof fn lemma_next_streaming(
    p: Player,
    steps: Seq<Step>,
    step: usize,
    op: usize,
    chunk: u64,
    sent_x: i64,
    sent_y: i64,
)
    requires
        player_wf(p, steps),
        p.iter.remaining is Some,
        p.cursor == (Cursor::Streaming { step, op, chunk, sent_x, sent_y }),
    ensures
        next_keeps_owed(p, steps),
{
    let (q, a, _) = spec_next(p, steps, false);
    let ops = spec_step_ops(steps[step as int]);
    match ops[op as int] {
        StepOp::Stream { dx, dy, duration_ms } => {
            if chunk > duration_ms {
                assert(action_sends(a) + remaining_sends(q, steps) =~= remaining_sends(p, steps));
            } else {
                lemma_stream_target_bounds(chunk as int, dx as int, duration_ms as int);
                lemma_stream_target_bounds(chunk as int, dy as int, duration_ms as int);
                assert(action_sends(a) + remaining_sends(q, steps) =~= remaining_sends(p, steps));
            }
        },
        _ => {},
    }
}

/// Every transition without a stop request sends exactly the head of what
/// the player owes: what it sends now plus what it owes afterwards is what it
/// owed before. Transitions also keep the cursor consistent with the steps.
pub proof fn lemma_next_sends_owed(p: Player, steps: Seq<Step>)
    requires
        player_wf(p, steps),
        p.iter.remaining is Some,
    ensures
        next_keeps_owed(p, steps),
{
    match p.cursor {
        Cursor::Finished => {
            let (q, a, _) = spec_next(p, steps, false);
            assert(action_sends(a) + remaining_sends(q, steps) =~= remaining_sends(p, steps));
        },
        Cursor::Boundary => lemma_next_boundary(p, steps),
        Cursor::StepStart { step } => lemma_next_step_start(p, steps, step),
        Cursor::InStep { step, op } => lemma_next_in_step(p, steps, step, op),
        Cursor::Streaming { step, op, chunk, sent_x, sent_y } => lemma_next_streaming(
            p,
            steps,
            step,
            op,
            chunk,
            sent_x,
            sent_y,
        ),
        Cursor::ChunkPause { step, op, chunk, sent_x, sent_y } => {
            let (q, a, _) = spec_next(p, steps, false);
            assert(action_sends(a) + remaining_sends(q, steps) =~= remaining_sends(p, steps));
        },
    }
}

/// The player and the events sent after `n` transitions without a stop
/// request.
pub open spec fn run_player(p: Player, steps: Seq<Step>, n: nat) -> (Player, Seq<RawEvent>)
    decreases n,
{
    if n == 0 {
        (p, Seq::empty())
    } else {
        let (q, a, _) = spec_next(p, steps, false);
        let (r, sent) = run_player(q, steps, (n - 1) as nat);
        (r, action_sends(a) + sent)
    }
}

/// Along any run without stop requests, what has been sent followed by what
/// is still owed is what was owed at the start.
pub proof fn lemma_run_keeps_owed(p: Player, steps: Seq<Step>, n: nat)
    requires
        player_wf(p, steps),
        p.iter.remaining is Some,
    ensures
        player_wf(run_player(p, steps, n).0, steps),
        run_player(p, steps, n).0.iter.remaining is Some,
        run_player(p, steps, n).1 + remaining_sends(run_player(p, steps, n).0, steps)
            == remaining_sends(p, steps),
    decreases n,
{
    if n > 0 {
        let (q, a, _) = spec_next(p, steps, false);
        lemma_next_sends_owed(p, steps);
        lemma_run_keeps_owed(q, steps, (n - 1) as nat);
        let (r, sent) = run_player(q, steps, (n - 1) as nat);
        assert(action_sends(a) + sent + remaining_sends(r, steps) =~= action_sends(a) + (sent
            + remaining_sends(r, steps)));
    } else {
        assert(Seq::<RawEvent>::empty() + remaining_sends(p, steps) =~= remaining_sends(p, steps));
    }
}

/// Law (playback sends every step's events, in order, once per iteration):
/// in a finite playback mode, with no stop request, after any number of
/// transitions the events sent so far followed by the events still owed are
/// the events of all steps repeated once per iteration; when the player has
/// finished, it has sent exactly those.
pub proof fn lemma_playback_sends_steps(mode: PlaybackMode, steps: Seq<Step>, n: nat)
    requires
        spec_iterations(mode) is Some,
        steps.len() < usize::MAX,
    ensures
        run_player(spec_new_player(mode), steps, n).1 + remaining_sends(
            run_player(spec_new_player(mode), steps, n).0,
            steps,
        ) == repeat_events(steps_events(steps), spec_iterations(mode)->0 as nat),
        run_player(spec_new_player(mode), steps, n).0.cursor is Finished ==> run_player(
            spec_new_player(mode),
            steps,
            n,
        ).1 == repeat_events(steps_events(steps), spec_iterations(mode)->0 as nat),
{
    let p = spec_new_player(mode);
    lemma_run_keeps_owed(p, steps, n);
    let (r, sent) = run_player(p, steps, n);
    if r.cursor is Finished {
        assert(sent + remaining_sends(r, steps) =~= sent);
    }
}

/// Sum of the horizontal motions of the mouse moves in `s`.
pub open spec fn moves_dx_sum(s: Seq<RawEvent>) -> int
    decreases s.len(),
{
    if s.len() == 0 {
        0
    } else {
        (match s[0] {
            RawEvent::MouseMove { dx, .. } => dx as int,
            _ => 0,
        }) + moves_dx_sum(s.drop_first())
    }
}

/// Sum of the vertical motions of the mouse moves in `s`.
pub open spec fn moves_dy_sum(s: Seq<RawEvent>) -> int
    decreases s.len(),
{
    if s.len() == 0 {
        0
    } else {
        (match s[0] {
            RawEvent::MouseMove { dy, .. } => dy as int,
            _ => 0,
        }) + moves_dy_sum(s.drop_first())
    }
}

proof fn lemma_stream_rest_sums(dx: i32, dy: i32, d: u32, c: int)
    requires
        d >= 1,
        1 <= c <= d + 1,
    ensures
        moves_dx_sum(
            stream_rest(
                dx,
                dy,
                d,
                c,
                stream_target(c - 1, dx as int, d as int),
                stream_target(c - 1, dy as int, d as int),
            ),
        ) == dx - stream_target(c - 1, dx as int, d as int),
        moves_dy_sum(
            stream_rest(
                dx,
                dy,
                d,
                c,
                stream_target(c - 1, dx as int, d as int),
                stream_target(c - 1, dy as int, d as int),
            ),
        ) == dy - stream_target(c - 1, dy as int, d as int),
        stream_rest(
            dx,
            dy,
            d,
            c,
            stream_target(c - 1, dx as int, d as int),
            stream_target(c - 1, dy as int, d as int),
        ).len() <= d + 1 - c,
    decreases d + 1 - c,
{
    lemma_stream_target_bounds(c - 1, dx as int, d as int);
    if c <= d {
        lemma_stream_rest_sums(dx, dy, d, c + 1);
        lemma_stream_chunk_exact(c, dx, d);
        lemma_stream_chunk_exact(c, dy, d);
        let sx = stream_target(c - 1, dx as int, d as int);
        let sy = stream_target(c - 1, dy as int, d as int);
        let e = stream_chunk(c, dx, dy, d, sx, sy);
        let rest = stream_rest(
            dx,
            dy,
            d,
            c + 1,
            stream_target(c, dx as int, d as int),
            stream_target(c, dy as int, d as int),
        );
        if e != (RawEvent::MouseMove { dx: 0, dy: 0 }) {
            assert((seq![e] + rest).drop_first() =~= rest);
            assert((seq![e] + rest)[0] == e);
        }
    } else {
        lemma_stream_target_bounds(d as int, dx as int, d as int);
        lemma_stream_target_bounds(d as int, dy as int, d as int);
    }
}

/// Law (a streamed move arrives exactly): the chunks that a relative move of
/// `(dx, dy)` over `d` milliseconds sends add up to exactly `(dx, dy)`, and
/// there are at most `d` of them.
pub proof fn lemma_stream_sums_to_total(dx: i32, dy: i32, d: u32)
    requires
        d > 0,
    ensures
        moves_dx_sum(stream_rest(dx, dy, d, 1, 0, 0)) == dx,
        moves_dy_sum(stream_rest(dx, dy, d, 1, 0, 0)) == dy,
        stream_rest(dx, dy, d, 1, 0, 0).len() <= d,
{
    lemma_stream_target_bounds(0, dx as int, d as int);
    lemma_stream_target_bounds(0, dy as int, d as int);
    lemma_stream_rest_sums(dx, dy, d, 1);
}


/// Law (a stop is honored between steps, and playback then stays over): when
/// a stop request is pending as the player is about to start a step, that
/// transition consumes it and ends the playback; from then on every
/// transition answers `Done`, sends nothing and changes nothing.
pub proof fn lemma_stop_between_steps_ends_playback(p: Player, steps: Seq<Step>, later_stop: bool)
    requires
        p.cursor matches Cursor::StepStart { step } && step < steps.len(),
    ensures
        spec_next(p, steps, true).0.cursor is Finished,
        spec_next(p, steps, true).1 == PlannedAction::Done,
        spec_next(p, steps, true).2,
        spec_next(spec_next(p, steps, true).0, steps, later_stop) == (
            spec_next(p, steps, true).0,
            PlannedAction::Done,
            false,
        ),
{
}


/// Law (a stop is honored inside a streamed move too): when a stop request
/// is pending before a chunk of a streamed move, that transition consumes it
/// and ends the playback, without sending the chunk.
pub proof fn lemma_stop_in_stream_ends_playback(p: Player, steps: Seq<Step>)
    requires
        player_wf(p, steps),
        p.cursor matches Cursor::Streaming { step, op, chunk, .. } && (spec_step_ops(
            steps[step as int],
        )[op as int] matches StepOp::Stream { duration_ms, .. } && chunk <= duration_ms),
    ensures
        spec_next(p, steps, true).0.cursor is Finished,
        spec_next(p, steps, true).1 == PlannedAction::Done,
        spec_next(p, steps, true).2,
{
}


/// The answers of `n` successive calls of [`PlaybackIter::next`].
pub open spec fn iter_answers(it: PlaybackIter, n: nat) -> Seq<bool>
    decreases n,
{
    if n == 0 {
        Seq::empty()
    } else {
        seq![spec_iter_next(it).1] + iter_answers(spec_iter_next(it).0, (n - 1) as nat)
    }
}

proof fn lemma_iter_answers(it: PlaybackIter, n: nat)
    ensures
        iter_answers(it, n).len() == n,
        forall|k: int|
            0 <= k < n ==> #[trigger] iter_answers(it, n)[k] == match it.remaining {
                Some(c) => k < c,
                None => true,
            },
    decreases n,
{
    if n > 0 {
        let next = spec_iter_next(it).0;
        lemma_iter_answers(next, (n - 1) as nat);
        assert forall|k: int| 0 <= k < n implies #[trigger] iter_answers(it, n)[k] == match it.remaining {
            Some(c) => k < c,
            None => true,
        } by {
            if k > 0 {
                assert(iter_answers(it, n)[k] == iter_answers(next, (n - 1) as nat)[k - 1]);
            }
        }
    }
}

/// Law (how many iterations run): calling `next` again and again on the
/// counter of a playback mode answers `true` exactly as many times as the
/// mode runs (once for `Once`, `count` times for `Repeat`) and `false` from
/// then on; for `Loop` and `Toggle` it always answers `true`.
pub proof fn lemma_iterations_counted(mode: PlaybackMode, n: nat)
    ensures
        iter_answers(PlaybackIter { remaining: spec_iterations(mode) }, n).len() == n,
        forall|k: int|
            0 <= k < n ==> #[trigger] iter_answers(PlaybackIter { remaining: spec_iterations(mode) }, n)[k]
                == match mode {
                PlaybackMode::Once => k < 1,
                PlaybackMode::Repeat { count } => k < count,
                PlaybackMode::Loop | PlaybackMode::Toggle => true,
            },
{
    lemma_iter_answers(PlaybackIter { remaining: spec_iterations(mode) }, n);
}


/// The player and the actions planned over `n` transitions without a stop
/// request.
pub open spec fn run_actions(p: Player, steps: Seq<Step>, n: nat) -> (Player, Seq<PlannedAction>)
    decreases n,
{
    if n == 0 {
        (p, Seq::empty())
    } else {
        let (q, a, _) = spec_next(p, steps, false);
        let (r, rest) = run_actions(q, steps, (n - 1) as nat);
        (r, seq![a] + rest)
    }
}

/// The actions of a streamed move of `(dx, dy)` over `d` chunks, from chunk
/// `c` on, when `(sx, sy)` has been sent: for each chunk, its motion when it
/// is not zero and then a one-millisecond pause; and finally a step on.
pub open spec fn stream_actions(dx: i32, dy: i32, d: u32, c: int, sx: int, sy: int) -> Seq<PlannedAction>
    decreases d + 1 - c,
{
    if c < 1 || c > d {
        seq![PlannedAction::Continue]
    } else {
        let e = stream_chunk(c, dx, dy, d, sx, sy);
        let rest = stream_actions(
            dx,
            dy,
            d,
            c + 1,
            stream_target(c, dx as int, d as int),
            stream_target(c, dy as int, d as int),
        );
        if e == (RawEvent::MouseMove { dx: 0, dy: 0 }) {
            seq![PlannedAction::Sleep(STREAM_CHUNK_MS)] + rest
        } else {
            seq![PlannedAction::Send(e), PlannedAction::Sleep(STREAM_CHUNK_MS)] + rest
        }
    }
}

/// How many one-millisecond pauses `acts` holds.
pub open spec fn chunk_pauses(acts: Seq<PlannedAction>) -> nat
    decreases acts.len(),
{
    if acts.len() == 0 {
        0
    } else {
        (if acts[0] == PlannedAction::Sleep(1) {
            1nat
        } else {
            0nat
        }) + chunk_pauses(acts.drop_first())
    }
}

/// The events that `acts` sends.
pub open spec fn actions_sends(acts: Seq<PlannedAction>) -> Seq<RawEvent>
    decreases acts.len(),
{
    if acts.len() == 0 {
        Seq::empty()
    } else {
        action_sends(acts[0]) + actions_sends(acts.drop_first())
    }
}

proof fn lemma_stream_actions_count(dx: i32, dy: i32, d: u32, c: int, sx: int, sy: int)
    requires
        1 <= c <= d + 1,
    ensures
        chunk_pauses(stream_actions(dx, dy, d, c, sx, sy)) == d + 1 - c,
        actions_sends(stream_actions(dx, dy, d, c, sx, sy)) == stream_rest(dx, dy, d, c, sx, sy),
    decreases d + 1 - c,
{
    let acts = stream_actions(dx, dy, d, c, sx, sy);
    if c > d {
        assert(acts.drop_first() =~= Seq::<PlannedAction>::empty());
        assert(chunk_pauses(acts.drop_first()) == 0);
        assert(actions_sends(acts.drop_first()) == Seq::<RawEvent>::empty());
        assert(actions_sends(acts) =~= Seq::<RawEvent>::empty());
    } else {
        let tx = stream_target(c, dx as int, d as int);
        let ty = stream_target(c, dy as int, d as int);
        let e = stream_chunk(c, dx, dy, d, sx, sy);
        let rest = stream_actions(dx, dy, d, c + 1, tx, ty);
        lemma_stream_actions_count(dx, dy, d, c + 1, tx, ty);
        if e == (RawEvent::MouseMove { dx: 0, dy: 0 }) {
            assert(acts.drop_first() =~= rest);
            assert(action_sends(acts[0]) =~= Seq::<RawEvent>::empty());
            assert(actions_sends(acts) =~= actions_sends(rest));
        } else {
            assert(acts.drop_first().drop_first() =~= rest);
            assert(acts.drop_first()[0] == PlannedAction::Sleep(STREAM_CHUNK_MS));
            assert(acts[0] != PlannedAction::Sleep(STREAM_CHUNK_MS));
            assert(chunk_pauses(acts.drop_first()) == 1 + chunk_pauses(rest));
            assert(actions_sends(acts.drop_first()) =~= Seq::<RawEvent>::empty() + actions_sends(rest));
            assert(actions_sends(acts) =~= seq![e] + actions_sends(rest));
        }
    }
}

proof fn lemma_stream_run(p: Player, steps: Seq<Step>, step: usize, op: usize, dx: i32, dy: i32, d: u32, c: u64, sx: i64, sy: i64)
    requires
        player_wf(p, steps),
        p.cursor == (Cursor::Streaming { step, op, chunk: c, sent_x: sx, sent_y: sy }),
        spec_step_ops(steps[step as int])[op as int] == (StepOp::Stream { dx, dy, duration_ms: d }),
    ensures
        run_actions(p, steps, stream_actions(dx, dy, d, c as int, sx as int, sy as int).len()) == (
            Player { cursor: Cursor::InStep { step, op: (op + 1) as usize }, ..p },
            stream_actions(dx, dy, d, c as int, sx as int, sy as int),
        ),
    decreases d + 1 - c,
{
    let acts = stream_actions(dx, dy, d, c as int, sx as int, sy as int);
    let done = Player { cursor: Cursor::InStep { step, op: (op + 1) as usize }, ..p };
    if c > d {
        assert(spec_next(p, steps, false) == (done, PlannedAction::Continue, false));
        assert(run_actions(done, steps, 0) == (done, Seq::<PlannedAction>::empty()));
        assert(seq![PlannedAction::Continue] + Seq::<PlannedAction>::empty() =~= acts);
    } else {
        lemma_stream_target_bounds(c as int, dx as int, d as int);
        lemma_stream_target_bounds(c as int, dy as int, d as int);
        let tx = stream_target(c as int, dx as int, d as int);
        let ty = stream_target(c as int, dy as int, d as int);
        let e = stream_chunk(c as int, dx, dy, d, sx as int, sy as int);
        let q = Player {
            cursor: Cursor::Streaming { step, op, chunk: (c + 1) as u64, sent_x: tx as i64, sent_y: ty as i64 },
            ..p
        };
        let rest = stream_actions(dx, dy, d, c + 1, tx, ty);
        assert(player_wf(q, steps));
        lemma_stream_run(q, steps, step, op, dx, dy, d, (c + 1) as u64, tx as i64, ty as i64);
        if e == (RawEvent::MouseMove { dx: 0, dy: 0 }) {
            assert(spec_next(p, steps, false) == (q, PlannedAction::Sleep(STREAM_CHUNK_MS), false));
            assert(acts =~= seq![PlannedAction::Sleep(STREAM_CHUNK_MS)] + rest);
            assert(run_actions(p, steps, acts.len()) == (done, seq![PlannedAction::Sleep(STREAM_CHUNK_MS)] + rest));
        } else {
            let pause = Player {
                cursor: Cursor::ChunkPause { step, op, chunk: c, sent_x: tx as i64, sent_y: ty as i64 },
                ..p
            };
            assert(spec_next(p, steps, false) == (pause, PlannedAction::Send(e), false));
            assert(spec_next(pause, steps, false) == (q, PlannedAction::Sleep(STREAM_CHUNK_MS), false));
            let m = rest.len();
            assert(acts =~= seq![PlannedAction::Send(e), PlannedAction::Sleep(STREAM_CHUNK_MS)] + rest);
            assert(run_actions(pause, steps, (m + 1) as nat) == (done, seq![PlannedAction::Sleep(STREAM_CHUNK_MS)] + rest));
            assert(run_actions(p, steps, (m + 2) as nat) == (done, seq![PlannedAction::Send(e)] + (
                seq![PlannedAction::Sleep(STREAM_CHUNK_MS)] + rest)));
            assert(seq![PlannedAction::Send(e)] + (seq![PlannedAction::Sleep(STREAM_CHUNK_MS)] + rest) =~= acts);
        }
    }
}

/// Law (a streamed move keeps its pace): once a relative move of
/// `(dx, dy)` over `d` milliseconds starts streaming, and no stop comes,
/// the player plans exactly the stream's actions and then moves on to the
/// next operation; they hold exactly `d` one-millisecond pauses (one per
/// chunk, whether or not the chunk moves), and send exactly the nonzero
/// chunks, which add up to `(dx, dy)` (see [`lemma_stream_sums_to_total`]).
pub proof fn lemma_stream_keeps_pace(p: Player, steps: Seq<Step>, step: usize, op: usize, dx: i32, dy: i32, d: u32)
    requires
        player_wf(p, steps),
        p.cursor == (Cursor::Streaming { step, op, chunk: 1, sent_x: 0, sent_y: 0 }),
        spec_step_ops(steps[step as int])[op as int] == (StepOp::Stream { dx, dy, duration_ms: d }),
    ensures
        run_actions(p, steps, stream_actions(dx, dy, d, 1, 0, 0).len()) == (
            Player { cursor: Cursor::InStep { step, op: (op + 1) as usize }, ..p },
            stream_actions(dx, dy, d, 1, 0, 0),
        ),
        chunk_pauses(stream_actions(dx, dy, d, 1, 0, 0)) == d,
        actions_sends(stream_actions(dx, dy, d, 1, 0, 0)) == stream_rest(dx, dy, d, 1, 0, 0),
{
    lemma_stream_run(p, steps, step, op, dx, dy, d, 1, 0, 0);
    lemma_stream_actions_count(dx, dy, d, 1, 0, 0);
}


/// How far the player stands from the end of its current step list, as a
/// count of steps left (before any step, one more).
pub open spec fn steps_rank(p: Player, steps: Seq<Step>) -> int {
    match p.cursor {
        Cursor::StepStart { step } => steps.len() - step + 1,
        Cursor::InStep { step, .. } => steps.len() - step,
        Cursor::Streaming { step, .. } => steps.len() - step,
        Cursor::ChunkPause { step, .. } => steps.len() - step,
        _ => 0,
    }
}

/// How far the player stands from the end of its current step, as a count
/// of operations left (before any operation, one more).
pub open spec fn ops_rank(p: Player, steps: Seq<Step>) -> int {
    match p.cursor {
        Cursor::InStep { step, op } => spec_step_ops(steps[step as int]).len() - op + 1,
        Cursor::Streaming { step, op, .. } => spec_step_ops(steps[step as int]).len() - op,
        Cursor::ChunkPause { step, op, .. } => spec_step_ops(steps[step as int]).len() - op,
        _ => 0,
    }
}

/// How far the player stands from the end of its current stream.
pub open spec fn chunks_rank(p: Player, steps: Seq<Step>) -> int {
    match p.cursor {
        Cursor::Streaming { step, op, chunk, .. } => match spec_step_ops(steps[step as int])[op as int] {
            StepOp::Stream { duration_ms, .. } => 2 * (duration_ms + 1 - chunk) + 2,
            _ => 0,
        },
        Cursor::ChunkPause { step, op, chunk, .. } => match spec_step_ops(steps[step as int])[op as int] {
            StepOp::Stream { duration_ms, .. } => 2 * (duration_ms + 1 - chunk) + 1,
            _ => 0,
        },
        _ => 0,
    }
}

/// Whether `q` comes strictly before `p` in the order in which a player
/// approaches its end.
pub open spec fn nearer_end(q: Player, p: Player, steps: Seq<Step>) -> bool {
    ||| iterations_left(q) < iterations_left(p)
    ||| iterations_left(q) == iterations_left(p) && 0 <= steps_rank(q, steps) < steps_rank(p, steps)
    ||| iterations_left(q) == iterations_left(p) && steps_rank(q, steps) == steps_rank(p, steps)
        && 0 <= ops_rank(q, steps) < ops_rank(p, steps)
    ||| iterations_left(q) == iterations_left(p) && steps_rank(q, steps) == steps_rank(p, steps)
        && ops_rank(q, steps) == ops_rank(p, steps) && 0 <= chunks_rank(q, steps) < chunks_rank(
        p,
        steps,
    )
}

proof fn lemma_measure_drops(p: Player, steps: Seq<Step>)
    requires
        player_wf(p, steps),
        p.iter.remaining is Some,
        !(p.cursor is Finished),
    ensures
        spec_next(p, steps, false).0.cursor is Finished || nearer_end(
            spec_next(p, steps, false).0,
            p,
            steps,
        ),
{
    match p.cursor {
        Cursor::Boundary => {},
        Cursor::StepStart { .. } => {},
        Cursor::InStep { .. } => {},
        Cursor::Streaming { .. } => {},
        Cursor::ChunkPause { .. } => {},
        Cursor::Finished => {},
    }
}

proof fn lemma_run_finishes(p: Player, steps: Seq<Step>)
    requires
        player_wf(p, steps),
        p.iter.remaining is Some,
    ensures
        exists|n: nat| (#[trigger] run_player(p, steps, n)).0.cursor is Finished,
    decreases iterations_left(p), steps_rank(p, steps), ops_rank(p, steps), chunks_rank(p, steps),
{
    if p.cursor is Finished {
        assert(run_player(p, steps, 0).0.cursor is Finished);
    } else {
        lemma_next_sends_owed(p, steps);
        let q = spec_next(p, steps, false).0;
        lemma_measure_drops(p, steps);
        if q.cursor is Finished {
            assert(run_player(q, steps, 0).0.cursor is Finished);
            assert(run_player(p, steps, 1).0 == run_player(q, steps, 0).0);
        } else {
            lemma_run_finishes(q, steps);
            let n = choose|n: nat| (#[trigger] run_player(q, steps, n)).0.cursor is Finished;
            assert(run_player(p, steps, n + 1).0 == run_player(q, steps, n).0);
        }
    }
}

/// Law (a finite playback finishes): in `Once` or `Repeat` mode, with no
/// stop request, the player reaches its end after some number of
/// transitions; it has then sent every step's events once per iteration
/// (see [`lemma_playback_sends_steps`]).
pub proof fn lemma_finite_playback_finishes(mode: PlaybackMode, steps: Seq<Step>)
    requires
        spec_iterations(mode) is Some,
        steps.len() < usize::MAX,
    ensures
        exists|n: nat| (#[trigger] run_player(spec_new_player(mode), steps, n)).0.cursor is Finished,
{
    lemma_run_finishes(spec_new_player(mode), steps);
}

/// Law (only a relative move with a positive duration is streamed): any
/// other move is sent whole, at once, by one event.
pub proof fn lemma_unstreamed_moves_sent_whole(to: Point, mode: MoveMode, duration_ms: Option<u32>)
    requires
        !(mode == MoveMode::Relative && (duration_ms matches Some(d) && d > 0)),
    ensures
        spec_step_ops(Step::MouseMove { to, mode, duration_ms }) == seq![
            StepOp::Send(RawEvent::MouseMove { dx: to.x, dy: to.y }),
        ],
{
}

/// Law (a key press holds its key down for its hold time): when the player
/// is about to start a press of `key` held `hold_ms` milliseconds, and no
/// stop comes, its next five transitions step in, send the key-down, pause
/// `hold_ms`, send the key-up, and step on to the next step, in that order:
/// the key is down throughout the pause.
pub proof fn lemma_key_press_holds_key(p: Player, steps: Seq<Step>, step: usize, key: KeyCode, hold_ms: u32)
    requires
        p.cursor == (Cursor::StepStart { step }),
        step < steps.len(),
        steps[step as int] == (Step::KeyPress { key, hold_ms }),
    ensures
        run_actions(p, steps, 5) == (
            Player { cursor: Cursor::StepStart { step: (step + 1) as usize }, ..p },
            seq![
                PlannedAction::Continue,
                PlannedAction::Send(RawEvent::KeyDown { key }),
                PlannedAction::Sleep(hold_ms as u64),
                PlannedAction::Send(RawEvent::KeyUp { key }),
                PlannedAction::Continue,
            ],
        ),
{
    reveal_with_fuel(run_actions, 6);
    let r = run_actions(p, steps, 5);
    assert(r.1 =~= seq![
        PlannedAction::Continue,
        PlannedAction::Send(RawEvent::KeyDown { key }),
        PlannedAction::Sleep(hold_ms as u64),
        PlannedAction::Send(RawEvent::KeyUp { key }),
        PlannedAction::Continue,
    ]);
}

/// Law (a click holds its button down for its hold time): when the player
/// is about to start a click of `button` held `hold_ms` milliseconds, and
/// no stop comes, its next five transitions step in, send the button-down,
/// pause `hold_ms`, send the button-up, and step on to the next step, in
/// that order.
pub proof fn lemma_click_holds_button(
    p: Player,
    steps: Seq<Step>,
    step: usize,
    button: MouseButton,
    hold_ms: u32,
    at: Option<Point>,
)
    requires
        p.cursor == (Cursor::StepStart { step }),
        step < steps.len(),
        steps[step as int] == (Step::MouseClick { button, hold_ms, at }),
    ensures
        run_actions(p, steps, 5) == (
            Player { cursor: Cursor::StepStart { step: (step + 1) as usize }, ..p },
            seq![
                PlannedAction::Continue,
                PlannedAction::Send(RawEvent::MouseDown { button }),
                PlannedAction::Sleep(hold_ms as u64),
                PlannedAction::Send(RawEvent::MouseUp { button }),
                PlannedAction::Continue,
            ],
        ),
{
    reveal_with_fuel(run_actions, 6);
    let r = run_actions(p, steps, 5);
    assert(r.1 =~= seq![
        PlannedAction::Continue,
        PlannedAction::Send(RawEvent::MouseDown { button }),
        PlannedAction::Sleep(hold_ms as u64),
        PlannedAction::Send(RawEvent::MouseUp { button }),
        PlannedAction::Continue,
    ]);
}

/// Whether `p` comes after the first transition of a playback in `mode`:
/// its gap setting is the mode's, and the first iteration has begun unless
/// the playback is over.
pub open spec fn past_start(p: Player, mode: PlaybackMode) -> bool {
    &&& p.enforce_gap == !(mode is Once)
    &&& p.first ==> p.cursor is Finished
}

proof fn lemma_past_start_kept(p: Player, steps: Seq<Step>, mode: PlaybackMode, n: nat)
    requires
        past_start(p, mode),
    ensures
        past_start(run_actions(p, steps, n).0, mode),
    decreases n,
{
    if n > 0 {
        lemma_past_start_kept(spec_next(p, steps, false).0, steps, mode, (n - 1) as nat);
    }
}

/// Law (iterations are spaced by the gap): a playback starts its first
/// iteration at once; after that, whenever the player stands between two
/// iterations and another one remains, its next action is a 10 ms pause in
/// `Repeat`, `Loop` and `Toggle` mode, and no pause in `Once` mode.
pub proof fn lemma_iterations_spaced(mode: PlaybackMode, steps: Seq<Step>, n: nat, stop: bool)
    ensures
        spec_iter_next(spec_new_player(mode).iter).1 ==> spec_next(
            spec_new_player(mode),
            steps,
            stop,
        ).1 == PlannedAction::Continue,
        run_actions(spec_new_player(mode), steps, n + 1).0.cursor is Boundary && spec_iter_next(
            run_actions(spec_new_player(mode), steps, n + 1).0.iter,
        ).1 ==> spec_next(run_actions(spec_new_player(mode), steps, n + 1).0, steps, stop).1 == (
        if mode is Once {
            PlannedAction::Continue
        } else {
            PlannedAction::Sleep(10)
        }),
{
    let p0 = spec_new_player(mode);
    let p1 = spec_next(p0, steps, false).0;
    assert(past_start(p1, mode));
    lemma_past_start_kept(p1, steps, mode, n);
    assert(run_actions(p0, steps, n + 1).0 == run_actions(p1, steps, n).0);
}

/// Law (a streamed move follows the straight line): after `c` of `count`
/// chunks of a streamed move of `total`, the motion sent so far lies within
/// one unit of the ideal `c * total / count`, on the side of zero: the
/// motion is spread evenly over the chunks, with no drift.
pub proof fn lemma_stream_follows_line(c: int, total: int, count: int)
    requires
        1 <= count,
        0 <= c <= count,
    ensures
        0 <= c * total - stream_target(c, total, count) * count < count || -count < c * total
            - stream_target(c, total, count) * count <= 0,
        c * total >= 0 ==> 0 <= c * total - stream_target(c, total, count) * count < count,
        c * total < 0 ==> -count < c * total - stream_target(c, total, count) * count <= 0,
{
    let a = c * total;
    if a >= 0 {
        vstd::arithmetic::div_mod::lemma_fundamental_div_mod(a, count);
        vstd::arithmetic::div_mod::lemma_mod_pos_bound(a, count);
        assert(count * (a / count) == (a / count) * count) by (nonlinear_arith);
    } else {
        vstd::arithmetic::div_mod::lemma_fundamental_div_mod(-a, count);
        vstd::arithmetic::div_mod::lemma_mod_pos_bound(-a, count);
        assert(count * ((-a) / count) == ((-a) / count) * count) by (nonlinear_arith);
        assert(-((-a) / count) * count == -(((-a) / count) * count)) by (nonlinear_arith);
    }
}

} // verus!
