//! Playback of a macro as a state machine.
//!
//! [`Player::next`] decides the next piece of outside work (send an event,
//! sleep) from the player's state, the macro's steps and whether a stop has
//! been requested; the caller performs the work and calls it again until it
//! answers [`PlayerAction::Done`].

use vstd::prelude::*;

use crate::event::RawEvent;
use crate::input::MoveMode;
use crate::macro_def::{spec_step_error, steps_valid, PlaybackMode, Step};

use vstd::arithmetic::div_mod::{lemma_div_is_ordered, lemma_div_multiples_vanish};

use rand::Rng;

verus! {

/// Pause between iterations of multi-iteration modes (repeat, loop, toggle),
/// so that a macro without waits cannot flood the input queue.
pub const MIN_ITERATION_GAP_MS: u64 = 10;

/// Pause between two chunks of a streamed relative move.
pub const STREAM_CHUNK_MS: u64 = 1;

/// Counts down the iterations of a playback; `None` runs forever.
#[derive(Debug, Clone, Copy, PartialEq, Eq, Structural)]
pub struct PlaybackIter {
    pub remaining: Option<u64>,
}

/// The iteration count of a playback mode: `None` for the unbounded modes.
pub open spec fn spec_iterations(mode: PlaybackMode) -> Option<u64> {
    match mode {
        PlaybackMode::Once => Some(1),
        PlaybackMode::Repeat { count } => Some(count as u64),
        PlaybackMode::Loop | PlaybackMode::Toggle => None,
    }
}

/// One step of the iteration counter: whether another iteration runs, and
/// the counter after it.
pub open spec fn spec_iter_next(it: PlaybackIter) -> (PlaybackIter, bool) {
    match it.remaining {
        None => (it, true),
        Some(n) => if n == 0 {
            (it, false)
        } else {
            (PlaybackIter { remaining: Some((n - 1) as u64) }, true)
        },
    }
}

impl PlaybackIter {
    /// Whether another iteration runs; counts it down.
    pub fn next(&mut self) -> (r: bool)
        ensures
            (*final(self), r) == spec_iter_next(*old(self)),
    {
        match self.remaining {
            None => true,
            Some(n) => {
                if n == 0 {
                    false
                } else {
                    self.remaining = Some(n - 1);
                    true
                }
            },
        }
    }
}

/// The iteration counter for a playback mode.
pub fn playback_iter(mode: PlaybackMode) -> (r: PlaybackIter)
    ensures
        r.remaining == spec_iterations(mode),
{
    let remaining = match mode {
        PlaybackMode::Once => Some(1),
        PlaybackMode::Repeat { count } => Some(count as u64),
        PlaybackMode::Loop | PlaybackMode::Toggle => None,
    };
    PlaybackIter { remaining }
}

/// A primitive operation of a step.
#[derive(Debug, Clone, Copy, PartialEq, Eq, Structural)]
pub enum StepOp {
    /// Send one event.
    Send(RawEvent),
    /// Sleep for a fixed number of milliseconds.
    Sleep(u64),
    /// Sleep for a duration drawn from `min_ms..=max_ms`.
    Wait { min_ms: u32, max_ms: u32 },
    /// Stream a relative move of `(dx, dy)` over `duration_ms` one-millisecond
    /// chunks.
    Stream { dx: i32, dy: i32, duration_ms: u32 },
}

/// The primitive operations that play a step.
pub open spec fn spec_step_ops(s: Step) -> Seq<StepOp> {
    match s {
        Step::KeyPress { key, hold_ms } => seq![
            StepOp::Send(RawEvent::KeyDown { key }),
            StepOp::Sleep(hold_ms as u64),
            StepOp::Send(RawEvent::KeyUp { key }),
        ],
        Step::KeyDown { key } => seq![StepOp::Send(RawEvent::KeyDown { key })],
        Step::KeyUp { key } => seq![StepOp::Send(RawEvent::KeyUp { key })],
        Step::MouseClick { button, hold_ms, .. } => seq![
            StepOp::Send(RawEvent::MouseDown { button }),
            StepOp::Sleep(hold_ms as u64),
            StepOp::Send(RawEvent::MouseUp { button }),
        ],
        Step::MouseMove { to, mode, duration_ms } => match (mode, duration_ms) {
            (MoveMode::Relative, Some(d)) => if d > 0 {
                seq![StepOp::Stream { dx: to.x, dy: to.y, duration_ms: d }]
            } else {
                seq![StepOp::Send(RawEvent::MouseMove { dx: to.x, dy: to.y })]
            },
            _ => seq![StepOp::Send(RawEvent::MouseMove { dx: to.x, dy: to.y })],
        },
        Step::MouseScroll { delta } => seq![StepOp::Send(RawEvent::MouseWheel { delta })],
        Step::Wait { min_ms, max_ms } => seq![StepOp::Wait { min_ms, max_ms }],
    }
}

/// Operation `k` of a step, or `None` past its last operation.
pub fn step_op_at(s: &Step, k: usize) -> (r: Option<StepOp>)
    ensures
        r == (if k < spec_step_ops(*s).len() {
            Some(spec_step_ops(*s)[k as int])
        } else {
            None
        }),
{
    match *s {
        Step::KeyPress { key, hold_ms } => {
            if k == 0 {
                Some(StepOp::Send(RawEvent::KeyDown { key }))
            } else if k == 1 {
                Some(StepOp::Sleep(hold_ms as u64))
            } else if k == 2 {
                Some(StepOp::Send(RawEvent::KeyUp { key }))
            } else {
                None
            }
        },
        Step::MouseClick { button, hold_ms, .. } => {
            if k == 0 {
                Some(StepOp::Send(RawEvent::MouseDown { button }))
            } else if k == 1 {
                Some(StepOp::Sleep(hold_ms as u64))
            } else if k == 2 {
                Some(StepOp::Send(RawEvent::MouseUp { button }))
            } else {
                None
            }
        },
        _ => {
            if k != 0 {
                None
            } else {
                match *s {
                    Step::KeyDown { key } => Some(StepOp::Send(RawEvent::KeyDown { key })),
                    Step::KeyUp { key } => Some(StepOp::Send(RawEvent::KeyUp { key })),
                    Step::MouseMove { to, mode, duration_ms } => {
                        match (mode, duration_ms) {
                            (MoveMode::Relative, Some(d)) => {
                                if d > 0 {
                                    Some(StepOp::Stream { dx: to.x, dy: to.y, duration_ms: d })
                                } else {
                                    Some(StepOp::Send(RawEvent::MouseMove { dx: to.x, dy: to.y }))
                                }
                            },
                            _ => Some(StepOp::Send(RawEvent::MouseMove { dx: to.x, dy: to.y })),
                        }
                    },
                    Step::MouseScroll { delta } => Some(
                        StepOp::Send(RawEvent::MouseWheel { delta }),
                    ),
                    Step::Wait { min_ms, max_ms } => Some(StepOp::Wait { min_ms, max_ms }),
                    _ => None,
                }
            }
        },
    }
}

/// `a / b` rounded toward zero, for `b > 0`.
pub open spec fn trunc_div(a: int, b: int) -> int {
    if a >= 0 {
        a / b
    } else {
        -((-a) / b)
    }
}

/// Cumulative motion after `c` of `count` chunks of a streamed move of
/// `total`: `c * total / count`, rounded toward zero.
pub open spec fn stream_target(c: int, total: int, count: int) -> int {
    trunc_div(c * total, count)
}

/// The cumulative motion of a stream never exceeds its total.
pub proof fn lemma_stream_target_bounds(c: int, total: int, count: int)
    requires
        1 <= count,
        0 <= c <= count,
    ensures
        total >= 0 ==> 0 <= stream_target(c, total, count) <= total,
        total < 0 ==> total <= stream_target(c, total, count) <= 0,
        stream_target(0, total, count) == 0,
        stream_target(count, total, count) == total,
{
    let m = if total >= 0 { total } else { -total };
    assert(0 <= c * m <= count * m) by (nonlinear_arith)
        requires
            0 <= c <= count,
            m >= 0,
    ;
    lemma_div_is_ordered(0, c * m, count);
    lemma_div_is_ordered(c * m, count * m, count);
    lemma_div_multiples_vanish(m, count);
    assert(0int * total == 0);
    assert((0int) / count == 0);
    if total < 0 {
        assert(c * total == -(c * m)) by (nonlinear_arith)
            requires
                m == -total,
        ;
        assert(count * total == -(count * m)) by (nonlinear_arith)
            requires
                m == -total,
        ;
    } else {
        assert(c * total == c * m);
        assert(count * total == count * m);
    }
}

/// Executable [`stream_target`].
pub fn stream_target_exec(c: u64, total: i32, count: u32) -> (r: i64)
    requires
        1 <= count,
        c <= count,
    ensures
        r == stream_target(c as int, total as int, count as int),
{
    let mag: u64 = if total < 0 {
        (-(total as i64)) as u64
    } else {
        total as u64
    };
    assert(c * mag <= 0xffff_ffff * 0x8000_0000) by (nonlinear_arith)
        requires
            c <= 0xffff_ffff,
            mag <= 0x8000_0000,
    ;
    let q: u64 = (c * mag) / (count as u64);
    assert(q <= c * mag) by (nonlinear_arith)
        requires
            q == (c * mag) / (count as int),
            count >= 1,
            c * mag >= 0,
    ;
    proof {
        if total < 0 {
            assert(c * total == -(c * mag)) by (nonlinear_arith)
                requires
                    mag == -total,
            ;
        } else {
            assert(c * total == c * mag);
        }
    }
    if total < 0 {
        -(q as i64)
    } else {
        q as i64
    }
}

/// Where the player stands.
#[derive(Debug, Clone, Copy, PartialEq, Eq, Structural)]
pub enum Cursor {
    /// Before deciding whether another iteration runs.
    Boundary,
    /// Before step `step` (where a pending stop is honored).
    StepStart { step: usize },
    /// Before operation `op` of step `step`.
    InStep { step: usize, op: usize },
    /// Before chunk `chunk` (counting from 1) of the streamed move that is
    /// operation `op` of step `step` (where a pending stop is honored too);
    /// `sent_x`, `sent_y` is the motion sent so far.
    Streaming { step: usize, op: usize, chunk: u64, sent_x: i64, sent_y: i64 },
    /// After sending chunk `chunk`, before its one-millisecond pause.
    ChunkPause { step: usize, op: usize, chunk: u64, sent_x: i64, sent_y: i64 },
    /// Playback is over.
    Finished,
}

/// The playback state machine.
#[derive(Debug, Clone, Copy, PartialEq, Eq, Structural)]
pub struct Player {
    pub iter: PlaybackIter,
    /// Whether iterations after the first are preceded by a short pause.
    pub enforce_gap: bool,
    /// Whether no iteration has started yet.
    pub first: bool,
    pub cursor: Cursor,
}

/// What the caller does next.
#[derive(Debug, Clone, Copy, PartialEq, Eq, Structural)]
pub enum PlayerAction {
    Send(RawEvent),
    /// Sleep this many milliseconds.
    Sleep(u64),
    /// Nothing to do; call again.
    Continue,
    /// Playback has ended.
    Done,
}

/// The decision of one transition, with the random pause left as its range.
#[derive(Debug, Clone, Copy, PartialEq, Eq, Structural)]
pub enum PlannedAction {
    Send(RawEvent),
    Sleep(u64),
    SleepBetween(u32, u32),
    Continue,
    Done,
}

/// Whether an executed action carries out a planned one: a ranged pause is
/// carried out by any pause within its range.
pub open spec fn carries_out(a: PlayerAction, p: PlannedAction) -> bool {
    match p {
        PlannedAction::Send(e) => a == PlayerAction::Send(e),
        PlannedAction::Sleep(ms) => a == PlayerAction::Sleep(ms),
        PlannedAction::SleepBetween(lo, hi) => a matches PlayerAction::Sleep(ms) && lo <= ms
            <= hi,
        PlannedAction::Continue => a == PlayerAction::Continue,
        PlannedAction::Done => a == PlayerAction::Done,
    }
}

/// The player at the start of a playback in `mode`.
pub open spec fn spec_new_player(mode: PlaybackMode) -> Player {
    Player {
        iter: PlaybackIter { remaining: spec_iterations(mode) },
        enforce_gap: !(mode is Once),
        first: true,
        cursor: Cursor::Boundary,
    }
}

/// Whether the cursor is consistent with the steps.
pub open spec fn player_wf(p: Player, steps: Seq<Step>) -> bool {
    &&& steps.len() < usize::MAX
    &&& match p.cursor {
        Cursor::Boundary | Cursor::Finished => true,
        Cursor::StepStart { step } => step <= steps.len(),
        Cursor::InStep { step, op } => step < steps.len() && op <= spec_step_ops(
            steps[step as int],
        ).len(),
        Cursor::Streaming { step, op, chunk, sent_x, sent_y } => {
            &&& step < steps.len()
            &&& op < spec_step_ops(steps[step as int]).len()
            &&& spec_step_ops(steps[step as int])[op as int] matches StepOp::Stream {
                dx,
                dy,
                duration_ms,
            }
            &&& 1 <= chunk <= duration_ms + 1
            &&& sent_x == stream_target(chunk - 1, dx as int, duration_ms as int)
            &&& sent_y == stream_target(chunk - 1, dy as int, duration_ms as int)
        },
        Cursor::ChunkPause { step, op, chunk, sent_x, sent_y } => {
            &&& step < steps.len()
            &&& op < spec_step_ops(steps[step as int]).len()
            &&& spec_step_ops(steps[step as int])[op as int] matches StepOp::Stream {
                dx,
                dy,
                duration_ms,
            }
            &&& 1 <= chunk <= duration_ms
            &&& sent_x == stream_target(chunk as int, dx as int, duration_ms as int)
            &&& sent_y == stream_target(chunk as int, dy as int, duration_ms as int)
        },
    }
}

/// The chunk of a streamed move sent at chunk `c`, given the motion sent so
/// far.
pub open spec fn stream_chunk(
    c: int,
    dx: i32,
    dy: i32,
    d: u32,
    sent_x: int,
    sent_y: int,
) -> RawEvent {
    RawEvent::MouseMove {
        dx: (stream_target(c, dx as int, d as int) - sent_x) as i32,
        dy: (stream_target(c, dy as int, d as int) - sent_y) as i32,
    }
}

/// One transition of the player: the next player, the planned action, and
/// whether a pending stop request was consumed. A stop is honored before a
/// step and before each chunk of a streamed move, and ends the playback.
pub open spec fn spec_next(p: Player, steps: Seq<Step>, stop: bool) -> (Player, PlannedAction, bool) {
    match p.cursor {
        Cursor::Finished => (p, PlannedAction::Done, false),
        Cursor::Boundary => {
            let (it, more) = spec_iter_next(p.iter);
            if !more {
                (Player { iter: it, cursor: Cursor::Finished, ..p }, PlannedAction::Done, false)
            } else if p.enforce_gap && !p.first {
                (
                    Player { iter: it, first: false, cursor: Cursor::StepStart { step: 0 }, ..p },
                    PlannedAction::Sleep(MIN_ITERATION_GAP_MS),
                    false,
                )
            } else {
                (
                    Player { iter: it, first: false, cursor: Cursor::StepStart { step: 0 }, ..p },
                    PlannedAction::Continue,
                    false,
                )
            }
        },
        Cursor::StepStart { step } => {
            if step >= steps.len() {
                (Player { cursor: Cursor::Boundary, ..p }, PlannedAction::Continue, false)
            } else if stop {
                (Player { cursor: Cursor::Finished, ..p }, PlannedAction::Done, true)
            } else {
                (
                    Player { cursor: Cursor::InStep { step, op: 0 }, ..p },
                    PlannedAction::Continue,
                    false,
                )
            }
        },
        Cursor::InStep { step, op } => {
            let ops = spec_step_ops(steps[step as int]);
            if op >= ops.len() {
                (
                    Player { cursor: Cursor::StepStart { step: (step + 1) as usize }, ..p },
                    PlannedAction::Continue,
                    false,
                )
            } else {
                let q = Player { cursor: Cursor::InStep { step, op: (op + 1) as usize }, ..p };
                match ops[op as int] {
                    StepOp::Send(e) => (q, PlannedAction::Send(e), false),
                    StepOp::Sleep(ms) => (q, PlannedAction::Sleep(ms), false),
                    StepOp::Wait { min_ms, max_ms } => if min_ms == max_ms {
                        (q, PlannedAction::Sleep(min_ms as u64), false)
                    } else {
                        (q, PlannedAction::SleepBetween(min_ms, max_ms), false)
                    },
                    StepOp::Stream { .. } => (
                        Player {
                            cursor: Cursor::Streaming { step, op, chunk: 1, sent_x: 0, sent_y: 0 },
                            ..p
                        },
                        PlannedAction::Continue,
                        false,
                    ),
                }
            }
        },
        Cursor::Streaming { step, op, chunk, sent_x, sent_y } => {
            match spec_step_ops(steps[step as int])[op as int] {
                StepOp::Stream { dx, dy, duration_ms } => {
                    let done = Player {
                        cursor: Cursor::InStep { step, op: (op + 1) as usize },
                        ..p
                    };
                    if chunk > duration_ms {
                        (done, PlannedAction::Continue, false)
                    } else if stop {
                        (Player { cursor: Cursor::Finished, ..p }, PlannedAction::Done, true)
                    } else {
                        let tx = stream_target(chunk as int, dx as int, duration_ms as int);
                        let ty = stream_target(chunk as int, dy as int, duration_ms as int);
                        let e = stream_chunk(chunk as int, dx, dy, duration_ms, sent_x as int, sent_y as int);
                        if e == (RawEvent::MouseMove { dx: 0, dy: 0 }) {
                            (
                                Player {
                                    cursor: Cursor::Streaming {
                                        step,
                                        op,
                                        chunk: (chunk + 1) as u64,
                                        sent_x: tx as i64,
                                        sent_y: ty as i64,
                                    },
                                    ..p
                                },
                                PlannedAction::Sleep(STREAM_CHUNK_MS),
                                false,
                            )
                        } else {
                            (
                                Player {
                                    cursor: Cursor::ChunkPause {
                                        step,
                                        op,
                                        chunk,
                                        sent_x: tx as i64,
                                        sent_y: ty as i64,
                                    },
                                    ..p
                                },
                                PlannedAction::Send(e),
                                false,
                            )
                        }
                    }
                },
                _ => (p, PlannedAction::Done, false),
            }
        },
        Cursor::ChunkPause { step, op, chunk, sent_x, sent_y } => (
            Player {
                cursor: Cursor::Streaming { step, op, chunk: (chunk + 1) as u64, sent_x, sent_y },
                ..p
            },
            PlannedAction::Sleep(STREAM_CHUNK_MS),
            false,
        ),
    }
}

/// A pause drawn uniformly from `min..=max` by `rand::thread_rng().gen_range`.
/// The contract states only that it lies in the range; `gen_range` panics on
/// an empty range, which `requires` rules out. `thread_rng` seeds itself from
/// the operating system's random source and panics when that source fails;
/// no argument can rule that out.
#[verifier::external_body]
fn random_between(min: u32, max: u32) -> (r: u32)
    requires
        min <= max,
    ensures
        min <= r <= max,
{
    rand::thread_rng().gen_range(min..=max)
}

impl Player {
    /// The player at the start of a playback in `mode`.
    pub fn new(mode: PlaybackMode) -> (r: Player)
        ensures
            r == spec_new_player(mode),
    {
        let enforce_gap = match mode {
            PlaybackMode::Once => false,
            _ => true,
        };
        Player { iter: playback_iter(mode), enforce_gap, first: true, cursor: Cursor::Boundary }
    }

    /// Performs one transition (see [`spec_next`]). `stop` says whether a
    /// stop request is pending; the second result says whether this
    /// transition consumed it. A ranged wait is drawn at random within its
    /// range.
    pub fn next(&mut self, steps: &[Step], stop: bool) -> (r: (PlayerAction, bool))
        requires
            player_wf(*old(self), steps@),
            steps_valid(steps@),
        ensures
            player_wf(*final(self), steps@),
            *final(self) == spec_next(*old(self), steps@, stop).0,
            carries_out(r.0, spec_next(*old(self), steps@, stop).1),
            r.1 == spec_next(*old(self), steps@, stop).2,
    {
        match self.cursor {
            Cursor::Finished => (PlayerAction::Done, false),
            Cursor::Boundary => {
                let more = self.iter.next();
                if !more {
                    self.cursor = Cursor::Finished;
                    (PlayerAction::Done, false)
                } else if self.enforce_gap && !self.first {
                    self.first = false;
                    self.cursor = Cursor::StepStart { step: 0 };
                    (PlayerAction::Sleep(MIN_ITERATION_GAP_MS), false)
                } else {
                    self.first = false;
                    self.cursor = Cursor::StepStart { step: 0 };
                    (PlayerAction::Continue, false)
                }
            },
            Cursor::StepStart { step } => {
                if step >= steps.len() {
                    self.cursor = Cursor::Boundary;
                    (PlayerAction::Continue, false)
                } else if stop {
                    self.cursor = Cursor::Finished;
                    (PlayerAction::Done, true)
                } else {
                    self.cursor = Cursor::InStep { step, op: 0 };
                    (PlayerAction::Continue, false)
                }
            },
            Cursor::InStep { step, op } => {
                match step_op_at(&steps[step], op) {
                    None => {
                        self.cursor = Cursor::StepStart { step: step + 1 };
                        (PlayerAction::Continue, false)
                    },
                    Some(StepOp::Send(e)) => {
                        self.cursor = Cursor::InStep { step, op: op + 1 };
                        (PlayerAction::Send(e), false)
                    },
                    Some(StepOp::Sleep(ms)) => {
                        self.cursor = Cursor::InStep { step, op: op + 1 };
                        (PlayerAction::Sleep(ms), false)
                    },
                    Some(StepOp::Wait { min_ms, max_ms }) => {
                        proof {
                            assert(spec_step_error(steps@[step as int]) is None);
                        }
                        let ms = if min_ms == max_ms {
                            min_ms
                        } else {
                            random_between(min_ms, max_ms)
                        };
                        self.cursor = Cursor::InStep { step, op: op + 1 };
                        (PlayerAction::Sleep(ms as u64), false)
                    },
                    Some(StepOp::Stream { .. }) => {
                        self.cursor = Cursor::Streaming {
                            step,
                            op,
                            chunk: 1,
                            sent_x: 0,
                            sent_y: 0,
                        };
                        (PlayerAction::Continue, false)
                    },
                }
            },
            Cursor::Streaming { step, op, chunk, sent_x, sent_y } => {
                match step_op_at(&steps[step], op) {
                    Some(StepOp::Stream { dx, dy, duration_ms }) => {
                        if chunk > duration_ms as u64 {
                            self.cursor = Cursor::InStep { step, op: op + 1 };
                            (PlayerAction::Continue, false)
                        } else if stop {
                            self.cursor = Cursor::Finished;
                            (PlayerAction::Done, true)
                        } else {
                            let tx = stream_target_exec(chunk, dx, duration_ms);
                            let ty = stream_target_exec(chunk, dy, duration_ms);
                            proof {
                                lemma_stream_target_bounds(chunk as int, dx as int, duration_ms as int);
                                lemma_stream_target_bounds(chunk as int, dy as int, duration_ms as int);
                                lemma_stream_target_bounds(chunk - 1, dx as int, duration_ms as int);
                                lemma_stream_target_bounds(chunk - 1, dy as int, duration_ms as int);
                            }
                            let cdx = (tx - sent_x) as i32;
                            let cdy = (ty - sent_y) as i32;
                            if cdx == 0 && cdy == 0 {
                                self.cursor = Cursor::Streaming {
                                    step,
                                    op,
                                    chunk: chunk + 1,
                                    sent_x: tx,
                                    sent_y: ty,
                                };
                                (PlayerAction::Sleep(STREAM_CHUNK_MS), false)
                            } else {
                                self.cursor = Cursor::ChunkPause {
                                    step,
                                    op,
                                    chunk,
                                    sent_x: tx,
                                    sent_y: ty,
                                };
                                (PlayerAction::Send(RawEvent::MouseMove { dx: cdx, dy: cdy }), false)
                            }
                        }
                    },
                    _ => (PlayerAction::Done, false),
                }
            },
            Cursor::ChunkPause { step, op, chunk, sent_x, sent_y } => {
                self.cursor = Cursor::Streaming { step, op, chunk: chunk + 1, sent_x, sent_y };
                (PlayerAction::Sleep(STREAM_CHUNK_MS), false)
            },
        }
    }
}

} // verus!
