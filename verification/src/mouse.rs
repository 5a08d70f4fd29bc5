//! Decomposition of one mouse stroke into 0..N [`RawEvent`]s.
//!
//! One stroke can carry several button bits, a wheel rotation and a movement
//! at once. Events come out in a stable order: buttons (left, right, middle,
//! X1, X2; down before up within each), then the wheel, then the movement.
//! A stroke has room for [`STROKE_CAPACITY`] events, every event that a
//! stroke can carry at once (ten button bits, the wheel and the movement), so
//! none is dropped.

use vstd::prelude::*;

use crate::event::RawEvent;
use crate::input::MouseButton;

verus! {

/// Number of event slots in one [`StrokeEvents`].
pub const STROKE_CAPACITY: usize = 12;

/// The events decoded from a single stroke, stored by value: the first
/// `n` slots hold `Some`, the rest `None`.
#[derive(Debug, Clone, Copy)]
pub struct StrokeEvents {
    pub events: [Option<RawEvent>; 12],
}

/// The values of the `Some` slots of `s`, in order.
pub open spec fn present_events(s: Seq<Option<RawEvent>>) -> Seq<RawEvent>
    decreases s.len(),
{
    if s.len() == 0 {
        Seq::empty()
    } else {
        let rest = present_events(s.drop_last());
        match s.last() {
            Some(e) => rest.push(e),
            None => rest,
        }
    }
}

/// The slot layout that holds the events `s` (at most twelve of them).
pub open spec fn packed_slots(s: Seq<RawEvent>) -> Seq<Option<RawEvent>> {
    Seq::new(12, |i: int| if i < s.len() { Some(s[i]) } else { None })
}

/// `seq![e]` when `cond` holds, the empty sequence otherwise.
pub open spec fn event_if(cond: bool, e: RawEvent) -> Seq<RawEvent> {
    if cond {
        seq![e]
    } else {
        Seq::empty()
    }
}

/// Every event that a mouse stroke denotes, before the capacity limit.
pub open spec fn spec_mouse_events(state: u16, rolling: i16, x: i32, y: i32) -> Seq<RawEvent> {
    event_if(state & 0x0001 != 0, RawEvent::MouseDown { button: MouseButton::Left })
        + event_if(state & 0x0002 != 0, RawEvent::MouseUp { button: MouseButton::Left })
        + event_if(state & 0x0004 != 0, RawEvent::MouseDown { button: MouseButton::Right })
        + event_if(state & 0x0008 != 0, RawEvent::MouseUp { button: MouseButton::Right })
        + event_if(state & 0x0010 != 0, RawEvent::MouseDown { button: MouseButton::Middle })
        + event_if(state & 0x0020 != 0, RawEvent::MouseUp { button: MouseButton::Middle })
        + event_if(state & 0x0040 != 0, RawEvent::MouseDown { button: MouseButton::X1 })
        + event_if(state & 0x0080 != 0, RawEvent::MouseUp { button: MouseButton::X1 })
        + event_if(state & 0x0100 != 0, RawEvent::MouseDown { button: MouseButton::X2 })
        + event_if(state & 0x0200 != 0, RawEvent::MouseUp { button: MouseButton::X2 })
        + event_if(
        state & 0x0400 != 0 && rolling != 0,
        RawEvent::MouseWheel { delta: rolling as i32 },
    ) + event_if(x != 0 || y != 0, RawEvent::MouseMove { dx: x, dy: y })
}

/// Taking the `Some` values of a packed layout gives back what was packed.
pub proof fn lemma_present_packed(s: Seq<RawEvent>)
    requires
        s.len() <= 12,
    ensures
        present_events(packed_slots(s)) =~= s,
{
    lemma_present_prefix(s, 12);
    assert(packed_slots(s).take(12) =~= packed_slots(s));
    assert(s.take(s.len() as int) =~= s);
}

proof fn lemma_present_prefix(s: Seq<RawEvent>, k: int)
    requires
        s.len() <= 12,
        0 <= k <= 12,
    ensures
        present_events(packed_slots(s).take(k)) =~= s.take(if k < s.len() { k } else { s.len() as int }),
    decreases k,
{
    if k > 0 {
        lemma_present_prefix(s, k - 1);
        let p = packed_slots(s).take(k);
        assert(p.drop_last() =~= packed_slots(s).take(k - 1));
        if k - 1 < s.len() {
            assert(s.take(k) =~= s.take(k - 1).push(s[k - 1]));
        }
    } else {
        assert(packed_slots(s).take(0) =~= Seq::<Option<RawEvent>>::empty());
    }
}

impl View for StrokeEvents {
    type V = Seq<RawEvent>;

    open spec fn view(&self) -> Seq<RawEvent> {
        present_events(self.events@)
    }
}

impl StrokeEvents {
    /// No events.
    pub fn empty() -> (r: StrokeEvents)
        ensures
            r.events@ == packed_slots(Seq::empty()),
            r@ == Seq::<RawEvent>::empty(),
    {
        let r = StrokeEvents { events: [None, None, None, None, None, None, None, None, None, None, None, None] };
        proof {
            assert(r.events@ =~= packed_slots(Seq::empty()));
            lemma_present_packed(Seq::empty());
        }
        r
    }

    /// Stores the events of `v`, in order.
    pub fn from_events(v: &Vec<RawEvent>) -> (r: StrokeEvents)
        requires
            v@.len() <= 12,
        ensures
            r.events@ == packed_slots(v@),
            r@ == v@,
    {
        let mut r = StrokeEvents { events: [None, None, None, None, None, None, None, None, None, None, None, None] };
        let n: usize = v.len();
        let ghost target = v@;
        let mut i: usize = 0;
        while i < n
            invariant
                n <= 12,
                n == v@.len(),
                target == v@,
                i <= n,
                forall|j: int|
                    0 <= j < 12 ==> #[trigger] r.events@[j] == (if j < i { Some(target[j]) } else {
                        None
                    }),
            decreases n - i,
        {
            r.events[i] = Some(v[i]);
            i = i + 1;
        }
        proof {
            assert(r.events@ =~= packed_slots(target));
            lemma_present_packed(target);
        }
        r
    }

    /// The stored events, in order.
    pub fn iter(&self) -> (r: Vec<RawEvent>)
        ensures
            r@ == self@,
    {
        let mut r: Vec<RawEvent> = Vec::new();
        let mut i: usize = 0;
        while i < 12
            invariant
                i <= 12,
                r@ == present_events(self.events@.take(i as int)),
            decreases 12 - i,
        {
            proof {
                assert(self.events@.take(i + 1).drop_last() =~= self.events@.take(i as int));
            }
            match self.events[i] {
                Some(e) => r.push(e),
                None => {},
            }
            i = i + 1;
        }
        proof {
            assert(self.events@.take(12) =~= self.events@);
        }
        r
    }
}

/// Appends `e` to `v` when `cond` holds.
fn push_if(v: &mut Vec<RawEvent>, cond: bool, e: RawEvent)
    ensures
        final(v)@ == old(v)@ + event_if(cond, e),
{
    if cond {
        v.push(e);
    }
    proof {
        if cond {
            assert(final(v)@ =~= old(v)@ + event_if(cond, e));
        } else {
            assert(final(v)@ =~= old(v)@ + event_if(cond, e));
        }
    }
}

/// Every event that a mouse stroke denotes, in the stable order.
pub fn mouse_events(state: u16, rolling: i16, x: i32, y: i32) -> (r: Vec<RawEvent>)
    ensures
        r@ == spec_mouse_events(state, rolling, x, y),
{
    let mut v: Vec<RawEvent> = Vec::new();
    push_if(&mut v, state & 0x0001 != 0, RawEvent::MouseDown { button: MouseButton::Left });
    push_if(&mut v, state & 0x0002 != 0, RawEvent::MouseUp { button: MouseButton::Left });
    push_if(&mut v, state & 0x0004 != 0, RawEvent::MouseDown { button: MouseButton::Right });
    push_if(&mut v, state & 0x0008 != 0, RawEvent::MouseUp { button: MouseButton::Right });
    push_if(&mut v, state & 0x0010 != 0, RawEvent::MouseDown { button: MouseButton::Middle });
    push_if(&mut v, state & 0x0020 != 0, RawEvent::MouseUp { button: MouseButton::Middle });
    push_if(&mut v, state & 0x0040 != 0, RawEvent::MouseDown { button: MouseButton::X1 });
    push_if(&mut v, state & 0x0080 != 0, RawEvent::MouseUp { button: MouseButton::X1 });
    push_if(&mut v, state & 0x0100 != 0, RawEvent::MouseDown { button: MouseButton::X2 });
    push_if(&mut v, state & 0x0200 != 0, RawEvent::MouseUp { button: MouseButton::X2 });
    push_if(
        &mut v,
        state & 0x0400 != 0 && rolling != 0,
        RawEvent::MouseWheel { delta: rolling as i32 },
    );
    push_if(&mut v, x != 0 || y != 0, RawEvent::MouseMove { dx: x, dy: y });
    proof {
        assert(v@ =~= spec_mouse_events(state, rolling, x, y));
    }
    v
}

/// A stroke denotes at most twelve events.
pub proof fn lemma_mouse_events_len(state: u16, rolling: i16, x: i32, y: i32)
    ensures
        spec_mouse_events(state, rolling, x, y).len() <= 12,
{
    assert forall|c: bool, e: RawEvent| #[trigger] event_if(c, e).len() <= 1 by {}
}

/// Decomposes one mouse stroke. `state` holds the button and wheel bits
/// (`0x01` left down, `0x02` left up, `0x04`/`0x08` right, `0x10`/`0x20`
/// middle, `0x40`/`0x80` X1, `0x100`/`0x200` X2, `0x400` wheel); `rolling`
/// is the wheel rotation; `x`, `y` the movement. The movement is relative
/// whatever `flags` says.
pub fn convert_mouse(state: u16, flags: u16, rolling: i16, x: i32, y: i32) -> (r: StrokeEvents)
    ensures
        r.events@ == packed_slots(spec_mouse_events(state, rolling, x, y)),
        r@ == spec_mouse_events(state, rolling, x, y),
{
    let all = mouse_events(state, rolling, x, y);
    proof {
        lemma_mouse_events_len(state, rolling, x, y);
    }
    StrokeEvents::from_events(&all)
}

} // verus!
