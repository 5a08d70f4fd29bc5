//! The decisions that the application makes around recording and playback:
//! which sessions may start, what a listener does with an event, how an
//! ended session is reported, and how macros are looked up and listed.

use vstd::prelude::*;

use crate::dto::{spec_step_to_dto, StepDto};
use crate::error::{spec_error_kind, spec_error_message, AppError, WireError};
use crate::event::RawEvent;
use crate::input::KeyCode;
use crate::macro_def::{Macro, Step};
use crate::text::seq_lt;
use crate::editing::macro_not_found;
use crate::ids::spec_id_text;

verus! {

/// Which sessions are active: at most one playback (by macro id), and a
/// recording flag.
#[derive(Debug, Clone, Copy, PartialEq, Eq, Structural)]
pub struct SessionSlots {
    pub playback: Option<u128>,
    pub recording: bool,
}

/// The exclusivity invariant: a playback and a recording never run together.
pub open spec fn slots_exclusive(s: SessionSlots) -> bool {
    !(s.playback is Some && s.recording)
}

impl SessionSlots {
    /// Nothing active.
    pub fn new() -> (r: SessionSlots)
        ensures
            r.playback is None,
            !r.recording,
    {
        SessionSlots { playback: None, recording: false }
    }

    /// Whether anything is active (hotkeys are ignored then).
    pub fn is_busy(&self) -> (r: bool)
        ensures
            r == (self.playback is Some || self.recording),
    {
        self.playback.is_some() || self.recording
    }

    /// Refuses a playback while a recording runs (the recorder would capture
    /// the synthesized input).
    pub fn check_can_play(&self) -> (r: Result<(), AppError>)
        ensures
            self.recording ==> r == Err::<(), AppError>(AppError::RecordingActive),
            !self.recording ==> r is Ok,
    {
        if self.recording {
            Err(AppError::RecordingActive)
        } else {
            Ok(())
        }
    }

    /// Reserves the playback slot for macro `id`: refused while a recording
    /// runs, and while another playback runs.
    pub fn reserve_playback(&mut self, id: u128) -> (r: Result<(), AppError>)
        ensures
            old(self).recording ==> r == Err::<(), AppError>(AppError::RecordingActive)
                && *final(self) == *old(self),
            !old(self).recording && old(self).playback is Some ==> r == Err::<(), AppError>(
                AppError::PlaybackActive,
            ) && *final(self) == *old(self),
            !old(self).recording && old(self).playback is None ==> r is Ok && final(self).playback
                == Some(id) && final(self).recording == old(self).recording,
            slots_exclusive(*old(self)) ==> slots_exclusive(*final(self)),
    {
        if self.recording {
            return Err(AppError::RecordingActive);
        }
        if self.playback.is_some() {
            return Err(AppError::PlaybackActive);
        }
        self.playback = Some(id);
        Ok(())
    }

    /// Frees the playback slot if it still belongs to macro `id`.
    pub fn release_playback(&mut self, id: u128)
        ensures
            old(self).playback == Some(id) ==> final(self).playback is None,
            old(self).playback != Some(id) ==> final(self).playback == old(self).playback,
            final(self).recording == old(self).recording,
            slots_exclusive(*old(self)) ==> slots_exclusive(*final(self)),
    {
        if self.playback == Some(id) {
            self.playback = None;
        }
    }

    /// Refuses a recording while a playback runs.
    pub fn check_can_record(&self) -> (r: Result<(), AppError>)
        ensures
            self.playback is Some ==> r == Err::<(), AppError>(AppError::PlaybackActive),
            self.playback is None ==> r is Ok,
    {
        if self.playback.is_some() {
            Err(AppError::PlaybackActive)
        } else {
            Ok(())
        }
    }

    /// Reserves the recording slot: refused while a playback runs, and while
    /// another recording runs.
    pub fn reserve_recording(&mut self) -> (r: Result<(), AppError>)
        ensures
            old(self).playback is Some ==> r == Err::<(), AppError>(AppError::PlaybackActive)
                && *final(self) == *old(self),
            old(self).playback is None && old(self).recording ==> r == Err::<(), AppError>(
                AppError::RecordingActive,
            ) && *final(self) == *old(self),
            old(self).playback is None && !old(self).recording ==> r is Ok && final(self).recording
                && final(self).playback is None,
            slots_exclusive(*old(self)) ==> slots_exclusive(*final(self)),
    {
        if self.playback.is_some() {
            return Err(AppError::PlaybackActive);
        }
        if self.recording {
            return Err(AppError::RecordingActive);
        }
        self.recording = true;
        Ok(())
    }

    /// Frees the recording slot.
    pub fn release_recording(&mut self)
        ensures
            !final(self).recording,
            final(self).playback == old(self).playback,
            slots_exclusive(*final(self)),
    {
        self.recording = false;
    }
}

/// What the input listener does with one incoming event.
#[derive(Debug, Clone, Copy, PartialEq, Eq, Structural)]
pub enum PassthroughAction {
    /// Drop the event.
    Drop,
    /// Drop the event and fire the running playback's stop signal.
    StopPlayback,
    /// Forward the event to the system.
    Forward,
}

/// The listener's decision: a suppressed key (the recording stop key) is
/// dropped on press and release; a press of the stop key while a playback
/// runs stops it and is dropped; everything else is forwarded.
pub open spec fn spec_passthrough(
    event: RawEvent,
    suppress_key: Option<KeyCode>,
    stop_key: KeyCode,
    playback_active: bool,
) -> PassthroughAction {
    if suppress_key matches Some(k) && (event == (RawEvent::KeyDown { key: k }) || event
        == (RawEvent::KeyUp { key: k })) {
        PassthroughAction::Drop
    } else if event == (RawEvent::KeyDown { key: stop_key }) && playback_active {
        PassthroughAction::StopPlayback
    } else {
        PassthroughAction::Forward
    }
}

/// The listener's decision for one event.
pub fn passthrough_decision(
    event: RawEvent,
    suppress_key: Option<KeyCode>,
    stop_key: KeyCode,
    playback_active: bool,
) -> (r: PassthroughAction)
    ensures
        r == spec_passthrough(event, suppress_key, stop_key, playback_active),
{
    match suppress_key {
        Some(k) => {
            if event == (RawEvent::KeyDown { key: k }) || event == (RawEvent::KeyUp { key: k }) {
                return PassthroughAction::Drop;
            }
        },
        None => {},
    }
    if event == (RawEvent::KeyDown { key: stop_key }) && playback_active {
        PassthroughAction::StopPlayback
    } else {
        PassthroughAction::Forward
    }
}

/// Law (the listener withholds only its own keys): an event is withheld
/// only when it is a press or release of the suppressed key or a press of
/// the stop key; with no key suppressed and no playback running, everything
/// is forwarded; and a press of the stop key while a playback runs stops it,
/// unless that key is the suppressed one.
pub proof fn lemma_passthrough_withholds_own_keys(
    event: RawEvent,
    suppress_key: Option<KeyCode>,
    stop_key: KeyCode,
    playback_active: bool,
)
    ensures
        spec_passthrough(event, suppress_key, stop_key, playback_active)
            != PassthroughAction::Forward ==> (event matches RawEvent::KeyDown { key } && (key
            == stop_key || suppress_key == Some(key))) || (event matches RawEvent::KeyUp { key }
            && suppress_key == Some(key)),
        suppress_key is None && !playback_active ==> spec_passthrough(
            event,
            suppress_key,
            stop_key,
            playback_active,
        ) == PassthroughAction::Forward,
        playback_active && event == (RawEvent::KeyDown { key: stop_key }) && suppress_key != Some(
            stop_key,
        ) ==> spec_passthrough(event, suppress_key, stop_key, playback_active)
            == PassthroughAction::StopPlayback,
{
}

/// How a playback ended.
#[derive(Debug, Clone, PartialEq, Eq)]
pub enum PlaybackOutcome {
    /// It ran to completion.
    Completed,
    /// A stop request ended it.
    Stopped,
    /// The player failed.
    Failed { error: WireError },
}

/// Reports an ended playback: a failure wins; otherwise it was stopped when
/// a stop was requested.
pub fn playback_outcome(result: &Result<(), AppError>, stopped: bool) -> (r: PlaybackOutcome)
    ensures
        *result is Ok && stopped ==> r == PlaybackOutcome::Stopped,
        *result is Ok && !stopped ==> r == PlaybackOutcome::Completed,
        *result matches Err(e) ==> r matches PlaybackOutcome::Failed { error } && error.kind@
            == spec_error_kind(e) && error.message@ == spec_error_message(e),
{
    match result {
        Ok(()) => if stopped {
            PlaybackOutcome::Stopped
        } else {
            PlaybackOutcome::Completed
        },
        Err(e) => PlaybackOutcome::Failed { error: e.to_wire() },
    }
}

/// The wire form of each step.
pub fn steps_to_dtos(steps: &[Step]) -> (r: Vec<StepDto>)
    ensures
        r@ == steps@.map_values(|s: Step| spec_step_to_dto(s)),
{
    let mut r: Vec<StepDto> = Vec::new();
    let mut i: usize = 0;
    while i < steps.len()
        invariant
            i <= steps@.len(),
            r@ == steps@.take(i as int).map_values(|s: Step| spec_step_to_dto(s)),
        decreases steps@.len() - i,
    {
        r.push(StepDto::from(&steps[i]));
        proof {
            assert(steps@.take(i + 1).map_values(|s: Step| spec_step_to_dto(s)) =~= steps@.take(
                i as int,
            ).map_values(|s: Step| spec_step_to_dto(s)).push(spec_step_to_dto(steps@[i as int])));
        }
        i = i + 1;
    }
    proof {
        assert(steps@.take(steps@.len() as int) =~= steps@);
    }
    r
}

/// The model form of each wire step.
pub fn steps_from_dtos(dtos: &[StepDto]) -> (r: Vec<Step>)
    ensures
        r@ == dtos@.map_values(|d: StepDto| crate::dto::spec_step_from_dto(d)),
{
    let mut r: Vec<Step> = Vec::new();
    let mut i: usize = 0;
    while i < dtos.len()
        invariant
            i <= dtos@.len(),
            r@ == dtos@.take(i as int).map_values(|d: StepDto| crate::dto::spec_step_from_dto(d)),
        decreases dtos@.len() - i,
    {
        r.push(Step::from(dtos[i]));
        proof {
            assert(dtos@.take(i + 1).map_values(|d: StepDto| crate::dto::spec_step_from_dto(d))
                =~= dtos@.take(i as int).map_values(
                |d: StepDto| crate::dto::spec_step_from_dto(d),
            ).push(crate::dto::spec_step_from_dto(dtos@[i as int])));
        }
        i = i + 1;
    }
    proof {
        assert(dtos@.take(dtos@.len() as int) =~= dtos@);
    }
    r
}

/// How a recording ended.
#[derive(Debug, Clone, PartialEq, Eq)]
pub enum RecordingOutcome {
    /// The recording was captured; its steps in wire form.
    Completed { steps: Vec<StepDto> },
    /// The capture failed.
    Failed { error: WireError },
}

/// Reports an ended recording.
pub fn recording_outcome(result: &Result<Vec<Step>, AppError>) -> (r: RecordingOutcome)
    ensures
        *result matches Ok(steps) ==> r matches RecordingOutcome::Completed { steps: dtos } && dtos@
            == steps@.map_values(|s: Step| spec_step_to_dto(s)),
        *result matches Err(e) ==> r matches RecordingOutcome::Failed { error } && error.kind@
            == spec_error_kind(e) && error.message@ == spec_error_message(e),
{
    match result {
        Ok(steps) => RecordingOutcome::Completed { steps: steps_to_dtos(steps.as_slice()) },
        Err(e) => RecordingOutcome::Failed { error: e.to_wire() },
    }
}

/// Index of the first macro with id `id`.
pub fn find_macro_by_id(macros: &[Macro], id: u128) -> (r: Option<usize>)
    ensures
        r matches Some(i) ==> i < macros@.len() && macros@[i as int].id == id && forall|j: int|
            0 <= j < i ==> macros@[j].id != id,
        r is None ==> forall|j: int| 0 <= j < macros@.len() ==> macros@[j].id != id,
{
    let mut i: usize = 0;
    while i < macros.len()
        invariant
            i <= macros@.len(),
            forall|j: int| 0 <= j < i ==> macros@[j].id != id,
        decreases macros@.len() - i,
    {
        if macros[i].id == id {
            return Some(i);
        }
        i = i + 1;
    }
    None
}

/// Index of the first macro named `name`.
pub fn find_macro_by_name(macros: &[Macro], name: &str) -> (r: Option<usize>)
    ensures
        r matches Some(i) ==> i < macros@.len() && macros@[i as int].name@ == name@ && forall|j: int|
            0 <= j < i ==> macros@[j].name@ != name@,
        r is None ==> forall|j: int| 0 <= j < macros@.len() ==> macros@[j].name@ != name@,
{
    let target = String::from_str(name);
    let mut i: usize = 0;
    while i < macros.len()
        invariant
            i <= macros@.len(),
            target@ == name@,
            forall|j: int| 0 <= j < i ==> macros@[j].name@ != name@,
        decreases macros@.len() - i,
    {
        if macros[i].name == target {
            return Some(i);
        }
        i = i + 1;
    }
    None
}

/// Whether `a` comes before `b` in code-point order.
pub fn str_lt(a: &str, b: &str) -> (r: bool)
    ensures
        r == seq_lt(a@, b@),
{
    let na = a.unicode_len();
    let nb = b.unicode_len();
    let mut i: usize = 0;
    proof {
        assert(a@.skip(0) =~= a@);
        assert(b@.skip(0) =~= b@);
    }
    while i < na && i < nb
        invariant
            na == a@.len(),
            nb == b@.len(),
            i <= na,
            i <= nb,
            forall|j: int| 0 <= j < i ==> a@[j] == b@[j],
            seq_lt(a@, b@) == seq_lt(a@.skip(i as int), b@.skip(i as int)),
        decreases na - i,
    {
        let ca = a.get_char(i);
        let cb = b.get_char(i);
        proof {
            assert(a@.skip(i as int)[0] == ca);
            assert(b@.skip(i as int)[0] == cb);
            assert(a@.skip(i as int).drop_first() =~= a@.skip(i + 1));
            assert(b@.skip(i as int).drop_first() =~= b@.skip(i + 1));
        }
        if ca != cb {
            return (ca as u32) < (cb as u32);
        }
        i = i + 1;
    }
    i < nb
}

/// Whether the names of `v` never decrease.
pub open spec fn sorted_by_name(v: Seq<Macro>) -> bool {
    forall|i: int, j: int| 0 <= i < j < v.len() ==> !seq_lt(#[trigger] v[j].name@, #[trigger] v[i].name@)
}

/// Whether a macro is named `n`.
pub open spec fn name_is(n: Seq<char>) -> spec_fn(Macro) -> bool {
    |m: Macro| m.name@ == n
}

/// The macros of `v` named `n`, in their order in `v`.
pub open spec fn named(v: Seq<Macro>, n: Seq<char>) -> Seq<Macro> {
    v.filter(name_is(n))
}

/// `seq_lt` is asymmetric.
pub proof fn lemma_seq_lt_asymmetric(a: Seq<char>, b: Seq<char>)
    ensures
        seq_lt(a, b) ==> !seq_lt(b, a),
    decreases a.len(),
{
    if a.len() > 0 && b.len() > 0 && a[0] == b[0] {
        lemma_seq_lt_asymmetric(a.drop_first(), b.drop_first());
    }
}

/// `seq_lt` is transitive.
pub proof fn lemma_seq_lt_transitive(a: Seq<char>, b: Seq<char>, c: Seq<char>)
    requires
        seq_lt(a, b),
        seq_lt(b, c),
    ensures
        seq_lt(a, c),
    decreases a.len(),
{
    if a.len() > 0 && a[0] == b[0] && b[0] == c[0] {
        lemma_seq_lt_transitive(a.drop_first(), b.drop_first(), c.drop_first());
    }
}

/// Nothing comes before itself.
proof fn lemma_seq_lt_irreflexive(a: Seq<char>)
    ensures
        !seq_lt(a, a),
{
    lemma_seq_lt_asymmetric(a, a);
}

/// Filtering a sequence none of whose elements pass gives nothing.
proof fn lemma_filter_none(s: Seq<Macro>, pred: spec_fn(Macro) -> bool)
    requires
        forall|i: int| 0 <= i < s.len() ==> !pred(#[trigger] s[i]),
    ensures
        s.filter(pred) == Seq::<Macro>::empty(),
    decreases s.len(),
{
    reveal(Seq::filter);
    if s.len() > 0 {
        lemma_filter_none(s.drop_last(), pred);
    }
}

/// Filtering a single element.
proof fn lemma_filter_single(m: Macro, pred: spec_fn(Macro) -> bool)
    ensures
        seq![m].filter(pred) == (if pred(m) {
            seq![m]
        } else {
            Seq::<Macro>::empty()
        }),
{
    Seq::<Macro>::empty().lemma_filter_prepend(m, pred);
    assert(seq![m] + Seq::<Macro>::empty() =~= seq![m]);
    reveal(Seq::filter);
    assert(Seq::<Macro>::empty().filter(pred) =~= Seq::<Macro>::empty());
}

/// Inserting `m` where every later element is named otherwise than `m`
/// appends `m` to the run of its name and leaves the other runs alone.
proof fn lemma_insert_named(s: Seq<Macro>, p: int, m: Macro, n: Seq<char>)
    requires
        0 <= p <= s.len(),
        forall|k: int| p <= k < s.len() ==> (#[trigger] s[k]).name@ != m.name@,
    ensures
        named(s.insert(p, m), n) == named(s, n) + named(seq![m], n),
{
    let pred = name_is(n);
    let a = s.take(p);
    let b = s.skip(p);
    assert(s =~= a + b);
    assert(s.insert(p, m) =~= a + seq![m] + b);
    Seq::filter_distributes_over_add(a, b, pred);
    Seq::filter_distributes_over_add(a + seq![m], b, pred);
    Seq::filter_distributes_over_add(a, seq![m], pred);
    lemma_filter_single(m, pred);
    if m.name@ == n {
        assert forall|i: int| 0 <= i < b.len() implies !pred(#[trigger] b[i]) by {
            assert(b[i] == s[p + i]);
        }
        lemma_filter_none(b, pred);
        assert(a.filter(pred) + seq![m] + Seq::<Macro>::empty() =~= (a.filter(pred)
            + Seq::<Macro>::empty()) + seq![m]);
    } else {
        assert(a.filter(pred) + Seq::<Macro>::empty() + b.filter(pred) =~= a.filter(pred)
            + b.filter(pred));
        assert(a.filter(pred) + b.filter(pred) + Seq::<Macro>::empty() =~= a.filter(pred)
            + b.filter(pred));
    }
}

/// The macros sorted by name (stable: equal names keep their order).
pub fn sort_macros_by_name(v: Vec<Macro>) -> (r: Vec<Macro>)
    ensures
        sorted_by_name(r@),
        r@.to_multiset() == v@.to_multiset(),
        forall|n: Seq<char>| #[trigger] named(r@, n) == named(v@, n),
{
    let mut input = v;
    let mut out: Vec<Macro> = Vec::new();
    let ghost orig = input@;
    proof {
        broadcast use vstd::seq_lib::group_to_multiset_ensures;
        broadcast use vstd::multiset::group_multiset_axioms;
        assert(out@.to_multiset() =~= vstd::multiset::Multiset::empty()) by {
            assert(out@ =~= Seq::<Macro>::empty());
        }
        assert(out@.to_multiset().add(input@.to_multiset()) =~= orig.to_multiset());
        assert forall|n: Seq<char>| #[trigger] named(out@, n) + named(input@, n) == named(orig, n) by {
            lemma_filter_none(out@, name_is(n));
            assert(Seq::<Macro>::empty() + named(input@, n) =~= named(input@, n));
        }
    }
    while input.len() > 0
        invariant
            sorted_by_name(out@),
            out@.to_multiset().add(input@.to_multiset()) == orig.to_multiset(),
            forall|n: Seq<char>| #[trigger] named(out@, n) + named(input@, n) == named(orig, n),
        decreases input@.len(),
    {
        let ghost before_in = input@;
        let m = input.remove(0);
        proof {
            broadcast use vstd::seq_lib::group_to_multiset_ensures;
            assert(input@ == before_in.remove(0));
            assert(before_in.to_multiset().count(m) > 0);
            assert(before_in =~= seq![m] + input@);
        }
        let mut p: usize = 0;
        let mut found: bool = false;
        while p < out.len() && !found
            invariant
                p <= out@.len(),
                sorted_by_name(out@),
                forall|j: int| 0 <= j < p ==> !seq_lt(m.name@, #[trigger] out@[j].name@),
                found ==> p < out@.len() && seq_lt(m.name@, out@[p as int].name@),
            decreases out@.len() - p, (if found { 0int } else { 1int }),
        {
            if str_lt(m.name.as_str(), out[p].name.as_str()) {
                found = true;
            } else {
                p = p + 1;
            }
        }
        let ghost before_out = out@;
        proof {
            // Every macro from `p` on comes after `m`: none is named like it,
            // and none comes before it.
            assert forall|k: int| p <= k < before_out.len() implies (#[trigger] before_out[k]).name@
                != m.name@ && !seq_lt(before_out[k].name@, m.name@) by {
                let q = before_out[p as int].name@;
                lemma_seq_lt_asymmetric(m.name@, q);
                if k > p {
                    assert(!seq_lt(before_out[k].name@, q));
                    if seq_lt(before_out[k].name@, m.name@) {
                        lemma_seq_lt_transitive(before_out[k].name@, m.name@, q);
                    }
                } else {
                    lemma_seq_lt_irreflexive(m.name@);
                }
            }
        }
        out.insert(p, m);
        proof {
            assert(out@ =~= before_out.insert(p as int, m));
            assert(out@.to_multiset().add(input@.to_multiset()) =~= orig.to_multiset()) by {
                broadcast use vstd::seq_lib::group_to_multiset_ensures;
                broadcast use vstd::multiset::group_multiset_axioms;
            }
            assert forall|i: int, j: int| 0 <= i < j < out@.len() implies !seq_lt(
                #[trigger] out@[j].name@,
                #[trigger] out@[i].name@,
            ) by {
                if j < p {
                    assert(out@[i] == before_out[i] && out@[j] == before_out[j]);
                } else if j == p {
                    assert(out@[i] == before_out[i] && out@[j] == m);
                } else if i < p {
                    assert(out@[i] == before_out[i] && out@[j] == before_out[j - 1]);
                } else if i == p {
                    assert(out@[i] == m && out@[j] == before_out[j - 1]);
                } else {
                    assert(out@[i] == before_out[i - 1] && out@[j] == before_out[j - 1]);
                }
            }
            assert forall|n: Seq<char>| #[trigger] named(out@, n) + named(input@, n) == named(
                orig,
                n,
            ) by {
                lemma_insert_named(before_out, p as int, m, n);
                Seq::filter_distributes_over_add(seq![m], input@, name_is(n));
                assert(named(before_in, n) == named(seq![m], n) + named(input@, n));
                assert(named(before_out, n) + named(before_in, n) == named(orig, n));
                assert(named(before_out, n) + named(seq![m], n) + named(input@, n)
                    =~= named(before_out, n) + (named(seq![m], n) + named(input@, n)));
            }
        }
    }
    proof {
        assert(input@ =~= Seq::<Macro>::empty());
        assert(input@.to_multiset() =~= vstd::multiset::Multiset::empty()) by {
            broadcast use vstd::seq_lib::group_to_multiset_ensures;
        }
        assert(out@.to_multiset().add(vstd::multiset::Multiset::empty()) =~= out@.to_multiset());
        assert forall|n: Seq<char>| #[trigger] named(out@, n) == named(orig, n) by {
            lemma_filter_none(input@, name_is(n));
            assert(named(out@, n) + Seq::<Macro>::empty() =~= named(out@, n));
        }
    }
    out
}


/// Whether the macros hold one with id `id`.
pub open spec fn has_id(macros: Seq<Macro>, id: u128) -> bool {
    exists|j: int| 0 <= j < macros.len() && macros[j].id == id
}

/// Decides whether macro `id` may start playing, in the order the refusals
/// are checked: a running recording, then a macro that is not stored, then a
/// missing driver, then a running playback. On success, the index of the
/// (first) macro with that id.
pub fn check_play(slots: &SessionSlots, macros: &[Macro], id: u128, driver_available: bool) -> (r:
    Result<usize, AppError>)
    ensures
        slots.recording ==> r == Err::<usize, AppError>(AppError::RecordingActive),
        !slots.recording && !has_id(macros@, id) ==> (r matches Err(AppError::MacroNotFound(s))
            && s@ == spec_id_text(id)),
        !slots.recording && has_id(macros@, id) && !driver_available ==> r == Err::<usize, AppError>(
            AppError::DriverNotInstalled,
        ),
        !slots.recording && has_id(macros@, id) && driver_available && slots.playback is Some ==> r
            == Err::<usize, AppError>(AppError::PlaybackActive),
        !slots.recording && has_id(macros@, id) && driver_available && slots.playback is None ==> (
        r matches Ok(i) && i < macros@.len() && macros@[i as int].id == id && forall|j: int|
            0 <= j < i ==> macros@[j].id != id),
{
    if slots.recording {
        return Err(AppError::RecordingActive);
    }
    match find_macro_by_id(macros, id) {
        None => Err(macro_not_found(id)),
        Some(i) => {
            if !driver_available {
                Err(AppError::DriverNotInstalled)
            } else if slots.playback.is_some() {
                Err(AppError::PlaybackActive)
            } else {
                Ok(i)
            }
        },
    }
}

} // verus!
