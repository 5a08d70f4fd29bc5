//! Hotkey bindings and the tracking of pressed modifiers.

use vstd::prelude::*;
use std::collections::HashMap;

use crate::event::RawEvent;
use crate::input::{modifier_rank, KeyCode, Modifier};
use crate::macro_def::{spec_trigger_is_safe, Macro, Trigger};

verus! {

broadcast use vstd::std_specs::hash::group_hash_axioms;

/// A set of modifiers.
#[derive(Debug, Clone, Copy, PartialEq, Eq, Structural)]
pub struct ModifierSet {
    pub ctrl: bool,
    pub shift: bool,
    pub alt: bool,
    pub win: bool,
}

/// Whether a set of flags contains a modifier.
pub open spec fn flags_contain(s: ModifierSet, m: Modifier) -> bool {
    match m {
        Modifier::Ctrl => s.ctrl,
        Modifier::Shift => s.shift,
        Modifier::Alt => s.alt,
        Modifier::Win => s.win,
    }
}

impl View for ModifierSet {
    type V = Set<Modifier>;

    open spec fn view(&self) -> Set<Modifier> {
        Set::new(|m: Modifier| flags_contain(*self, m))
    }
}

impl ModifierSet {
    /// The empty set.
    pub fn new() -> (r: ModifierSet)
        ensures
            r@ == Set::<Modifier>::empty(),
    {
        let r = ModifierSet { ctrl: false, shift: false, alt: false, win: false };
        assert(r@ =~= Set::<Modifier>::empty());
        r
    }

    /// Whether `m` is in the set.
    pub fn contains(&self, m: Modifier) -> (r: bool)
        ensures
            r == self@.contains(m),
    {
        match m {
            Modifier::Ctrl => self.ctrl,
            Modifier::Shift => self.shift,
            Modifier::Alt => self.alt,
            Modifier::Win => self.win,
        }
    }

    /// Adds `m`.
    pub fn insert(&mut self, m: Modifier)
        ensures
            final(self)@ == old(self)@.insert(m),
    {
        match m {
            Modifier::Ctrl => self.ctrl = true,
            Modifier::Shift => self.shift = true,
            Modifier::Alt => self.alt = true,
            Modifier::Win => self.win = true,
        }
        assert(final(self)@ =~= old(self)@.insert(m));
    }

    /// Removes `m`.
    pub fn remove(&mut self, m: Modifier)
        ensures
            final(self)@ == old(self)@.remove(m),
    {
        match m {
            Modifier::Ctrl => self.ctrl = false,
            Modifier::Shift => self.shift = false,
            Modifier::Alt => self.alt = false,
            Modifier::Win => self.win = false,
        }
        assert(final(self)@ =~= old(self)@.remove(m));
    }

    /// The set of the modifiers in `v`.
    pub fn from_slice(v: &[Modifier]) -> (r: ModifierSet)
        ensures
            r@ == v@.to_set(),
    {
        let mut r = ModifierSet::new();
        let mut i: usize = 0;
        while i < v.len()
            invariant
                i <= v@.len(),
                r@ == v@.take(i as int).to_set(),
            decreases v@.len() - i,
        {
            r.insert(v[i]);
            proof {
                assert(v@.take(i + 1) =~= v@.take(i as int).push(v@[i as int]));
                v@.take(i as int).lemma_push_to_set_commute(v@[i as int]);
            }
            i = i + 1;
        }
        proof {
            assert(v@.take(v@.len() as int) =~= v@);
        }
        r
    }

    /// The modifiers of the set in the order `Ctrl, Shift, Alt, Win`.
    pub fn to_sorted_vec(&self) -> (r: Vec<Modifier>)
        ensures
            r@.to_set() == self@,
            forall|i: int, j: int|
                0 <= i < j < r@.len() ==> modifier_rank(r@[i]) < modifier_rank(r@[j]),
    {
        let mut r: Vec<Modifier> = Vec::new();
        let ghost mut acc: Set<Modifier> = Set::empty();
        proof {
            assert(r@.to_set() =~= acc);
        }
        if self.ctrl {
            proof {
                r@.lemma_push_to_set_commute(Modifier::Ctrl);
                acc = acc.insert(Modifier::Ctrl);
            }
            r.push(Modifier::Ctrl);
        }
        if self.shift {
            proof {
                r@.lemma_push_to_set_commute(Modifier::Shift);
                acc = acc.insert(Modifier::Shift);
            }
            r.push(Modifier::Shift);
        }
        if self.alt {
            proof {
                r@.lemma_push_to_set_commute(Modifier::Alt);
                acc = acc.insert(Modifier::Alt);
            }
            r.push(Modifier::Alt);
        }
        if self.win {
            proof {
                r@.lemma_push_to_set_commute(Modifier::Win);
                acc = acc.insert(Modifier::Win);
            }
            r.push(Modifier::Win);
        }
        proof {
            assert(acc =~= self@);
        }
        r
    }
}

/// The modifiers of `v`, sorted by rank and without duplicates.
pub fn normalize_modifiers(v: &Vec<Modifier>) -> (r: Vec<Modifier>)
    ensures
        r@.to_set() == v@.to_set(),
        forall|i: int, j: int| 0 <= i < j < r@.len() ==> modifier_rank(r@[i]) < modifier_rank(r@[j]),
{
    ModifierSet::from_slice(v.as_slice()).to_sorted_vec()
}

/// The modifier that a key is, if any (left and right variants alike).
pub open spec fn spec_key_as_modifier(k: KeyCode) -> Option<Modifier> {
    match k {
        KeyCode::LShift | KeyCode::RShift => Some(Modifier::Shift),
        KeyCode::LCtrl | KeyCode::RCtrl => Some(Modifier::Ctrl),
        KeyCode::LAlt | KeyCode::RAlt => Some(Modifier::Alt),
        KeyCode::LWin | KeyCode::RWin => Some(Modifier::Win),
        _ => None,
    }
}

/// The modifier that a key is, if any.
pub fn key_as_modifier(k: KeyCode) -> (r: Option<Modifier>)
    ensures
        r == spec_key_as_modifier(k),
{
    match k {
        KeyCode::LShift | KeyCode::RShift => Some(Modifier::Shift),
        KeyCode::LCtrl | KeyCode::RCtrl => Some(Modifier::Ctrl),
        KeyCode::LAlt | KeyCode::RAlt => Some(Modifier::Alt),
        KeyCode::LWin | KeyCode::RWin => Some(Modifier::Win),
        _ => None,
    }
}

/// A trigger with its modifiers sorted by rank and deduplicated.
pub open spec fn spec_normalized(t: Trigger, mods: Seq<Modifier>) -> bool {
    &&& mods.to_set() == match t {
        Trigger::Hotkey { modifiers, .. } => modifiers@.to_set(),
        Trigger::MouseButton { modifiers, .. } => modifiers@.to_set(),
    }
    &&& forall|i: int, j: int| 0 <= i < j < mods.len() ==> modifier_rank(mods[i]) < modifier_rank(mods[j])
}

/// Whether `t2` is `t` with normalized modifiers.
pub open spec fn is_normal_form(t: Trigger, t2: Trigger) -> bool {
    match (t, t2) {
        (Trigger::Hotkey { key, .. }, Trigger::Hotkey { key: k2, modifiers }) => key == k2
            && spec_normalized(t, modifiers@),
        (Trigger::MouseButton { button, .. }, Trigger::MouseButton { button: b2, modifiers }) => button
            == b2 && spec_normalized(t, modifiers@),
        _ => false,
    }
}

/// `t` with its modifiers sorted and deduplicated.
pub fn normalize_trigger(t: &Trigger) -> (r: Trigger)
    ensures
        is_normal_form(*t, r),
{
    match t {
        Trigger::Hotkey { key, modifiers } => Trigger::Hotkey {
            key: *key,
            modifiers: normalize_modifiers(modifiers),
        },
        Trigger::MouseButton { button, modifiers } => Trigger::MouseButton {
            button: *button,
            modifiers: normalize_modifiers(modifiers),
        },
    }
}

/// Whether a binding fires on a press of `key` with exactly the modifiers
/// `mods` held: only key triggers fire, on their key with exactly their
/// modifiers.
pub open spec fn spec_hotkey_matches(t: Trigger, key: KeyCode, mods: Set<Modifier>) -> bool {
    match t {
        Trigger::Hotkey { key: tk, modifiers } => tk == key && modifiers@.to_set() == mods,
        Trigger::MouseButton { .. } => false,
    }
}

/// Whether a binding fires on `key` with `mods` held.
pub fn hotkey_matches(t: &Trigger, key: KeyCode, mods: &ModifierSet) -> (r: bool)
    ensures
        r == spec_hotkey_matches(*t, key, mods@),
{
    match t {
        Trigger::Hotkey { key: tk, modifiers } => {
            if *tk != key {
                return false;
            }
            let s = ModifierSet::from_slice(modifiers.as_slice());
            let same = s.ctrl == mods.ctrl && s.shift == mods.shift && s.alt == mods.alt && s.win
                == mods.win;
            proof {
                if same {
                    assert(s@ =~= mods@);
                } else {
                    if s.ctrl != mods.ctrl {
                        assert(s@.contains(Modifier::Ctrl) != mods@.contains(Modifier::Ctrl));
                    } else if s.shift != mods.shift {
                        assert(s@.contains(Modifier::Shift) != mods@.contains(Modifier::Shift));
                    } else if s.alt != mods.alt {
                        assert(s@.contains(Modifier::Alt) != mods@.contains(Modifier::Alt));
                    } else {
                        assert(s@.contains(Modifier::Win) != mods@.contains(Modifier::Win));
                    }
                }
            }
            same
        },
        Trigger::MouseButton { .. } => false,
    }
}

/// Bindings from macro id to trigger.
pub struct HotkeyRegistry {
    by_id: HashMap<u128, Trigger>,
}

impl View for HotkeyRegistry {
    type V = Map<u128, Trigger>;

    closed spec fn view(&self) -> Map<u128, Trigger> {
        self.by_id@
    }
}

impl HotkeyRegistry {
    /// No bindings.
    pub fn new() -> (r: HotkeyRegistry)
        ensures
            r@ == Map::<u128, Trigger>::empty(),
    {
        HotkeyRegistry { by_id: HashMap::new() }
    }

    /// Binds `id` to `trigger` (with its modifiers sorted and deduplicated),
    /// replacing any earlier binding of `id`.
    pub fn bind(&mut self, id: u128, trigger: Trigger)
        ensures
            final(self)@.dom() == old(self)@.dom().insert(id),
            is_normal_form(trigger, final(self)@[id]),
            forall|other: u128|
                other != id && old(self)@.contains_key(other) ==> #[trigger] final(self)@[other]
                    == old(self)@[other],
    {
        let t = normalize_trigger(&trigger);
        self.by_id.insert(id, t);
    }

    /// Removes the binding of `id`, if any.
    pub fn unbind(&mut self, id: u128)
        ensures
            final(self)@ == old(self)@.remove(id),
    {
        self.by_id.remove(&id);
    }

    /// The ids whose binding fires on a press of `key` with exactly `mods`
    /// held, each once, in no particular order.
    pub fn match_pressed(&self, key: KeyCode, mods: &ModifierSet) -> (r: Vec<u128>)
        ensures
            r@.no_duplicates(),
            forall|id: u128|
                r@.contains(id) <==> (self@.contains_key(id) && spec_hotkey_matches(
                    self@[id],
                    key,
                    mods@,
                )),
    {
        let mut r: Vec<u128> = Vec::new();
        let ghost m = self.by_id@;
        let ghost full = vstd::std_specs::iter::IteratorSpec::remaining(&vstd::std_specs::hash::spec_hash_map_iter(&self.by_id));
        for pair in it: self.by_id.iter()
            invariant
                m == self.by_id@,
                it.seq() == full,
                full == vstd::std_specs::iter::IteratorSpec::remaining(&vstd::std_specs::hash::spec_hash_map_iter(&self.by_id)),
                full.no_duplicates(),
                r@.no_duplicates(),
                forall|id: u128|
                    r@.contains(id) <==> exists|j: int|
                        0 <= j < it.index() && *(#[trigger] full[j]).0 == id
                            && spec_hotkey_matches(*full[j].1, key, mods@),
        {
            let ghost k = it.index();
            let ghost old_r = r@;
            assert(pair == full[k]);
            let (id, t) = pair;
            let hit = hotkey_matches(t, key, mods);
            if hit {
                proof {
                    if r@.contains(*id) {
                        let j = choose|j: int|
                            0 <= j < it.index() && *(#[trigger] full[j]).0 == *id
                                && spec_hotkey_matches(*full[j].1, key, mods@);
                        assert(m.contains_key(*full[j].0));
                        assert(m.contains_key(*full[it.index()].0));
                        assert(full[j] == full[it.index()]);
                    }
                }
                r.push(*id);
            }
            proof {
                if hit {
                    assert(r@ == old_r.push(*id));
                } else {
                    assert(r@ == old_r);
                }
                assert forall|x: u128|
                    r@.contains(x) <==> exists|j: int|
                        0 <= j < k + 1 && *(#[trigger] full[j]).0 == x && spec_hotkey_matches(
                            *full[j].1,
                            key,
                            mods@,
                        ) by {
                    if r@.contains(x) {
                        if !old_r.contains(x) {
                            assert(x == *id);
                            assert(*full[k].0 == x);
                        }
                    }
                    if exists|j: int|
                        0 <= j < k + 1 && *(#[trigger] full[j]).0 == x && spec_hotkey_matches(
                            *full[j].1,
                            key,
                            mods@,
                        ) {
                        let j = choose|j: int|
                            0 <= j < k + 1 && *(#[trigger] full[j]).0 == x && spec_hotkey_matches(
                                *full[j].1,
                                key,
                                mods@,
                            );
                        if j == k {
                            assert(hit);
                            assert(r@[r@.len() - 1] == *id);
                            assert(r@.contains(*id));
                        } else {
                            assert(old_r.contains(x));
                            let w = choose|w: int| 0 <= w < old_r.len() && old_r[w] == x;
                            assert(r@[w] == x);
                            assert(r@.contains(x));
                        }
                    }
                }
            }
        }
        proof {
            assert forall|id: u128|
                self@.contains_key(id) && spec_hotkey_matches(
                    self@[id],
                    key,
                    mods@,
                ) implies r@.contains(id) by {
                assert(full.contains((&id, &m[id])));
                let j = choose|j: int| 0 <= j < full.len() && full[j] == (&id, &m[id]);
                assert(*full[j].0 == id);
            }
            assert forall|id: u128| r@.contains(id) implies (self@.contains_key(id)
                && spec_hotkey_matches(self@[id], key, mods@)) by {
                let j = choose|j: int|
                    0 <= j < full.len() && *(#[trigger] full[j]).0 == id
                        && spec_hotkey_matches(*full[j].1, key, mods@);
                assert(m.contains_key(*full[j].0));
            }
        }
        r
    }
}

/// Follows the held modifiers across key events and reports the bindings
/// that a key press fires.
#[derive(Debug, Clone, Copy, PartialEq, Eq, Structural)]
pub struct HotkeyTracker {
    pub mods: ModifierSet,
}

/// The held modifiers after an event: a modifier key's press adds it, its
/// release removes it; other events leave the set alone.
pub open spec fn spec_mods_after(mods: Set<Modifier>, e: RawEvent) -> Set<Modifier> {
    match e {
        RawEvent::KeyDown { key } => match spec_key_as_modifier(key) {
            Some(m) => mods.insert(m),
            None => mods,
        },
        RawEvent::KeyUp { key } => match spec_key_as_modifier(key) {
            Some(m) => mods.remove(m),
            None => mods,
        },
        _ => mods,
    }
}

/// Whether an event is a press of a key that is not a modifier: the only
/// events that can fire a binding.
pub open spec fn spec_is_plain_press(e: RawEvent) -> bool {
    e matches RawEvent::KeyDown { key } && spec_key_as_modifier(key) is None
}

impl HotkeyTracker {
    /// No modifier held.
    pub fn new() -> (r: HotkeyTracker)
        ensures
            r.mods@ == Set::<Modifier>::empty(),
    {
        HotkeyTracker { mods: ModifierSet::new() }
    }

    /// Handles one event: updates the held modifiers, and for a press of a
    /// non-modifier key returns the ids of the bindings it fires (each once).
    pub fn on_event(&mut self, event: RawEvent, registry: &HotkeyRegistry) -> (r: Vec<u128>)
        ensures
            final(self).mods@ == spec_mods_after(old(self).mods@, event),
            r@.no_duplicates(),
            forall|id: u128|
                r@.contains(id) <==> (spec_is_plain_press(event) && registry@.contains_key(id)
                    && spec_hotkey_matches(registry@[id], event->KeyDown_key, old(self).mods@)),
    {
        match event {
            RawEvent::KeyDown { key } => {
                match key_as_modifier(key) {
                    Some(m) => {
                        self.mods.insert(m);
                        Vec::new()
                    },
                    None => registry.match_pressed(key, &self.mods),
                }
            },
            RawEvent::KeyUp { key } => {
                match key_as_modifier(key) {
                    Some(m) => self.mods.remove(m),
                    None => {},
                }
                Vec::new()
            },
            _ => Vec::new(),
        }
    }
}


/// Law (either key of a modifier holds it): whatever modifiers are held,
/// pressing the left or the right Shift, Ctrl, Alt or Win key adds that
/// modifier to the held set and releasing it removes it; pressing or
/// releasing any other key leaves the held set as it was.
pub proof fn lemma_modifier_keys_held(mods: Set<Modifier>, k: KeyCode)
    ensures
        spec_mods_after(mods, RawEvent::KeyDown { key: KeyCode::LShift }) == mods.insert(Modifier::Shift),
        spec_mods_after(mods, RawEvent::KeyDown { key: KeyCode::RShift }) == mods.insert(Modifier::Shift),
        spec_mods_after(mods, RawEvent::KeyDown { key: KeyCode::LCtrl }) == mods.insert(Modifier::Ctrl),
        spec_mods_after(mods, RawEvent::KeyDown { key: KeyCode::RCtrl }) == mods.insert(Modifier::Ctrl),
        spec_mods_after(mods, RawEvent::KeyDown { key: KeyCode::LAlt }) == mods.insert(Modifier::Alt),
        spec_mods_after(mods, RawEvent::KeyDown { key: KeyCode::RAlt }) == mods.insert(Modifier::Alt),
        spec_mods_after(mods, RawEvent::KeyDown { key: KeyCode::LWin }) == mods.insert(Modifier::Win),
        spec_mods_after(mods, RawEvent::KeyDown { key: KeyCode::RWin }) == mods.insert(Modifier::Win),
        spec_mods_after(mods, RawEvent::KeyUp { key: KeyCode::LShift }) == mods.remove(Modifier::Shift),
        spec_mods_after(mods, RawEvent::KeyUp { key: KeyCode::RShift }) == mods.remove(Modifier::Shift),
        spec_mods_after(mods, RawEvent::KeyUp { key: KeyCode::LCtrl }) == mods.remove(Modifier::Ctrl),
        spec_mods_after(mods, RawEvent::KeyUp { key: KeyCode::RCtrl }) == mods.remove(Modifier::Ctrl),
        spec_mods_after(mods, RawEvent::KeyUp { key: KeyCode::LAlt }) == mods.remove(Modifier::Alt),
        spec_mods_after(mods, RawEvent::KeyUp { key: KeyCode::RAlt }) == mods.remove(Modifier::Alt),
        spec_mods_after(mods, RawEvent::KeyUp { key: KeyCode::LWin }) == mods.remove(Modifier::Win),
        spec_mods_after(mods, RawEvent::KeyUp { key: KeyCode::RWin }) == mods.remove(Modifier::Win),
        !(k is LShift || k is RShift || k is LCtrl || k is RCtrl || k is LAlt || k is RAlt
            || k is LWin || k is RWin) ==> spec_mods_after(mods, RawEvent::KeyDown { key: k })
            == mods && spec_mods_after(mods, RawEvent::KeyUp { key: k }) == mods,
{
}

/// Law (a binding fires as its trigger says, however the modifiers were
/// listed): the normalized trigger that [`HotkeyRegistry::bind`] stores fires
/// on exactly the key presses that the given trigger describes, so after
/// `bind(id, t)` the id is matched by a press of `key` with `mods` held
/// exactly when `t` is a key trigger on `key` whose modifiers are `mods`.
pub proof fn lemma_normal_form_fires_alike(t: Trigger, stored: Trigger, key: KeyCode, mods: Set<Modifier>)
    requires
        is_normal_form(t, stored),
    ensures
        spec_hotkey_matches(stored, key, mods) == spec_hotkey_matches(t, key, mods),
{
}


/// Whether a macro's trigger is bound: always, or only when it is safe.
pub open spec fn is_bound(m: Macro, only_safe: bool) -> bool {
    !only_safe || spec_trigger_is_safe(m.trigger)
}

/// Whether `macros[i]` is the last macro among the first `n` that binds
/// its id.
pub open spec fn last_binding(macros: Seq<Macro>, n: int, i: int, only_safe: bool) -> bool {
    &&& 0 <= i < n
    &&& is_bound(macros[i], only_safe)
    &&& forall|j: int| i < j < n && macros[j].id == macros[i].id ==> !is_bound(macros[j], only_safe)
}

/// Whether some macro among the first `n` binds `id`.
pub open spec fn binds_id(macros: Seq<Macro>, n: int, id: u128, only_safe: bool) -> bool {
    exists|i: int| 0 <= i < n && (#[trigger] macros[i]).id == id && is_bound(macros[i], only_safe)
}

/// What binding the macros `macros[..n]` over `old` gives: their ids are
/// bound (the last macro with an id wins), other bindings stay.
pub open spec fn binds_over(old: Map<u128, Trigger>, new: Map<u128, Trigger>, macros: Seq<Macro>, n: int, only_safe: bool) -> bool {
    &&& forall|id: u128| #[trigger] new.contains_key(id) <==> old.contains_key(id) || binds_id(macros, n, id, only_safe)
    &&& forall|id: u128| !binds_id(macros, n, id, only_safe) && old.contains_key(id) ==> #[trigger] new[id] == old[id]
    &&& forall|i: int| #[trigger] last_binding(macros, n, i, only_safe) ==> is_normal_form(macros[i].trigger, new[macros[i].id])
}

impl HotkeyRegistry {
    /// Binds each macro's id to its trigger, in order (a later macro with
    /// the same id wins); with `only_safe`, macros whose trigger is a bare
    /// left, right or middle click are skipped. Other bindings stay.
    pub fn bind_macros(&mut self, macros: &[Macro], only_safe: bool)
        ensures
            binds_over(old(self)@, final(self)@, macros@, macros@.len() as int, only_safe),
    {
        let ghost start = self@;
        let mut k: usize = 0;
        while k < macros.len()
            invariant
                k <= macros@.len(),
                binds_over(start, self@, macros@, k as int, only_safe),
            decreases macros@.len() - k,
        {
            let m = &macros[k];
            if !only_safe || m.trigger.is_safe() {
                let ghost before = self@;
                let t = normalize_trigger(&m.trigger);
                self.bind(m.id, t);
                proof {
                    let n = k + 1;
                    assert(is_bound(macros@[k as int], only_safe));
                    assert forall|id: u128| #[trigger] self@.contains_key(id) <==> start.contains_key(id)
                        || binds_id(macros@, n, id, only_safe) by {
                        if binds_id(macros@, n, id, only_safe) && id != m.id {
                            let i = choose|i: int| 0 <= i < n && (#[trigger] macros@[i]).id == id
                                && is_bound(macros@[i], only_safe);
                            assert(binds_id(macros@, k as int, id, only_safe));
                        }
                        if binds_id(macros@, k as int, id, only_safe) {
                            let i = choose|i: int| 0 <= i < k && (#[trigger] macros@[i]).id == id
                                && is_bound(macros@[i], only_safe);
                            assert(binds_id(macros@, n, id, only_safe));
                        }
                        if id == m.id {
                            assert(macros@[k as int].id == id);
                        }
                    }
                    assert forall|id: u128| !binds_id(macros@, n, id, only_safe) && start.contains_key(id)
                        implies #[trigger] self@[id] == start[id] by {
                        if id == m.id {
                            assert(macros@[k as int].id == id);
                        }
                        if binds_id(macros@, k as int, id, only_safe) {
                            let i = choose|i: int| 0 <= i < k && (#[trigger] macros@[i]).id == id
                                && is_bound(macros@[i], only_safe);
                            assert(binds_id(macros@, n, id, only_safe));
                        }
                    }
                    assert forall|i: int| #[trigger] last_binding(macros@, n, i, only_safe) implies is_normal_form(
                        macros@[i].trigger,
                        self@[macros@[i].id],
                    ) by {
                        if i == k {
                            assert(self@[m.id] == self.by_id@[m.id]);
                        } else {
                            assert(macros@[i].id != m.id);
                            assert(last_binding(macros@, k as int, i, only_safe));
                        }
                    }
                }
            } else {
                proof {
                    let n = k + 1;
                    assert(!is_bound(macros@[k as int], only_safe));
                    assert forall|id: u128| binds_id(macros@, n, id, only_safe) implies binds_id(macros@, k as int, id, only_safe) by {
                        let i = choose|i: int| 0 <= i < n && (#[trigger] macros@[i]).id == id
                            && is_bound(macros@[i], only_safe);
                        assert(i < k);
                    }
                    assert forall|id: u128| binds_id(macros@, k as int, id, only_safe) implies binds_id(macros@, n, id, only_safe) by {
                        let i = choose|i: int| 0 <= i < k && (#[trigger] macros@[i]).id == id
                            && is_bound(macros@[i], only_safe);
                        assert(macros@[i].id == id);
                    }
                    assert forall|i: int| #[trigger] last_binding(macros@, n, i, only_safe) implies last_binding(macros@, k as int, i, only_safe) by {
                    }
                }
            }
            k = k + 1;
        }
    }
}

} // verus!
