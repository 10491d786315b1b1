//! Generic tri-set tracker for stateful input symbols.
//!
//! `InputState<T>` records which symbols are currently held, which became
//! held during the current cycle, and which were released during the current
//! cycle. `InputModel<T>` is its mathematical model: three sets of symbols,
//! with the press/release/advance transitions defined on them.

use vstd::prelude::*;

verus! {

/// A symbol usable as a key in the tracker: a plain value type whose
/// executable equality test agrees with logical equality.
pub trait Symbol: Sized + Copy {
    /// Executable equality, agreeing with `==` of the specification.
    fn same(&self, other: &Self) -> (r: bool)
        ensures
            r == (*self == *other),
    ;
}

/// The set of symbols occurring in a sequence.
pub open spec fn symbol_set<T>(s: Seq<T>) -> Set<T> {
    Set::new(|x: T| s.contains(x))
}

/// Whether a sequence holds no symbol twice.
pub open spec fn distinct_seq<T>(s: Seq<T>) -> bool {
    forall|i: int, j: int| 0 <= i < j < s.len() ==> s[i] != s[j]
}

/// Mathematical model of the tracker: three sets of symbols.
#[verifier::ext_equal]
#[verifier::reject_recursive_types(T)]
pub struct InputModel<T> {
    /// Symbols currently held down; persists across cycles.
    pub pressed: Set<T>,
    /// Symbols that became held during the current cycle.
    pub just_pressed: Set<T>,
    /// Symbols released during the current cycle.
    pub just_released: Set<T>,
}

impl<T> InputModel<T> {
    /// The model of a freshly created tracker: all three sets empty.
    pub open spec fn empty() -> Self {
        InputModel { pressed: Set::empty(), just_pressed: Set::empty(), just_released: Set::empty() }
    }

    /// Effect of recording a press of `s`: a symbol not yet held enters both
    /// `pressed` and `just_pressed`; a press of a held symbol changes nothing.
    pub open spec fn press(self, s: T) -> Self {
        if self.pressed.contains(s) {
            self
        } else {
            InputModel {
                pressed: self.pressed.insert(s),
                just_pressed: self.just_pressed.insert(s),
                just_released: self.just_released,
            }
        }
    }

    /// Effect of recording a release of `s`: `s` leaves `pressed` and enters
    /// `just_released` unconditionally, whether or not it was held.
    pub open spec fn release(self, s: T) -> Self {
        InputModel {
            pressed: self.pressed.remove(s),
            just_pressed: self.just_pressed,
            just_released: self.just_released.insert(s),
        }
    }

    /// Effect of starting a new cycle: the per-cycle edge sets are cleared,
    /// the held set is kept.
    pub open spec fn advance(self) -> Self {
        InputModel { pressed: self.pressed, just_pressed: Set::empty(), just_released: Set::empty() }
    }

    /// The tri-set consistency condition: every just-pressed symbol is held,
    /// and no just-released symbol is held. It holds after a fresh start and
    /// after every `advance`, and is preserved by `press` and `release` as
    /// long as no symbol receives both a press and a release within one
    /// cycle; a release followed by a press of the same symbol in one cycle,
    /// or the reverse, is the one event order that breaks it.
    pub open spec fn consistent(self) -> bool {
        self.just_pressed.subset_of(self.pressed) && self.just_released.disjoint(self.pressed)
    }
}

/// Law: pressing a symbol is idempotent within a cycle. A second press of
/// `s`, with no `advance` in between, leaves the model exactly as one press
/// of `s` left it; in particular no second just-pressed edge arises.
pub proof fn lemma_press_idempotent<T>(m: InputModel<T>, s: T)
    ensures
        m.press(s).press(s) == m.press(s),
{
    assert(m.press(s).pressed.contains(s));
}

/// Law: a release always records the edge. Whatever the model held before,
/// after a release of `s` the just-released set contains `s` and the held
/// set does not.
pub proof fn lemma_release_edge<T>(m: InputModel<T>, s: T)
    ensures
        m.release(s).just_released.contains(s),
        !m.release(s).pressed.contains(s),
{
}

/// Law: advancing to a new cycle clears both transient edge sets and leaves
/// the held set untouched. The model `m` here is arbitrary, so this holds
/// after any sequence of presses and releases.
pub proof fn lemma_advance_clears_transients<T>(m: InputModel<T>)
    ensures
        m.advance().just_pressed == Set::<T>::empty(),
        m.advance().just_released == Set::<T>::empty(),
        m.advance().pressed == m.pressed,
{
}

/// Law: a fresh tracker is consistent.
pub proof fn lemma_empty_consistent<T>()
    ensures
        InputModel::<T>::empty().consistent(),
{
}

/// Law: advancing restores consistency, whatever state the previous cycle's
/// events left the model in.
pub proof fn lemma_advance_consistent<T>(m: InputModel<T>)
    ensures
        m.advance().consistent(),
{
}

/// Law: a press preserves consistency, provided the pressed symbol was not
/// already released this cycle. (Releasing `s` and then pressing it within
/// one cycle leaves `s` both held and just-released, which is the event
/// order excluded here.)
pub proof fn lemma_press_consistent<T>(m: InputModel<T>, s: T)
    requires
        m.consistent(),
        !m.just_released.contains(s),
    ensures
        m.press(s).consistent(),
{
}

/// Law: a release preserves consistency, provided the released symbol was
/// not just pressed this cycle. (Pressing `s` and then releasing it within
/// one cycle leaves `s` just-pressed but not held, which is the event order
/// excluded here.)
pub proof fn lemma_release_consistent<T>(m: InputModel<T>, s: T)
    requires
        m.consistent(),
        !m.just_pressed.contains(s),
    ensures
        m.release(s).consistent(),
{
}

/// Whether `v` holds `s`, by linear search with the symbol's own equality.
fn contains_symbol<T: Symbol>(v: &Vec<T>, s: &T) -> (r: bool)
    ensures
        r == v@.contains(*s),
{
    let mut i: usize = 0;
    while i < v.len()
        invariant
            0 <= i <= v.len(),
            forall|k: int| 0 <= k < i ==> v@[k] != *s,
        decreases v.len() - i,
    {
        if v[i].same(s) {
            return true;
        }
        i = i + 1;
    }
    false
}

/// Inserts `s` into the vector seen as a set: pushes it only when absent.
fn insert_symbol<T: Symbol>(v: &mut Vec<T>, s: T)
    ensures
        symbol_set(final(v)@) == symbol_set(old(v)@).insert(s),
        distinct_seq(old(v)@) ==> distinct_seq(final(v)@),
{
    if !contains_symbol(v, &s) {
        v.push(s);
        proof {
            let prior = old(v)@;
            assert forall|x: T| v@.contains(x) <==> (prior.contains(x) || x == s) by {
                if prior.contains(x) {
                    let k = choose|k: int| 0 <= k < prior.len() && prior[k] == x;
                    assert(v@[k] == x);
                }
                if x == s {
                    assert(v@[prior.len() as int] == x);
                }
                if v@.contains(x) {
                    let k = choose|k: int| 0 <= k < v@.len() && v@[k] == x;
                    if k < prior.len() {
                        assert(prior[k] == x);
                    }
                }
            };
            assert(symbol_set(v@) =~= symbol_set(old(v)@).insert(s));
        }
    } else {
        proof {
            assert(symbol_set(v@) =~= symbol_set(old(v)@).insert(s));
        }
    }
}

/// Removes every occurrence of `s` from the vector seen as a set.
fn remove_symbol<T: Symbol>(v: &mut Vec<T>, s: &T)
    ensures
        symbol_set(final(v)@) == symbol_set(old(v)@).remove(*s),
        distinct_seq(final(v)@),
{
    let mut kept: Vec<T> = Vec::new();
    let mut i: usize = 0;
    while i < v.len()
        invariant
            0 <= i <= v.len(),
            forall|x: T| kept@.contains(x) <==> (v@.take(i as int).contains(x) && x != *s),
            distinct_seq(kept@),
        decreases v.len() - i,
    {
        let candidate = v[i];
        let ghost kept_before: Seq<T> = kept@;
        if !candidate.same(s) {
            insert_symbol(&mut kept, candidate);
        }
        proof {
            let step = v@.take(i + 1);
            let here = v@[i as int];
            assert forall|x: T| step.contains(x) <==> (v@.take(i as int).contains(x) || x == here) by {
                if step.contains(x) {
                    let k = choose|k: int| 0 <= k < step.len() && step[k] == x;
                    if k < i {
                        assert(v@.take(i as int)[k] == x);
                    }
                }
                if v@.take(i as int).contains(x) {
                    let k = choose|k: int|
                        0 <= k < v@.take(i as int).len() && v@.take(i as int)[k] == x;
                    assert(step[k] == x);
                }
                if x == here {
                    assert(step[i as int] == x);
                }
            };
            assert forall|x: T| kept@.contains(x) <==> (step.contains(x) && x != *s) by {
                assert(kept@.contains(x) == symbol_set(kept@).contains(x));
                assert(kept_before.contains(x) == symbol_set(kept_before).contains(x));
                if candidate != *s {
                    assert(symbol_set(kept@) == symbol_set(kept_before).insert(candidate));
                }
            };
        }
        i = i + 1;
    }
    proof {
        assert(v@.take(v@.len() as int) =~= v@);
        assert(symbol_set(kept@) =~= symbol_set(v@).remove(*s));
    }
    *v = kept;
}

/// Tri-set tracker over a symbol type `T`.
///
/// Its view is an [`InputModel`]: the three sets of symbols that the
/// contracts speak of. The tracker is advanced exactly once per cycle with
/// [`InputState::advance`], then fed the cycle's events through
/// [`InputState::press`] and [`InputState::release`].
pub struct InputState<T: Symbol> {
    pressed: Vec<T>,
    just_pressed: Vec<T>,
    just_released: Vec<T>,
}

impl<T: Symbol> View for InputState<T> {
    type V = InputModel<T>;

    closed spec fn view(&self) -> InputModel<T> {
        InputModel {
            pressed: symbol_set(self.pressed@),
            just_pressed: symbol_set(self.just_pressed@),
            just_released: symbol_set(self.just_released@),
        }
    }
}

impl<T: Symbol> InputState<T> {
    /// Creates a tracker with nothing held and no edges recorded.
    pub fn new() -> (r: Self)
        ensures
            r@ == InputModel::<T>::empty(),
    {
        let r = InputState { pressed: Vec::new(), just_pressed: Vec::new(), just_released: Vec::new() };
        proof {
            assert(r@ =~~= InputModel::<T>::empty());
        }
        r
    }

    /// Starts a new cycle: clears both per-cycle edge sets and keeps the
    /// held set. Must be called exactly once at the start of each cycle,
    /// before that cycle's `press`/`release` calls.
    pub fn advance(&mut self)
        ensures
            final(self)@ == old(self)@.advance(),
    {
        self.just_pressed = Vec::new();
        self.just_released = Vec::new();
        proof {
            assert(self@ =~~= old(self)@.advance());
        }
    }

    /// Records a press of `s`: if `s` is not yet held it enters both the
    /// held set and the just-pressed set; a repeated press of a held symbol
    /// changes nothing, so no second edge is signalled.
    pub fn press(&mut self, s: T)
        ensures
            final(self)@ == old(self)@.press(s),
    {
        if !contains_symbol(&self.pressed, &s) {
            insert_symbol(&mut self.just_pressed, s);
            insert_symbol(&mut self.pressed, s);
            proof {
                assert(self@ =~~= old(self)@.press(s));
            }
        } else {
            proof {
                assert(self@ =~~= old(self)@.press(s));
            }
        }
    }

    /// Records a release of `s`: `s` leaves the held set, and enters the
    /// just-released set unconditionally, whether or not it was held.
    pub fn release(&mut self, s: T)
        ensures
            final(self)@ == old(self)@.release(s),
    {
        remove_symbol(&mut self.pressed, &s);
        insert_symbol(&mut self.just_released, s);
        proof {
            assert(self@ =~~= old(self)@.release(s));
        }
    }

    /// Whether `s` is currently held.
    pub fn is_pressed(&self, s: T) -> (r: bool)
        ensures
            r == self@.pressed.contains(s),
    {
        contains_symbol(&self.pressed, &s)
    }

    /// Whether `s` became held during the current cycle.
    pub fn just_pressed(&self, s: T) -> (r: bool)
        ensures
            r == self@.just_pressed.contains(s),
    {
        contains_symbol(&self.just_pressed, &s)
    }

    /// Whether a release of `s` was recorded during the current cycle.
    pub fn just_released(&self, s: T) -> (r: bool)
        ensures
            r == self@.just_released.contains(s),
    {
        contains_symbol(&self.just_released, &s)
    }

    /// The currently held symbols, each exactly once, in no promised order.
    pub fn iter_pressed(&self) -> (r: Vec<T>)
        ensures
            symbol_set(r@) == self@.pressed,
            distinct_seq(r@),
    {
        let mut out: Vec<T> = Vec::new();
        let mut i: usize = 0;
        while i < self.pressed.len()
            invariant
                0 <= i <= self.pressed.len(),
                forall|x: T| out@.contains(x) <==> self.pressed@.take(i as int).contains(x),
                distinct_seq(out@),
            decreases self.pressed.len() - i,
        {
            let candidate = self.pressed[i];
            let ghost out_before: Seq<T> = out@;
            insert_symbol(&mut out, candidate);
            proof {
                let step = self.pressed@.take(i + 1);
                let here = self.pressed@[i as int];
                assert forall|x: T| step.contains(x) <==> (self.pressed@.take(i as int).contains(x)
                    || x == here) by {
                    if step.contains(x) {
                        let k = choose|k: int| 0 <= k < step.len() && step[k] == x;
                        if k < i {
                            assert(self.pressed@.take(i as int)[k] == x);
                        }
                    }
                    if self.pressed@.take(i as int).contains(x) {
                        let k = choose|k: int|
                            0 <= k < self.pressed@.take(i as int).len() && self.pressed@.take(
                                i as int,
                            )[k] == x;
                        assert(step[k] == x);
                    }
                    if x == here {
                        assert(step[i as int] == x);
                    }
                };
                assert forall|x: T| out@.contains(x) <==> step.contains(x) by {
                    assert(out@.contains(x) == symbol_set(out@).contains(x));
                    assert(out_before.contains(x) == symbol_set(out_before).contains(x));
                    assert(symbol_set(out@) == symbol_set(out_before).insert(candidate));
                };
            }
            i = i + 1;
        }
        proof {
            assert(self.pressed@.take(self.pressed@.len() as int) =~= self.pressed@);
            assert(symbol_set(out@) =~= self@.pressed);
        }
        out
    }
}

} // verus!
