//! The resolver: incremental chord lookup.
//!
//! Given the fingers currently held down, it reports, for each finger
//! not yet pressed, the output that pressing it next would produce,
//! and separately the output of the already-completed chord, if any.
//! Later combos overwrite earlier slot assignments; that order
//! dependence is deliberate.

use vstd::prelude::*;
use vstd::pervasive::VecAdditionalExecFns;

use crate::check::contains_finger;
use crate::check::fingers_subset;
use crate::finger::FINGER_COUNT;
use crate::finger::Finger;
use crate::finger::finger_of_word;
use crate::finger::spec_finger_of_word;
use crate::model::ComboView;
use crate::model::Config;
use crate::text::str_to_chars;

verus! {

/// Whether every finger of `a` also occurs in `b`.
pub open spec fn seq_subset(a: Seq<Finger>, b: Seq<Finger>) -> bool {
    forall|k: int| 0 <= k < a.len() ==> b.contains(#[trigger] a[k])
}

/// The fingers of `fs` not yet pressed, in the order they stand in
/// `fs`.
pub open spec fn spec_leftover(fs: Seq<Finger>, pressed: Seq<Finger>) -> Seq<Finger>
    decreases fs.len(),
{
    if fs.len() == 0 {
        Seq::empty()
    } else if pressed.contains(fs.last()) {
        spec_leftover(fs.drop_last(), pressed)
    } else {
        spec_leftover(fs.drop_last(), pressed).push(fs.last())
    }
}

/// What one combo contributes to the 15 lookup slots: nothing unless
/// the pressed set lies within the combo; its key into the
/// chord-complete slot (position 14) when nothing is left over; its
/// key into the slot of the one leftover finger when exactly one is.
pub open spec fn spec_resolve_step(
    slots: Seq<Seq<char>>,
    c: ComboView,
    pressed: Seq<Finger>,
) -> Seq<Seq<char>> {
    if !seq_subset(pressed, c.fingers) {
        slots
    } else {
        let lo = spec_leftover(c.fingers, pressed);
        if lo.len() == 0 {
            slots.update(FINGER_COUNT as int, c.key)
        } else if lo.len() == 1 {
            slots.update(lo[0].spec_ordinal(), c.key)
        } else {
            slots
        }
    }
}

/// The slots after walking the combos in order.
pub open spec fn spec_resolve_combos(
    cs: Seq<ComboView>,
    pressed: Seq<Finger>,
    slots: Seq<Seq<char>>,
) -> Seq<Seq<char>>
    decreases cs.len(),
{
    if cs.len() == 0 {
        slots
    } else {
        spec_resolve_combos(cs.drop_first(), pressed, spec_resolve_step(slots, cs[0], pressed))
    }
}

/// The 15 slots before any combo is considered: all empty.
pub open spec fn spec_empty_slots() -> Seq<Seq<char>> {
    Seq::new((FINGER_COUNT + 1) as nat, |i: int| Seq::<char>::empty())
}

/// The meaning of resolving a pressed set against a combo table.
pub open spec fn spec_resolve(cs: Seq<ComboView>, pressed: Seq<Finger>) -> Seq<Seq<char>> {
    spec_resolve_combos(cs, pressed, spec_empty_slots())
}

/// The finger a caller-supplied word stands for: an unknown name is
/// coerced to a fixed default identity rather than rejected.
pub open spec fn spec_coerce_finger(w: Seq<char>) -> Finger {
    match spec_finger_of_word(w) {
        Some(f) => f,
        None => Finger::LP,
    }
}

/// The fingers of `fs` not yet pressed.
fn leftover_fingers(fs: &Vec<Finger>, pressed: &Vec<Finger>) -> (r: Vec<Finger>)
    ensures
        r@ == spec_leftover(fs@, pressed@),
{
    let n = fs.len();
    let mut r: Vec<Finger> = Vec::new();
    let mut i: usize = 0;
    proof {
        assert(fs@.subrange(0, 0) =~= Seq::<Finger>::empty());
    }
    while i < n
        invariant
            i <= n,
            n == fs@.len(),
            r@ == spec_leftover(fs@.subrange(0, i as int), pressed@),
        decreases n - i,
    {
        let ghost pre = fs@.subrange(0, i as int);
        let ghost cur = fs@.subrange(0, i as int + 1);
        proof {
            assert(cur.drop_last() =~= pre);
            assert(cur.last() == fs@[i as int]);
        }
        let f = fs[i];
        if !contains_finger(pressed, f) {
            r.push(f);
        }
        i = i + 1;
    }
    proof {
        assert(fs@.subrange(0, n as int) =~= fs@);
    }
    r
}

impl Config {
    /// Resolves a pressed finger set against the combo table.
    ///
    /// The result has 15 slots: one per finger ordinal holding the
    /// output that pressing that finger next would produce, and a
    /// final chord-complete slot; unassigned slots hold the empty
    /// string.  Walking the combos in order, later matches overwrite
    /// earlier ones.
    pub fn resolve(&self, pressed: &Vec<Finger>) -> (r: Vec<String>)
        ensures
            r@.len() == FINGER_COUNT + 1,
            r@.map_values(|s: String| s@) == spec_resolve(self@, pressed@),
    {
        let ghost cs = self@;
        let mut slots: Vec<String> = Vec::new();
        let mut s: usize = 0;
        while s < FINGER_COUNT + 1
            invariant
                s <= FINGER_COUNT + 1,
                slots@.len() == s,
                forall|j: int| 0 <= j < s ==> (#[trigger] slots@[j])@.len() == 0,
            decreases FINGER_COUNT + 1 - s,
        {
            slots.push(String::new());
            s = s + 1;
        }
        proof {
            assert(slots@.map_values(|s2: String| s2@) =~~= spec_empty_slots());
            assert(cs.subrange(0, cs.len() as int) =~= cs);
        }

        let n = self.combos.len();
        let mut ci: usize = 0;
        while ci < n
            invariant
                ci <= n,
                n == self.combos@.len(),
                cs == self@,
                cs.len() == n,
                slots@.len() == FINGER_COUNT + 1,
                spec_resolve(cs, pressed@) == spec_resolve_combos(
                    cs.subrange(ci as int, n as int),
                    pressed@,
                    slots@.map_values(|s2: String| s2@),
                ),
            decreases n - ci,
        {
            let ghost rem = cs.subrange(ci as int, n as int);
            let ghost rem2 = cs.subrange(ci as int + 1, n as int);
            let ghost sv = slots@.map_values(|s2: String| s2@);
            proof {
                assert(rem.drop_first() =~= rem2);
                assert(rem[0] == cs[ci as int]);
            }
            let combo = &self.combos[ci];
            proof {
                assert(combo@ == cs[ci as int]);
            }
            if fingers_subset(pressed, &combo.fingers) {
                proof {
                    assert(seq_subset(pressed@, cs[ci as int].fingers));
                }
                let lo = leftover_fingers(&combo.fingers, pressed);
                if lo.len() == 0 {
                    slots.set(FINGER_COUNT, combo.key.clone());
                    proof {
                        assert(slots@.map_values(|s2: String| s2@) =~= sv.update(
                            FINGER_COUNT as int,
                            cs[ci as int].key,
                        ));
                    }
                } else if lo.len() == 1 {
                    let idx = lo[0].ordinal();
                    slots.set(idx, combo.key.clone());
                    proof {
                        assert(lo@[0] == spec_leftover(cs[ci as int].fingers, pressed@)[0]);
                        assert(slots@.map_values(|s2: String| s2@) =~= sv.update(
                            idx as int,
                            cs[ci as int].key,
                        ));
                    }
                }
            } else {
                proof {
                    assert(!seq_subset(pressed@, cs[ci as int].fingers));
                }
            }
            ci = ci + 1;
        }
        proof {
            assert(cs.subrange(n as int, n as int) =~= Seq::<ComboView>::empty());
        }
        slots
    }

    /// Resolves a pressed set given as finger names; a word that is
    /// not a finger name is coerced to the default finger rather than
    /// rejected.
    pub fn get_key_with_fingers(&self, fingers: &Vec<String>) -> (r: Vec<String>)
        ensures
            r@.len() == FINGER_COUNT + 1,
            r@.map_values(|s: String| s@) == spec_resolve(
                self@,
                fingers@.map_values(|w: String| spec_coerce_finger(w@)),
            ),
    {
        let n = fingers.len();
        let mut pressed: Vec<Finger> = Vec::new();
        let mut i: usize = 0;
        while i < n
            invariant
                i <= n,
                n == fingers@.len(),
                pressed@.len() == i,
                forall|j: int| 0 <= j < i ==> pressed@[j] == spec_coerce_finger(fingers@[j]@),
            decreases n - i,
        {
            let w = str_to_chars(fingers[i].as_str());
            let f = match finger_of_word(&w) {
                Some(f) => f,
                None => Finger::LP,
            };
            pressed.push(f);
            i = i + 1;
        }
        proof {
            assert(pressed@ =~= fingers@.map_values(|w: String| spec_coerce_finger(w@)));
        }
        self.resolve(&pressed)
    }
}

} // verus!
