//! Derivation of the dense single-finger lookup table.
//!
//! Scanning the combos in order, every combo with exactly one finger
//! assigns that finger's slot in a 14-slot table.  A second assignment
//! to the same finger is an error, and so is any slot left empty after
//! the scan.

use vstd::prelude::*;
use vstd::pervasive::VecAdditionalExecFns;

use crate::finger::FINGER_COUNT;
use crate::finger::Finger;
use crate::model::ComboView;
use crate::model::Config;

verus! {

/// The partial table as a sequence of optional keys, one per finger
/// ordinal.
pub open spec fn table_view(tab: Seq<Option<String>>) -> Seq<Option<Seq<char>>> {
    tab.map_values(
        |o: Option<String>|
            match o {
                Option::Some(s) => Option::Some(s@),
                Option::None => Option::None,
            },
    )
}

/// The empty partial table: one unassigned slot per finger.
pub open spec fn spec_empty_table() -> Seq<Option<Seq<char>>> {
    Seq::new(FINGER_COUNT as nat, |i: int| Option::None)
}

/// The scan over the combos: each single-finger combo assigns its
/// finger's slot, a second assignment to a slot stops the scan with
/// the finger and the key already held.
pub open spec fn spec_fill(cs: Seq<ComboView>, tab: Seq<Option<Seq<char>>>) -> Result<
    Seq<Option<Seq<char>>>,
    (Finger, Seq<char>),
>
    decreases cs.len(),
{
    if cs.len() == 0 {
        Ok(tab)
    } else {
        let c = cs[0];
        if c.fingers.len() != 1 {
            spec_fill(cs.drop_first(), tab)
        } else {
            let f = c.fingers[0];
            match tab[f.spec_ordinal()] {
                Option::Some(k) => Err((f, k)),
                Option::None => spec_fill(
                    cs.drop_first(),
                    tab.update(f.spec_ordinal(), Option::Some(c.key)),
                ),
            }
        }
    }
}

/// The position of the first unassigned slot, or `-1` if none.
pub open spec fn spec_first_none(tab: Seq<Option<Seq<char>>>) -> int
    decreases tab.len(),
{
    if tab.len() == 0 {
        -1
    } else if tab[0] is None {
        0
    } else {
        let r = spec_first_none(tab.drop_first());
        if r < 0 {
            -1
        } else {
            1 + r
        }
    }
}

/// What deriving the single-finger table yields.
pub ghost enum TableOutcome {
    /// The complete table: the key of each finger, by ordinal.
    Table(Seq<Seq<char>>),
    /// Some finger has two single-finger combos; the finger and the
    /// key it was already mapped to.
    AlreadyMapped(Finger, Seq<char>),
    /// Some finger has no single-finger combo.
    Unmapped(Finger),
}

/// The meaning of the single-finger-table derivation.
pub open spec fn spec_table_outcome(cs: Seq<ComboView>) -> TableOutcome {
    match spec_fill(cs, spec_empty_table()) {
        Err((f, k)) => TableOutcome::AlreadyMapped(f, k),
        Ok(tab) => {
            let i = spec_first_none(tab);
            if i >= 0 {
                TableOutcome::Unmapped(Finger::spec_of_ordinal(i))
            } else {
                TableOutcome::Table(Seq::new(tab.len(), |j: int| tab[j].unwrap()))
            }
        },
    }
}

/// Why no single-finger table could be derived.
#[derive(Debug)]
pub enum LookupError {
    /// The finger already had a key; carries that key.
    AlreadyMapped(Finger, String),
    /// The finger has no single-finger combo.
    Unmapped(Finger),
}

/// The mathematical value of a [`LookupError`].
pub ghost enum LookupErrorView {
    AlreadyMapped(Finger, Seq<char>),
    Unmapped(Finger),
}

impl View for LookupError {
    type V = LookupErrorView;

    open spec fn view(&self) -> LookupErrorView {
        match self {
            LookupError::AlreadyMapped(f, k) => LookupErrorView::AlreadyMapped(*f, k@),
            LookupError::Unmapped(f) => LookupErrorView::Unmapped(*f),
        }
    }
}

impl LookupError {
    /// The report text of this error.
    pub open spec fn spec_message(self) -> Seq<char> {
        match self@ {
            LookupErrorView::AlreadyMapped(f, k) => "Finger "@ + f.spec_name()
                + " is already mapped to "@ + k,
            LookupErrorView::Unmapped(f) => "Finger "@ + f.spec_name() + " is not mapped"@,
        }
    }

    /// The report text of this error.
    pub fn message(&self) -> (r: String)
        ensures
            r@ == self.spec_message(),
    {
        let mut out = String::new();
        out.append("Finger ");
        match self {
            LookupError::AlreadyMapped(f, k) => {
                out.append(f.name());
                out.append(" is already mapped to ");
                out.append(k.as_str());
            },
            LookupError::Unmapped(f) => {
                out.append(f.name());
                out.append(" is not mapped");
            },
        }
        out
    }
}

/// Exactly when a lookup result is the outcome of the derivation.
pub open spec fn table_post(cs: Seq<ComboView>, r: Result<Seq<Seq<char>>, LookupErrorView>) -> bool {
    match r {
        Ok(t) => spec_table_outcome(cs) == TableOutcome::Table(t),
        Err(LookupErrorView::AlreadyMapped(f, k)) => spec_table_outcome(cs)
            == TableOutcome::AlreadyMapped(f, k),
        Err(LookupErrorView::Unmapped(f)) => spec_table_outcome(cs) == TableOutcome::Unmapped(f),
    }
}

/// How many slots of the partial table are assigned.
pub open spec fn num_assigned(tab: Seq<Option<Seq<char>>>) -> nat
    decreases tab.len(),
{
    if tab.len() == 0 {
        0
    } else {
        num_assigned(tab.drop_last()) + (if tab.last() is Some {
            1nat
        } else {
            0nat
        })
    }
}

proof fn lemma_num_assigned_empty()
    ensures
        num_assigned(spec_empty_table()) == 0,
{
    assert forall|n: nat| n <= FINGER_COUNT implies num_assigned(
        spec_empty_table().subrange(0, n as int),
    ) == 0 by {
        lemma_num_assigned_none_prefix(n);
    }
    assert(spec_empty_table().subrange(0, FINGER_COUNT as int) =~= spec_empty_table());
}

proof fn lemma_num_assigned_none_prefix(n: nat)
    requires
        n <= FINGER_COUNT,
    ensures
        num_assigned(spec_empty_table().subrange(0, n as int)) == 0,
    decreases n,
{
    let tab = spec_empty_table().subrange(0, n as int);
    if n == 0 {
        assert(tab.len() == 0);
    } else {
        lemma_num_assigned_none_prefix((n - 1) as nat);
        assert(tab.drop_last() =~= spec_empty_table().subrange(0, n as int - 1));
        assert(tab.last() is None);
    }
}

/// Assigning an unassigned slot raises the count by one.
proof fn lemma_num_assigned_update(tab: Seq<Option<Seq<char>>>, i: int, k: Seq<char>)
    requires
        0 <= i < tab.len(),
        tab[i] is None,
    ensures
        num_assigned(tab.update(i, Option::Some(k))) == num_assigned(tab) + 1,
    decreases tab.len(),
{
    let up = tab.update(i, Option::Some(k));
    if i == tab.len() - 1 {
        assert(up.drop_last() =~= tab.drop_last());
        assert(up.last() is Some);
        assert(tab.last() is None);
    } else {
        assert(up.drop_last() =~= tab.drop_last().update(i, Option::Some(k)));
        assert(up.last() == tab.last());
        lemma_num_assigned_update(tab.drop_last(), i, k);
    }
}

/// A fully assigned table has as many assignments as slots.
proof fn lemma_num_assigned_full(tab: Seq<Option<Seq<char>>>)
    requires
        forall|j: int| 0 <= j < tab.len() ==> (#[trigger] tab[j]) is Some,
    ensures
        num_assigned(tab) == tab.len(),
    decreases tab.len(),
{
    if tab.len() > 0 {
        assert forall|j: int| 0 <= j < tab.drop_last().len() implies (#[trigger] tab.drop_last()[j])
            is Some by {
            assert(tab.drop_last()[j] == tab[j]);
        }
        lemma_num_assigned_full(tab.drop_last());
    }
}

/// `spec_first_none` is exactly the position of the first unassigned
/// slot, and `-1` when every slot is assigned.
proof fn lemma_first_none_at(tab: Seq<Option<Seq<char>>>, i: int)
    requires
        0 <= i <= tab.len(),
        forall|j: int| 0 <= j < i ==> (#[trigger] tab[j]) is Some,
        i < tab.len() ==> tab[i] is None,
    ensures
        spec_first_none(tab) == if i == tab.len() {
            -1int
        } else {
            i
        },
    decreases i,
{
    if tab.len() == 0 {
    } else if i == 0 {
    } else {
        assert(tab[0] is Some);
        lemma_first_none_at(tab.drop_first(), i - 1);
    }
}

impl Config {
    /// Derives the dense single-finger lookup table: the output key of
    /// each of the 14 fingers, indexed by finger ordinal.
    ///
    /// Succeeds exactly when every finger is assigned by exactly one
    /// single-finger combo; a successful table also witnesses that the
    /// config holds at least 14 combos.
    pub fn single_finger_table(&self) -> (r: Result<Vec<String>, LookupError>)
        ensures
            match r {
                Ok(t) => table_post(
                    self@,
                    Ok(t@.map_values(|s: String| s@)),
                ) && t@.len() == FINGER_COUNT && self@.len() >= FINGER_COUNT,
                Err(e) => table_post(self@, Err(e@)),
            },
    {
        let ghost cs = self@;
        let mut tab: Vec<Option<String>> = Vec::new();
        let mut s: usize = 0;
        while s < FINGER_COUNT
            invariant
                s <= FINGER_COUNT,
                tab@.len() == s,
                forall|j: int| 0 <= j < s ==> (#[trigger] tab@[j]) is None,
            decreases FINGER_COUNT - s,
        {
            tab.push(None);
            s = s + 1;
        }
        proof {
            assert(table_view(tab@) =~= spec_empty_table());
            lemma_num_assigned_empty();
        }

        let n = self.combos.len();
        proof {
            assert(cs.subrange(0, n as int) =~= cs);
        }
        let mut ci: usize = 0;
        while ci < n
            invariant
                ci <= n,
                n == self.combos@.len(),
                cs == self@,
                cs.len() == n,
                tab@.len() == FINGER_COUNT,
                spec_fill(cs, spec_empty_table()) == spec_fill(
                    cs.subrange(ci as int, n as int),
                    table_view(tab@),
                ),
                num_assigned(table_view(tab@)) <= ci,
            decreases n - ci,
        {
            let ghost rem = cs.subrange(ci as int, n as int);
            let ghost rem2 = cs.subrange(ci as int + 1, n as int);
            let ghost tv = table_view(tab@);
            proof {
                assert(rem.drop_first() =~= rem2);
                assert(rem[0] == cs[ci as int]);
            }
            let combo = &self.combos[ci];
            proof {
                assert(combo@ == cs[ci as int]);
            }
            if combo.fingers.len() == 1 {
                let f = combo.fingers[0];
                let idx = f.ordinal();
                proof {
                    assert(tv[idx as int] == (match tab@[idx as int] {
                        Option::Some(s2) => Option::Some(s2@),
                        Option::None => Option::None,
                    }));
                }
                let slot_taken = match &tab[idx] {
                    Some(_) => true,
                    None => false,
                };
                if slot_taken {
                    let existing = match &tab[idx] {
                        Some(k) => k.clone(),
                        None => String::new(),
                    };
                    proof {
                        assert(spec_fill(rem, tv) == Err::<
                            Seq<Option<Seq<char>>>,
                            (Finger, Seq<char>),
                        >((f, existing@)));
                    }
                    return Err(LookupError::AlreadyMapped(f, existing));
                }
                let key = combo.key.clone();
                tab.set(idx, Some(key));
                proof {
                    assert(table_view(tab@) =~= tv.update(idx as int, Option::Some(
                        cs[ci as int].key,
                    )));
                    lemma_num_assigned_update(tv, idx as int, cs[ci as int].key);
                }
            }
            ci = ci + 1;
        }
        proof {
            assert(cs.subrange(n as int, n as int) =~= Seq::<ComboView>::empty());
        }

        // every slot must now be assigned
        let ghost tv = table_view(tab@);
        let mut out: Vec<String> = Vec::new();
        let mut i: usize = 0;
        while i < FINGER_COUNT
            invariant
                i <= FINGER_COUNT,
                tab@.len() == FINGER_COUNT,
                cs == self@,
                tv == table_view(tab@),
                spec_fill(cs, spec_empty_table()) == Ok::<
                    Seq<Option<Seq<char>>>,
                    (Finger, Seq<char>),
                >(tv),
                num_assigned(tv) <= cs.len(),
                out@.len() == i,
                forall|j: int| 0 <= j < i ==> (#[trigger] tv[j]) is Some,
                forall|j: int| 0 <= j < i ==> (#[trigger] out@[j])@ == tv[j].unwrap(),
            decreases FINGER_COUNT - i,
        {
            proof {
                assert(tv[i as int] == (match tab@[i as int] {
                    Option::Some(s2) => Option::Some(s2@),
                    Option::None => Option::None,
                }));
            }
            let entry = &tab[i];
            match entry {
                None => {
                    let f = Finger::of_ordinal(i);
                    proof {
                        lemma_first_none_at(tv, i as int);
                    }
                    return Err(LookupError::Unmapped(f));
                },
                Some(k) => {
                    out.push(k.clone());
                },
            }
            i = i + 1;
        }
        proof {
            lemma_first_none_at(tv, FINGER_COUNT as int);
            lemma_num_assigned_full(tv);
            assert(out@.map_values(|s2: String| s2@) =~= Seq::new(
                tv.len(),
                |j: int| tv[j].unwrap(),
            ));
        }
        Ok(out)
    }

    /// Checks that every finger has exactly one single-finger combo.
    pub fn check_all_single(&self) -> (r: Result<(), LookupError>)
        ensures
            match r {
                Ok(()) => spec_table_outcome(self@) is Table,
                Err(e) => table_post(self@, Err(e@)),
            },
    {
        match self.single_finger_table() {
            Ok(_) => Ok(()),
            Err(e) => Err(e),
        }
    }
}

/// Filling never assigns a slot whose finger no combo maps: if the
/// slot starts unassigned and no combo in `cs` is a single-finger
/// combo for the finger with ordinal `i`, the slot stays unassigned.
proof fn lemma_fill_keeps_none(cs: Seq<ComboView>, tab: Seq<Option<Seq<char>>>, i: int)
    requires
        tab.len() == FINGER_COUNT,
        0 <= i < tab.len(),
        tab[i] is None,
        forall|j: int|
            0 <= j < cs.len() ==> !((#[trigger] cs[j]).fingers.len() == 1
                && cs[j].fingers[0].spec_ordinal() == i),
    ensures
        match spec_fill(cs, tab) {
            Ok(t) => t.len() == tab.len() && t[i] is None,
            Err(_) => true,
        },
    decreases cs.len(),
{
    if cs.len() == 0 {
    } else {
        let c = cs[0];
        assert(forall|j: int|
            0 <= j < cs.drop_first().len() ==> (#[trigger] cs.drop_first()[j]) == cs[j + 1]);
        if c.fingers.len() != 1 {
            lemma_fill_keeps_none(cs.drop_first(), tab, i);
        } else {
            let f = c.fingers[0];
            assert(f.spec_ordinal() != i);
            assert(0 <= f.spec_ordinal() < FINGER_COUNT);
            match tab[f.spec_ordinal()] {
                Option::Some(_) => {
                },
                Option::None => {
                    let up = tab.update(f.spec_ordinal(), Option::Some(c.key));
                    assert(up[i] is None);
                    lemma_fill_keeps_none(cs.drop_first(), up, i);
                },
            }
        }
    }
}

/// A combo table that defines no single-finger combo for some finger
/// cannot yield a complete table: the derivation fails, and if no
/// finger is doubly assigned it fails with that slot reported as
/// unmapped.
pub proof fn lemma_missing_single_fails(cs: Seq<ComboView>, f: Finger)
    requires
        forall|j: int|
            0 <= j < cs.len() ==> !((#[trigger] cs[j]).fingers.len() == 1 && cs[j].fingers[0] == f),
    ensures
        !(spec_table_outcome(cs) is Table),
        spec_fill(cs, spec_empty_table()) is Ok ==> spec_table_outcome(cs) matches TableOutcome::Unmapped(
            _,
        ),
{
    let i = f.spec_ordinal();
    assert forall|j: int|
        0 <= j < cs.len() implies !((#[trigger] cs[j]).fingers.len() == 1
        && cs[j].fingers[0].spec_ordinal() == i) by {
        if cs[j].fingers.len() == 1 && cs[j].fingers[0].spec_ordinal() == i {
            crate::finger::lemma_ordinal_injective(cs[j].fingers[0], f);
        }
    }
    assert(spec_empty_table()[i] is None);
    lemma_fill_keeps_none(cs, spec_empty_table(), i);
    match spec_fill(cs, spec_empty_table()) {
        Ok(t) => {
            assert(t[i] is None);
            if spec_first_none(t) < 0 {
                lemma_first_none_has_none(t);
            }
        },
        Err(_) => {
        },
    }
}

/// If `spec_first_none` reports no unassigned slot, there is none.
proof fn lemma_first_none_has_none(tab: Seq<Option<Seq<char>>>)
    requires
        spec_first_none(tab) < 0,
    ensures
        forall|j: int| 0 <= j < tab.len() ==> (#[trigger] tab[j]) is Some,
    decreases tab.len(),
{
    if tab.len() > 0 {
        assert(tab[0] is Some);
        lemma_first_none_has_none(tab.drop_first());
        assert forall|j: int| 0 <= j < tab.len() implies (#[trigger] tab[j]) is Some by {
            if j > 0 {
                assert(tab.drop_first()[j - 1] == tab[j]);
            }
        }
    }
}

} // verus!
