//! The validator: structural checks over a parsed combo table.
//!
//! Two invariants are checked, in order, first failure wins: no two
//! combos may carry the same finger set (compared as sets, so finger
//! order within a line is irrelevant), and no combo may name the same
//! finger twice.

use vstd::prelude::*;

use crate::finger::Finger;
use crate::model::Combo;
use crate::model::ComboView;
use crate::model::Config;

verus! {

/// Whether the finger list names some finger twice.
pub open spec fn has_dup_finger(fs: Seq<Finger>) -> bool {
    exists|i: int, k: int| 0 <= i < k < fs.len() && fs[i] == fs[k]
}

/// Whether some combo before position `j` carries the same finger set
/// as the combo at `j`.
pub open spec fn dup_before(cs: Seq<ComboView>, j: int) -> bool {
    exists|i: int| 0 <= i < j && (#[trigger] cs[i]).finger_set() == cs[j].finger_set()
}

/// Whether `j` is the first position whose finger set repeats an
/// earlier one.
pub open spec fn is_first_dup(cs: Seq<ComboView>, j: int) -> bool {
    &&& 0 <= j < cs.len()
    &&& dup_before(cs, j)
    &&& forall|j2: int| 0 <= j2 < j ==> !dup_before(cs, j2)
}

/// Whether `j` is the first position whose combo names a finger twice.
pub open spec fn is_first_dup_finger(cs: Seq<ComboView>, j: int) -> bool {
    &&& 0 <= j < cs.len()
    &&& has_dup_finger(cs[j].fingers)
    &&& forall|j2: int| 0 <= j2 < j ==> !has_dup_finger((#[trigger] cs[j2]).fingers)
}

/// Why a combo table was rejected, carrying the offending combo.
#[derive(Debug)]
pub enum ValidationError {
    /// Two combos carry the same finger set.
    DuplicateCombo(Combo),
    /// One combo names the same finger twice.
    DuplicateFingerInCombo(Combo),
}

/// The mathematical value of a [`ValidationError`].
pub ghost enum ValidationErrorView {
    DuplicateCombo(ComboView),
    DuplicateFingerInCombo(ComboView),
}

impl View for ValidationError {
    type V = ValidationErrorView;

    open spec fn view(&self) -> ValidationErrorView {
        match self {
            ValidationError::DuplicateCombo(c) => ValidationErrorView::DuplicateCombo(c@),
            ValidationError::DuplicateFingerInCombo(c) => ValidationErrorView::DuplicateFingerInCombo(
                c@,
            ),
        }
    }
}

impl ValidationError {
    /// The combo this error reports.
    pub fn combo(&self) -> (r: &Combo)
        ensures
            match self@ {
                ValidationErrorView::DuplicateCombo(c) => r@ == c,
                ValidationErrorView::DuplicateFingerInCombo(c) => r@ == c,
            },
    {
        match self {
            ValidationError::DuplicateCombo(c) => c,
            ValidationError::DuplicateFingerInCombo(c) => c,
        }
    }
}

impl ValidationError {
    /// The report text of this error.
    pub open spec fn spec_message(self) -> Seq<char> {
        match self@ {
            ValidationErrorView::DuplicateCombo(c) => "Duplicate combo: "@
                + crate::model::spec_render_combo(c),
            ValidationErrorView::DuplicateFingerInCombo(c) => "Duplicate finger in combo: "@
                + crate::model::spec_render_combo(c),
        }
    }

    /// The report text of this error.
    pub fn message(&self) -> (r: String)
        ensures
            r@ == self.spec_message(),
    {
        let mut out = String::new();
        match self {
            ValidationError::DuplicateCombo(c) => {
                out.append("Duplicate combo: ");
                let line = c.render();
                out.append(line.as_str());
            },
            ValidationError::DuplicateFingerInCombo(c) => {
                out.append("Duplicate finger in combo: ");
                let line = c.render();
                out.append(line.as_str());
            },
        }
        out
    }
}

/// The view of a validation result.
pub open spec fn validation_view(r: Result<(), ValidationError>) -> Result<
    (),
    ValidationErrorView,
> {
    match r {
        Ok(()) => Ok(()),
        Err(e) => Err(e@),
    }
}

/// Exactly when a result is a correct outcome of the duplicate-combo
/// check: `Ok` when no finger set repeats, otherwise the combo at the
/// first repeating position.
pub open spec fn check_dup_post(cs: Seq<ComboView>, rv: Result<(), ValidationErrorView>) -> bool {
    match rv {
        Ok(()) => forall|j: int| 0 <= j < cs.len() ==> !dup_before(cs, j),
        Err(ValidationErrorView::DuplicateCombo(c)) => exists|j: int|
            #[trigger] is_first_dup(cs, j) && c == cs[j],
        Err(ValidationErrorView::DuplicateFingerInCombo(_)) => false,
    }
}

/// Exactly when a result is a correct outcome of the
/// duplicate-finger-in-combo check.
pub open spec fn check_dup_finger_post(
    cs: Seq<ComboView>,
    rv: Result<(), ValidationErrorView>,
) -> bool {
    match rv {
        Ok(()) => forall|j: int| 0 <= j < cs.len() ==> !has_dup_finger((#[trigger] cs[j]).fingers),
        Err(ValidationErrorView::DuplicateFingerInCombo(c)) => exists|j: int|
            #[trigger] is_first_dup_finger(cs, j) && c == cs[j],
        Err(ValidationErrorView::DuplicateCombo(_)) => false,
    }
}

/// Exactly when a result is a correct outcome of `check`: the
/// duplicate-combo check runs first, the duplicate-finger check only
/// if the first passed.
pub open spec fn check_post(cs: Seq<ComboView>, rv: Result<(), ValidationErrorView>) -> bool {
    match rv {
        Ok(()) => (forall|j: int| 0 <= j < cs.len() ==> !dup_before(cs, j)) && (forall|j: int|
            0 <= j < cs.len() ==> !has_dup_finger((#[trigger] cs[j]).fingers)),
        Err(ValidationErrorView::DuplicateCombo(c)) => exists|j: int|
            #[trigger] is_first_dup(cs, j) && c == cs[j],
        Err(ValidationErrorView::DuplicateFingerInCombo(c)) => (forall|j: int|
            0 <= j < cs.len() ==> !dup_before(cs, j)) && exists|j: int|
            #[trigger] is_first_dup_finger(cs, j) && c == cs[j],
    }
}

/// Whether the finger list contains the given finger.
pub(crate) fn contains_finger(fs: &Vec<Finger>, f: Finger) -> (r: bool)
    ensures
        r == fs@.contains(f),
{
    let n = fs.len();
    let mut i: usize = 0;
    while i < n
        invariant
            i <= n,
            n == fs@.len(),
            forall|k: int| 0 <= k < i ==> fs@[k] != f,
        decreases n - i,
    {
        if fs[i] == f {
            return true;
        }
        i = i + 1;
    }
    false
}

/// Whether every finger of `a` also occurs in `b`.
pub(crate) fn fingers_subset(a: &Vec<Finger>, b: &Vec<Finger>) -> (r: bool)
    ensures
        r == (forall|k: int| 0 <= k < a@.len() ==> b@.contains(#[trigger] a@[k])),
{
    let n = a.len();
    let mut i: usize = 0;
    while i < n
        invariant
            i <= n,
            n == a@.len(),
            forall|k: int| 0 <= k < i ==> b@.contains(#[trigger] a@[k]),
        decreases n - i,
    {
        if !contains_finger(b, a[i]) {
            return false;
        }
        i = i + 1;
    }
    true
}

/// Whether two finger lists carry the same finger set.
fn same_finger_set(a: &Vec<Finger>, b: &Vec<Finger>) -> (r: bool)
    ensures
        r == (a@.to_set() == b@.to_set()),
{
    let fwd = fingers_subset(a, b);
    let bwd = fingers_subset(b, a);
    proof {
        if fwd && bwd {
            assert(a@.to_set() =~= b@.to_set());
        } else if a@.to_set() == b@.to_set() {
            assert forall|k: int| 0 <= k < a@.len() implies b@.contains(#[trigger] a@[k]) by {
                assert(a@.to_set().contains(a@[k]));
            }
            assert forall|k: int| 0 <= k < b@.len() implies a@.contains(#[trigger] b@[k]) by {
                assert(b@.to_set().contains(b@[k]));
            }
        }
    }
    fwd && bwd
}

/// Whether the finger list names some finger twice.
fn fingers_have_dup(fs: &Vec<Finger>) -> (r: bool)
    ensures
        r == has_dup_finger(fs@),
{
    let n = fs.len();
    let mut k: usize = 1;
    while k < n
        invariant
            1 <= k || n == 0,
            k <= n || (n == 0 && k == 1),
            n == fs@.len(),
            forall|i2: int, k2: int| 0 <= i2 < k2 < k && k2 < n ==> fs@[i2] != fs@[k2],
        decreases n - k,
    {
        let mut i: usize = 0;
        while i < k
            invariant
                i <= k < n,
                n == fs@.len(),
                forall|i2: int| 0 <= i2 < i ==> fs@[i2] != fs@[k as int],
            decreases k - i,
        {
            if fs[i] == fs[k] {
                return true;
            }
            i = i + 1;
        }
        k = k + 1;
    }
    false
}

impl Config {
    /// Rejects a combo table in which two combos carry the same finger
    /// set, reporting the first such combo.
    pub fn check_dup(&self) -> (r: Result<(), ValidationError>)
        ensures
            check_dup_post(self@, validation_view(r)),
    {
        let n = self.combos.len();
        let mut j: usize = 0;
        while j < n
            invariant
                j <= n,
                n == self.combos@.len(),
                self@.len() == n,
                forall|j2: int| 0 <= j2 < j ==> !dup_before(self@, j2),
            decreases n - j,
        {
            let mut i: usize = 0;
            while i < j
                invariant
                    i <= j < n,
                    n == self.combos@.len(),
                    self@.len() == n,
                    forall|j2: int| 0 <= j2 < j ==> !dup_before(self@, j2),
                    forall|i2: int|
                        0 <= i2 < i ==> (#[trigger] self@[i2]).finger_set()
                            != self@[j as int].finger_set(),
                decreases j - i,
            {
                if same_finger_set(&self.combos[i].fingers, &self.combos[j].fingers) {
                    proof {
                        assert(self@[i as int].finger_set() == self@[j as int].finger_set());
                        assert(dup_before(self@, j as int));
                        assert(is_first_dup(self@, j as int));
                    }
                    return Err(ValidationError::DuplicateCombo(self.combos[j].clone()));
                }
                i = i + 1;
            }
            proof {
                assert(!dup_before(self@, j as int));
            }
            j = j + 1;
        }
        Ok(())
    }

    /// Rejects a combo table in which some combo names the same finger
    /// twice, reporting the first such combo.
    pub fn check_dup_in_combo(&self) -> (r: Result<(), ValidationError>)
        ensures
            check_dup_finger_post(self@, validation_view(r)),
    {
        let n = self.combos.len();
        let mut j: usize = 0;
        while j < n
            invariant
                j <= n,
                n == self.combos@.len(),
                self@.len() == n,
                forall|j2: int| 0 <= j2 < j ==> !has_dup_finger((#[trigger] self@[j2]).fingers),
            decreases n - j,
        {
            if fingers_have_dup(&self.combos[j].fingers) {
                proof {
                    assert(has_dup_finger(self@[j as int].fingers));
                    assert(is_first_dup_finger(self@, j as int));
                }
                return Err(ValidationError::DuplicateFingerInCombo(self.combos[j].clone()));
            }
            j = j + 1;
        }
        Ok(())
    }

    /// Validates the combo table: no duplicate finger set across
    /// combos, then no duplicate finger within a combo; the first
    /// failure wins.
    pub fn check(&self) -> (r: Result<(), ValidationError>)
        ensures
            check_post(self@, validation_view(r)),
    {
        let dup = self.check_dup();
        match dup {
            Err(e) => Err(e),
            Ok(()) => self.check_dup_in_combo(),
        }
    }
}

/// The outcome of `check` is a function of the combo sequence alone:
/// any two results that are correct for the same sequence are equal.
/// In particular, checking the same config twice yields the same
/// result, so `check` is idempotent.
pub proof fn lemma_check_deterministic(
    cs: Seq<ComboView>,
    r1: Result<(), ValidationErrorView>,
    r2: Result<(), ValidationErrorView>,
)
    requires
        check_post(cs, r1),
        check_post(cs, r2),
    ensures
        r1 is Ok <==> r2 is Ok,
        r1 is Err && r2 is Err ==> r1->Err_0 == r2->Err_0,
{
    match r1 {
        Ok(()) => {
            match r2 {
                Ok(()) => {
                },
                Err(ValidationErrorView::DuplicateCombo(c2)) => {
                    let j2 = choose|j: int| #[trigger] is_first_dup(cs, j) && c2 == cs[j];
                    assert(dup_before(cs, j2));
                    assert(false);
                },
                Err(ValidationErrorView::DuplicateFingerInCombo(c2)) => {
                    let j2 = choose|j: int| #[trigger] is_first_dup_finger(cs, j) && c2 == cs[j];
                    assert(has_dup_finger(cs[j2].fingers));
                    assert(false);
                },
            }
        },
        Err(ValidationErrorView::DuplicateCombo(c1)) => {
            let j1 = choose|j: int| #[trigger] is_first_dup(cs, j) && c1 == cs[j];
            match r2 {
                Ok(()) => {
                    assert(false);
                },
                Err(ValidationErrorView::DuplicateCombo(c2)) => {
                    let j2 = choose|j: int| #[trigger] is_first_dup(cs, j) && c2 == cs[j];
                    if j1 < j2 {
                        assert(!dup_before(cs, j1));
                        assert(false);
                    }
                    if j2 < j1 {
                        assert(!dup_before(cs, j2));
                        assert(false);
                    }
                    assert(j1 == j2);
                    assert(c1 == c2);
                },
                Err(ValidationErrorView::DuplicateFingerInCombo(c2)) => {
                    assert(!dup_before(cs, j1));
                    assert(false);
                },
            }
        },
        Err(ValidationErrorView::DuplicateFingerInCombo(c1)) => {
            let j1 = choose|j: int| #[trigger] is_first_dup_finger(cs, j) && c1 == cs[j];
            match r2 {
                Ok(()) => {
                    assert(false);
                },
                Err(ValidationErrorView::DuplicateCombo(c2)) => {
                    let j2 = choose|j: int| #[trigger] is_first_dup(cs, j) && c2 == cs[j];
                    assert(!dup_before(cs, j2));
                    assert(false);
                },
                Err(ValidationErrorView::DuplicateFingerInCombo(c2)) => {
                    let j2 = choose|j: int| #[trigger] is_first_dup_finger(cs, j) && c2 == cs[j];
                    if j1 < j2 {
                        assert(!has_dup_finger(cs[j1].fingers));
                        assert(false);
                    }
                    if j2 < j1 {
                        assert(!has_dup_finger(cs[j2].fingers));
                        assert(false);
                    }
                    assert(j1 == j2);
                    assert(c1 == c2);
                },
            }
        },
    }
}

/// Two combos that encode the same finger set — in whatever finger
/// order — make `check` fail with a duplicate-combo error.
pub proof fn lemma_duplicate_set_rejected(
    cs: Seq<ComboView>,
    i: int,
    j: int,
    rv: Result<(), ValidationErrorView>,
)
    requires
        0 <= i < j < cs.len(),
        cs[i].finger_set() == cs[j].finger_set(),
        check_post(cs, rv),
    ensures
        rv matches Err(ValidationErrorView::DuplicateCombo(_)),
{
    assert(dup_before(cs, j));
    match rv {
        Ok(()) => {
            assert(false);
        },
        Err(ValidationErrorView::DuplicateCombo(_)) => {
        },
        Err(ValidationErrorView::DuplicateFingerInCombo(_)) => {
            assert(false);
        },
    }
}

} // verus!

