//! The chord-table generator.
//!
//! Combos are rendered sorted by descending finger count, ties kept
//! in input order.  Each line pairs the OR of the combo's finger
//! flags, written symbolically, with a key identifier parsed from the
//! fixed key-symbol vocabulary; a combo whose key token is not in the
//! vocabulary is skipped rather than reported.

use vstd::prelude::*;
use vstd::multiset::Multiset;

use crate::keys::key_of_word;
use crate::keys::spec_key_of_word;
use crate::lookup::LookupError;
use crate::model::Combo;
use crate::model::ComboView;
use crate::model::Config;
use crate::finger::Finger;
use crate::text::str_to_chars;

verus! {

/// Where a combo lands among already-sorted combos: after every combo
/// with at least as many fingers, before the first with fewer, so
/// that earlier equals stay first.
pub open spec fn spec_insert_desc(c: ComboView, sorted: Seq<ComboView>) -> Seq<ComboView>
    decreases sorted.len(),
{
    if sorted.len() == 0 {
        seq![c]
    } else if sorted[0].fingers.len() >= c.fingers.len() {
        seq![sorted[0]] + spec_insert_desc(c, sorted.drop_first())
    } else {
        seq![c] + sorted
    }
}

/// The combos sorted by descending finger count, stably: combos with
/// the same finger count keep their input order.
pub open spec fn spec_sort_desc(cs: Seq<ComboView>) -> Seq<ComboView>
    decreases cs.len(),
{
    if cs.len() == 0 {
        Seq::empty()
    } else {
        spec_insert_desc(cs.last(), spec_sort_desc(cs.drop_last()))
    }
}

/// The OR of the finger flags of the first `upto` fingers, written
/// symbolically.
pub open spec fn spec_flag_expr(fs: Seq<Finger>, upto: int) -> Seq<char>
    decreases upto,
{
    if upto <= 0 {
        Seq::empty()
    } else if upto == 1 {
        "Finger::"@ + fs[0].spec_name() + " as u16"@
    } else {
        spec_flag_expr(fs, upto - 1) + " | "@ + "Finger::"@ + fs[upto - 1].spec_name()
            + " as u16"@
    }
}

/// The chord-table line of one combo, or nothing when its key token
/// is not in the vocabulary.
pub open spec fn spec_chord_line(c: ComboView) -> Seq<char> {
    match spec_key_of_word(c.key) {
        Some(k) => "Chord::new("@ + spec_flag_expr(c.fingers, c.fingers.len() as int) + ", Key::"@
            + k.spec_name() + "),\n"@,
        None => Seq::empty(),
    }
}

/// The chord-table lines of the first `upto` combos.
pub open spec fn spec_chord_lines(cs: Seq<ComboView>, upto: int) -> Seq<char>
    decreases upto,
{
    if upto <= 0 {
        Seq::empty()
    } else {
        spec_chord_lines(cs, upto - 1) + spec_chord_line(cs[upto - 1])
    }
}

/// The whole chord-table text: the lines of the combos in descending
/// finger-count order.
pub open spec fn spec_keychordz(cs: Seq<ComboView>) -> Seq<char> {
    spec_chord_lines(spec_sort_desc(cs), spec_sort_desc(cs).len() as int)
}

/// Inserting at the position that the insertion scan finds is exactly
/// `spec_insert_desc`.
proof fn lemma_insert_desc_at(c: ComboView, sorted: Seq<ComboView>, p: int)
    requires
        0 <= p <= sorted.len(),
        forall|q: int| 0 <= q < p ==> (#[trigger] sorted[q]).fingers.len() >= c.fingers.len(),
        p < sorted.len() ==> sorted[p].fingers.len() < c.fingers.len(),
    ensures
        spec_insert_desc(c, sorted) == sorted.subrange(0, p) + seq![c] + sorted.subrange(
            p,
            sorted.len() as int,
        ),
    decreases p,
{
    if sorted.len() == 0 {
        assert(spec_insert_desc(c, sorted) =~= sorted.subrange(0, p) + seq![c] + sorted.subrange(
            p,
            sorted.len() as int,
        ));
    } else if p == 0 {
        assert(sorted[0].fingers.len() < c.fingers.len());
        assert(spec_insert_desc(c, sorted) =~= sorted.subrange(0, p) + seq![c] + sorted.subrange(
            p,
            sorted.len() as int,
        ));
    } else {
        assert(sorted[0].fingers.len() >= c.fingers.len());
        let rest = sorted.drop_first();
        assert forall|q: int| 0 <= q < p - 1 implies (#[trigger] rest[q]).fingers.len()
            >= c.fingers.len() by {
            assert(rest[q] == sorted[q + 1]);
        }
        if p - 1 < rest.len() {
            assert(rest[p - 1] == sorted[p]);
        }
        lemma_insert_desc_at(c, rest, p - 1);
        assert(rest.subrange(0, p - 1) =~= sorted.subrange(1, p));
        assert(rest.subrange(p - 1, rest.len() as int) =~= sorted.subrange(
            p,
            sorted.len() as int,
        ));
        assert(spec_insert_desc(c, sorted) =~= sorted.subrange(0, p) + seq![c] + sorted.subrange(
            p,
            sorted.len() as int,
        ));
    }
}

/// The combos sorted by descending finger count, stably.
fn sort_combos_desc(combos: &Vec<Combo>) -> (r: Vec<Combo>)
    ensures
        r@.map_values(|c: Combo| c@) == spec_sort_desc(combos@.map_values(|c: Combo| c@)),
{
    let ghost cs = combos@.map_values(|c: Combo| c@);
    let n = combos.len();
    let mut out: Vec<Combo> = Vec::new();
    let mut i: usize = 0;
    proof {
        assert(cs.subrange(0, 0) =~= Seq::<ComboView>::empty());
        assert(out@.map_values(|c: Combo| c@) =~= Seq::<ComboView>::empty());
    }
    while i < n
        invariant
            i <= n,
            n == combos@.len(),
            cs == combos@.map_values(|c: Combo| c@),
            cs.len() == n,
            out@.map_values(|c: Combo| c@) == spec_sort_desc(cs.subrange(0, i as int)),
        decreases n - i,
    {
        let ghost sorted = out@.map_values(|c: Combo| c@);
        let c = combos[i].clone();
        proof {
            assert(c@ == cs[i as int]);
        }
        let m = out.len();
        let mut p: usize = 0;
        while p < m && out[p].fingers.len() >= c.fingers.len()
            invariant
                p <= m,
                m == out@.len(),
                c@ == cs[i as int],
                i < cs.len(),
                sorted == out@.map_values(|c2: Combo| c2@),
                sorted.len() == m,
                forall|q: int|
                    0 <= q < p ==> (#[trigger] sorted[q]).fingers.len() >= cs[i as int].fingers.len(),
            decreases m - p,
        {
            proof {
                assert(sorted[p as int] == out@[p as int]@);
            }
            p = p + 1;
        }
        proof {
            if p < m {
                assert(sorted[p as int] == out@[p as int]@);
            }
            lemma_insert_desc_at(cs[i as int], sorted, p as int);
        }
        out.insert(p, c);
        proof {
            let cur = cs.subrange(0, i as int + 1);
            assert(cur.drop_last() =~= cs.subrange(0, i as int));
            assert(cur.last() == cs[i as int]);
            assert(out@.map_values(|c2: Combo| c2@) =~= sorted.subrange(0, p as int) + seq![
                cs[i as int],
            ] + sorted.subrange(p as int, sorted.len() as int));
        }
        i = i + 1;
    }
    proof {
        assert(cs.subrange(0, n as int) =~= cs);
    }
    out
}

impl Config {
    /// Renders the chord table: one line per combo in descending
    /// finger-count order, pairing the symbolic OR of the finger
    /// flags with the key symbol; combos whose key token is not in
    /// the vocabulary are dropped, not reported.
    pub fn to_keychordz(&self) -> (r: Result<String, LookupError>)
        ensures
            r matches Ok(s) && s@ == spec_keychordz(self@),
    {
        let ghost scs = spec_sort_desc(self@);
        let sorted = sort_combos_desc(&self.combos);
        proof {
            assert(self.combos@.map_values(|c: Combo| c@) =~= self@);
        }
        let n = sorted.len();
        let mut out = String::new();
        proof {
            assert(out@ =~= spec_chord_lines(scs, 0));
        }
        let mut i: usize = 0;
        while i < n
            invariant
                i <= n,
                n == sorted@.len(),
                scs == sorted@.map_values(|c: Combo| c@),
                scs.len() == n,
                out@ == spec_chord_lines(scs, i as int),
            decreases n - i,
        {
            let combo = &sorted[i];
            proof {
                assert(combo@ == scs[i as int]);
            }
            let w = str_to_chars(combo.key.as_str());
            match key_of_word(&w) {
                None => {
                    proof {
                        assert(spec_chord_line(scs[i as int]) =~= Seq::<char>::empty());
                        assert(out@ =~= spec_chord_lines(scs, i as int + 1));
                    }
                },
                Some(k) => {
                    let ghost prev = out@;
                    out.append("Chord::new(");
                    let ghost fsv = scs[i as int].fingers;
                    proof {
                        assert(out@ =~= prev + "Chord::new("@ + spec_flag_expr(fsv, 0));
                    }
                    let fl = combo.fingers.len();
                    let mut fi: usize = 0;
                    while fi < fl
                        invariant
                            fi <= fl,
                            i < sorted@.len(),
                            fl == sorted@[i as int].fingers@.len(),
                            fsv == sorted@[i as int]@.fingers,
                            out@ == prev + "Chord::new("@ + spec_flag_expr(fsv, fi as int),
                        decreases fl - fi,
                    {
                        proof {
                            assert(fsv[fi as int] == sorted@[i as int].fingers@[fi as int]);
                        }
                        if fi > 0 {
                            out.append(" | ");
                        }
                        let name = sorted[i].fingers[fi].name();
                        out.append("Finger::");
                        out.append(name);
                        out.append(" as u16");
                        proof {
                            assert(out@ =~= prev + "Chord::new("@ + spec_flag_expr(
                                fsv,
                                fi as int + 1,
                            ));
                        }
                        fi = fi + 1;
                    }
                    out.append(", Key::");
                    let kname = k.name();
                    out.append(kname);
                    out.append("),\n");
                    proof {
                        assert(out@ =~= spec_chord_lines(scs, i as int + 1));
                    }
                },
            }
            i = i + 1;
        }
        Ok(out)
    }
}

/// Inserting keeps descending order and adds exactly the new combo.
proof fn lemma_insert_desc_props(c: ComboView, sorted: Seq<ComboView>)
    requires
        forall|i: int, j: int|
            0 <= i <= j < sorted.len() ==> (#[trigger] sorted[i]).fingers.len()
                >= (#[trigger] sorted[j]).fingers.len(),
    ensures
        spec_insert_desc(c, sorted).len() == sorted.len() + 1,
        forall|i: int, j: int|
            0 <= i <= j < spec_insert_desc(c, sorted).len() ==> (#[trigger] spec_insert_desc(
                c,
                sorted,
            )[i]).fingers.len() >= (#[trigger] spec_insert_desc(c, sorted)[j]).fingers.len(),
        spec_insert_desc(c, sorted).to_multiset() == sorted.to_multiset().insert(c),
    decreases sorted.len(),
{
    broadcast use vstd::seq_lib::group_to_multiset_ensures;

    let res = spec_insert_desc(c, sorted);
    if sorted.len() == 0 {
        assert(res =~= Seq::<ComboView>::empty().push(c));
        assert(res.to_multiset() =~= sorted.to_multiset().insert(c));
    } else if sorted[0].fingers.len() >= c.fingers.len() {
        let rest = sorted.drop_first();
        assert forall|i: int, j: int|
            0 <= i <= j < rest.len() implies (#[trigger] rest[i]).fingers.len()
            >= (#[trigger] rest[j]).fingers.len() by {
            assert(rest[i] == sorted[i + 1]);
            assert(rest[j] == sorted[j + 1]);
        }
        lemma_insert_desc_props(c, rest);
        let sub = spec_insert_desc(c, rest);
        assert(res == seq![sorted[0]] + sub);
        assert forall|i: int, j: int|
            0 <= i <= j < res.len() implies (#[trigger] res[i]).fingers.len()
            >= (#[trigger] res[j]).fingers.len() by {
            if i == 0 {
                if j > 0 {
                    assert(res[j] == sub[j - 1]);
                    lemma_insert_desc_member(c, rest, j - 1);
                }
            } else {
                assert(res[i] == sub[i - 1]);
                assert(res[j] == sub[j - 1]);
            }
        }
        vstd::seq_lib::lemma_multiset_commutative(seq![sorted[0]], sub);
        assert(seq![sorted[0]].to_multiset() =~= Multiset::<ComboView>::empty().insert(
            sorted[0],
        ));
        assert(sorted.to_multiset() =~= seq![sorted[0]].to_multiset().add(rest.to_multiset()))
            by {
            assert(sorted =~= seq![sorted[0]] + rest);
            vstd::seq_lib::lemma_multiset_commutative(seq![sorted[0]], rest);
        }
        assert(res.to_multiset() =~= sorted.to_multiset().insert(c));
    } else {
        assert(res == seq![c] + sorted);
        assert forall|i: int, j: int|
            0 <= i <= j < res.len() implies (#[trigger] res[i]).fingers.len()
            >= (#[trigger] res[j]).fingers.len() by {
            if i == 0 && j > 0 {
                assert(res[j] == sorted[j - 1]);
                assert(sorted[0].fingers.len() >= sorted[j - 1].fingers.len());
            }
            if i > 0 {
                assert(res[i] == sorted[i - 1]);
                assert(res[j] == sorted[j - 1]);
            }
        }
        vstd::seq_lib::lemma_multiset_commutative(seq![c], sorted);
        assert(seq![c].to_multiset() =~= Multiset::<ComboView>::empty().insert(c));
        assert(res.to_multiset() =~= sorted.to_multiset().insert(c));
    }
}

/// Every element of an insertion result is the inserted combo or one
/// of the old ones; in particular the one at any position has no more
/// fingers than the head allows.
proof fn lemma_insert_desc_member(c: ComboView, sorted: Seq<ComboView>, k: int)
    requires
        0 <= k < spec_insert_desc(c, sorted).len(),
    ensures
        spec_insert_desc(c, sorted)[k] == c || sorted.contains(spec_insert_desc(c, sorted)[k]),
    decreases sorted.len(),
{
    let res = spec_insert_desc(c, sorted);
    if sorted.len() == 0 {
    } else if sorted[0].fingers.len() >= c.fingers.len() {
        let rest = sorted.drop_first();
        if k == 0 {
            assert(sorted.contains(sorted[0]));
        } else {
            lemma_insert_desc_member(c, rest, k - 1);
            assert(res[k] == spec_insert_desc(c, rest)[k - 1]);
            if spec_insert_desc(c, rest)[k - 1] != c {
                let w = choose|w: int| 0 <= w < rest.len() && rest[w] == spec_insert_desc(
                    c,
                    rest,
                )[k - 1];
                assert(sorted[w + 1] == rest[w]);
                assert(sorted.contains(sorted[w + 1]));
            }
        }
    } else {
        if k == 0 {
        } else {
            assert(res[k] == sorted[k - 1]);
            assert(sorted.contains(sorted[k - 1]));
        }
    }
}

/// The sort is correct: it keeps the length, yields descending finger
/// counts, and is a permutation of its input.
pub proof fn lemma_sort_desc_correct(cs: Seq<ComboView>)
    ensures
        spec_sort_desc(cs).len() == cs.len(),
        forall|i: int, j: int|
            0 <= i <= j < spec_sort_desc(cs).len() ==> (#[trigger] spec_sort_desc(cs)[i]).fingers.len()
                >= (#[trigger] spec_sort_desc(cs)[j]).fingers.len(),
        spec_sort_desc(cs).to_multiset() == cs.to_multiset(),
    decreases cs.len(),
{
    broadcast use vstd::seq_lib::group_to_multiset_ensures;

    if cs.len() == 0 {
        assert(spec_sort_desc(cs).to_multiset() =~= cs.to_multiset());
    } else {
        lemma_sort_desc_correct(cs.drop_last());
        lemma_insert_desc_props(cs.last(), spec_sort_desc(cs.drop_last()));
        assert(cs =~= cs.drop_last().push(cs.last()));
        assert(cs.to_multiset() =~= cs.drop_last().to_multiset().insert(cs.last()));
        assert(spec_sort_desc(cs).to_multiset() =~= cs.to_multiset());
    }
}

} // verus!
