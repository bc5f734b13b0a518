//! The firmware combo-list generator.
//!
//! For every combo with at least two fingers it emits a named array
//! of the resolved key symbols terminated by a sentinel, a matching
//! entry in the combo table literal, and finally the number of
//! multi-finger combos: the total count less the 14 single-finger
//! entries that the keymap already covers.

use vstd::prelude::*;

use crate::finger::FINGER_COUNT;
use crate::finger::Finger;
use crate::lookup::LookupError;
use crate::lookup::TableOutcome;
use crate::lookup::spec_table_outcome;
use crate::lookup::table_post;
use crate::model::ComboView;
use crate::model::Config;
use crate::text::decimal_string;
use crate::text::spec_decimal;

verus! {

/// The resolved key symbols of a combo's fingers, each preceded by a
/// space and followed by a comma.
pub open spec fn spec_qmk_fingers(fs: Seq<Finger>, tab: Seq<Seq<char>>, upto: int) -> Seq<char>
    decreases upto,
{
    if upto <= 0 {
        Seq::empty()
    } else {
        spec_qmk_fingers(fs, tab, upto - 1) + " "@ + tab[fs[upto - 1].spec_ordinal()] + ","@
    }
}

/// The key-array line of the multi-finger combo at position `i`.
pub open spec fn spec_qmk_progmem_line(i: int, c: ComboView, tab: Seq<Seq<char>>) -> Seq<char> {
    "const uint16_t PROGMEM combo_"@ + spec_decimal(i) + "[] = {"@ + spec_qmk_fingers(
        c.fingers,
        tab,
        c.fingers.len() as int,
    ) + " COMBO_END};\n"@
}

/// The key-array lines of the first `upto` combos; single-finger
/// combos contribute nothing.
pub open spec fn spec_qmk_progmem(cs: Seq<ComboView>, tab: Seq<Seq<char>>, upto: int) -> Seq<char>
    decreases upto,
{
    if upto <= 0 {
        Seq::empty()
    } else {
        spec_qmk_progmem(cs, tab, upto - 1) + (if cs[upto - 1].fingers.len() < 2 {
            Seq::<char>::empty()
        } else {
            spec_qmk_progmem_line(upto - 1, cs[upto - 1], tab)
        })
    }
}

/// The combo-table entry of the multi-finger combo at position `i`.
pub open spec fn spec_qmk_entry(i: int, c: ComboView) -> Seq<char> {
    "    COMBO(combo_"@ + spec_decimal(i) + ", "@ + c.key + "),\n"@
}

/// The combo-table entries of the first `upto` combos; single-finger
/// combos contribute nothing.
pub open spec fn spec_qmk_entries(cs: Seq<ComboView>, upto: int) -> Seq<char>
    decreases upto,
{
    if upto <= 0 {
        Seq::empty()
    } else {
        spec_qmk_entries(cs, upto - 1) + (if cs[upto - 1].fingers.len() < 2 {
            Seq::<char>::empty()
        } else {
            spec_qmk_entry(upto - 1, cs[upto - 1])
        })
    }
}

/// The whole combo-list text: the key arrays, the combo table, and
/// the count of combos beyond the 14 single-finger ones.
pub open spec fn spec_qmk(cs: Seq<ComboView>, tab: Seq<Seq<char>>) -> Seq<char>
    recommends
        cs.len() >= FINGER_COUNT,
{
    spec_qmk_progmem(cs, tab, cs.len() as int) + "\n\n"@ + "combo_t key_combos[COMBO_COUNT] = {\n"@
        + spec_qmk_entries(cs, cs.len() as int) + "};\n"@ + "\n\nComboCount = "@ + spec_decimal(
        cs.len() - FINGER_COUNT,
    )
}

impl Config {
    /// Renders the firmware combo list for every multi-finger combo.
    /// Requires the complete single-finger table and propagates its
    /// error otherwise.
    pub fn to_qmk_combos(&self) -> (r: Result<String, LookupError>)
        ensures
            match r {
                Ok(s) => spec_table_outcome(self@) matches TableOutcome::Table(t) && s@
                    == spec_qmk(self@, t),
                Err(e) => table_post(self@, Err(e@)),
            },
    {
        let ghost cs = self@;
        let table = match self.single_finger_table() {
            Ok(t) => t,
            Err(e) => {
                return Err(e);
            },
        };
        let ghost tv = table@.map_values(|s: String| s@);
        let n = self.combos.len();

        let mut progmem_out = String::new();
        let mut ci: usize = 0;
        while ci < n
            invariant
                ci <= n,
                n == self.combos@.len(),
                cs == self@,
                cs.len() == n,
                table@.len() == FINGER_COUNT,
                tv == table@.map_values(|s: String| s@),
                progmem_out@ == spec_qmk_progmem(cs, tv, ci as int),
            decreases n - ci,
        {
            let combo = &self.combos[ci];
            proof {
                assert(combo@ == cs[ci as int]);
            }
            if combo.fingers.len() >= 2 {
                let ghost prev = progmem_out@;
                progmem_out.append("const uint16_t PROGMEM combo_");
                let num = decimal_string(ci);
                progmem_out.append(num.as_str());
                progmem_out.append("[] = {");
                let ghost mid = prev + "const uint16_t PROGMEM combo_"@ + spec_decimal(ci as int)
                    + "[] = {"@;
                proof {
                    assert(progmem_out@ =~= mid + spec_qmk_fingers(cs[ci as int].fingers, tv, 0));
                }
                let fl = combo.fingers.len();
                let mut fi: usize = 0;
                while fi < fl
                    invariant
                        fi <= fl,
                        fl == self.combos@[ci as int].fingers@.len(),
                        ci < self.combos@.len(),
                        cs == self@,
                        cs.len() == self.combos@.len(),
                        table@.len() == FINGER_COUNT,
                        tv == table@.map_values(|s: String| s@),
                        progmem_out@ == mid + spec_qmk_fingers(cs[ci as int].fingers, tv, fi as int),
                    decreases fl - fi,
                {
                    proof {
                        assert(self.combos@[ci as int]@ == cs[ci as int]);
                    }
                    let f = self.combos[ci].fingers[fi];
                    let idx = f.ordinal();
                    proof {
                        assert(tv[idx as int] == table@[idx as int]@);
                    }
                    progmem_out.append(" ");
                    progmem_out.append(table[idx].as_str());
                    progmem_out.append(",");
                    proof {
                        assert(progmem_out@ =~= mid + spec_qmk_fingers(
                            cs[ci as int].fingers,
                            tv,
                            fi as int + 1,
                        ));
                    }
                    fi = fi + 1;
                }
                progmem_out.append(" COMBO_END};\n");
                proof {
                    assert(progmem_out@ =~= spec_qmk_progmem(cs, tv, ci as int + 1));
                }
            } else {
                proof {
                    assert(progmem_out@ =~= spec_qmk_progmem(cs, tv, ci as int + 1));
                }
            }
            ci = ci + 1;
        }

        let mut key_combos_out = String::new();
        key_combos_out.append("combo_t key_combos[COMBO_COUNT] = {\n");
        let ghost kc_head = "combo_t key_combos[COMBO_COUNT] = {\n"@;
        proof {
            assert(key_combos_out@ =~= kc_head + spec_qmk_entries(cs, 0));
        }
        let mut ci2: usize = 0;
        while ci2 < n
            invariant
                ci2 <= n,
                n == self.combos@.len(),
                cs == self@,
                cs.len() == n,
                key_combos_out@ == kc_head + spec_qmk_entries(cs, ci2 as int),
            decreases n - ci2,
        {
            let combo = &self.combos[ci2];
            proof {
                assert(combo@ == cs[ci2 as int]);
            }
            if combo.fingers.len() >= 2 {
                key_combos_out.append("    COMBO(combo_");
                let num = decimal_string(ci2);
                key_combos_out.append(num.as_str());
                key_combos_out.append(", ");
                key_combos_out.append(combo.key.as_str());
                key_combos_out.append("),\n");
            }
            proof {
                assert(key_combos_out@ =~= kc_head + spec_qmk_entries(cs, ci2 as int + 1));
            }
            ci2 = ci2 + 1;
        }
        key_combos_out.append("};\n");

        let mut out = progmem_out;
        out.append("\n\n");
        out.append(key_combos_out.as_str());
        out.append("\n\nComboCount = ");
        let count = decimal_string(n - FINGER_COUNT);
        out.append(count.as_str());
        proof {
            assert(out@ =~= spec_qmk(cs, tv));
        }
        Ok(out)
    }
}

} // verus!
