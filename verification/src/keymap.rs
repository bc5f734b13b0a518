//! The firmware keymap generator: a fixed-layout array literal of the
//! 14 single-finger keys in ordinal order, with hard-coded separators
//! and line breaks mirroring the physical matrix.

use vstd::prelude::*;

use crate::finger::FINGER_COUNT;
use crate::lookup::LookupError;
use crate::lookup::TableOutcome;
use crate::lookup::spec_table_outcome;
use crate::lookup::table_post;
use crate::model::Config;

verus! {

/// One cell of the keymap body: the key at ordinal `i`, with the
/// separators and line breaks of the fixed physical matrix.
pub open spec fn spec_keymap_cell(i: int, key: Seq<char>) -> Seq<char> {
    if i == 3 {
        "    "@ + key + ",                  "@
    } else if i == 7 {
        "    "@ + key + ", \\\n                            "@
    } else if i == 10 {
        " "@ + key + ",           "@
    } else if i == 13 {
        " "@ + key
    } else if i > 7 {
        " "@ + key + ","@
    } else {
        "    "@ + key + ","@
    }
}

/// The first `upto` cells of the keymap body, in ordinal order.
pub open spec fn spec_keymap_cells(tab: Seq<Seq<char>>, upto: int) -> Seq<char>
    decreases upto,
{
    if upto <= 0 {
        Seq::empty()
    } else {
        spec_keymap_cells(tab, upto - 1) + spec_keymap_cell(upto - 1, tab[upto - 1])
    }
}

/// The whole keymap text for a complete single-finger table.
pub open spec fn spec_keymap(tab: Seq<Seq<char>>) -> Seq<char> {
    "[0] = LAYOUT_keychordz(\n"@ + "   "@ + spec_keymap_cells(tab, FINGER_COUNT as int)
        + " \\\n       )"@
}

impl Config {
    /// Renders the firmware keymap: the 14 single-finger keys laid out
    /// as a `LAYOUT_keychordz` array literal.  Requires the complete
    /// single-finger table and propagates its error otherwise.
    pub fn to_keymap(&self) -> (r: Result<String, LookupError>)
        ensures
            match r {
                Ok(s) => spec_table_outcome(self@) matches TableOutcome::Table(t) && s@
                    == spec_keymap(t),
                Err(e) => table_post(self@, Err(e@)),
            },
    {
        let table = match self.single_finger_table() {
            Ok(t) => t,
            Err(e) => {
                return Err(e);
            },
        };
        let ghost tv = table@.map_values(|s: String| s@);
        let mut out = String::new();
        out.append("[0] = LAYOUT_keychordz(\n");
        out.append("   ");
        proof {
            assert(out@ =~= "[0] = LAYOUT_keychordz(\n"@ + "   "@ + spec_keymap_cells(tv, 0));
        }
        let mut i: usize = 0;
        while i < FINGER_COUNT
            invariant
                i <= FINGER_COUNT,
                table@.len() == FINGER_COUNT,
                tv == table@.map_values(|s: String| s@),
                out@ == "[0] = LAYOUT_keychordz(\n"@ + "   "@ + spec_keymap_cells(tv, i as int),
            decreases FINGER_COUNT - i,
        {
            proof {
                assert(tv[i as int] == table@[i as int]@);
            }
            let key = &table[i];
            if i == 3 {
                out.append("    ");
                out.append(key.as_str());
                out.append(",                  ");
            } else if i == 7 {
                out.append("    ");
                out.append(key.as_str());
                out.append(", \\\n                            ");
            } else if i == 10 {
                out.append(" ");
                out.append(key.as_str());
                out.append(",           ");
            } else if i == FINGER_COUNT - 1 {
                out.append(" ");
                out.append(key.as_str());
            } else if i > 7 {
                out.append(" ");
                out.append(key.as_str());
                out.append(",");
            } else {
                out.append("    ");
                out.append(key.as_str());
                out.append(",");
            }
            proof {
                assert(out@ =~= "[0] = LAYOUT_keychordz(\n"@ + "   "@ + spec_keymap_cells(
                    tv,
                    i as int + 1,
                ));
            }
            i = i + 1;
        }
        out.append(" \\\n       )");
        proof {
            assert(out@ =~= spec_keymap(tv));
        }
        Ok(out)
    }
}

} // verus!
