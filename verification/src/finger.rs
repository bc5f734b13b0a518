//! The fixed universe of the 14 finger identities.
//!
//! Each finger is named by hand (`L`/`R`) and position (Pinkie, Ring,
//! Middle, Index, thumb Up, thumb Down, thumb Left).  A finger has two
//! distinct numeric representations that must never be mixed:
//! a dense ordinal in `[0, 14)` for table indexing, and a single-bit
//! flag for composing a finger set into one machine word.

use vstd::prelude::*;

verus! {

/// One of the 14 fixed finger identities.
#[derive(Clone, Copy, PartialEq, Eq, Structural, Debug)]
pub enum Finger {
    LP,
    LR,
    LM,
    LI,
    LU,
    LD,
    LL,
    RP,
    RR,
    RM,
    RI,
    RU,
    RD,
    RL,
}

/// How many fingers there are.
pub const FINGER_COUNT: usize = 14;

impl Finger {
    /// The dense ordinal of this finger: its position in `[0, 14)`,
    /// used to index per-finger tables.
    pub open spec fn spec_ordinal(self) -> int {
        match self {
            Finger::LP => 0,
            Finger::LR => 1,
            Finger::LM => 2,
            Finger::LI => 3,
            Finger::LU => 4,
            Finger::LD => 5,
            Finger::LL => 6,
            Finger::RP => 7,
            Finger::RR => 8,
            Finger::RM => 9,
            Finger::RI => 10,
            Finger::RU => 11,
            Finger::RD => 12,
            Finger::RL => 13,
        }
    }

    /// The dense ordinal of this finger, for table indexing.
    pub fn ordinal(self) -> (r: usize)
        ensures
            r == self.spec_ordinal(),
            r < FINGER_COUNT,
    {
        match self {
            Finger::LP => 0,
            Finger::LR => 1,
            Finger::LM => 2,
            Finger::LI => 3,
            Finger::LU => 4,
            Finger::LD => 5,
            Finger::LL => 6,
            Finger::RP => 7,
            Finger::RR => 8,
            Finger::RM => 9,
            Finger::RI => 10,
            Finger::RU => 11,
            Finger::RD => 12,
            Finger::RL => 13,
        }
    }

    /// The single-bit flag of this finger, used to OR a finger set
    /// into one 16-bit word.  Not a valid table index.
    pub open spec fn spec_bit_flag(self) -> u16 {
        match self {
            Finger::LP => 0x4000,
            Finger::LR => 0x2000,
            Finger::LM => 0x1000,
            Finger::LI => 0x0800,
            Finger::LU => 0x0400,
            Finger::LD => 0x0200,
            Finger::LL => 0x0100,
            Finger::RP => 0x0040,
            Finger::RR => 0x0020,
            Finger::RM => 0x0010,
            Finger::RI => 0x0008,
            Finger::RU => 0x0004,
            Finger::RD => 0x0002,
            Finger::RL => 0x0001,
        }
    }

    /// The single-bit flag of this finger.
    pub fn bit_flag(self) -> (r: u16)
        ensures
            r == self.spec_bit_flag(),
    {
        match self {
            Finger::LP => 0x4000,
            Finger::LR => 0x2000,
            Finger::LM => 0x1000,
            Finger::LI => 0x0800,
            Finger::LU => 0x0400,
            Finger::LD => 0x0200,
            Finger::LL => 0x0100,
            Finger::RP => 0x0040,
            Finger::RR => 0x0020,
            Finger::RM => 0x0010,
            Finger::RI => 0x0008,
            Finger::RU => 0x0004,
            Finger::RD => 0x0002,
            Finger::RL => 0x0001,
        }
    }

    /// The canonical (upper-case) name of this finger.
    pub open spec fn spec_name(self) -> Seq<char> {
        match self {
            Finger::LP => seq!['L', 'P'],
            Finger::LR => seq!['L', 'R'],
            Finger::LM => seq!['L', 'M'],
            Finger::LI => seq!['L', 'I'],
            Finger::LU => seq!['L', 'U'],
            Finger::LD => seq!['L', 'D'],
            Finger::LL => seq!['L', 'L'],
            Finger::RP => seq!['R', 'P'],
            Finger::RR => seq!['R', 'R'],
            Finger::RM => seq!['R', 'M'],
            Finger::RI => seq!['R', 'I'],
            Finger::RU => seq!['R', 'U'],
            Finger::RD => seq!['R', 'D'],
            Finger::RL => seq!['R', 'L'],
        }
    }

    /// The canonical name of this finger, as it appears in layout text
    /// and in rendered output.
    pub fn name(self) -> (r: &'static str)
        ensures
            r@ == self.spec_name(),
    {
        proof {
            reveal_strlit("LP");
            reveal_strlit("LR");
            reveal_strlit("LM");
            reveal_strlit("LI");
            reveal_strlit("LU");
            reveal_strlit("LD");
            reveal_strlit("LL");
            reveal_strlit("RP");
            reveal_strlit("RR");
            reveal_strlit("RM");
            reveal_strlit("RI");
            reveal_strlit("RU");
            reveal_strlit("RD");
            reveal_strlit("RL");
        }
        match self {
            Finger::LP => "LP",
            Finger::LR => "LR",
            Finger::LM => "LM",
            Finger::LI => "LI",
            Finger::LU => "LU",
            Finger::LD => "LD",
            Finger::LL => "LL",
            Finger::RP => "RP",
            Finger::RR => "RR",
            Finger::RM => "RM",
            Finger::RI => "RI",
            Finger::RU => "RU",
            Finger::RD => "RD",
            Finger::RL => "RL",
        }
    }

    /// The finger with the given dense ordinal.
    pub open spec fn spec_of_ordinal(i: int) -> Finger {
        if i == 0 {
            Finger::LP
        } else if i == 1 {
            Finger::LR
        } else if i == 2 {
            Finger::LM
        } else if i == 3 {
            Finger::LI
        } else if i == 4 {
            Finger::LU
        } else if i == 5 {
            Finger::LD
        } else if i == 6 {
            Finger::LL
        } else if i == 7 {
            Finger::RP
        } else if i == 8 {
            Finger::RR
        } else if i == 9 {
            Finger::RM
        } else if i == 10 {
            Finger::RI
        } else if i == 11 {
            Finger::RU
        } else if i == 12 {
            Finger::RD
        } else {
            Finger::RL
        }
    }

    /// The finger with the given dense ordinal.
    pub fn of_ordinal(i: usize) -> (r: Finger)
        requires
            i < FINGER_COUNT,
        ensures
            r == Finger::spec_of_ordinal(i as int),
            r.spec_ordinal() == i,
    {
        if i == 0 {
            Finger::LP
        } else if i == 1 {
            Finger::LR
        } else if i == 2 {
            Finger::LM
        } else if i == 3 {
            Finger::LI
        } else if i == 4 {
            Finger::LU
        } else if i == 5 {
            Finger::LD
        } else if i == 6 {
            Finger::LL
        } else if i == 7 {
            Finger::RP
        } else if i == 8 {
            Finger::RR
        } else if i == 9 {
            Finger::RM
        } else if i == 10 {
            Finger::RI
        } else if i == 11 {
            Finger::RU
        } else if i == 12 {
            Finger::RD
        } else {
            Finger::RL
        }
    }
}

/// Whether the word `w` names a finger whose two letters are `u0 u1`,
/// ignoring case (`l0` and `l1` are the lower-case forms).
pub open spec fn word_is(w: Seq<char>, u0: char, l0: char, u1: char, l1: char) -> bool {
    &&& w.len() == 2
    &&& (w[0] == u0 || w[0] == l0)
    &&& (w[1] == u1 || w[1] == l1)
}

/// The finger named by the word `w`, matched case-insensitively,
/// or `None` if `w` is not a finger name.
pub open spec fn spec_finger_of_word(w: Seq<char>) -> Option<Finger> {
    if word_is(w, 'L', 'l', 'P', 'p') {
        Some(Finger::LP)
    } else if word_is(w, 'L', 'l', 'R', 'r') {
        Some(Finger::LR)
    } else if word_is(w, 'L', 'l', 'M', 'm') {
        Some(Finger::LM)
    } else if word_is(w, 'L', 'l', 'I', 'i') {
        Some(Finger::LI)
    } else if word_is(w, 'L', 'l', 'U', 'u') {
        Some(Finger::LU)
    } else if word_is(w, 'L', 'l', 'D', 'd') {
        Some(Finger::LD)
    } else if word_is(w, 'L', 'l', 'L', 'l') {
        Some(Finger::LL)
    } else if word_is(w, 'R', 'r', 'P', 'p') {
        Some(Finger::RP)
    } else if word_is(w, 'R', 'r', 'R', 'r') {
        Some(Finger::RR)
    } else if word_is(w, 'R', 'r', 'M', 'm') {
        Some(Finger::RM)
    } else if word_is(w, 'R', 'r', 'I', 'i') {
        Some(Finger::RI)
    } else if word_is(w, 'R', 'r', 'U', 'u') {
        Some(Finger::RU)
    } else if word_is(w, 'R', 'r', 'D', 'd') {
        Some(Finger::RD)
    } else if word_is(w, 'R', 'r', 'L', 'l') {
        Some(Finger::RL)
    } else {
        None
    }
}

fn char_is(c: char, u: char, l: char) -> (r: bool)
    ensures
        r == (c == u || c == l),
{
    c == u || c == l
}

/// The finger named by the word `w` (case-insensitive), if any.
pub fn finger_of_word(w: &Vec<char>) -> (r: Option<Finger>)
    ensures
        r == spec_finger_of_word(w@),
{
    if w.len() != 2 {
        return None;
    }
    let c0 = w[0];
    let c1 = w[1];
    if char_is(c0, 'L', 'l') {
        if char_is(c1, 'P', 'p') {
            Some(Finger::LP)
        } else if char_is(c1, 'R', 'r') {
            Some(Finger::LR)
        } else if char_is(c1, 'M', 'm') {
            Some(Finger::LM)
        } else if char_is(c1, 'I', 'i') {
            Some(Finger::LI)
        } else if char_is(c1, 'U', 'u') {
            Some(Finger::LU)
        } else if char_is(c1, 'D', 'd') {
            Some(Finger::LD)
        } else if char_is(c1, 'L', 'l') {
            Some(Finger::LL)
        } else {
            None
        }
    } else if char_is(c0, 'R', 'r') {
        if char_is(c1, 'P', 'p') {
            Some(Finger::RP)
        } else if char_is(c1, 'R', 'r') {
            Some(Finger::RR)
        } else if char_is(c1, 'M', 'm') {
            Some(Finger::RM)
        } else if char_is(c1, 'I', 'i') {
            Some(Finger::RI)
        } else if char_is(c1, 'U', 'u') {
            Some(Finger::RU)
        } else if char_is(c1, 'D', 'd') {
            Some(Finger::RD)
        } else if char_is(c1, 'L', 'l') {
            Some(Finger::RL)
        } else {
            None
        }
    } else {
        None
    }
}

/// Every canonical finger name parses back to the finger it names.
pub proof fn lemma_name_parses(f: Finger)
    ensures
        spec_finger_of_word(f.spec_name()) == Some(f),
{
}

/// The ordinal is a faithful (injective) encoding of the finger identity.
pub proof fn lemma_ordinal_injective(a: Finger, b: Finger)
    ensures
        a.spec_ordinal() == b.spec_ordinal() ==> a == b,
{
}

/// The bit flag is a faithful (injective) encoding of the finger identity.
pub proof fn lemma_bit_flag_injective(a: Finger, b: Finger)
    ensures
        a.spec_bit_flag() == b.spec_bit_flag() ==> a == b,
{
}

} // verus!
