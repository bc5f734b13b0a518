//! The fixed key-symbol vocabulary of the chord-table target.
//!
//! A combo's key token must name one of these symbols for the
//! chord-table generator to emit a line for it; a combo whose key is
//! not in the vocabulary is skipped.  The vocabulary is the single
//! letters `A` through `Z`.

use vstd::prelude::*;

verus! {

/// One key symbol of the chord-table vocabulary.
#[derive(Clone, Copy, PartialEq, Eq, Structural, Debug)]
pub enum Key {
    A,
    B,
    C,
    D,
    E,
    F,
    G,
    H,
    I,
    J,
    K,
    L,
    M,
    N,
    O,
    P,
    Q,
    R,
    S,
    T,
    U,
    V,
    W,
    X,
    Y,
    Z,
}

impl Key {
    /// The canonical name of this key symbol.
    pub open spec fn spec_name(self) -> Seq<char> {
        match self {
            Key::A => seq!['A'],
            Key::B => seq!['B'],
            Key::C => seq!['C'],
            Key::D => seq!['D'],
            Key::E => seq!['E'],
            Key::F => seq!['F'],
            Key::G => seq!['G'],
            Key::H => seq!['H'],
            Key::I => seq!['I'],
            Key::J => seq!['J'],
            Key::K => seq!['K'],
            Key::L => seq!['L'],
            Key::M => seq!['M'],
            Key::N => seq!['N'],
            Key::O => seq!['O'],
            Key::P => seq!['P'],
            Key::Q => seq!['Q'],
            Key::R => seq!['R'],
            Key::S => seq!['S'],
            Key::T => seq!['T'],
            Key::U => seq!['U'],
            Key::V => seq!['V'],
            Key::W => seq!['W'],
            Key::X => seq!['X'],
            Key::Y => seq!['Y'],
            Key::Z => seq!['Z'],
        }
    }

    /// The canonical name of this key symbol.
    pub fn name(self) -> (r: &'static str)
        ensures
            r@ == self.spec_name(),
    {
        proof {
            reveal_strlit("A");
            reveal_strlit("B");
            reveal_strlit("C");
            reveal_strlit("D");
            reveal_strlit("E");
            reveal_strlit("F");
            reveal_strlit("G");
            reveal_strlit("H");
            reveal_strlit("I");
            reveal_strlit("J");
            reveal_strlit("K");
            reveal_strlit("L");
            reveal_strlit("M");
            reveal_strlit("N");
            reveal_strlit("O");
            reveal_strlit("P");
            reveal_strlit("Q");
            reveal_strlit("R");
            reveal_strlit("S");
            reveal_strlit("T");
            reveal_strlit("U");
            reveal_strlit("V");
            reveal_strlit("W");
            reveal_strlit("X");
            reveal_strlit("Y");
            reveal_strlit("Z");
        }
        match self {
            Key::A => "A",
            Key::B => "B",
            Key::C => "C",
            Key::D => "D",
            Key::E => "E",
            Key::F => "F",
            Key::G => "G",
            Key::H => "H",
            Key::I => "I",
            Key::J => "J",
            Key::K => "K",
            Key::L => "L",
            Key::M => "M",
            Key::N => "N",
            Key::O => "O",
            Key::P => "P",
            Key::Q => "Q",
            Key::R => "R",
            Key::S => "S",
            Key::T => "T",
            Key::U => "U",
            Key::V => "V",
            Key::W => "W",
            Key::X => "X",
            Key::Y => "Y",
            Key::Z => "Z",
        }
    }
}

/// The key symbol a single character names, if any.
pub open spec fn spec_key_of_char(c: char) -> Option<Key> {
    if c == 'A' {
        Some(Key::A)
    } else if c == 'B' {
        Some(Key::B)
    } else if c == 'C' {
        Some(Key::C)
    } else if c == 'D' {
        Some(Key::D)
    } else if c == 'E' {
        Some(Key::E)
    } else if c == 'F' {
        Some(Key::F)
    } else if c == 'G' {
        Some(Key::G)
    } else if c == 'H' {
        Some(Key::H)
    } else if c == 'I' {
        Some(Key::I)
    } else if c == 'J' {
        Some(Key::J)
    } else if c == 'K' {
        Some(Key::K)
    } else if c == 'L' {
        Some(Key::L)
    } else if c == 'M' {
        Some(Key::M)
    } else if c == 'N' {
        Some(Key::N)
    } else if c == 'O' {
        Some(Key::O)
    } else if c == 'P' {
        Some(Key::P)
    } else if c == 'Q' {
        Some(Key::Q)
    } else if c == 'R' {
        Some(Key::R)
    } else if c == 'S' {
        Some(Key::S)
    } else if c == 'T' {
        Some(Key::T)
    } else if c == 'U' {
        Some(Key::U)
    } else if c == 'V' {
        Some(Key::V)
    } else if c == 'W' {
        Some(Key::W)
    } else if c == 'X' {
        Some(Key::X)
    } else if c == 'Y' {
        Some(Key::Y)
    } else if c == 'Z' {
        Some(Key::Z)
    } else {
        None
    }
}

/// The key symbol a word names: a single character of the
/// vocabulary, matched exactly.
pub open spec fn spec_key_of_word(w: Seq<char>) -> Option<Key> {
    if w.len() != 1 {
        None
    } else {
        spec_key_of_char(w[0])
    }
}

/// The key symbol a word names, if any.
pub fn key_of_word(w: &Vec<char>) -> (r: Option<Key>)
    ensures
        r == spec_key_of_word(w@),
{
    if w.len() != 1 {
        return None;
    }
    let c = w[0];
    if c == 'A' {
        Some(Key::A)
    } else if c == 'B' {
        Some(Key::B)
    } else if c == 'C' {
        Some(Key::C)
    } else if c == 'D' {
        Some(Key::D)
    } else if c == 'E' {
        Some(Key::E)
    } else if c == 'F' {
        Some(Key::F)
    } else if c == 'G' {
        Some(Key::G)
    } else if c == 'H' {
        Some(Key::H)
    } else if c == 'I' {
        Some(Key::I)
    } else if c == 'J' {
        Some(Key::J)
    } else if c == 'K' {
        Some(Key::K)
    } else if c == 'L' {
        Some(Key::L)
    } else if c == 'M' {
        Some(Key::M)
    } else if c == 'N' {
        Some(Key::N)
    } else if c == 'O' {
        Some(Key::O)
    } else if c == 'P' {
        Some(Key::P)
    } else if c == 'Q' {
        Some(Key::Q)
    } else if c == 'R' {
        Some(Key::R)
    } else if c == 'S' {
        Some(Key::S)
    } else if c == 'T' {
        Some(Key::T)
    } else if c == 'U' {
        Some(Key::U)
    } else if c == 'V' {
        Some(Key::V)
    } else if c == 'W' {
        Some(Key::W)
    } else if c == 'X' {
        Some(Key::X)
    } else if c == 'Y' {
        Some(Key::Y)
    } else if c == 'Z' {
        Some(Key::Z)
    } else {
        None
    }
}

/// Every canonical key name parses back to the symbol it names.
pub proof fn lemma_key_name_parses(k: Key)
    ensures
        spec_key_of_word(k.spec_name()) == Some(k),
{
}

} // verus!
