//! The layout-text parser.
//!
//! The input is line-oriented: blank lines and lines whose first
//! non-space character is `#` are skipped; every other line is
//! whitespace-tokenized, its leading words are read as finger names
//! (case-insensitively) and the first word that is not a finger name
//! is the combo's key token.  Words after the key token are discarded.

use vstd::prelude::*;

use crate::finger::Finger;
use crate::finger::finger_of_word;
use crate::finger::spec_finger_of_word;
use crate::model::Combo;
use crate::model::ComboView;
use crate::model::Config;
use crate::text::chars_to_string;
use crate::text::decimal_string;
use crate::text::spec_decimal;
use crate::text::str_to_chars;

verus! {

/// The characters that separate words within a line.
pub open spec fn is_space_char(c: char) -> bool {
    c == ' ' || c == '\t' || c == '\r'
}

fn is_space(c: char) -> (r: bool)
    ensures
        r == is_space_char(c),
{
    c == ' ' || c == '\t' || c == '\r'
}

/// The lines of `s`, splitting at `'\n'`, with `cur` the partial line
/// read so far.  A final line without a trailing newline still counts;
/// a trailing newline does not open an extra empty line.
pub open spec fn spec_lines_acc(s: Seq<char>, cur: Seq<char>) -> Seq<Seq<char>>
    decreases s.len(),
{
    if s.len() == 0 {
        if cur.len() == 0 {
            Seq::empty()
        } else {
            seq![cur]
        }
    } else if s[0] == '\n' {
        seq![cur] + spec_lines_acc(s.drop_first(), Seq::empty())
    } else {
        spec_lines_acc(s.drop_first(), cur.push(s[0]))
    }
}

/// The physical lines of a text.
pub open spec fn spec_lines(t: Seq<char>) -> Seq<Seq<char>> {
    spec_lines_acc(t, Seq::empty())
}

/// The whitespace-separated words of `s`, with `cur` the partial word
/// read so far.
pub open spec fn spec_tokens_acc(s: Seq<char>, cur: Seq<char>) -> Seq<Seq<char>>
    decreases s.len(),
{
    if s.len() == 0 {
        if cur.len() == 0 {
            Seq::empty()
        } else {
            seq![cur]
        }
    } else if is_space_char(s[0]) {
        if cur.len() == 0 {
            spec_tokens_acc(s.drop_first(), Seq::empty())
        } else {
            seq![cur] + spec_tokens_acc(s.drop_first(), Seq::empty())
        }
    } else {
        spec_tokens_acc(s.drop_first(), cur.push(s[0]))
    }
}

/// The whitespace-separated words of a line.
pub open spec fn spec_tokens(s: Seq<char>) -> Seq<Seq<char>> {
    spec_tokens_acc(s, Seq::empty())
}

/// Every word produced by tokenization is non-empty.
pub proof fn lemma_tokens_nonempty(s: Seq<char>, cur: Seq<char>)
    ensures
        forall|i: int|
            0 <= i < spec_tokens_acc(s, cur).len() ==> (#[trigger] spec_tokens_acc(s, cur)[i]).len()
                >= 1,
    decreases s.len(),
{
    if s.len() == 0 {
    } else if is_space_char(s[0]) {
        lemma_tokens_nonempty(s.drop_first(), Seq::empty());
        if cur.len() > 0 {
            let res = spec_tokens_acc(s, cur);
            let tail = spec_tokens_acc(s.drop_first(), Seq::empty());
            assert(res == seq![cur] + tail);
            assert forall|i: int| 0 <= i < res.len() implies (#[trigger] res[i]).len() >= 1 by {
                if i == 0 {
                    assert(res[0] == cur);
                } else {
                    assert(res[i] == tail[i - 1]);
                }
            }
        }
    } else {
        lemma_tokens_nonempty(s.drop_first(), cur.push(s[0]));
        assert(spec_tokens_acc(s, cur) == spec_tokens_acc(s.drop_first(), cur.push(s[0])));
    }
}

/// How many leading words of `toks` parse as finger names.
pub open spec fn spec_finger_prefix_len(toks: Seq<Seq<char>>) -> nat
    decreases toks.len(),
{
    if toks.len() == 0 {
        0
    } else if spec_finger_of_word(toks[0]) is None {
        0
    } else {
        1 + spec_finger_prefix_len(toks.drop_first())
    }
}

/// `spec_finger_prefix_len` is exactly the position of the first word
/// that does not parse as a finger name.
pub proof fn lemma_finger_prefix_len(toks: Seq<Seq<char>>, j: int)
    requires
        0 <= j <= toks.len(),
        forall|i: int| 0 <= i < j ==> spec_finger_of_word(#[trigger] toks[i]) is Some,
        j < toks.len() ==> spec_finger_of_word(toks[j]) is None,
    ensures
        spec_finger_prefix_len(toks) == j,
    decreases j,
{
    if j == 0 {
    } else {
        assert(spec_finger_of_word(toks[0]) is Some);
        lemma_finger_prefix_len(toks.drop_first(), j - 1);
    }
}

/// What one line of layout text contributes.
pub ghost enum LineOutcome {
    /// The line is blank or a comment.
    Skip,
    /// The line has no leading finger name.
    NoFingers,
    /// All words of the line are finger names; the key token is missing.
    MissingKey,
    /// The line defines this combo.
    Parsed(ComboView),
}

/// The meaning of one line of layout text.
pub open spec fn spec_parse_line(line: Seq<char>) -> LineOutcome {
    let toks = spec_tokens(line);
    if toks.len() == 0 || toks[0][0] == '#' {
        LineOutcome::Skip
    } else {
        let k = spec_finger_prefix_len(toks) as int;
        if k == 0 {
            LineOutcome::NoFingers
        } else if k == toks.len() {
            LineOutcome::MissingKey
        } else {
            LineOutcome::Parsed(
                ComboView {
                    fingers: Seq::new(k as nat, |i: int| spec_finger_of_word(toks[i]).unwrap()),
                    key: toks[k],
                },
            )
        }
    }
}

/// What parsing a whole text yields: the combo sequence, or the first
/// error with its 1-based physical line number.
pub ghost enum ParseOutcome {
    Combos(Seq<ComboView>),
    NoFingers(int),
    MissingKey(int),
}

/// The meaning of the lines of a layout text, the first line numbered
/// `no`; the first error wins.
pub open spec fn spec_parse_lines(lines: Seq<Seq<char>>, no: int) -> ParseOutcome
    decreases lines.len(),
{
    if lines.len() == 0 {
        ParseOutcome::Combos(Seq::empty())
    } else {
        match spec_parse_line(lines[0]) {
            LineOutcome::Skip => spec_parse_lines(lines.drop_first(), no + 1),
            LineOutcome::NoFingers => ParseOutcome::NoFingers(no),
            LineOutcome::MissingKey => ParseOutcome::MissingKey(no),
            LineOutcome::Parsed(c) => match spec_parse_lines(lines.drop_first(), no + 1) {
                ParseOutcome::Combos(cs) => ParseOutcome::Combos(seq![c] + cs),
                e => e,
            },
        }
    }
}

/// The meaning of a whole layout text.
pub open spec fn spec_parse(t: Seq<char>) -> ParseOutcome {
    spec_parse_lines(spec_lines(t), 1)
}

/// Why a layout text was rejected, with the offending 1-based physical
/// line number.
#[derive(Clone, Copy, PartialEq, Eq, Structural, Debug)]
pub enum ParseError {
    /// The line starts with a word that is not a finger name.
    NoFingers(usize),
    /// Every word of the line is a finger name, so no key token follows.
    MissingKey(usize),
}

impl ParseError {
    /// The report text of this error.
    pub open spec fn spec_message(self) -> Seq<char> {
        match self {
            ParseError::NoFingers(n) => "Invalid finger on line "@ + spec_decimal(n as int),
            ParseError::MissingKey(n) => "Missing Key: line "@ + spec_decimal(n as int),
        }
    }

    /// The report text of this error.
    pub fn message(&self) -> (r: String)
        ensures
            r@ == self.spec_message(),
    {
        match self {
            ParseError::NoFingers(n) => {
                let mut out = String::new();
                out.append("Invalid finger on line ");
                let num = decimal_string(*n);
                out.append(num.as_str());
                out
            },
            ParseError::MissingKey(n) => {
                let mut out = String::new();
                out.append("Missing Key: line ");
                let num = decimal_string(*n);
                out.append(num.as_str());
                out
            },
        }
    }
}

/// The physical lines of `chars`, as vectors of characters.
fn split_lines(chars: &Vec<char>) -> (r: Vec<Vec<char>>)
    ensures
        r@.map_values(|l: Vec<char>| l@) == spec_lines(chars@),
{
    let n = chars.len();
    let mut r: Vec<Vec<char>> = Vec::new();
    let mut cur: Vec<char> = Vec::new();
    let mut i: usize = 0;
    proof {
        assert(chars@.subrange(0, n as int) =~= chars@);
        assert(r@.map_values(|l: Vec<char>| l@) + spec_lines_acc(chars@, cur@) =~= spec_lines_acc(
            chars@,
            cur@,
        ));
    }
    while i < n
        invariant
            i <= n,
            n == chars@.len(),
            spec_lines(chars@) == r@.map_values(|l: Vec<char>| l@) + spec_lines_acc(
                chars@.subrange(i as int, n as int),
                cur@,
            ),
        decreases n - i,
    {
        let ghost rest = chars@.subrange(i as int, n as int);
        let ghost rest2 = chars@.subrange(i as int + 1, n as int);
        let ghost cur0 = cur@;
        let ghost map0 = r@.map_values(|l: Vec<char>| l@);
        proof {
            assert(rest.drop_first() =~= rest2);
            assert(rest[0] == chars@[i as int]);
        }
        let c = chars[i];
        if c == '\n' {
            r.push(cur);
            cur = Vec::new();
            proof {
                let tail = spec_lines_acc(rest2, Seq::<char>::empty());
                assert(spec_lines_acc(rest, cur0) == seq![cur0] + tail);
                assert(r@.map_values(|l: Vec<char>| l@) =~= map0 + seq![cur0]);
                assert((map0 + seq![cur0]) + tail =~= map0 + (seq![cur0] + tail));
            }
        } else {
            cur.push(c);
            proof {
                assert(cur@ == cur0.push(rest[0]));
                assert(spec_lines_acc(rest, cur0) == spec_lines_acc(rest2, cur@));
            }
        }
        i = i + 1;
    }
    proof {
        assert(chars@.subrange(n as int, n as int) =~= Seq::<char>::empty());
    }
    let ghost cur0 = cur@;
    let ghost map0 = r@.map_values(|l: Vec<char>| l@);
    if cur.len() > 0 {
        r.push(cur);
        proof {
            assert(spec_lines_acc(Seq::<char>::empty(), cur0) == seq![cur0]);
            assert(r@.map_values(|l: Vec<char>| l@) =~= map0 + seq![cur0]);
        }
    } else {
        proof {
            assert(cur0 =~= Seq::<char>::empty());
            assert(spec_lines_acc(Seq::<char>::empty(), cur0) == Seq::<Seq<char>>::empty());
            assert(map0 + Seq::<Seq<char>>::empty() =~= map0);
        }
    }
    r
}

/// The whitespace-separated words of `line`, as vectors of characters.
fn tokenize(line: &Vec<char>) -> (r: Vec<Vec<char>>)
    ensures
        r@.map_values(|w: Vec<char>| w@) == spec_tokens(line@),
        forall|i: int| 0 <= i < r@.len() ==> (#[trigger] r@[i])@.len() >= 1,
{
    let n = line.len();
    let mut r: Vec<Vec<char>> = Vec::new();
    let mut cur: Vec<char> = Vec::new();
    let mut i: usize = 0;
    proof {
        assert(line@.subrange(0, n as int) =~= line@);
        assert(r@.map_values(|w: Vec<char>| w@) + spec_tokens_acc(line@, cur@) =~= spec_tokens_acc(
            line@,
            cur@,
        ));
    }
    while i < n
        invariant
            i <= n,
            n == line@.len(),
            spec_tokens(line@) == r@.map_values(|w: Vec<char>| w@) + spec_tokens_acc(
                line@.subrange(i as int, n as int),
                cur@,
            ),
            forall|j: int| 0 <= j < r@.len() ==> (#[trigger] r@[j])@.len() >= 1,
        decreases n - i,
    {
        let ghost rest = line@.subrange(i as int, n as int);
        let ghost rest2 = line@.subrange(i as int + 1, n as int);
        let ghost cur0 = cur@;
        let ghost map0 = r@.map_values(|w: Vec<char>| w@);
        proof {
            assert(rest.drop_first() =~= rest2);
            assert(rest[0] == line@[i as int]);
        }
        let c = line[i];
        if is_space(c) {
            if cur.len() > 0 {
                r.push(cur);
                cur = Vec::new();
                proof {
                    let tail = spec_tokens_acc(rest2, Seq::<char>::empty());
                    assert(spec_tokens_acc(rest, cur0) == seq![cur0] + tail);
                    assert(r@.map_values(|w: Vec<char>| w@) =~= map0 + seq![cur0]);
                    assert((map0 + seq![cur0]) + tail =~= map0 + (seq![cur0] + tail));
                }
            } else {
                proof {
                    assert(cur0 =~= Seq::<char>::empty());
                    assert(spec_tokens_acc(rest, cur0) == spec_tokens_acc(rest2, cur0));
                }
            }
        } else {
            cur.push(c);
            proof {
                assert(cur@ == cur0.push(rest[0]));
                assert(spec_tokens_acc(rest, cur0) == spec_tokens_acc(rest2, cur@));
            }
        }
        i = i + 1;
    }
    proof {
        assert(line@.subrange(n as int, n as int) =~= Seq::<char>::empty());
    }
    let ghost cur0 = cur@;
    let ghost map0 = r@.map_values(|w: Vec<char>| w@);
    if cur.len() > 0 {
        r.push(cur);
        proof {
            assert(spec_tokens_acc(Seq::<char>::empty(), cur0) == seq![cur0]);
            assert(r@.map_values(|w: Vec<char>| w@) =~= map0 + seq![cur0]);
        }
    } else {
        proof {
            assert(cur0 =~= Seq::<char>::empty());
            assert(spec_tokens_acc(Seq::<char>::empty(), cur0) == Seq::<Seq<char>>::empty());
            assert(map0 + Seq::<Seq<char>>::empty() =~= map0);
        }
    }
    r
}

impl Config {
    /// Parses a layout text into a config.
    ///
    /// Each non-skipped line becomes one combo, in source order.  The
    /// result, success or error, is exactly [`spec_parse`] on the text.
    pub fn from_str(config: &str) -> (r: Result<Config, ParseError>)
        ensures
            match r {
                Ok(cfg) => spec_parse(config@) == ParseOutcome::Combos(cfg@),
                Err(ParseError::NoFingers(n)) => spec_parse(config@) == ParseOutcome::NoFingers(
                    n as int,
                ),
                Err(ParseError::MissingKey(n)) => spec_parse(config@) == ParseOutcome::MissingKey(
                    n as int,
                ),
            },
    {
        let ghost t = config@;
        let chars = str_to_chars(config);
        let lines = split_lines(&chars);
        let ghost gl = spec_lines(t);

        let mut combos: Vec<Combo> = Vec::new();
        let nlines = lines.len();
        let mut li: usize = 0;
        proof {
            assert(gl.subrange(0, nlines as int) =~= gl);
            match spec_parse_lines(gl, 1) {
                ParseOutcome::Combos(cs) => {
                    assert(combos@.map_values(|c: Combo| c@) + cs =~= cs);
                },
                _ => {},
            }
        }
        while li < nlines
            invariant
                li <= nlines,
                nlines == lines@.len(),
                t == config@,
                gl == lines@.map_values(|l: Vec<char>| l@),
                spec_parse(t) == spec_parse_lines(gl, 1),
                spec_parse_lines(gl, 1) == (match spec_parse_lines(
                    gl.subrange(li as int, nlines as int),
                    li as int + 1,
                ) {
                    ParseOutcome::Combos(cs) => ParseOutcome::Combos(
                        combos@.map_values(|c: Combo| c@) + cs,
                    ),
                    e => e,
                }),
            decreases nlines - li,
        {
            let ghost rem = gl.subrange(li as int, nlines as int);
            let ghost rem2 = gl.subrange(li as int + 1, nlines as int);
            proof {
                assert(rem.drop_first() =~= rem2);
                assert(gl[li as int] == lines@[li as int]@);
                assert(rem[0] == lines@[li as int]@);
            }
            let line = &lines[li];
            let toks = tokenize(line);
            let ghost tk = spec_tokens(lines@[li as int]@);
            let ghost tmap = toks@.map_values(|w: Vec<char>| w@);
            let skipped: bool = if toks.len() == 0 {
                true
            } else {
                proof {
                    assert(tmap[0] == toks@[0]@);
                    assert(toks@[0]@.len() >= 1);
                }
                toks[0][0] == '#'
            };
            if !skipped {
                proof {
                    assert(tk.len() > 0 && tk[0][0] != '#');
                }
                // read the leading finger names
                let mut fingers: Vec<Finger> = Vec::new();
                let mut j: usize = 0;
                let mut stopped: bool = false;
                while j < toks.len() && !stopped
                    invariant
                        0 <= j <= toks@.len(),
                        tmap == toks@.map_values(|w: Vec<char>| w@),
                        tk == tmap,
                        fingers@.len() == j,
                        forall|i: int|
                            0 <= i < j ==> spec_finger_of_word(#[trigger] tk[i]) == Some(
                                fingers@[i],
                            ),
                        stopped ==> j < toks@.len() && spec_finger_of_word(tk[j as int]) is None,
                    decreases toks@.len() - j + (if stopped {
                        0int
                    } else {
                        1int
                    }),
                {
                    proof {
                        assert(tmap[j as int] == toks@[j as int]@);
                    }
                    match finger_of_word(&toks[j]) {
                        Some(f) => {
                            fingers.push(f);
                            j = j + 1;
                        },
                        None => {
                            stopped = true;
                        },
                    }
                }
                proof {
                    if stopped {
                        lemma_finger_prefix_len(tk, j as int);
                    } else {
                        assert(j == toks@.len());
                        lemma_finger_prefix_len(tk, toks@.len() as int);
                    }
                }
                if j == 0 {
                    let n = li + 1;
                    proof {
                        assert(spec_parse_line(rem[0]) == LineOutcome::NoFingers);
                        assert(spec_parse_lines(rem, li as int + 1) == ParseOutcome::NoFingers(
                            li as int + 1,
                        ));
                    }
                    return Err(ParseError::NoFingers(n));
                }
                if !stopped {
                    let n = li + 1;
                    proof {
                        assert(spec_parse_line(rem[0]) == LineOutcome::MissingKey);
                        assert(spec_parse_lines(rem, li as int + 1) == ParseOutcome::MissingKey(
                            li as int + 1,
                        ));
                    }
                    return Err(ParseError::MissingKey(n));
                }
                // the first word that is not a finger name is the key
                proof {
                    assert(tmap[j as int] == toks@[j as int]@);
                }
                let key = chars_to_string(&toks[j]);
                let combo = Combo { fingers, key };
                proof {
                    assert(spec_parse_line(rem[0]) matches LineOutcome::Parsed(_));
                    let c = spec_parse_line(rem[0])->Parsed_0;
                    assert(c.fingers =~= combo@.fingers);
                    assert(c.key == combo@.key);
                    assert(c == combo@);
                }
                let ghost old_cmap = combos@.map_values(|c: Combo| c@);
                combos.push(combo);
                proof {
                    let cmap = combos@.map_values(|c: Combo| c@);
                    assert(cmap =~= old_cmap + seq![combos@[combos@.len() - 1]@]);
                    match spec_parse_lines(rem2, li as int + 2) {
                        ParseOutcome::Combos(cs) => {
                            assert((old_cmap + (seq![cmap[cmap.len() - 1]] + cs)) =~= (cmap + cs));
                        },
                        _ => {},
                    }
                }
            } else {
                proof {
                    assert(spec_parse_line(rem[0]) == LineOutcome::Skip);
                    assert(spec_parse_lines(rem, li as int + 1) == spec_parse_lines(
                        rem2,
                        li as int + 2,
                    ));
                }
            }
            li = li + 1;
        }
        proof {
            assert(gl.subrange(nlines as int, nlines as int) =~= Seq::<Seq<char>>::empty());
            let cmap = combos@.map_values(|c: Combo| c@);
            assert(cmap + Seq::<ComboView>::empty() =~= cmap);
        }
        let cfg = Config { combos };
        Ok(cfg)
    }
}

} // verus!
