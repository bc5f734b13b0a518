//! The parse/render round trip.
//!
//! Any combo sequence that came out of the parser renders back to a
//! layout text that parses to the same sequence.

use vstd::prelude::*;

use crate::finger::Finger;
use crate::finger::lemma_name_parses;
use crate::finger::spec_finger_of_word;
use crate::model::ComboView;
use crate::model::spec_render_combo;
use crate::model::spec_render_config;
use crate::model::spec_render_fingers;
use crate::parse::LineOutcome;
use crate::parse::ParseOutcome;
use crate::parse::is_space_char;
use crate::parse::lemma_finger_prefix_len;
use crate::parse::spec_lines;
use crate::parse::spec_lines_acc;
use crate::parse::spec_parse;
use crate::parse::spec_parse_line;
use crate::parse::spec_parse_lines;
use crate::parse::spec_tokens;
use crate::parse::spec_tokens_acc;

verus! {

/// The shape every parsed combo has: at least one finger, a non-empty
/// key token that holds neither whitespace nor a newline, and a key
/// token that is not itself a finger name.
pub open spec fn combo_wf(c: ComboView) -> bool {
    &&& c.fingers.len() >= 1
    &&& c.key.len() >= 1
    &&& forall|i: int|
        0 <= i < c.key.len() ==> !is_space_char(#[trigger] c.key[i]) && c.key[i] != '\n'
    &&& spec_finger_of_word(c.key) is None
}

/// Finger names are two characters that are no whitespace, newline or
/// comment mark.
proof fn lemma_name_wf(f: Finger)
    ensures
        f.spec_name().len() == 2,
        !is_space_char(f.spec_name()[0]),
        f.spec_name()[0] != '\n',
        f.spec_name()[0] != '#',
        !is_space_char(f.spec_name()[1]),
        f.spec_name()[1] != '\n',
{
}

/// The words of a text whose characters are no newline, read with a
/// partial word of such characters, hold no whitespace and no newline.
proof fn lemma_tokens_chars(s: Seq<char>, cur: Seq<char>)
    requires
        forall|i: int|
            0 <= i < cur.len() ==> !is_space_char(#[trigger] cur[i]) && cur[i] != '\n',
        forall|i: int| 0 <= i < s.len() ==> (#[trigger] s[i]) != '\n',
    ensures
        forall|t: int, i: int|
            0 <= t < spec_tokens_acc(s, cur).len() && 0 <= i < spec_tokens_acc(s, cur)[t].len()
                ==> !is_space_char(#[trigger] spec_tokens_acc(s, cur)[t][i]) && spec_tokens_acc(
                s,
                cur,
            )[t][i] != '\n',
    decreases s.len(),
{
    let res = spec_tokens_acc(s, cur);
    if s.len() == 0 {
        if cur.len() > 0 {
            assert forall|t: int, i: int|
                0 <= t < res.len() && 0 <= i < res[t].len() implies !is_space_char(
                #[trigger] res[t][i],
            ) && res[t][i] != '\n' by {
                assert(res[0] == cur);
                assert(res[t][i] == cur[i]);
            }
        }
    } else if is_space_char(s[0]) {
        lemma_tokens_chars(s.drop_first(), Seq::empty());
        if cur.len() > 0 {
            let tail = spec_tokens_acc(s.drop_first(), Seq::empty());
            assert forall|t: int, i: int|
                0 <= t < res.len() && 0 <= i < res[t].len() implies !is_space_char(
                #[trigger] res[t][i],
            ) && res[t][i] != '\n' by {
                if t == 0 {
                    assert(res[0] == cur);
                    assert(res[t][i] == cur[i]);
                } else {
                    assert(res[t] == tail[t - 1]);
                    assert(res[t][i] == tail[t - 1][i]);
                }
            }
        } else {
            let tail = spec_tokens_acc(s.drop_first(), Seq::empty());
            assert forall|t: int, i: int|
                0 <= t < res.len() && 0 <= i < res[t].len() implies !is_space_char(
                #[trigger] res[t][i],
            ) && res[t][i] != '\n' by {
                assert(res[t] == tail[t]);
                assert(res[t][i] == tail[t][i]);
            }
        }
    } else {
        lemma_tokens_chars(s.drop_first(), cur.push(s[0]));
        let tail = spec_tokens_acc(s.drop_first(), cur.push(s[0]));
        assert forall|t: int, i: int|
            0 <= t < res.len() && 0 <= i < res[t].len() implies !is_space_char(
            #[trigger] res[t][i],
        ) && res[t][i] != '\n' by {
            assert(res[t] == tail[t]);
            assert(res[t][i] == tail[t][i]);
        }
    }
}

/// No line produced by line splitting contains a newline, provided
/// the partial line holds none.
proof fn lemma_lines_no_newline(s: Seq<char>, cur: Seq<char>)
    requires
        forall|i: int| 0 <= i < cur.len() ==> (#[trigger] cur[i]) != '\n',
    ensures
        forall|t: int, i: int|
            0 <= t < spec_lines_acc(s, cur).len() && 0 <= i < spec_lines_acc(s, cur)[t].len()
                ==> (#[trigger] spec_lines_acc(s, cur)[t][i]) != '\n',
    decreases s.len(),
{
    let res = spec_lines_acc(s, cur);
    if s.len() == 0 {
        if cur.len() > 0 {
            assert forall|t: int, i: int|
                0 <= t < res.len() && 0 <= i < res[t].len() implies (#[trigger] res[t][i])
                != '\n' by {
                assert(res[0] == cur);
                assert(res[t][i] == cur[i]);
            }
        }
    } else if s[0] == '\n' {
        lemma_lines_no_newline(s.drop_first(), Seq::empty());
        let tail = spec_lines_acc(s.drop_first(), Seq::empty());
        assert forall|t: int, i: int|
            0 <= t < res.len() && 0 <= i < res[t].len() implies (#[trigger] res[t][i])
            != '\n' by {
            if t == 0 {
                assert(res[0] == cur);
                assert(res[t][i] == cur[i]);
            } else {
                assert(res[t] == tail[t - 1]);
                assert(res[t][i] == tail[t - 1][i]);
            }
        }
    } else {
        lemma_lines_no_newline(s.drop_first(), cur.push(s[0]));
        let tail = spec_lines_acc(s.drop_first(), cur.push(s[0]));
        assert forall|t: int, i: int|
            0 <= t < res.len() && 0 <= i < res[t].len() implies (#[trigger] res[t][i])
            != '\n' by {
            assert(res[t] == tail[t]);
            assert(res[t][i] == tail[t][i]);
        }
    }
}

/// The finger prefix of a word list: every word before it parses as a
/// finger, the word at it (if any) does not.
proof fn lemma_finger_prefix_props(toks: Seq<Seq<char>>)
    ensures
        spec_finger_prefix_len_of(toks) <= toks.len(),
        forall|i: int|
            0 <= i < spec_finger_prefix_len_of(toks) ==> spec_finger_of_word(#[trigger] toks[i])
                is Some,
        spec_finger_prefix_len_of(toks) < toks.len() ==> spec_finger_of_word(
            toks[spec_finger_prefix_len_of(toks)],
        ) is None,
    decreases toks.len(),
{
    if toks.len() == 0 {
    } else if spec_finger_of_word(toks[0]) is None {
    } else {
        lemma_finger_prefix_props(toks.drop_first());
        assert forall|i: int|
            0 <= i < spec_finger_prefix_len_of(toks) implies spec_finger_of_word(
            #[trigger] toks[i],
        ) is Some by {
            if i > 0 {
                assert(toks.drop_first()[i - 1] == toks[i]);
            }
        }
        if spec_finger_prefix_len_of(toks) < toks.len() {
            assert(toks.drop_first()[spec_finger_prefix_len_of(toks.drop_first()) as int]
                == toks[spec_finger_prefix_len_of(toks)]);
        }
    }
}

/// Short alias so the statements above stay readable.
pub open spec fn spec_finger_prefix_len_of(toks: Seq<Seq<char>>) -> int {
    crate::parse::spec_finger_prefix_len(toks) as int
}

/// Every combo the parser produces is well-formed.
proof fn lemma_parse_lines_wf(lines: Seq<Seq<char>>, no: int, cs: Seq<ComboView>)
    requires
        spec_parse_lines(lines, no) == ParseOutcome::Combos(cs),
        forall|t: int, i: int|
            0 <= t < lines.len() && 0 <= i < lines[t].len() ==> (#[trigger] lines[t][i]) != '\n',
    ensures
        forall|j: int| 0 <= j < cs.len() ==> combo_wf(#[trigger] cs[j]),
    decreases lines.len(),
{
    if lines.len() == 0 {
    } else {
        let rest = lines.drop_first();
        assert forall|t: int, i: int|
            0 <= t < rest.len() && 0 <= i < rest[t].len() implies (#[trigger] rest[t][i])
            != '\n' by {
            assert(rest[t] == lines[t + 1]);
        }
        match spec_parse_line(lines[0]) {
            LineOutcome::Skip => {
                lemma_parse_lines_wf(rest, no + 1, cs);
            },
            LineOutcome::NoFingers => {
                assert(false);
            },
            LineOutcome::MissingKey => {
                assert(false);
            },
            LineOutcome::Parsed(c) => {
                match spec_parse_lines(rest, no + 1) {
                    ParseOutcome::Combos(cs2) => {
                        lemma_parse_lines_wf(rest, no + 1, cs2);
                        assert(cs == seq![c] + cs2);
                        lemma_line_combo_wf(lines[0]);
                        assert(combo_wf(c));
                        assert forall|j: int| 0 <= j < cs.len() implies combo_wf(
                            #[trigger] cs[j],
                        ) by {
                            if j == 0 {
                                assert(cs[0] == c);
                            } else {
                                assert(cs[j] == cs2[j - 1]);
                            }
                        }
                    },
                    _ => {
                        assert(false);
                    },
                }
            },
        }
    }
}

/// A combo parsed from a newline-free line is well-formed.
proof fn lemma_line_combo_wf(line: Seq<char>)
    requires
        forall|i: int| 0 <= i < line.len() ==> (#[trigger] line[i]) != '\n',
    ensures
        spec_parse_line(line) matches LineOutcome::Parsed(c) ==> combo_wf(c),
{
    let toks = spec_tokens(line);
    crate::parse::lemma_tokens_nonempty(line, Seq::empty());
    lemma_tokens_chars(line, Seq::empty());
    lemma_finger_prefix_props(toks);
    match spec_parse_line(line) {
        LineOutcome::Parsed(c) => {
            let k = spec_finger_prefix_len_of(toks);
            assert(c.key == toks[k]);
            assert(c.key.len() >= 1);
            assert(spec_finger_of_word(c.key) is None);
        },
        _ => {
        },
    }
}

/// Everything the parser accepts is a sequence of well-formed combos.
pub proof fn lemma_parsed_combos_wf(t: Seq<char>, cs: Seq<ComboView>)
    requires
        spec_parse(t) == ParseOutcome::Combos(cs),
    ensures
        forall|j: int| 0 <= j < cs.len() ==> combo_wf(#[trigger] cs[j]),
{
    lemma_lines_no_newline(t, Seq::empty());
    lemma_parse_lines_wf(spec_lines(t), 1, cs);
}

/// Peeling the first finger name off a rendered finger list.
proof fn lemma_render_fingers_front(fs: Seq<Finger>)
    requires
        fs.len() >= 2,
    ensures
        spec_render_fingers(fs) == fs[0].spec_name() + seq![' '] + spec_render_fingers(
            fs.drop_first(),
        ),
    decreases fs.len(),
{
    if fs.len() == 2 {
        assert(fs.drop_last() =~= seq![fs[0]]);
        assert(fs.drop_first() =~= seq![fs[1]]);
        assert(spec_render_fingers(seq![fs[0]]) == fs[0].spec_name());
        assert(spec_render_fingers(seq![fs[1]]) == fs[1].spec_name());
        assert(spec_render_fingers(fs) =~= fs[0].spec_name() + seq![' ']
            + spec_render_fingers(fs.drop_first()));
    } else {
        let dl = fs.drop_last();
        let df = fs.drop_first();
        lemma_render_fingers_front(dl);
        assert(dl.drop_first() =~= df.drop_last());
        assert(df.last() == fs.last());
        assert(df.len() >= 2);
        assert(spec_render_fingers(fs) == spec_render_fingers(dl) + seq![' ']
            + fs.last().spec_name());
        assert(spec_render_fingers(df) == spec_render_fingers(df.drop_last()) + seq![' ']
            + df.last().spec_name());
        assert(spec_render_fingers(fs) =~= fs[0].spec_name() + seq![' ']
            + spec_render_fingers(df));
    }
}

/// Peeling the first line off a rendered config.
proof fn lemma_render_config_front(cs: Seq<ComboView>)
    requires
        cs.len() >= 2,
    ensures
        spec_render_config(cs) == spec_render_combo(cs[0]) + seq!['\n'] + spec_render_config(
            cs.drop_first(),
        ),
    decreases cs.len(),
{
    if cs.len() == 2 {
        assert(cs.drop_last() =~= seq![cs[0]]);
        assert(cs.drop_first() =~= seq![cs[1]]);
        assert(spec_render_config(seq![cs[0]]) == spec_render_combo(cs[0]));
        assert(spec_render_config(seq![cs[1]]) == spec_render_combo(cs[1]));
        assert(spec_render_config(cs) =~= spec_render_combo(cs[0]) + seq!['\n']
            + spec_render_config(cs.drop_first()));
    } else {
        let dl = cs.drop_last();
        let df = cs.drop_first();
        lemma_render_config_front(dl);
        assert(dl.drop_first() =~= df.drop_last());
        assert(df.last() == cs.last());
        assert(df.len() >= 2);
        assert(spec_render_config(cs) == spec_render_config(dl) + seq!['\n'] + spec_render_combo(
            cs.last(),
        ));
        assert(spec_render_config(df) == spec_render_config(df.drop_last()) + seq!['\n']
            + spec_render_combo(df.last()));
        assert(spec_render_config(cs) =~= spec_render_combo(cs[0]) + seq!['\n']
            + spec_render_config(df));
    }
}

/// Reading a run of non-space characters moves it into the partial
/// word.
proof fn lemma_tokens_acc_word(w: Seq<char>, s: Seq<char>, cur: Seq<char>)
    requires
        forall|i: int| 0 <= i < w.len() ==> !is_space_char(#[trigger] w[i]),
    ensures
        spec_tokens_acc(w + s, cur) == spec_tokens_acc(s, cur + w),
    decreases w.len(),
{
    if w.len() == 0 {
        assert(w + s =~= s);
        assert(cur + w =~= cur);
    } else {
        let ws = w + s;
        assert(ws[0] == w[0]);
        assert(ws.drop_first() =~= w.drop_first() + s);
        lemma_tokens_acc_word(w.drop_first(), s, cur.push(w[0]));
        assert(cur.push(w[0]) + w.drop_first() =~= cur + w);
    }
}

/// A space flushes a non-empty partial word.
proof fn lemma_tokens_acc_space(s: Seq<char>, cur: Seq<char>)
    requires
        cur.len() > 0,
    ensures
        spec_tokens_acc(seq![' '] + s, cur) == seq![cur] + spec_tokens_acc(s, Seq::empty()),
{
    let ss = seq![' '] + s;
    assert(ss[0] == ' ');
    assert(ss.drop_first() =~= s);
}

/// Reading a run of non-newline characters moves it into the partial
/// line.
proof fn lemma_lines_acc_word(w: Seq<char>, s: Seq<char>, cur: Seq<char>)
    requires
        forall|i: int| 0 <= i < w.len() ==> (#[trigger] w[i]) != '\n',
    ensures
        spec_lines_acc(w + s, cur) == spec_lines_acc(s, cur + w),
    decreases w.len(),
{
    if w.len() == 0 {
        assert(w + s =~= s);
        assert(cur + w =~= cur);
    } else {
        let ws = w + s;
        assert(ws[0] == w[0]);
        assert(ws.drop_first() =~= w.drop_first() + s);
        lemma_lines_acc_word(w.drop_first(), s, cur.push(w[0]));
        assert(cur.push(w[0]) + w.drop_first() =~= cur + w);
    }
}

/// A rendered finger list holds no newline and is non-empty.
proof fn lemma_render_fingers_chars(fs: Seq<Finger>)
    ensures
        fs.len() >= 1 ==> spec_render_fingers(fs).len() >= 2,
        forall|i: int|
            0 <= i < spec_render_fingers(fs).len() ==> (#[trigger] spec_render_fingers(fs)[i])
                != '\n',
    decreases fs.len(),
{
    if fs.len() == 0 {
    } else if fs.len() == 1 {
        lemma_name_wf(fs[0]);
    } else {
        lemma_render_fingers_chars(fs.drop_last());
        lemma_name_wf(fs.last());
    }
}

/// A rendered combo line holds no newline and is non-empty.
proof fn lemma_render_combo_chars(c: ComboView)
    requires
        combo_wf(c),
    ensures
        spec_render_combo(c).len() >= 1,
        forall|i: int|
            0 <= i < spec_render_combo(c).len() ==> (#[trigger] spec_render_combo(c)[i]) != '\n',
{
    lemma_render_fingers_chars(c.fingers);
}

/// The words of a rendered combo line are exactly the finger names
/// followed by the key token.
proof fn lemma_tokens_fingers_key(fs: Seq<Finger>, key: Seq<char>)
    requires
        fs.len() >= 1,
        key.len() >= 1,
        forall|i: int| 0 <= i < key.len() ==> !is_space_char(#[trigger] key[i]),
    ensures
        spec_tokens(spec_render_fingers(fs) + seq![' '] + key) == fs.map_values(
            |f: Finger| f.spec_name(),
        ) + seq![key],
    decreases fs.len(),
{
    let names = fs.map_values(|f: Finger| f.spec_name());
    if fs.len() == 1 {
        lemma_name_wf(fs[0]);
        let name = fs[0].spec_name();
        let text = spec_render_fingers(fs) + seq![' '] + key;
        assert(text =~= name + (seq![' '] + key));
        lemma_tokens_acc_word(name, seq![' '] + key, Seq::empty());
        assert(Seq::empty() + name =~= name);
        lemma_tokens_acc_space(key, name);
        lemma_tokens_acc_word(key, Seq::empty(), Seq::empty());
        assert(key + Seq::<char>::empty() =~= key);
        assert(Seq::empty() + key =~= key);
        assert(spec_tokens_acc(Seq::empty(), key) == seq![key]);
        assert(spec_tokens(text) == seq![name] + seq![key]);
        assert(seq![name] + seq![key] =~= names + seq![key]);
    } else {
        lemma_render_fingers_front(fs);
        lemma_name_wf(fs[0]);
        let df = fs.drop_first();
        let name = fs[0].spec_name();
        let rest_text = spec_render_fingers(df) + seq![' '] + key;
        let text = spec_render_fingers(fs) + seq![' '] + key;
        assert(text =~= name + (seq![' '] + rest_text));
        lemma_tokens_acc_word(name, seq![' '] + rest_text, Seq::empty());
        assert(Seq::empty() + name =~= name);
        lemma_tokens_acc_space(rest_text, name);
        lemma_tokens_fingers_key(df, key);
        assert(spec_tokens(text) == seq![name] + (df.map_values(|f: Finger| f.spec_name())
            + seq![key]));
        let dnames = df.map_values(|f: Finger| f.spec_name());
        assert forall|j: int| 0 <= j < df.len() implies #[trigger] dnames[j] == names[j + 1] by {
            assert(df[j] == fs[j + 1]);
        }
        assert(seq![name] + (dnames + seq![key]) =~= names + seq![key]);
    }
}

/// A well-formed combo's rendered line parses back to that combo.
proof fn lemma_parse_line_render(c: ComboView)
    requires
        combo_wf(c),
    ensures
        spec_parse_line(spec_render_combo(c)) == LineOutcome::Parsed(c),
{
    let line = spec_render_combo(c);
    lemma_tokens_fingers_key(c.fingers, c.key);
    let names = c.fingers.map_values(|f: Finger| f.spec_name());
    let toks = spec_tokens(line);
    assert(toks == names + seq![c.key]);
    let k = c.fingers.len() as int;
    assert(toks.len() == k + 1);
    assert(toks[0] == c.fingers[0].spec_name());
    lemma_name_wf(c.fingers[0]);
    assert(toks[0][0] != '#');
    assert forall|i: int| 0 <= i < k implies spec_finger_of_word(#[trigger] toks[i]) is Some by {
        assert(toks[i] == c.fingers[i].spec_name());
        lemma_name_parses(c.fingers[i]);
    }
    assert(toks[k] == c.key);
    lemma_finger_prefix_len(toks, k);
    match spec_parse_line(line) {
        LineOutcome::Parsed(c2) => {
            assert forall|i: int| 0 <= i < k implies c2.fingers[i] == c.fingers[i] by {
                assert(toks[i] == c.fingers[i].spec_name());
                lemma_name_parses(c.fingers[i]);
            }
            assert(c2.fingers =~= c.fingers);
            assert(c2.key == c.key);
            assert(c2 == c);
        },
        _ => {
            assert(false);
        },
    }
}

/// The lines of a rendered config are exactly the rendered combo
/// lines.
proof fn lemma_lines_render(cs: Seq<ComboView>)
    requires
        forall|j: int| 0 <= j < cs.len() ==> combo_wf(#[trigger] cs[j]),
    ensures
        spec_lines(spec_render_config(cs)) == cs.map_values(|c: ComboView| spec_render_combo(c)),
    decreases cs.len(),
{
    let lines = cs.map_values(|c: ComboView| spec_render_combo(c));
    if cs.len() == 0 {
        assert(spec_render_config(cs) =~= Seq::<char>::empty());
        assert(spec_lines(Seq::<char>::empty()) =~= Seq::<Seq<char>>::empty());
        assert(lines =~= Seq::<Seq<char>>::empty());
    } else if cs.len() == 1 {
        let line = spec_render_combo(cs[0]);
        lemma_render_combo_chars(cs[0]);
        lemma_lines_acc_word(line, Seq::empty(), Seq::empty());
        assert(line + Seq::<char>::empty() =~= line);
        assert(Seq::empty() + line =~= line);
        assert(spec_lines_acc(Seq::empty(), line) == seq![line]);
        assert(spec_lines(spec_render_config(cs)) == seq![line]);
        assert(seq![line] =~= lines);
    } else {
        lemma_render_config_front(cs);
        let df = cs.drop_first();
        let line = spec_render_combo(cs[0]);
        let rest_text = spec_render_config(df);
        lemma_render_combo_chars(cs[0]);
        let text = spec_render_config(cs);
        assert(text =~= line + (seq!['\n'] + rest_text));
        lemma_lines_acc_word(line, seq!['\n'] + rest_text, Seq::empty());
        assert(Seq::empty() + line =~= line);
        let nl = seq!['\n'] + rest_text;
        assert(nl[0] == '\n');
        assert(nl.drop_first() =~= rest_text);
        assert(spec_lines_acc(nl, line) == seq![line] + spec_lines_acc(rest_text, Seq::empty()));
        assert forall|j: int| 0 <= j < df.len() implies df[j] == cs[j + 1] by {}
        lemma_lines_render(df);
        assert(spec_lines(text) == seq![line] + df.map_values(
            |c: ComboView| spec_render_combo(c),
        ));
        let dlines = df.map_values(|c: ComboView| spec_render_combo(c));
        assert forall|j: int| 0 <= j < df.len() implies #[trigger] dlines[j] == lines[j + 1] by {
            assert(df[j] == cs[j + 1]);
        }
        assert(seq![line] + dlines =~= lines);
    }
}

/// Parsing the rendered lines of well-formed combos yields exactly
/// those combos, whatever the first line number.
proof fn lemma_parse_rendered_lines(cs: Seq<ComboView>, no: int)
    requires
        forall|j: int| 0 <= j < cs.len() ==> combo_wf(#[trigger] cs[j]),
    ensures
        spec_parse_lines(cs.map_values(|c: ComboView| spec_render_combo(c)), no)
            == ParseOutcome::Combos(cs),
    decreases cs.len(),
{
    let lines = cs.map_values(|c: ComboView| spec_render_combo(c));
    if cs.len() == 0 {
        assert(lines.len() == 0);
        assert(cs =~= Seq::<ComboView>::empty());
    } else {
        let df = cs.drop_first();
        assert(lines[0] == spec_render_combo(cs[0]));
        lemma_parse_line_render(cs[0]);
        assert forall|j: int| 0 <= j < df.len() implies combo_wf(#[trigger] df[j]) by {
            assert(df[j] == cs[j + 1]);
        }
        lemma_parse_rendered_lines(df, no + 1);
        assert(lines.drop_first() =~= df.map_values(|c: ComboView| spec_render_combo(c)));
        assert(spec_parse_lines(lines, no) == (match spec_parse_lines(lines.drop_first(), no + 1) {
            ParseOutcome::Combos(cs2) => ParseOutcome::Combos(seq![cs[0]] + cs2),
            e => e,
        }));
        assert(seq![cs[0]] + df =~= cs);
    }
}

/// Rendering well-formed combos and parsing the text back yields the
/// same combos.
pub proof fn lemma_parse_render_round_trip(cs: Seq<ComboView>)
    requires
        forall|j: int| 0 <= j < cs.len() ==> combo_wf(#[trigger] cs[j]),
    ensures
        spec_parse(spec_render_config(cs)) == ParseOutcome::Combos(cs),
{
    lemma_lines_render(cs);
    lemma_parse_rendered_lines(cs, 1);
}

/// The parse/render round trip: whatever combo sequence a layout text
/// parses to, rendering it and parsing again yields the same
/// sequence.
pub proof fn lemma_round_trip(t: Seq<char>, cs: Seq<ComboView>)
    requires
        spec_parse(t) == ParseOutcome::Combos(cs),
    ensures
        spec_parse(spec_render_config(cs)) == ParseOutcome::Combos(cs),
{
    lemma_parsed_combos_wf(t, cs);
    lemma_parse_render_round_trip(cs);
}

} // verus!
