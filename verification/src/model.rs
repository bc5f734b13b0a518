//! The combo table: one finger-set-to-key mapping per line of layout
//! text, held in source order.

use vstd::prelude::*;

use crate::finger::Finger;
use crate::text::push_char;

verus! {

/// The mathematical value of a [`Combo`]: its fingers in source order
/// and its output key token.
pub ghost struct ComboView {
    pub fingers: Seq<Finger>,
    pub key: Seq<char>,
}

impl ComboView {
    /// The finger set of a combo, with the order and multiplicity of
    /// the source line forgotten.
    pub open spec fn finger_set(self) -> Set<Finger> {
        self.fingers.to_set()
    }
}

/// One finger-set-to-key mapping, parsed from one line of layout text.
#[derive(Debug)]
pub struct Combo {
    pub fingers: Vec<Finger>,
    pub key: String,
}

impl View for Combo {
    type V = ComboView;

    open spec fn view(&self) -> ComboView {
        ComboView { fingers: self.fingers@, key: self.key@ }
    }
}

impl Clone for Combo {
    fn clone(&self) -> (r: Self)
        ensures
            r@ == self@,
    {
        Combo { fingers: self.fingers.clone(), key: self.key.clone() }
    }
}

/// The text of one combo line: the finger names separated by single
/// spaces, then a single space and the key token.
pub open spec fn spec_render_fingers(fs: Seq<Finger>) -> Seq<char>
    decreases fs.len(),
{
    if fs.len() == 0 {
        Seq::empty()
    } else if fs.len() == 1 {
        fs[0].spec_name()
    } else {
        spec_render_fingers(fs.drop_last()) + seq![' '] + fs.last().spec_name()
    }
}

/// The text of one combo line.
pub open spec fn spec_render_combo(c: ComboView) -> Seq<char> {
    spec_render_fingers(c.fingers) + seq![' '] + c.key
}

/// The layout text of a combo sequence: one line per combo, separated
/// by newlines, with no trailing newline.
pub open spec fn spec_render_config(cs: Seq<ComboView>) -> Seq<char>
    decreases cs.len(),
{
    if cs.len() == 0 {
        Seq::empty()
    } else if cs.len() == 1 {
        spec_render_combo(cs[0])
    } else {
        spec_render_config(cs.drop_last()) + seq!['\n'] + spec_render_combo(cs.last())
    }
}

impl Combo {
    /// The fingers of this combo, in source order.
    pub fn fingers(&self) -> (r: &Vec<Finger>)
        ensures
            r@ == self@.fingers,
    {
        &self.fingers
    }

    /// The output key token of this combo.
    pub fn key(&self) -> (r: &String)
        ensures
            r@ == self@.key,
    {
        &self.key
    }

    /// This combo as one line of layout text.
    pub fn render(&self) -> (r: String)
        ensures
            r@ == spec_render_combo(self@),
    {
        let mut out = String::new();
        let mut i: usize = 0;
        while i < self.fingers.len()
            invariant
                i <= self.fingers@.len(),
                out@ == spec_render_fingers(self.fingers@.subrange(0, i as int)),
            decreases self.fingers@.len() - i,
        {
            if i > 0 {
                push_char(&mut out, ' ');
            }
            let name = self.fingers[i].name();
            out.append(name);
            proof {
                let pre = self.fingers@.subrange(0, i as int);
                let cur = self.fingers@.subrange(0, i + 1 as int);
                assert(cur.drop_last() =~= pre);
                assert(cur.last() == self.fingers@[i as int]);
                if i == 0 {
                    assert(out@ =~= spec_render_fingers(cur));
                }
            }
            i = i + 1;
        }
        proof {
            assert(self.fingers@.subrange(0, self.fingers@.len() as int) =~= self.fingers@);
        }
        push_char(&mut out, ' ');
        out.append(self.key.as_str());
        out
    }
}

/// An ordered sequence of combos, as parsed from one layout text.
#[derive(Debug)]
pub struct Config {
    pub combos: Vec<Combo>,
}

impl View for Config {
    type V = Seq<ComboView>;

    open spec fn view(&self) -> Seq<ComboView> {
        self.combos@.map_values(|c: Combo| c@)
    }
}

impl Config {
    /// The combos of this config, in source order.
    pub fn combos(&self) -> (r: &Vec<Combo>)
        ensures
            r@.len() == self@.len(),
            forall|i: int| 0 <= i < r@.len() ==> r@[i]@ == self@[i],
    {
        &self.combos
    }

    /// This config rendered back to layout text, one combo per line.
    pub fn render(&self) -> (r: String)
        ensures
            r@ == spec_render_config(self@),
    {
        let mut out = String::new();
        let mut i: usize = 0;
        while i < self.combos.len()
            invariant
                i <= self.combos@.len(),
                self@.len() == self.combos@.len(),
                forall|j: int| 0 <= j < self.combos@.len() ==> self.combos@[j]@ == self@[j],
                out@ == spec_render_config(self@.subrange(0, i as int)),
            decreases self.combos@.len() - i,
        {
            if i > 0 {
                push_char(&mut out, '\n');
            }
            let line = self.combos[i].render();
            out.append(line.as_str());
            proof {
                let pre = self@.subrange(0, i as int);
                let cur = self@.subrange(0, i + 1 as int);
                assert(cur.drop_last() =~= pre);
                assert(cur.last() == self@[i as int]);
                if i == 0 {
                    assert(out@ =~= spec_render_config(cur));
                }
            }
            i = i + 1;
        }
        proof {
            assert(self@.subrange(0, self@.len() as int) =~= self@);
        }
        out
    }
}

} // verus!
