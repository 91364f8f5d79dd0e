//! Text substitution commands written as `s/pattern/replacement/flags`.

use vstd::prelude::*;

use crate::text::{push_char, push_str};

verus! {

/// The pieces of a text between the separators, in order; empty pieces are kept.
pub open spec fn pieces(s: Seq<char>, sep: char) -> Seq<Seq<char>>
    decreases s.len(),
{
    if s.len() == 0 {
        seq![Seq::empty()]
    } else {
        let w = pieces(s.drop_last(), sep);
        if s.last() == sep {
            w.push(Seq::empty())
        } else {
            w.update(w.len() - 1, w.last().push(s.last()))
        }
    }
}

proof fn lemma_pieces_nonempty(s: Seq<char>, sep: char)
    ensures
        pieces(s, sep).len() >= 1,
    decreases s.len(),
{
    if s.len() > 0 {
        lemma_pieces_nonempty(s.drop_last(), sep);
    }
}

fn split_on(text: &str, sep: char) -> (r: Vec<Vec<char>>)
    ensures
        r@.len() == pieces(text@, sep).len(),
        forall|i: int| 0 <= i < r@.len() ==> #[trigger] r@[i]@ == pieces(text@, sep)[i],
{
    let n = text.unicode_len();
    let mut acc: Vec<Vec<char>> = Vec::new();
    acc.push(Vec::new());
    proof {
        assert(text@.subrange(0, 0) =~= Seq::<char>::empty());
        assert(acc@[0]@ =~= Seq::<char>::empty());
    }
    let mut i: usize = 0;
    while i < n
        invariant
            n == text@.len(),
            i <= n,
            acc@.len() == pieces(text@.subrange(0, i as int), sep).len(),
            forall|k: int| 0 <= k < acc@.len() ==> #[trigger] acc@[k]@ == pieces(text@.subrange(0, i as int), sep)[k],
        decreases n - i,
    {
        let c = text.get_char(i);
        let ghost before = text@.subrange(0, i as int);
        proof {
            let after = text@.subrange(0, i as int + 1);
            assert(after.drop_last() =~= before);
            assert(after.last() == c);
            lemma_pieces_nonempty(before, sep);
        }
        if c == sep {
            acc.push(Vec::new());
            proof {
                assert(acc@.last()@ =~= Seq::<char>::empty());
            }
        } else {
            let last = acc.len() - 1;
            let mut piece = Vec::new();
            std::mem::swap(&mut piece, &mut acc[last]);
            piece.push(c);
            acc.set(last, piece);
        }
        i = i + 1;
    }
    assert(text@.subrange(0, n as int) =~= text@);
    acc
}

fn to_string(cs: &Vec<char>) -> (r: String)
    ensures
        r@ == cs@,
{
    let mut s = String::new();
    let mut j: usize = 0;
    while j < cs.len()
        invariant
            j <= cs@.len(),
            s@ == cs@.subrange(0, j as int),
        decreases cs@.len() - j,
    {
        push_char(&mut s, cs[j]);
        j = j + 1;
        assert(s@ =~= cs@.subrange(0, j as int));
    }
    assert(s@ =~= cs@);
    s
}

/// A substitution: what to look for, what to put in its place, and whether every occurrence
/// is replaced or only the first.
pub struct SedCommand {
    pattern: String,
    replacement: String,
    global: bool,
}

/// A substitution, as plain values.
pub struct SedView {
    pub pattern: Seq<char>,
    pub replacement: Seq<char>,
    pub global: bool,
}

impl View for SedCommand {
    type V = SedView;

    closed spec fn view(&self) -> SedView {
        SedView { pattern: self.pattern@, replacement: self.replacement@, global: self.global }
    }
}

/// The command a text writes: after the first '/', two pieces (pattern and replacement) or
/// three (with flags, where 'g' asks for every occurrence); any other count writes none.
pub open spec fn sed_spec(text: Seq<char>) -> Option<SedView> {
    let p = pieces(text, '/');
    if p.len() == 3 {
        Some(SedView { pattern: p[1], replacement: p[2], global: false })
    } else if p.len() == 4 {
        Some(SedView { pattern: p[1], replacement: p[2], global: p[3].contains('g') })
    } else {
        None
    }
}

/// What replacing every occurrence of `from` in `s` by `to` gives, as `str::replace` does it.
pub uninterp spec fn replaced_all(s: Seq<char>, from: Seq<char>, to: Seq<char>) -> Seq<char>;

/// What replacing the first occurrence of `from` in `s` by `to` gives, as `str::replacen` with
/// a count of one does it.
pub uninterp spec fn replaced_first(s: Seq<char>, from: Seq<char>, to: Seq<char>) -> Seq<char>;

/// Relies on `str::replace`: the result depends on the three texts alone.
#[verifier::external_body]
pub(crate) fn replace_all(s: &str, from: &str, to: &str) -> (r: String)
    ensures
        r@ == replaced_all(s@, from@, to@),
{
    s.replace(from, to)
}

/// Relies on `str::replacen` with a count of one: the result depends on the three texts alone.
#[verifier::external_body]
fn replace_first(s: &str, from: &str, to: &str) -> (r: String)
    ensures
        r@ == replaced_first(s@, from@, to@),
{
    s.replacen(from, to, 1)
}

/// The text quoted as a block.
pub fn quoted(text: &str) -> (r: String)
    ensures
        r@ == "<blockquote>"@ + text@ + "</blockquote>"@,
{
    let mut r = String::new();
    push_str(&mut r, "<blockquote>");
    push_str(&mut r, text);
    push_str(&mut r, "</blockquote>");
    r
}

impl SedCommand {
    /// Reads the command that the text writes, if any.
    pub fn parse(text: &str) -> (r: Option<SedCommand>)
        ensures
            match r {
                Some(c) => sed_spec(text@) == Some(c@),
                None => sed_spec(text@) is None,
            },
    {
        let p = split_on(text, '/');
        if p.len() == 3 || p.len() == 4 {
            let pattern = to_string(&p[1]);
            let replacement = to_string(&p[2]);
            let mut global = false;
            if p.len() == 4 {
                let flags = &p[3];
                let mut j: usize = 0;
                while j < flags.len()
                    invariant
                        p@.len() == 4,
                        flags@ == p@[3]@,
                        j <= flags@.len(),
                        global == exists|k: int| 0 <= k < j && flags@[k] == 'g',
                    decreases flags@.len() - j,
                {
                    if flags[j] == 'g' {
                        global = true;
                    }
                    j = j + 1;
                }
            }
            Some(SedCommand { pattern, replacement, global })
        } else {
            None
        }
    }

    /// The text to look for.
    pub fn pattern(&self) -> (r: &str)
        ensures
            r@ == self@.pattern,
    {
        self.pattern.as_str()
    }

    /// The text to put in its place.
    pub fn replacement(&self) -> (r: &str)
        ensures
            r@ == self@.replacement,
    {
        self.replacement.as_str()
    }

    /// Every occurrence is replaced, not only the first.
    pub fn is_global(&self) -> (r: bool)
        ensures
            r == self@.global,
    {
        self.global
    }

    /// The text with the substitution made, quoted as a block.
    pub fn apply(&self, text: &str) -> (r: String)
        ensures
            r@ == "<blockquote>"@ + (if self@.global {
                replaced_all(text@, self@.pattern, self@.replacement)
            } else {
                replaced_first(text@, self@.pattern, self@.replacement)
            }) + "</blockquote>"@,
    {
        let changed = if self.global {
            replace_all(text, self.pattern.as_str(), self.replacement.as_str())
        } else {
            replace_first(text, self.pattern.as_str(), self.replacement.as_str())
        };
        quoted(changed.as_str())
    }
}

} // verus!
