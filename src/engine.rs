//! The scan-and-splice engine: a matcher built once from the patterns, a
//! search for the next match, and the substitution that drives it.

use crate::automaton::{automaton_patterns, build_automaton, find_first, Automaton};
use crate::model::{
    all_non_empty, is_first_match, lemma_identity_without_occurrence, lemma_substitute_step,
    no_occurrence, substitute, views,
};
use vstd::prelude::*;
use vstd::slice::slice_subrange;

verus! {

/// A match reported by a scan: bytes `start..end` of the text are pattern `pattern`.
#[derive(Clone, Copy, Debug, PartialEq, Eq)]
pub struct Match {
    pub start: usize,
    pub end: usize,
    pub pattern: usize,
}

/// A set of literal patterns compiled for searching; never changed by a search.
pub struct Matcher {
    automaton: Automaton,
}

impl View for Matcher {
    type V = Seq<Seq<u8>>;

    /// The patterns, index = pattern ID.
    closed spec fn view(&self) -> Seq<Seq<u8>> {
        automaton_patterns(self.automaton)
    }
}

impl Matcher {
    /// A matcher is searchable when none of its patterns is empty.
    pub open spec fn wf(&self) -> bool {
        all_non_empty(self@)
    }

    /// Compiles the patterns, kept in their order.
    pub fn new(patterns: &[Vec<u8>]) -> (m: Matcher)
        requires
            all_non_empty(views(patterns@)),
        ensures
            m@ == views(patterns@),
            m.wf(),
    {
        Matcher { automaton: build_automaton(patterns) }
    }

    /// The first match of a scan of `text` that starts at `at`, in positions of `text`.
    pub fn find(&self, text: &[u8], at: usize) -> (r: Option<Match>)
        requires
            self.wf(),
            at <= text@.len(),
        ensures
            match r {
                Some(m) => {
                    &&& at <= m.start
                    &&& is_first_match(
                        self@,
                        text@.subrange(at as int, text@.len() as int),
                        m.start - at,
                        m.pattern as int,
                    )
                    &&& m.end == m.start + self@[m.pattern as int].len()
                },
                None => no_occurrence(self@, text@.subrange(at as int, text@.len() as int)),
            },
    {
        let hay = slice_subrange(text, at, text.len());
        match find_first(&self.automaton, hay) {
            Some((s, e, i)) => Some(Match { start: at + s, end: at + e, pattern: i }),
            None => None,
        }
    }

    /// Replaces, in one left-to-right pass, each match of a scan of `text`
    /// with the replacement of the same index, and copies the rest unchanged.
    pub fn substitute(&self, replacements: &[Vec<u8>], text: &[u8]) -> (r: Vec<u8>)
        requires
            self.wf(),
            replacements@.len() == self@.len(),
        ensures
            r@ == substitute(self@, views(replacements@), text@),
    {
        let ghost pats = self@;
        let ghost reps = views(replacements@);
        let ghost whole = substitute(pats, reps, text@);
        let mut out: Vec<u8> = Vec::new();
        let mut pos: usize = 0;
        assert(text@.subrange(0, text@.len() as int) =~= text@);
        assert(out@ + whole =~= whole);
        loop
            invariant
                self.wf(),
                pats == self@,
                reps == views(replacements@),
                whole == substitute(pats, reps, text@),
                replacements@.len() == pats.len(),
                pos <= text@.len(),
                out@ + substitute(pats, reps, text@.subrange(pos as int, text@.len() as int))
                    == whole,
            decreases text@.len() - pos,
        {
            let ghost rest = text@.subrange(pos as int, text@.len() as int);
            match self.find(text, pos) {
                None => {
                    proof {
                        lemma_identity_without_occurrence(pats, reps, rest);
                    }
                    append_range(&mut out, text, pos, text.len());
                    return out;
                },
                Some(m) => {
                    let ghost s = m.start - pos;
                    let ghost e = s + pats[m.pattern as int].len();
                    proof {
                        lemma_substitute_step(pats, reps, rest, s, m.pattern as int);
                        assert(rest.subrange(0, s) =~= text@.subrange(pos as int, m.start as int));
                        assert(rest.subrange(e, rest.len() as int) =~= text@.subrange(
                            m.end as int,
                            text@.len() as int,
                        ));
                    }
                    let ghost before = out@;
                    append_range(&mut out, text, pos, m.start);
                    let rep = replacements[m.pattern].as_slice();
                    append_range(&mut out, rep, 0, rep.len());
                    proof {
                        assert(rep@.subrange(0, rep@.len() as int) =~= reps[m.pattern as int]);
                        assert(out@ =~= before + rest.subrange(0, s) + reps[m.pattern as int]);
                    }
                    pos = m.end;
                },
            }
        }
    }
}

/// Appends `src[from..to]` to `out`.
fn append_range(out: &mut Vec<u8>, src: &[u8], from: usize, to: usize)
    requires
        from <= to <= src@.len(),
    ensures
        final(out)@ == old(out)@ + src@.subrange(from as int, to as int),
{
    let ghost start = out@;
    let mut k: usize = from;
    while k < to
        invariant
            from <= k <= to,
            to <= src@.len(),
            out@ == start + src@.subrange(from as int, k as int),
        decreases to - k,
    {
        out.push(src[k]);
        k = k + 1;
        assert(out@ =~= start + src@.subrange(from as int, k as int));
    }
}

/// Builds a matcher over `patterns` and substitutes `replacements[i]` for
/// each match of pattern `i` in one scan of `text`.
pub fn replace(patterns: &[Vec<u8>], replacements: &[Vec<u8>], text: &[u8]) -> (r: Vec<u8>)
    requires
        all_non_empty(views(patterns@)),
        replacements@.len() == patterns@.len(),
    ensures
        r@ == substitute(views(patterns@), views(replacements@), text@),
{
    let matcher = Matcher::new(patterns);
    matcher.substitute(replacements, text)
}

} // verus!
