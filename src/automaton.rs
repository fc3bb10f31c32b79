//! The outside automaton, as the engine sees it: what it was built from and
//! which occurrence a search reports.

use crate::model::{is_first_match, no_occurrence, views};
use aho_corasick::AhoCorasick;
use vstd::prelude::*;

verus! {

/// A compiled multi-pattern automaton. Its only content that the engine
/// reads is the pattern list it was built from, `automaton_patterns`.
/// Held opaquely: Verus refuses a declaration of `AhoCorasick<S: StateID>`,
/// whose bound is a trait of that crate.
#[verifier::external_body]
pub struct Automaton {
    ac: AhoCorasick,
}

/// The patterns an automaton was built from, in the order given (index = pattern ID).
pub uninterp spec fn automaton_patterns(a: Automaton) -> Seq<Seq<u8>>;

/// Relies on `aho_corasick::AhoCorasick::new`: it builds an automaton over the
/// given patterns, in their order, with the default standard match semantics.
#[verifier::external_body]
pub(crate) fn build_automaton(patterns: &[Vec<u8>]) -> (r: Automaton)
    ensures
        automaton_patterns(r) == views(patterns@),
{
    Automaton { ac: AhoCorasick::new(patterns) }
}

/// Relies on `aho_corasick::AhoCorasick::find` under standard semantics: the
/// search stops at the first position where some pattern ends, and reports the
/// first match of the state reached there, which is the longest pattern ending
/// there (lowest index among identical ones): `find` runs `earliest_find_at`
/// from the start state, and each NFA state lists its own patterns, in
/// insertion order, before those copied from its failure state.
/// Returns (start, end, pattern).
/// Stated for automata without empty patterns.
#[verifier::external_body]
pub(crate) fn find_first(a: &Automaton, hay: &[u8]) -> (r: Option<(usize, usize, usize)>)
    requires
        forall|i: int|
            0 <= i < automaton_patterns(*a).len() ==> #[trigger] automaton_patterns(*a)[i].len()
                > 0,
    ensures
        match r {
            Some(m) => {
                &&& is_first_match(automaton_patterns(*a), hay@, m.0 as int, m.2 as int)
                &&& m.1 == m.0 + automaton_patterns(*a)[m.2 as int].len()
            },
            None => no_occurrence(automaton_patterns(*a), hay@),
        },
{
    match a.ac.find(hay) {
        Some(m) => Some((m.start(), m.end(), m.pattern())),
        None => None,
    }
}

} // verus!
