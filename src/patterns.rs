//! Building the pattern list: each variable name wrapped in a prefix and a
//! suffix delimiter.

use crate::model::{all_non_empty, views};
use vstd::prelude::*;

verus! {

/// The delimiters written around a variable name to form its pattern.
#[derive(Debug)]
pub struct Delimiters {
    pub prefix: Vec<u8>,
    pub suffix: Vec<u8>,
}

/// The pattern of `name` between `prefix` and `suffix`.
pub open spec fn delimited(prefix: Seq<u8>, name: Seq<u8>, suffix: Seq<u8>) -> Seq<u8> {
    prefix + name + suffix
}

impl Default for Delimiters {
    /// `%` (byte 37) on both sides.
    fn default() -> (d: Delimiters)
        ensures
            d.prefix@ == seq![37u8],
            d.suffix@ == seq![37u8],
    {
        let mut prefix: Vec<u8> = Vec::new();
        prefix.push(37u8);
        let mut suffix: Vec<u8> = Vec::new();
        suffix.push(37u8);
        Delimiters { prefix, suffix }
    }
}

impl Delimiters {
    /// The pattern of one variable name.
    pub fn pattern(&self, name: &[u8]) -> (r: Vec<u8>)
        ensures
            r@ == delimited(self.prefix@, name@, self.suffix@),
    {
        let mut r: Vec<u8> = Vec::new();
        push_all(&mut r, self.prefix.as_slice());
        push_all(&mut r, name);
        push_all(&mut r, self.suffix.as_slice());
        r
    }
}

/// Appends all of `src` to `out`.
fn push_all(out: &mut Vec<u8>, src: &[u8])
    ensures
        final(out)@ == old(out)@ + src@,
{
    let ghost start = out@;
    let mut k: usize = 0;
    while k < src.len()
        invariant
            k <= src@.len(),
            out@ == start + src@.subrange(0, k as int),
        decreases src@.len() - k,
    {
        out.push(src[k]);
        k = k + 1;
        assert(out@ =~= start + src@.subrange(0, k as int));
    }
    assert(src@.subrange(0, src@.len() as int) =~= src@);
}

/// The patterns of the variables `vars`, in their order, each between
/// `prefix` and `suffix`.
pub fn get_patterns(vars: &[Vec<u8>], prefix: &[u8], suffix: &[u8]) -> (r: Vec<Vec<u8>>)
    ensures
        r@.len() == vars@.len(),
        forall|i: int|
            0 <= i < vars@.len() ==> #[trigger] r@[i]@ == delimited(prefix@, vars@[i]@, suffix@),
{
    let mut delims = Delimiters { prefix: Vec::new(), suffix: Vec::new() };
    push_all(&mut delims.prefix, prefix);
    push_all(&mut delims.suffix, suffix);
    let mut r: Vec<Vec<u8>> = Vec::new();
    let mut k: usize = 0;
    while k < vars.len()
        invariant
            k <= vars@.len(),
            delims.prefix@ == prefix@,
            delims.suffix@ == suffix@,
            r@.len() == k,
            forall|i: int|
                0 <= i < k ==> #[trigger] r@[i]@ == delimited(prefix@, vars@[i]@, suffix@),
        decreases vars@.len() - k,
    {
        let p = delims.pattern(vars[k].as_slice());
        r.push(p);
        k = k + 1;
    }
    r
}

/// Whether every pattern is non-empty, as a search requires.
pub fn all_patterns_non_empty(patterns: &[Vec<u8>]) -> (b: bool)
    ensures
        b == all_non_empty(views(patterns@)),
{
    let mut k: usize = 0;
    while k < patterns.len()
        invariant
            k <= patterns@.len(),
            forall|i: int| 0 <= i < k ==> #[trigger] patterns@[i]@.len() > 0,
        decreases patterns@.len() - k,
    {
        if patterns[k].len() == 0 {
            assert(views(patterns@)[k as int].len() == 0);
            return false;
        }
        k = k + 1;
    }
    assert(forall|i: int| 0 <= i < patterns@.len() ==> #[trigger] views(patterns@)[i] == patterns@[i]@);
    true
}

} // verus!
