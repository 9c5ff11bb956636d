//! Portable entry names. Inside an archive every path uses forward slashes,
//! whatever separator the host filesystem wrote, so a package built on one
//! system unpacks on any other.

use vstd::prelude::*;

verus! {

/// A path separator as a host may write it.
pub open spec fn is_separator(c: char) -> bool {
    c == '/' || c == '\\'
}

/// The portable form of a relative path: every backslash becomes a forward
/// slash and every other character stays what it was.
pub open spec fn portable_of(p: Seq<char>) -> Seq<char> {
    p.map_values(|c: char| if c == '\\' { '/' } else { c })
}

/// Rewrites a relative path into its portable form.
pub fn portable_path(p: &Vec<char>) -> (r: Vec<char>)
    ensures
        r@ == portable_of(p@),
{
    let mut out: Vec<char> = Vec::new();
    let mut i: usize = 0;
    while i < p.len()
        invariant
            i <= p@.len(),
            out@ =~= portable_of(p@).take(i as int),
        decreases p@.len() - i,
    {
        let c = p[i];
        if c == '\\' {
            out.push('/');
        } else {
            out.push(c);
        }
        i = i + 1;
        proof {
            assert(out@ =~= portable_of(p@).take(i as int));
        }
    }
    proof {
        assert(out@ =~= portable_of(p@));
    }
    out
}

/// Path portability: the portable form of a path holds no backslash, turns
/// every separator into a forward slash, and leaves every other character
/// unchanged.
pub proof fn lemma_portable_paths(p: Seq<char>)
    ensures
        portable_of(p).len() == p.len(),
        forall|i: int| 0 <= i < p.len() ==> #[trigger] portable_of(p)[i] != '\\',
        forall|i: int| 0 <= i < p.len() ==> (#[trigger] portable_of(p)[i] == '/' <==> is_separator(
            p[i],
        )),
        forall|i: int|
            0 <= i < p.len() && !is_separator(p[i]) ==> #[trigger] portable_of(p)[i] == p[i],
{
}

} // verus!
