//! Concatenation of markdown documents into one monolithic document.

use vstd::prelude::*;

use crate::text::string_views;

verus! {

/// The concatenation of the given documents, each followed by a blank line.
pub open spec fn spec_mono_doc(docs: Seq<Seq<char>>) -> Seq<char>
    decreases docs.len(),
{
    if docs.len() == 0 {
        Seq::empty()
    } else {
        spec_mono_doc(docs.drop_last()) + docs.last() + "\n\n"@
    }
}

/// Concatenates already-read documents into one, a blank line after each.
/// Reading the files themselves is the caller's concern.
pub fn compile_mono_doc(contents: &Vec<String>) -> (r: String)
    ensures
        r@ == spec_mono_doc(string_views(contents@)),
{
    let ghost all = string_views(contents@);
    let mut out = String::new();
    let mut i: usize = 0;
    while i < contents.len()
        invariant
            i <= contents.len(),
            out@ == spec_mono_doc(all.take(i as int)),
        decreases contents.len() - i,
    {
        out.append(contents[i].as_str());
        out.append("\n\n");
        proof {
            assert(all.take(i + 1).drop_last() =~= all.take(i as int));
            assert(all.take(i + 1).last() == all[i as int]);
            assert(all[i as int] == contents@[i as int]@);
        }
        i = i + 1;
    }
    proof {
        assert(all.take(contents@.len() as int) =~= all);
    }
    out
}

} // verus!
