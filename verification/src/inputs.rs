use vstd::prelude::*;

use crate::text::{concat, eq_str, lemma_strs_push, strs};

verus! {

pub open spec fn node_lines(names: Seq<Seq<char>>) -> Seq<Seq<char>>
    decreases names.len(),
{
    if names.len() == 0 {
        Seq::empty()
    } else if names.last() == "root"@ {
        node_lines(names.drop_last())
    } else {
        node_lines(names.drop_last()).push("  "@ + names.last())
    }
}

/// The lines listing a flake's lock nodes, leaving out `root`.
pub fn input_node_lines(names: &[String]) -> (r: Vec<String>)
    ensures
        strs(r@) == node_lines(strs(names@)),
{
    let mut r: Vec<String> = Vec::new();
    let mut i: usize = 0;
    while i < names.len()
        invariant
            i <= names.len(),
            strs(r@) == node_lines(strs(names@).take(i as int)),
        decreases names.len() - i,
    {
        assert(strs(names@).take(i + 1).drop_last() =~= strs(names@).take(i as int));
        if !eq_str(names[i].as_str(), "root") {
            let ghost before = r@;
            let l = concat("  ", names[i].as_str());
            r.push(l);
            proof {
                lemma_strs_push(before, l);
            }
        }
        i = i + 1;
    }
    assert(strs(names@).take(i as int) =~= strs(names@));
    r
}

} // verus!
