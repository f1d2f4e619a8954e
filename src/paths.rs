use vstd::prelude::*;

verus! {

/// The views of a sequence of strings.
pub open spec fn strings_view(v: Seq<String>) -> Seq<Seq<char>> {
    v.map_values(|s: String| s@)
}

pub proof fn lemma_strings_view_push(v: Seq<String>, s: String)
    ensures
        strings_view(v.push(s)) == strings_view(v).push(s@),
{
    assert(strings_view(v.push(s)) =~= strings_view(v).push(s@));
}

/// Whether `target` is, as a whole string, one of `paths`.
pub fn contains_path(paths: &Vec<String>, target: &String) -> (r: bool)
    ensures
        r == strings_view(paths@).contains(target@),
{
    let mut i: usize = 0;
    while i < paths.len()
        invariant
            i <= paths.len(),
            forall|k: int| 0 <= k < i ==> paths@[k]@ != target@,
        decreases paths.len() - i,
    {
        if paths[i].eq(target) {
            assert(strings_view(paths@)[i as int] == target@);
            return true;
        }
        i += 1;
    }
    assert(!strings_view(paths@).contains(target@)) by {
        assert forall|k: int| 0 <= k < paths@.len() implies strings_view(paths@)[k] != target@ by {
            assert(strings_view(paths@)[k] == paths@[k]@);
        }
    }
    false
}

} // verus!
