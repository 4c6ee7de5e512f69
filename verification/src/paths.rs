use vstd::prelude::*;

verus! {

/// The display form of a path given as components: the components joined
/// with `/` separators.
pub open spec fn render_spec(parts: Seq<Seq<char>>) -> Seq<char>
    decreases parts.len(),
{
    if parts.len() == 0 {
        Seq::empty()
    } else if parts.len() == 1 {
        parts[0]
    } else {
        render_spec(parts.drop_last()) + seq!['/'] + parts.last()
    }
}

/// `pre` is a component-wise prefix of `p`: the path `p` equals `pre` or
/// lies somewhere below it in the tree.
pub open spec fn is_prefix_of(pre: Seq<Seq<char>>, p: Seq<Seq<char>>) -> bool {
    pre.len() <= p.len() && p.subrange(0, pre.len() as int) == pre
}

/// `p` lies strictly below `pre`: under it, but not equal to it.
pub open spec fn is_strictly_under(p: Seq<Seq<char>>, pre: Seq<Seq<char>>) -> bool {
    pre.len() < p.len() && p.subrange(0, pre.len() as int) == pre
}

/// `p` lies under (or equals) one of the given roots.
pub open spec fn under_any(p: Seq<Seq<char>>, roots: Seq<Seq<Seq<char>>>) -> bool {
    exists|i: int| 0 <= i < roots.len() && is_prefix_of(roots[i], p)
}

/// Component-wise prefix test between two paths.
pub fn path_starts_with(p: &Vec<String>, pre: &Vec<String>) -> (r: bool)
    ensures
        r == is_prefix_of(pre.deep_view(), p.deep_view()),
{
    if pre.len() > p.len() {
        return false;
    }
    let mut i: usize = 0;
    while i < pre.len()
        invariant
            0 <= i <= pre.len() <= p.len(),
            p.len() == p.deep_view().len(),
            pre.len() == pre.deep_view().len(),
            forall|j: int| 0 <= j < i ==> p.deep_view()[j] == pre.deep_view()[j],
        decreases pre.len() - i,
    {
        let eq = p[i] == pre[i];
        if !eq {
            assert(p.deep_view()[i as int] != pre.deep_view()[i as int]);
            assert(!is_prefix_of(pre.deep_view(), p.deep_view())) by {
                if is_prefix_of(pre.deep_view(), p.deep_view()) {
                    assert(p.deep_view().subrange(0, pre.deep_view().len() as int)[i as int]
                        == pre.deep_view()[i as int]);
                }
            }
            return false;
        }
        i += 1;
    }
    assert(p.deep_view().subrange(0, pre.deep_view().len() as int) =~= pre.deep_view());
    true
}

/// Whether `p` lies under any of the given roots.
pub fn path_under_any(p: &Vec<String>, roots: &Vec<Vec<String>>) -> (r: bool)
    ensures
        r == under_any(p.deep_view(), roots.deep_view()),
{
    let mut i: usize = 0;
    while i < roots.len()
        invariant
            0 <= i <= roots.len(),
            roots.len() == roots.deep_view().len(),
            forall|j: int| 0 <= j < i ==> !is_prefix_of(roots.deep_view()[j], p.deep_view()),
        decreases roots.len() - i,
    {
        if path_starts_with(p, &roots[i]) {
            assert(roots.deep_view()[i as int] == roots[i as int].deep_view());
            return true;
        }
        assert(roots.deep_view()[i as int] == roots[i as int].deep_view());
        i += 1;
    }
    false
}

/// A path extended by one more component.
pub fn join_path(dir: &Vec<String>, name: &String) -> (r: Vec<String>)
    ensures
        r.deep_view() == dir.deep_view().push(name@),
{
    let mut r = clone_parts(dir);
    r.push(name.clone());
    assert(r.deep_view() =~= dir.deep_view().push(name@));
    r
}

/// A copy of a component path.
pub fn clone_parts(p: &Vec<String>) -> (r: Vec<String>)
    ensures
        r.deep_view() == p.deep_view(),
{
    let mut r: Vec<String> = Vec::new();
    let mut i: usize = 0;
    while i < p.len()
        invariant
            0 <= i <= p.len(),
            p.len() == p.deep_view().len(),
            r.deep_view() =~= p.deep_view().subrange(0, i as int),
        decreases p.len() - i,
    {
        let ghost prev = r.deep_view();
        let elem = p[i].clone();
        assert(elem@ == p.deep_view()[i as int]);
        r.push(elem);
        proof {
            assert(r.deep_view() =~= prev.push(p.deep_view()[i as int])) by {
                assert(forall|k: int| 0 <= k < prev.len() ==> r.deep_view()[k] == prev[k]);
            }
            assert(r.deep_view() =~= p.deep_view().subrange(0, i + 1 as int));
        }
        i += 1;
    }
    assert(r.deep_view() =~= p.deep_view());
    r
}

} // verus!
