use vstd::prelude::*;

use crate::count::{
    count_true, lemma_all_false_count, lemma_count_true_bounded, lemma_count_true_set,
};
use crate::graph::BuildState;

verus! {

/// `c` is a non-empty cycle of members, each depending directly on the next
/// and the last on the first.
pub open spec fn is_member_cycle(state: &BuildState, members: Seq<bool>, c: Seq<usize>) -> bool {
    &&& c.len() > 0
    &&& forall|k: int|
        #![trigger c[k]]
        0 <= k < c.len() ==> c[k] < state.n() && members[c[k] as int]
    &&& forall|k: int|
        #![trigger c[k]]
        0 <= k < c.len() - 1 ==> state.deps_of(c[k]).contains(c[k + 1])
    &&& state.deps_of(c.last()).contains(c[0])
}

/// Member `x` depends directly on some member.
pub open spec fn has_member_dep(state: &BuildState, members: Seq<bool>, x: usize) -> bool {
    exists|k: int|
        #![trigger state.deps_of(x)[k]]
        0 <= k < state.deps_of(x).len() && state.deps_of(x)[k] < state.n()
            && members[state.deps_of(x)[k] as int]
}

/// Every member depends directly on some member, and there is a member: then
/// following dependencies never leaves the members and must close a cycle.
pub open spec fn members_stuck(state: &BuildState, members: Seq<bool>) -> bool {
    &&& exists|x: int| 0 <= x < members.len() && #[trigger] members[x]
    &&& forall|x: usize| #![trigger members[x as int]] x < state.n() && members[x as int]
        ==> has_member_dep(state, members, x)
}

/// First member that `x` depends on.
fn member_dep(state: &BuildState, members: &Vec<bool>, x: usize) -> (r: Option<usize>)
    requires
        x < state.n(),
        members@.len() == state.n(),
    ensures
        r matches Some(y) ==> y < state.n() && members@[y as int] && state.deps_of(x).contains(y),
        r is None ==> !has_member_dep(state, members@, x),
{
    let ds = &state.modules[x].deps;
    let n = members.len();
    let mut k: usize = 0;
    while k < ds.len()
        invariant
            *ds == state.modules@[x as int].deps,
            n == state.n(),
            members@.len() == n,
            k <= ds@.len(),
            forall|k2: int|
                0 <= k2 < k ==> !(#[trigger] ds@[k2] < n && members@[ds@[k2] as int]),
        decreases ds@.len() - k,
    {
        let d = ds[k];
        if d < n && members[d] {
            assert(state.deps_of(x)[k as int] == d);
            return Some(d);
        }
        k += 1;
    }
    None
}

/// Finds a cycle among the members by following member dependencies from the
/// first member until a module repeats.
pub fn find(state: &BuildState, members: &Vec<bool>) -> (r: Option<Vec<usize>>)
    requires
        members@.len() == state.n(),
    ensures
        r matches Some(c) ==> is_member_cycle(state, members@, c@),
        members_stuck(state, members@) ==> r is Some,
{
    let n = members.len();
    let mut start: usize = 0;
    while start < n && !members[start]
        invariant
            n == members@.len(),
            start <= n,
            forall|x: int| 0 <= x < start ==> !members@[x],
        decreases n - start,
    {
        start += 1;
    }
    if start == n {
        return None;
    }
    // pos[i] is the place of module i on the path, or n when it is not there
    let mut pos: Vec<usize> = Vec::new();
    while pos.len() < n
        invariant
            n == members@.len(),
            pos@.len() <= n,
            forall|i: int| 0 <= i < pos@.len() ==> pos@[i] == n,
        decreases n - pos@.len(),
    {
        pos.push(n);
    }
    let mut path: Vec<usize> = Vec::new();
    let mut x = start;
    let ghost mut seen: Seq<bool> = Seq::new(n as nat, |i: int| false);
    proof {
        lemma_all_false_count(seen);
    }
    loop
        invariant
            n == state.n(),
            n == members@.len(),
            pos@.len() == n,
            seen.len() == n,
            x < n,
            members@[x as int],
            path@.len() == count_true(seen),
            forall|i: int| 0 <= i < n ==> (seen[i] <==> pos@[i] < n),
            forall|i: int| 0 <= i < n && pos@[i] < n ==> pos@[i] < path@.len() && path@[pos@[i] as int] == i,
            forall|k: int|
                0 <= k < path@.len() ==> path@[k] < n && members@[path@[k] as int] && pos@[path@[k] as int]
                    == k,
            forall|k: int|
                0 <= k < path@.len() - 1 ==> state.deps_of(#[trigger] path@[k]).contains(path@[k + 1]),
            path@.len() > 0 ==> state.deps_of(path@.last()).contains(x),
        decreases n - path@.len(),
    {
        proof {
            lemma_count_true_bounded(seen);
        }
        let p = pos[x];
        if p < n {
            let mut c: Vec<usize> = Vec::new();
            let mut k = p;
            let len = path.len();
            while k < len
                invariant
                    p <= k <= len,
                    len == path@.len(),
                    p < len,
                    path@[p as int] == x,
                    c@ == path@.subrange(p as int, k as int),
                decreases len - k,
            {
                c.push(path[k]);
                k += 1;
            }
            proof {
                assert(c@ == path@.subrange(p as int, len as int));
                assert forall|j: int| 0 <= j < c@.len() - 1 implies state.deps_of(#[trigger] c@[j]).contains(
                    c@[j + 1],
                ) by {
                    assert(c@[j] == path@[p + j]);
                    assert(c@[j + 1] == path@[p + j + 1]);
                }
                assert(c@.last() == path@.last());
                assert forall|j: int| 0 <= j < c@.len() implies #[trigger] c@[j] < state.n() && members@[c@[j] as int] by {
                    assert(c@[j] == path@[p + j]);
                }
            }
            return Some(c);
        }
        proof {
            lemma_count_true_set(seen, x as int);
            lemma_count_true_bounded(seen.update(x as int, true));
        }
        pos.set(x, path.len());
        path.push(x);
        proof {
            seen = seen.update(x as int, true);
        }
        match member_dep(state, members, x) {
            Some(y) => {
                x = y;
            },
            None => {
                return None;
            },
        }
    }
}

} // verus!
