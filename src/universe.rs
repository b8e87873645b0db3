use vstd::prelude::*;

use crate::count::{count_true, lemma_count_true_bounded, lemma_count_true_set};
use crate::graph::BuildState;

verus! {

/// `u` marks a set of modules that holds every dirty module and every
/// dependent of each of its members.
pub open spec fn closed_superset(state: &BuildState, u: Seq<bool>) -> bool {
    &&& u.len() == state.n()
    &&& forall|i: usize| #![trigger u[i as int]] i < state.n() && state.dirty(i) ==> u[i as int]
    &&& forall|i: usize, k: int|
        #![trigger u[i as int], state.dependents_of(i)[k]]
        i < state.n() && u[i as int] && 0 <= k < state.dependents_of(i).len() ==> u[state.dependents_of(
            i,
        )[k] as int]
}

/// `u` is the compile universe: the least set of modules that holds the dirty
/// ones and is closed under dependents.
pub open spec fn is_universe(state: &BuildState, u: Seq<bool>) -> bool {
    &&& closed_superset(state, u)
    &&& forall|v: Seq<bool>|
        #![trigger closed_superset(state, v)]
        closed_superset(state, v) ==> forall|i: int| 0 <= i < u.len() && u[i] ==> v[i]
}

/// The dirty modules together with all their transitive dependents.
pub fn compile_universe(state: &BuildState) -> (u: Vec<bool>)
    requires
        state.wf(),
    ensures
        is_universe(state, u@),
{
    let n = state.modules.len();
    let mut u: Vec<bool> = Vec::new();
    let mut i: usize = 0;
    while i < n
        invariant
            n == state.n(),
            i <= n,
            u@.len() == i,
            forall|k: int| 0 <= k < i ==> u@[k] == state.dirty(k as usize),
        decreases n - i,
    {
        u.push(state.modules[i].compile_dirty);
        i += 1;
    }
    assert forall|v: Seq<bool>| closed_superset(state, v) implies forall|x: int|
        0 <= x < u@.len() && u@[x] ==> v[x] by {
        assert forall|x: int| 0 <= x < u@.len() && u@[x] implies v[x] by {
            assert(state.dirty(x as usize));
            assert(u@[x as usize as int] == u@[x]);
        }
    }
    loop
        invariant
            n == state.n(),
            state.wf(),
            u@.len() == n,
            forall|x: usize| #![trigger u@[x as int]] x < n && state.dirty(x) ==> u@[x as int],
            forall|v: Seq<bool>|
                #![trigger closed_superset(state, v)]
                closed_superset(state, v) ==> forall|x: int| 0 <= x < u@.len() && u@[x] ==> v[x],
        decreases n - count_true(u@),
    {
        let ghost u0 = u@;
        let mut changed = false;
        let mut i: usize = 0;
        while i < n
            invariant
                n == state.n(),
                state.wf(),
                u@.len() == n,
                i <= n,
                forall|x: usize| #![trigger u@[x as int]] x < n && state.dirty(x) ==> u@[x as int],
                forall|v: Seq<bool>|
                    #![trigger closed_superset(state, v)]
                    closed_superset(state, v) ==> forall|x: int|
                        0 <= x < u@.len() && u@[x] ==> v[x],
                u0.len() == n,
                forall|x: int| 0 <= x < n && u0[x] ==> u@[x],
                !changed ==> u@ == u0,
                changed ==> count_true(u@) > count_true(u0),
                forall|x: usize, k: int|
                    #![trigger u@[x as int], state.dependents_of(x)[k]]
                    x < i && u0[x as int] && 0 <= k < state.dependents_of(x).len()
                        ==> u@[state.dependents_of(x)[k] as int],
            decreases n - i,
        {
            if u[i] {
                let ds = &state.modules[i].dependents;
                let mut k: usize = 0;
                while k < ds.len()
                    invariant
                        n == state.n(),
                        state.wf(),
                        i < n,
                        u@[i as int],
                        *ds == state.modules@[i as int].dependents,
                        u@.len() == n,
                        k <= ds@.len(),
                        forall|x: usize|
                            #![trigger u@[x as int]]
                            x < n && state.dirty(x) ==> u@[x as int],
                        forall|v: Seq<bool>|
                            #![trigger closed_superset(state, v)]
                            closed_superset(state, v) ==> forall|x: int|
                                0 <= x < u@.len() && u@[x] ==> v[x],
                        u0.len() == n,
                        forall|x: int| 0 <= x < n && u0[x] ==> u@[x],
                        !changed ==> u@ == u0,
                        changed ==> count_true(u@) > count_true(u0),
                        forall|x: usize, k2: int|
                            #![trigger u@[x as int], state.dependents_of(x)[k2]]
                            x < i && u0[x as int] && 0 <= k2 < state.dependents_of(x).len()
                                ==> u@[state.dependents_of(x)[k2] as int],
                        forall|k2: int| 0 <= k2 < k ==> #[trigger] ds@[k2] < n && u@[ds@[k2] as int],
                    decreases ds@.len() - k,
                {
                    let d = ds[k];
                    assert(state.dependents_of(i)[k as int] == d);
                    if !u[d] {
                        let ghost before = u@;
                        proof {
                            lemma_count_true_set(before, d as int);
                        }
                        u.set(d, true);
                        assert forall|v: Seq<bool>| closed_superset(state, v) implies forall|x: int|
                            0 <= x < u@.len() && u@[x] ==> v[x] by {
                            assert(v[i as int]);
                            assert(v[d as int]);
                            assert forall|x: int| 0 <= x < u@.len() && u@[x] implies v[x] by {
                                if x != d as int {
                                    assert(before[x]);
                                }
                            }
                        }
                        changed = true;
                    }
                    k += 1;
                }
            }
            i += 1;
        }
        if !changed {
            proof {
                lemma_count_true_bounded(u@);
            }
            return u;
        }
        proof {
            lemma_count_true_bounded(u@);
        }
    }
}

} // verus!
