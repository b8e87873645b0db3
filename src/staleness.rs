use vstd::prelude::*;

use crate::graph::{contains_id, BuildState, Module, SourceType};

verus! {

/// Some dependency of module `i` is a deleted module.
pub open spec fn has_deleted_dep(state: &BuildState, i: usize) -> bool {
    exists|k: int|
        0 <= k < state.deps_of(i).len() && state.deleted_modules@.contains(
            #[trigger] state.deps_of(i)[k],
        )
}

/// `state` is `old` with exactly the modules that `mark` selects made dirty.
pub open spec fn marked_where(
    old: &BuildState,
    state: &BuildState,
    mark: spec_fn(usize) -> bool,
) -> bool {
    &&& state.modules@.len() == old.modules@.len()
    &&& state.deleted_modules@ == old.deleted_modules@
    &&& forall|i: usize|
        #![trigger state.modules@[i as int]]
        i < old.n() ==> state.modules@[i as int] == if mark(i) {
            Module { compile_dirty: true, ..old.modules@[i as int] }
        } else {
            old.modules@[i as int]
        }
}

/// Makes dirty the modules selected by `marks`, which was computed on the
/// state as it is on entry.
fn apply_marks(state: &mut BuildState, marks: &Vec<bool>, Ghost(mark): Ghost<spec_fn(usize) -> bool>)
    requires
        marks@.len() == old(state).n(),
        forall|i: usize| i < old(state).n() ==> marks@[i as int] == #[trigger] mark(i),
    ensures
        marked_where(old(state), final(state), mark),
{
    let ghost st0 = *state;
    let n = state.modules.len();
    let mut i: usize = 0;
    while i < n
        invariant
            n == st0.n(),
            i <= n,
            marks@.len() == n,
            forall|x: usize| x < n ==> marks@[x as int] == #[trigger] mark(x),
            state.modules@.len() == n,
            state.deleted_modules@ == st0.deleted_modules@,
            forall|x: usize|
                #![trigger state.modules@[x as int]]
                x < n ==> state.modules@[x as int] == if x < i && mark(x) {
                    Module { compile_dirty: true, ..st0.modules@[x as int] }
                } else {
                    st0.modules@[x as int]
                },
        decreases n - i,
    {
        if marks[i] {
            state.mark_dirty(i);
        }
        i += 1;
    }
}

/// Makes dirty every module that depends on a deleted module.
pub fn mark_modules_with_deleted_deps_dirty(state: &mut BuildState)
    ensures
        marked_where(old(state), final(state), |i: usize| has_deleted_dep(old(state), i)),
{
    let ghost st0 = *state;
    let n = state.modules.len();
    let mut marks: Vec<bool> = Vec::new();
    let mut i: usize = 0;
    while i < n
        invariant
            n == state.n(),
            *state == st0,
            i <= n,
            marks@.len() == i,
            forall|x: usize| x < i ==> marks@[x as int] == has_deleted_dep(state, x),
        decreases n - i,
    {
        let ds = &state.modules[i].deps;
        let mut found = false;
        let mut k: usize = 0;
        while k < ds.len()
            invariant
                i < state.n(),
                *ds == state.modules@[i as int].deps,
                k <= ds@.len(),
                found <==> exists|j: int|
                    0 <= j < k && state.deleted_modules@.contains(#[trigger] ds@[j]),
            decreases ds@.len() - k,
        {
            if contains_id(&state.deleted_modules, ds[k]) {
                found = true;
            }
            k += 1;
        }
        assert(ds@ == state.deps_of(i));
        assert(found == has_deleted_dep(state, i)) by {
            if found {
                let j = choose|j: int| 0 <= j < ds@.len() && state.deleted_modules@.contains(#[trigger] ds@[j]);
                assert(state.deleted_modules@.contains(state.deps_of(i)[j]));
            }
        }
        marks.push(found);
        i += 1;
    }
    apply_marks(state, &marks, Ghost(|i: usize| has_deleted_dep(&st0, i)));
}


/// Source module `m` lacks a recorded interface or typed-tree time while
/// source dependent `d` relies on it.
pub open spec fn source_expired(state: &BuildState, m: usize, d: usize) -> bool {
    &&& state.modules@[d as int].source_type is SourceFile
    &&& (state.modules@[m as int].last_compiled_cmi is None
        || state.modules@[m as int].last_compiled_cmt is None)
}

/// `e` was last compiled before the interface of `m`.
pub open spec fn compiled_before(state: &BuildState, e: usize, m: usize) -> bool {
    &&& state.modules@[e as int].last_compiled_cmt is Some
    &&& state.modules@[m as int].last_compiled_cmi is Some
    &&& state.modules@[e as int].last_compiled_cmt->0 < state.modules@[m as int].last_compiled_cmi->0
}

/// Dependent `d` of source module `m` is stale: a source dependent with no
/// recorded compile or compiled before `m`'s interface; a namespace dependent
/// with a dependent of its own compiled before `m`'s interface.
pub open spec fn dependent_expired(state: &BuildState, m: usize, d: usize) -> bool {
    match state.modules@[d as int].source_type {
        SourceType::SourceFile(_) => state.modules@[d as int].last_compiled_cmt is None
            || compiled_before(state, d, m),
        SourceType::MlMap(_) => exists|j: int|
            0 <= j < state.dependents_of(d).len() && compiled_before(
                state,
                #[trigger] state.dependents_of(d)[j],
                m,
            ),
    }
}

/// The pairs of the first `upto` dependents of source module `m` call for
/// module `i` to be rebuilt.
pub open spec fn expired_by(state: &BuildState, m: usize, upto: int, i: usize) -> bool {
    &&& !state.modules@[m as int].is_mlmap()
    &&& exists|k: int|
        #![trigger state.dependents_of(m)[k]]
        0 <= k < upto && {
            let d = state.dependents_of(m)[k];
            (i == m && source_expired(state, m, d)) || (i == d && dependent_expired(state, m, d))
        }
}

/// Module `i` is stale with respect to its recorded compile times.
pub open spec fn expired(state: &BuildState, i: usize) -> bool {
    exists|m: usize|
        #![trigger expired_by(state, m, state.dependents_of(m).len() as int, i)]
        m < state.n() && expired_by(state, m, state.dependents_of(m).len() as int, i)
}

proof fn lemma_expired_by_step(state: &BuildState, m: usize, k: int, x: usize)
    requires
        0 <= k < state.dependents_of(m).len(),
    ensures
        expired_by(state, m, k + 1, x) == (expired_by(state, m, k, x) || (
        !state.modules@[m as int].is_mlmap() && ((x == m && source_expired(
            state,
            m,
            state.dependents_of(m)[k],
        )) || (x == state.dependents_of(m)[k] && dependent_expired(
            state,
            m,
            state.dependents_of(m)[k],
        ))))),
{
    if expired_by(state, m, k + 1, x) {
        let k2 = choose|k2: int|
            #![trigger state.dependents_of(m)[k2]]
            0 <= k2 < k + 1 && {
                let d = state.dependents_of(m)[k2];
                (x == m && source_expired(state, m, d)) || (x == d && dependent_expired(state, m, d))
            };
        if k2 < k {
            assert(expired_by(state, m, k, x));
        }
    }
    if expired_by(state, m, k, x) {
        let k2 = choose|k2: int|
            #![trigger state.dependents_of(m)[k2]]
            0 <= k2 < k && {
                let d = state.dependents_of(m)[k2];
                (x == m && source_expired(state, m, d)) || (x == d && dependent_expired(state, m, d))
            };
        assert(0 <= k2 < k + 1);
    }
}

fn has_compiled_before(state: &BuildState, e: usize, m: usize) -> (r: bool)
    requires
        e < state.n(),
        m < state.n(),
    ensures
        r == compiled_before(state, e, m),
{
    match (state.modules[e].last_compiled_cmt, state.modules[m].last_compiled_cmi) {
        (Some(a), Some(b)) => a < b,
        _ => false,
    }
}

/// Whether the pair (`m`, `d`) marks `m`, and whether it marks `d`.
fn pair_marks(state: &BuildState, m: usize, d: usize) -> (r: (bool, bool))
    requires
        state.wf(),
        m < state.n(),
        d < state.n(),
    ensures
        r.0 == source_expired(state, m, d),
        r.1 == dependent_expired(state, m, d),
{
    let mm = &state.modules[m];
    match &state.modules[d].source_type {
        SourceType::SourceFile(_) => {
            let a = mm.last_compiled_cmi.is_none() || mm.last_compiled_cmt.is_none();
            let b = state.modules[d].last_compiled_cmt.is_none() || has_compiled_before(state, d, m);
            (a, b)
        },
        SourceType::MlMap(_) => {
            let es = &state.modules[d].dependents;
            let mut found = false;
            let mut j: usize = 0;
            while j < es.len()
                invariant
                    state.wf(),
                    m < state.n(),
                    d < state.n(),
                    *es == state.modules@[d as int].dependents,
                    j <= es@.len(),
                    found <==> exists|j2: int|
                        0 <= j2 < j && compiled_before(state, #[trigger] es@[j2], m),
                decreases es@.len() - j,
            {
                assert(state.dependents_of(d)[j as int] == es@[j as int]);
                if has_compiled_before(state, es[j], m) {
                    found = true;
                }
                j += 1;
            }
            proof {
                assert(es@ == state.dependents_of(d));
                if found {
                    let j2 = choose|j2: int| 0 <= j2 < es@.len() && compiled_before(state, #[trigger] es@[j2], m);
                    assert(compiled_before(state, state.dependents_of(d)[j2], m));
                }
            }
            (false, found)
        },
    }
}

/// Makes dirty every module whose recorded compile times are inconsistent
/// with those of a module it depends on, as after an interrupted build. A
/// dependent is stale when its typed tree was compiled before the interface
/// of the module it depends on: the interface is what dependents are checked
/// against. A source module without both recorded times is itself stale.
pub fn mark_modules_with_expired_deps_dirty(state: &mut BuildState)
    requires
        old(state).wf(),
    ensures
        marked_where(old(state), final(state), |i: usize| expired(old(state), i)),
{
    let ghost st0 = *state;
    let n = state.modules.len();
    let mut marks: Vec<bool> = Vec::new();
    while marks.len() < n
        invariant
            marks@.len() <= n,
            forall|x: int| 0 <= x < marks@.len() ==> !marks@[x],
        decreases n - marks@.len(),
    {
        marks.push(false);
    }
    let mut m: usize = 0;
    while m < n
        invariant
            n == state.n(),
            *state == st0,
            state.wf(),
            m <= n,
            marks@.len() == n,
            forall|x: usize|
                x < n ==> marks@[x as int] == exists|m2: usize|
                    #![trigger expired_by(state, m2, state.dependents_of(m2).len() as int, x)]
                    m2 < m && expired_by(state, m2, state.dependents_of(m2).len() as int, x),
        decreases n - m,
    {
        let ghost marks0 = marks@;
        let is_source = match &state.modules[m].source_type {
            SourceType::SourceFile(_) => true,
            SourceType::MlMap(_) => false,
        };
        if is_source {
            let len = state.modules[m].dependents.len();
            let mut k: usize = 0;
            while k < len
                invariant
                    n == state.n(),
                    state.wf(),
                    m < n,
                    !state.modules@[m as int].is_mlmap(),
                    len == state.dependents_of(m).len(),
                    k <= len,
                    marks@.len() == n,
                    marks0.len() == n,
                    forall|x: usize|
                        #![trigger marks@[x as int]]
                        x < n ==> marks@[x as int] == (marks0[x as int] || expired_by(state, m, k as int, x)),
                decreases len - k,
            {
                let d = state.modules[m].dependents[k];
                assert(state.dependents_of(m)[k as int] == d);
                let (a, b) = pair_marks(state, m, d);
                let ghost before = marks@;
                if a {
                    marks.set(m, true);
                }
                if b {
                    marks.set(d, true);
                }
                proof {
                    assert forall|x: usize| x < n implies #[trigger] marks@[x as int] == (marks0[x as int]
                        || expired_by(state, m, k + 1, x)) by {
                        lemma_expired_by_step(state, m, k as int, x);
                        assert(marks@[x as int] == (before[x as int] || (x == m && a) || (x == d && b)));
                        assert(before[x as int] == (marks0[x as int] || expired_by(state, m, k as int, x))) by {
                            assert(x < n);
                        }
                    }
                }
                k += 1;
            }
            assert(forall|x: usize|
                x < n ==> marks@[x as int] == (marks0[x as int] || expired_by(
                    state,
                    m,
                    state.dependents_of(m).len() as int,
                    x,
                )));
        }
        assert(marks0.len() == n);
        assert forall|x: usize| x < n implies marks@[x as int] == exists|m2: usize|
            #![trigger expired_by(state, m2, state.dependents_of(m2).len() as int, x)]
            m2 < m + 1 && expired_by(state, m2, state.dependents_of(m2).len() as int, x) by {
            if marks@[x as int] && !marks0[x as int] {
                assert(expired_by(state, m, state.dependents_of(m).len() as int, x));
            }
            if exists|m2: usize|
                #![trigger expired_by(state, m2, state.dependents_of(m2).len() as int, x)]
                m2 < m + 1 && expired_by(state, m2, state.dependents_of(m2).len() as int, x) {
                let m2 = choose|m2: usize|
                    #![trigger expired_by(state, m2, state.dependents_of(m2).len() as int, x)]
                    m2 < m + 1 && expired_by(state, m2, state.dependents_of(m2).len() as int, x);
                if m2 < m {
                    assert(marks0[x as int]);
                }
            }
            if !is_source {
                assert(!expired_by(state, m, state.dependents_of(m).len() as int, x));
            }
        }
        m += 1;
    }
    apply_marks(state, &marks, Ghost(|i: usize| expired(&st0, i)));
}

} // verus!
