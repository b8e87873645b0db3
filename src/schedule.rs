use vstd::prelude::*;

use ahash::AHashSet;

use crate::count::{
    count_true, lemma_all_false_count, lemma_count_subset, lemma_count_true_bounded,
    lemma_count_true_set,
};
use crate::cycle::{find, is_member_cycle, members_stuck};
use crate::graph::{lemma_same_graph_wf, BuildState, CompileState, Module, SourceType};
use crate::id_set::{flags, id_set, id_set_contains, id_set_insert, id_set_new, id_set_remove};
use crate::outcome::{after_result, result_texts, ModuleResult, UnitResult};
use crate::universe::{compile_universe, is_universe};

verus! {

/// How a module of the current frontier is to be handled this round.
pub enum Admission {
    /// Some dependency inside the universe is not compiled yet.
    Wait,
    /// Ready and not dirty: complete without running the compiler.
    Clean,
    /// Ready, dirty namespace module: complete without running the compiler.
    Namespace,
    /// Ready, dirty source module: run the compiler.
    Compile,
}

/// What the scheduler does after the results of a round have been folded in.
pub enum RoundEnd {
    /// Every module of the universe is compiled.
    Complete,
    /// Some compile failed.
    Failed,
    /// No module can make progress; these modules form a dependency cycle.
    Cycle(Vec<usize>),
    /// Start another round.
    Continue,
}

/// State of one scheduler run over a build.
pub struct Schedule {
    /// Number of modules of the build; identifiers run below it.
    pub module_count: usize,
    /// The compile universe.
    pub universe: AHashSet<usize>,
    pub compiled: AHashSet<usize>,
    /// Compiled modules whose interface digest did not change.
    pub clean: AHashSet<usize>,
    /// The frontier: universe modules that may be ready.
    pub in_progress: AHashSet<usize>,
    /// How many modules the compiler was actually run for.
    pub num_compiled: usize,
    pub errors: Vec<String>,
    pub warnings: Vec<String>,
}

/// Some error text is non-empty.
pub open spec fn has_error_text(errors: Seq<String>) -> bool {
    exists|k: int| 0 <= k < errors.len() && #[trigger] errors[k]@.len() > 0
}

impl Schedule {
    pub open spec fn universe_v(&self) -> Seq<bool> {
        flags(id_set(self.universe), self.module_count as nat)
    }

    pub open spec fn compiled_v(&self) -> Seq<bool> {
        flags(id_set(self.compiled), self.module_count as nat)
    }

    pub open spec fn clean_v(&self) -> Seq<bool> {
        flags(id_set(self.clean), self.module_count as nat)
    }

    pub open spec fn in_progress_v(&self) -> Seq<bool> {
        flags(id_set(self.in_progress), self.module_count as nat)
    }

    pub open spec fn in_universe(&self, j: usize) -> bool {
        j < self.universe_v().len() && self.universe_v()[j as int]
    }

    /// Every dependency of module `i` inside the universe is compiled.
    pub open spec fn ready(&self, state: &BuildState, i: usize) -> bool {
        forall|k: int|
            #![trigger state.deps_of(i)[k]]
            0 <= k < state.deps_of(i).len() && self.in_universe(state.deps_of(i)[k])
                ==> self.compiled_v()[state.deps_of(i)[k] as int]
    }

    /// Universe modules not compiled yet.
    pub open spec fn pending(&self) -> Seq<bool> {
        Seq::new(self.universe_v().len(), |i: int| self.universe_v()[i] && !self.compiled_v()[i])
    }

    pub open spec fn all_compiled(&self) -> bool {
        forall|i: int| 0 <= i < self.universe_v().len() && self.universe_v()[i] ==> self.compiled_v()[i]
    }

    /// Some frontier module is ready: the next round makes progress.
    pub open spec fn can_progress(&self, state: &BuildState) -> bool {
        exists|i: usize| i < state.n() && #[trigger] self.in_progress_v()[i as int] && self.ready(state, i)
    }

    pub open spec fn wf(&self, state: &BuildState) -> bool {
        let n = state.n();
        &&& state.wf()
        &&& self.module_count == n
        &&& forall|i: usize, k: int|
            #![trigger self.universe_v()[i as int], state.dependents_of(i)[k]]
            i < n && self.universe_v()[i as int] && 0 <= k < state.dependents_of(i).len()
                ==> self.universe_v()[state.dependents_of(i)[k] as int]
        &&& forall|i: int| #![trigger self.compiled_v()[i]] 0 <= i < n && self.compiled_v()[i] ==> self.universe_v()[i]
        &&& forall|i: int| #![trigger self.clean_v()[i]] 0 <= i < n && self.clean_v()[i] ==> self.compiled_v()[i]
        &&& forall|i: int|
            #![trigger self.in_progress_v()[i]]
            0 <= i < n && self.in_progress_v()[i] ==> self.universe_v()[i] && !self.compiled_v()[i]
        &&& forall|i: usize|
            #![trigger self.in_progress_v()[i as int]]
            i < n && self.universe_v()[i as int] && !self.compiled_v()[i as int] && self.ready(state, i)
                ==> self.in_progress_v()[i as int]
        &&& self.num_compiled <= count_true(self.compiled_v())
    }
    /// Whether module `i` is ready.
    fn deps_compiled(&self, state: &BuildState, i: usize) -> (r: bool)
        requires
            i < state.n(),
            self.module_count == state.n(),
        ensures
            r == self.ready(state, i),
    {
        let ds = &state.modules[i].deps;
        let n = self.module_count;
        let mut k: usize = 0;
        while k < ds.len()
            invariant
                i < state.n(),
                *ds == state.modules@[i as int].deps,
                n == self.module_count,
                k <= ds@.len(),
                forall|k2: int|
                    0 <= k2 < k && #[trigger] self.in_universe(ds@[k2]) ==> self.compiled_v()[ds@[k2] as int],
            decreases ds@.len() - k,
        {
            let d = ds[k];
            if d < n && id_set_contains(&self.universe, d) && !id_set_contains(&self.compiled, d) {
                assert(state.deps_of(i)[k as int] == d);
                assert(self.in_universe(d));
                return false;
            }
            k += 1;
        }
        assert(ds@ == state.deps_of(i));
        true
    }

    /// Expands the universe from the dirty modules and opens the frontier on
    /// the universe modules without a dependency inside the universe.
    pub fn new(state: &BuildState) -> (s: Schedule)
        requires
            state.wf(),
        ensures
            s.wf(state),
            is_universe(state, s.universe_v()),
            forall|i: int| 0 <= i < state.n() ==> !s.compiled_v()[i] && !s.clean_v()[i],
            forall|i: usize|
                #![trigger s.in_progress_v()[i as int]]
                i < state.n() ==> (s.in_progress_v()[i as int] <==> s.universe_v()[i as int] && forall|k: int|
                    #![trigger state.deps_of(i)[k]]
                    0 <= k < state.deps_of(i).len() ==> !s.in_universe(state.deps_of(i)[k])),
            s.num_compiled == 0,
            s.errors@.len() == 0,
            s.warnings@.len() == 0,
    {
        let universe_flags = compile_universe(state);
        let n = state.modules.len();
        let mut universe = id_set_new();
        let mut i: usize = 0;
        while i < n
            invariant
                n == state.n(),
                universe_flags@.len() == n,
                i <= n,
                forall|j: usize|
                    #![trigger id_set(universe).contains(j)]
                    id_set(universe).contains(j) <==> (j < i && universe_flags@[j as int]),
            decreases n - i,
        {
            if universe_flags[i] {
                id_set_insert(&mut universe, i);
            }
            i += 1;
        }
        let mut s = Schedule {
            module_count: n,
            universe,
            compiled: id_set_new(),
            clean: id_set_new(),
            in_progress: id_set_new(),
            num_compiled: 0,
            errors: Vec::new(),
            warnings: Vec::new(),
        };
        proof {
            assert(s.universe_v() =~= universe_flags@);
            lemma_all_false_count(s.compiled_v());
        }
        let mut i: usize = 0;
        while i < n
            invariant
                n == state.n(),
                state.wf(),
                s.module_count == n,
                i <= n,
                s.universe_v() == universe_flags@,
                is_universe(state, universe_flags@),
                id_set(s.compiled) == Set::<usize>::empty(),
                id_set(s.clean) == Set::<usize>::empty(),
                s.num_compiled == 0,
                s.errors@.len() == 0,
                s.warnings@.len() == 0,
                forall|j: usize|
                    #![trigger id_set(s.in_progress).contains(j)]
                    id_set(s.in_progress).contains(j) <==> (j < i && s.universe_v()[j as int] && s.ready(
                        state,
                        j,
                    )),
            decreases n - i,
        {
            let r = id_set_contains(&s.universe, i) && s.deps_compiled(state, i);
            if r {
                id_set_insert(&mut s.in_progress, i);
            }
            i += 1;
        }
        proof {
            lemma_all_false_count(s.compiled_v());
            assert forall|j: usize|
                #![trigger s.in_progress_v()[j as int]]
                j < state.n() implies (s.in_progress_v()[j as int] <==> s.universe_v()[j as int] && forall|k: int|
                    #![trigger state.deps_of(j)[k]]
                    0 <= k < state.deps_of(j).len() ==> !s.in_universe(state.deps_of(j)[k])) by {
                assert(s.in_progress_v()[j as int] == id_set(s.in_progress).contains(j));
            }
        }
        s
    }

    /// How frontier module `m` is handled in this round.
    pub fn admission(&self, state: &BuildState, m: usize) -> (r: Admission)
        requires
            self.wf(state),
            m < state.n(),
        ensures
            r is Wait <==> !(self.in_progress_v()[m as int] && self.ready(state, m)),
            r is Clean <==> self.in_progress_v()[m as int] && self.ready(state, m) && !state.dirty(m),
            r is Namespace <==> self.in_progress_v()[m as int] && self.ready(state, m) && state.dirty(m)
                && state.modules@[m as int].is_mlmap(),
            r is Compile <==> self.in_progress_v()[m as int] && self.ready(state, m) && state.dirty(m)
                && !state.modules@[m as int].is_mlmap(),
            // the compiler only ever runs on a dirty module ...
            r is Compile ==> state.dirty(m),
            // ... whose dependencies inside the universe are all compiled
            r is Compile ==> forall|k: int|
                #![trigger state.deps_of(m)[k]]
                0 <= k < state.deps_of(m).len() && self.in_universe(state.deps_of(m)[k])
                    ==> self.compiled_v()[state.deps_of(m)[k] as int],
    {
        if !id_set_contains(&self.in_progress, m) || !self.deps_compiled(state, m) {
            Admission::Wait
        } else if !state.modules[m].compile_dirty {
            Admission::Clean
        } else {
            match &state.modules[m].source_type {
                SourceType::MlMap(_) => Admission::Namespace,
                SourceType::SourceFile(_) => Admission::Compile,
            }
        }
    }

    /// The frontier, in increasing order.
    pub fn frontier(&self) -> (r: Vec<usize>)
        ensures
            forall|k: int| 0 <= k < r@.len() ==> r@[k] < self.in_progress_v().len() && self.in_progress_v()[#[trigger] r@[k] as int],
            forall|i: usize| i < self.in_progress_v().len() && #[trigger] self.in_progress_v()[i as int] ==> r@.contains(i),
            forall|a: int, b: int| 0 <= a < b < r@.len() ==> r@[a] < r@[b],
    {
        let mut r: Vec<usize> = Vec::new();
        let mut i: usize = 0;
        while i < self.module_count
            invariant
                self.in_progress_v().len() == self.module_count,
                i <= self.in_progress_v().len(),
                forall|k: int| 0 <= k < r@.len() ==> #[trigger] r@[k] < i && self.in_progress_v()[r@[k] as int],
                forall|j: usize| j < i && #[trigger] self.in_progress_v()[j as int] ==> r@.contains(j),
                forall|a: int, b: int| 0 <= a < b < r@.len() ==> r@[a] < r@[b],
            decreases self.in_progress_v().len() - i,
        {
            let ghost r0 = r@;
            if id_set_contains(&self.in_progress, i) {
                r.push(i);
            }
            assert forall|j: usize| j <= i && #[trigger] self.in_progress_v()[j as int] implies r@.contains(j) by {
                if j < i {
                    let k = choose|k: int| 0 <= k < r0.len() && r0[k] == j;
                    assert(r@[k] == j);
                } else {
                    assert(r@[r@.len() - 1] == j);
                }
            }
            i += 1;
        }
        r
    }

    /// Writes the outcome of `result` into module `m` and the text aggregates.
    fn record(&mut self, state: &mut BuildState, m: usize, result: ModuleResult, now: u64)
        requires
            m < old(state).n(),
        ensures
            final(state).modules@ == old(state).modules@.update(
                m as int,
                after_result(old(state).modules@[m as int], result, now),
            ),
            final(state).deleted_modules@ == old(state).deleted_modules@,
            final(self).errors@ == old(self).errors@ + result_texts(result, true),
            final(self).warnings@ == old(self).warnings@ + result_texts(result, false),
            final(self).universe_v() == old(self).universe_v(),
            final(self).compiled_v() == old(self).compiled_v(),
            final(self).clean_v() == old(self).clean_v(),
            final(self).in_progress_v() == old(self).in_progress_v(),
            final(self).num_compiled == old(self).num_compiled,
    {
        let settled = match (&result.implementation, &result.interface) {
            (UnitResult::Success, None) => true,
            (UnitResult::Success, Some(UnitResult::Success)) => true,
            _ => false,
        };
        let impl_state = result.implementation.compile_state();
        let iface_state: Option<CompileState> = match &result.interface {
            Some(u) => Some(u.compile_state()),
            None => None,
        };
        let md = &mut state.modules[m];
        match &mut md.source_type {
            SourceType::MlMap(mm) => {
                mm.parse_dirty = false;
                md.compile_dirty = false;
            },
            SourceType::SourceFile(sf) => {
                sf.implementation.compile_state = impl_state;
                match (&mut sf.interface, iface_state) {
                    (Some(i), Some(st)) => {
                        i.compile_state = st;
                    },
                    _ => {},
                }
                md.compile_dirty = !settled;
                if settled {
                    md.last_compiled_cmi = Some(now);
                    md.last_compiled_cmt = Some(now);
                }
            },
        }
        let ghost e0 = self.errors@;
        let ghost w0 = self.warnings@;
        match result.implementation {
            UnitResult::Warning(t) => self.warnings.push(t),
            UnitResult::Error(t) => self.errors.push(t),
            UnitResult::Success => {},
        }
        match result.interface {
            Some(UnitResult::Warning(t)) => self.warnings.push(t),
            Some(UnitResult::Error(t)) => self.errors.push(t),
            _ => {},
        }
        proof {
            assert(self.errors@ =~= e0 + result_texts(result, true));
            assert(self.warnings@ =~= w0 + result_texts(result, false));
        }
    }

    /// Folds the result of admitted module `m` into the schedule and the build:
    /// `m` becomes compiled, its dependents join the frontier, and when its
    /// interface changed they are all made dirty.
    pub fn fold(&mut self, state: &mut BuildState, m: usize, result: ModuleResult, now: u64)
        requires
            old(self).wf(old(state)),
            m < old(state).n(),
            old(self).in_progress_v()[m as int],
            old(self).ready(old(state), m),
        ensures
            final(self).wf(final(state)),
            final(state).same_graph(old(state)),
            final(self).universe_v() == old(self).universe_v(),
            final(self).compiled_v() == old(self).compiled_v().update(m as int, true),
            final(self).clean_v() == if result.is_clean_cmi {
                old(self).clean_v().update(m as int, true)
            } else {
                old(self).clean_v()
            },
            forall|x: usize|
                #![trigger final(self).in_progress_v()[x as int]]
                x < old(state).n() ==> (final(self).in_progress_v()[x as int] <==> x != m && (
                old(self).in_progress_v()[x as int] || (old(state).dependents_of(m).contains(x)
                    && !old(self).compiled_v()[x as int]))),
            forall|x: usize|
                #![trigger final(state).modules@[x as int]]
                x < old(state).n() && x != m ==> final(state).modules@[x as int] == if !result.is_clean_cmi
                    && old(state).dependents_of(m).contains(x) {
                    Module { compile_dirty: true, ..old(state).modules@[x as int] }
                } else {
                    old(state).modules@[x as int]
                },
            final(state).modules@[m as int] == after_result(old(state).modules@[m as int], result, now),
            final(self).errors@ == old(self).errors@ + result_texts(result, true),
            final(self).warnings@ == old(self).warnings@ + result_texts(result, false),
            final(self).num_compiled == old(self).num_compiled + if result.was_compiled {
                1int
            } else {
                0int
            },
            // an unchanged interface makes no other module dirty
            result.is_clean_cmi ==> forall|x: usize|
                x < old(state).n() && x != m ==> #[trigger] final(state).modules@[x as int]
                    == old(state).modules@[x as int],
            // a changed interface makes every other dependent dirty
            !result.is_clean_cmi ==> forall|k: int|
                0 <= k < old(state).dependents_of(m).len() && old(state).dependents_of(m)[k] != m
                    ==> final(state).dirty(#[trigger] old(state).dependents_of(m)[k]),
    {
        let ghost st0 = *state;
        let ghost sc0 = *self;
        let n = state.modules.len();
        proof {
            lemma_count_true_set(self.compiled_v(), m as int);
            lemma_count_true_bounded(self.compiled_v().update(m as int, true));
        }
        id_set_remove(&mut self.in_progress, m);
        id_set_insert(&mut self.compiled, m);
        if result.is_clean_cmi {
            id_set_insert(&mut self.clean, m);
        }
        proof {
            assert(self.in_progress_v() =~= sc0.in_progress_v().update(m as int, false));
            assert(self.compiled_v() =~= sc0.compiled_v().update(m as int, true));
            assert(self.clean_v() =~= if result.is_clean_cmi {
                sc0.clean_v().update(m as int, true)
            } else {
                sc0.clean_v()
            });
            assert(self.universe_v() =~= sc0.universe_v());
        }
        if result.was_compiled {
            self.num_compiled = self.num_compiled + 1;
        }
        let len = state.modules[m].dependents.len();
        let mut k: usize = 0;
        while k < len
            invariant
                n == st0.n(),
                st0.wf(),
                sc0.wf(&st0),
                m < n,
                len == st0.dependents_of(m).len(),
                k <= len,
                state.modules@.len() == n,
                state.deleted_modules@ == st0.deleted_modules@,
                forall|x: usize|
                    #![trigger state.modules@[x as int]]
                    x < n ==> state.modules@[x as int] == if !result.is_clean_cmi && exists|j: int|
                        0 <= j < k && #[trigger] st0.dependents_of(m)[j] == x {
                        Module { compile_dirty: true, ..st0.modules@[x as int] }
                    } else {
                        st0.modules@[x as int]
                    },
                self.universe_v() == sc0.universe_v(),
                self.compiled_v() == sc0.compiled_v().update(m as int, true),
                self.clean_v() == if result.is_clean_cmi {
                    sc0.clean_v().update(m as int, true)
                } else {
                    sc0.clean_v()
                },
                self.in_progress_v().len() == n,
                forall|x: usize|
                    #![trigger self.in_progress_v()[x as int]]
                    x < n ==> (self.in_progress_v()[x as int] <==> x != m && (sc0.in_progress_v()[x as int]
                        || (exists|j: int| 0 <= j < k && #[trigger] st0.dependents_of(m)[j] == x)
                        && !sc0.compiled_v()[x as int])),
                self.errors@ == sc0.errors@,
                self.warnings@ == sc0.warnings@,
                self.num_compiled == sc0.num_compiled + if result.was_compiled {
                    1int
                } else {
                    0int
                },
            decreases len - k,
        {
            assert(state.modules@[m as int].dependents == st0.modules@[m as int].dependents);
            let d = state.modules[m].dependents[k];
            assert(st0.dependents_of(m)[k as int] == d);
            if !result.is_clean_cmi {
                state.mark_dirty(d);
            }
            let ghost ip0 = self.in_progress_v();
            assert(d < n);
            assert(self.compiled_v()[d as int] == id_set(self.compiled).contains(d));
            if !id_set_contains(&self.compiled, d) {
                id_set_insert(&mut self.in_progress, d);
                assert(self.in_progress_v() =~= ip0.update(d as int, true));
            }
            k += 1;
        }
        proof {
            assert forall|x: usize| x < n implies (exists|j: int|
                0 <= j < len && #[trigger] st0.dependents_of(m)[j] == x) == st0.dependents_of(
                m,
            ).contains(x) by {
                if st0.dependents_of(m).contains(x) {
                    let j = choose|j: int| 0 <= j < len && st0.dependents_of(m)[j] == x;
                }
            }
        }
        let ghost mid = *state;
        self.record(state, m, result, now);
        proof {
            assert(state.same_graph(&st0));
            lemma_same_graph_wf(&st0, state);
            assert forall|x: usize|
                x < n && self.universe_v()[x as int] && !self.compiled_v()[x as int] && self.ready(state, x)
                implies #[trigger] self.in_progress_v()[x as int] by {
                assert(state.deps_of(x) == st0.deps_of(x));
                if !sc0.ready(&st0, x) {
                    let j = choose|j: int|
                        0 <= j < st0.deps_of(x).len() && sc0.in_universe(st0.deps_of(x)[j])
                            && !sc0.compiled_v()[st0.deps_of(x)[j] as int];
                    assert(self.compiled_v()[st0.deps_of(x)[j] as int]);
                    assert(st0.deps_of(x)[j] == m);
                    assert(st0.deps_of(x).contains(m));
                    assert(st0.dependents_of(m).contains(x));
                }
            }
            assert forall|i: usize, kk: int|
                i < n && self.universe_v()[i as int] && 0 <= kk < state.dependents_of(i).len()
                implies #[trigger] self.universe_v()[state.dependents_of(i)[kk] as int] by {
                assert(state.dependents_of(i) == st0.dependents_of(i));
            }
            assert forall|x: int| 0 <= x < n && self.in_progress_v()[x] implies self.universe_v()[x]
                && !self.compiled_v()[x] by {
                let xu = x as usize;
                assert(self.in_progress_v()[xu as int]);
                if !sc0.in_progress_v()[x] {
                    let j = choose|j: int| 0 <= j < len && #[trigger] st0.dependents_of(m)[j] == xu;
                }
            }
        }
    }

    /// Decides, after a round's results are folded in, whether the run is
    /// complete, has failed, is stuck on a dependency cycle, or goes on.
    pub fn round_end(&self, state: &BuildState) -> (r: RoundEnd)
        requires
            self.wf(state),
        ensures
            r is Complete <==> self.all_compiled(),
            r is Failed <==> !self.all_compiled() && has_error_text(self.errors@),
            r is Continue ==> !self.all_compiled() && !has_error_text(self.errors@)
                && self.can_progress(state),
            r matches RoundEnd::Cycle(c) ==> !self.all_compiled() && !has_error_text(self.errors@)
                && !self.can_progress(state) && is_member_cycle(state, self.pending(), c@),
            // a run that can make no progress always ends on a reported cycle
            !self.all_compiled() && !has_error_text(self.errors@) && !self.can_progress(state)
                ==> r is Cycle,
    {
        let n = state.modules.len();
        let mut pending: Vec<bool> = Vec::new();
        let mut all = true;
        let mut i: usize = 0;
        while i < n
            invariant
                n == state.n(),
                self.wf(state),
                i <= n,
                pending@.len() == i,
                forall|j: int| 0 <= j < i ==> pending@[j] == (self.universe_v()[j] && !self.compiled_v()[j]),
                all <==> forall|j: int| 0 <= j < i && self.universe_v()[j] ==> self.compiled_v()[j],
            decreases n - i,
        {
            assert(self.universe_v()[i as int] == id_set(self.universe).contains(i));
            assert(self.compiled_v()[i as int] == id_set(self.compiled).contains(i));
            let p = id_set_contains(&self.universe, i) && !id_set_contains(&self.compiled, i);
            pending.push(p);
            if p {
                all = false;
            }
            i += 1;
        }
        assert(pending@ =~= self.pending());
        if all {
            return RoundEnd::Complete;
        }
        let mut k: usize = 0;
        while k < self.errors.len()
            invariant
                !self.all_compiled(),
                k <= self.errors@.len(),
                forall|j: int| 0 <= j < k ==> #[trigger] self.errors@[j]@.len() == 0,
            decreases self.errors@.len() - k,
        {
            if !self.errors[k].as_str().is_empty() {
                assert(self.errors@[k as int]@.len() > 0);
                return RoundEnd::Failed;
            }
            k += 1;
        }
        assert(!has_error_text(self.errors@));
        let mut i: usize = 0;
        while i < n
            invariant
                n == state.n(),
                self.wf(state),
                i <= n,
                !self.all_compiled(),
                !has_error_text(self.errors@),
                forall|j: usize| j < i && #[trigger] self.in_progress_v()[j as int] ==> !self.ready(state, j),
            decreases n - i,
        {
            if id_set_contains(&self.in_progress, i) && self.deps_compiled(state, i) {
                assert(self.in_progress_v()[i as int] && self.ready(state, i));
                return RoundEnd::Continue;
            }
            i += 1;
        }
        proof {
            let u = self.pending();
            assert(!self.all_compiled());
            let w = choose|j: int| 0 <= j < n && self.universe_v()[j] && !self.compiled_v()[j];
            assert(u[w]);
            assert forall|x: usize| #![trigger u[x as int]] x < state.n() && u[x as int]
                implies crate::cycle::has_member_dep(state, u, x) by {
                assert(self.universe_v()[x as int] && !self.compiled_v()[x as int]);
                if self.ready(state, x) {
                    assert(self.in_progress_v()[x as int]);
                    assert(!self.ready(state, x));
                }
                let j = choose|j: int|
                    0 <= j < state.deps_of(x).len() && self.in_universe(state.deps_of(x)[j])
                        && !self.compiled_v()[state.deps_of(x)[j] as int];
                assert(u[state.deps_of(x)[j] as int]);
            }
            assert(members_stuck(state, u));
        }
        match find(state, &pending) {
            Some(c) => RoundEnd::Cycle(c),
            None => RoundEnd::Continue,
        }
    }

    /// Number of modules in the compile universe.
    pub fn universe_count(&self) -> (r: usize)
        ensures
            r == count_true(self.universe_v()),
    {
        let mut c: usize = 0;
        let mut i: usize = 0;
        while i < self.module_count
            invariant
                i <= self.module_count,
                c == count_true(self.universe_v().subrange(0, i as int)),
                c <= i,
            decreases self.module_count - i,
        {
            proof {
                assert(self.universe_v().subrange(0, i + 1).drop_last() =~= self.universe_v().subrange(0, i as int));
            }
            if id_set_contains(&self.universe, i) {
                c += 1;
            }
            i += 1;
        }
        assert(self.universe_v().subrange(0, self.module_count as int) =~= self.universe_v());
        c
    }

    pub fn is_in_universe(&self, i: usize) -> (r: bool)
        ensures
            r == id_set(self.universe).contains(i),
    {
        id_set_contains(&self.universe, i)
    }

    pub fn is_compiled(&self, i: usize) -> (r: bool)
        ensures
            r == id_set(self.compiled).contains(i),
    {
        id_set_contains(&self.compiled, i)
    }

    pub fn is_clean(&self, i: usize) -> (r: bool)
        ensures
            r == id_set(self.clean).contains(i),
    {
        id_set_contains(&self.clean, i)
    }
}


/// Folding a ready frontier module compiles one more universe module, and no
/// more than the universe can ever be compiled: a run has at most as many
/// progressing rounds as its universe has modules.
pub proof fn lemma_fold_progress(s: &Schedule, state: &BuildState, m: usize)
    requires
        s.wf(state),
        m < state.n(),
        s.in_progress_v()[m as int],
    ensures
        count_true(s.compiled_v().update(m as int, true)) == count_true(s.compiled_v()) + 1,
        count_true(s.compiled_v().update(m as int, true)) <= count_true(s.universe_v()),
{
    lemma_count_true_set(s.compiled_v(), m as int);
    lemma_count_subset(s.compiled_v().update(m as int, true), s.universe_v());
}

} // verus!
