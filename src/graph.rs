use vstd::prelude::*;

verus! {

/// Outcome of the most recent compile of one compilation unit.
#[derive(PartialEq, Eq, Structural, Clone, Copy, Debug)]
pub enum CompileState {
    Pending,
    Success,
    Warning,
    Error,
}

/// The implementation half of a source module.
pub struct Implementation {
    pub path: String,
    pub compile_state: CompileState,
}

/// The optional interface half of a source module.
pub struct Interface {
    pub path: String,
    pub compile_state: CompileState,
}

pub struct SourceFile {
    pub implementation: Implementation,
    pub interface: Option<Interface>,
}

/// A namespace aggregator module; it is compiled before the scheduler runs.
pub struct MlMap {
    pub parse_dirty: bool,
}

pub enum SourceType {
    SourceFile(SourceFile),
    MlMap(MlMap),
}

/// One module of the build. Modules are identified by their index in
/// `BuildState::modules`; `deps` may name identifiers that no longer have a
/// module (deleted modules), `dependents` only live ones.
pub struct Module {
    pub name: String,
    pub package_name: String,
    pub source_type: SourceType,
    pub deps: Vec<usize>,
    pub dependents: Vec<usize>,
    pub compile_dirty: bool,
    /// Times of the last successful compile, as a monotone clock reading.
    pub last_compiled_cmi: Option<u64>,
    pub last_compiled_cmt: Option<u64>,
    pub is_type_dev: bool,
}

impl Module {
    pub open spec fn is_mlmap(&self) -> bool {
        self.source_type is MlMap
    }
}

/// The module graph of one build.
pub struct BuildState {
    pub modules: Vec<Module>,
    /// Identifiers of modules that existed in the previous build and are gone.
    pub deleted_modules: Vec<usize>,
}

impl BuildState {
    pub open spec fn n(&self) -> nat {
        self.modules@.len()
    }

    pub open spec fn deps_of(&self, i: usize) -> Seq<usize> {
        self.modules@[i as int].deps@
    }

    pub open spec fn dependents_of(&self, i: usize) -> Seq<usize> {
        self.modules@[i as int].dependents@
    }

    pub open spec fn dirty(&self, i: usize) -> bool {
        self.modules@[i as int].compile_dirty
    }

    /// `j -> i`: module `i` depends directly on module `j`.
    pub open spec fn edge(&self, j: usize, i: usize) -> bool {
        i < self.n() && j < self.n() && self.deps_of(i).contains(j)
    }

    /// Every dependent is a live module, and `deps` restricted to live modules
    /// is exactly the inverse of `dependents`.
    pub open spec fn wf(&self) -> bool {
        &&& forall|i: usize, k: int|
            #![trigger self.dependents_of(i)[k]]
            i < self.n() && 0 <= k < self.dependents_of(i).len() ==> self.dependents_of(i)[k]
                < self.n()
        &&& forall|i: usize, j: usize|
            #![trigger self.deps_of(i).contains(j), self.dependents_of(j)]
            #![trigger self.dependents_of(j).contains(i), self.deps_of(i)]
            i < self.n() && j < self.n() ==> (self.deps_of(i).contains(j)
                <==> self.dependents_of(j).contains(i))
    }

    /// The two states have the same graph: only flags, states and times differ.
    pub open spec fn same_graph(&self, other: &BuildState) -> bool {
        &&& self.n() == other.n()
        &&& self.deleted_modules@ == other.deleted_modules@
        &&& forall|i: usize|
            #![trigger other.modules@[i as int]]
            i < self.n() ==> {
                &&& self.modules@[i as int].deps@ == other.modules@[i as int].deps@
                &&& self.modules@[i as int].dependents@ == other.modules@[i as int].dependents@
                &&& self.modules@[i as int].is_mlmap() == other.modules@[i as int].is_mlmap()
            }
    }

    /// Whether the graph is well formed.
    pub fn is_well_formed(&self) -> (r: bool)
        ensures
            r == self.wf(),
    {
        let n = self.modules.len();
        let mut i: usize = 0;
        while i < n
            invariant
                n == self.n(),
                i <= n,
                forall|x: usize, k: int|
                    #![trigger self.dependents_of(x)[k]]
                    x < i && 0 <= k < self.dependents_of(x).len() ==> self.dependents_of(x)[k] < n
                        && self.deps_of(self.dependents_of(x)[k]).contains(x),
            decreases n - i,
        {
            let ds = &self.modules[i].dependents;
            let mut k: usize = 0;
            while k < ds.len()
                invariant
                    n == self.n(),
                    i < n,
                    *ds == self.modules@[i as int].dependents,
                    k <= ds@.len(),
                    forall|x: usize, k2: int|
                        #![trigger self.dependents_of(x)[k2]]
                        x < i && 0 <= k2 < self.dependents_of(x).len() ==> self.dependents_of(x)[k2] < n
                            && self.deps_of(self.dependents_of(x)[k2]).contains(x),
                    forall|k2: int|
                        0 <= k2 < k ==> #[trigger] ds@[k2] < n && self.deps_of(ds@[k2]).contains(i),
                decreases ds@.len() - k,
            {
                let d = ds[k];
                assert(self.dependents_of(i)[k as int] == d);
                if d >= n {
                    return false;
                }
                if !contains_id(&self.modules[d].deps, i) {
                    assert(self.dependents_of(i).contains(d));
                    assert(!self.deps_of(d).contains(i));
                    return false;
                }
                k += 1;
            }
            i += 1;
        }
        let mut i: usize = 0;
        while i < n
            invariant
                n == self.n(),
                i <= n,
                forall|x: usize, k: int|
                    #![trigger self.dependents_of(x)[k]]
                    x < n && 0 <= k < self.dependents_of(x).len() ==> self.dependents_of(x)[k] < n
                        && self.deps_of(self.dependents_of(x)[k]).contains(x),
                forall|x: usize, j: usize|
                    #![trigger self.deps_of(x).contains(j)]
                    x < i && j < n && self.deps_of(x).contains(j) ==> self.dependents_of(j).contains(x),
            decreases n - i,
        {
            let ds = &self.modules[i].deps;
            let mut k: usize = 0;
            while k < ds.len()
                invariant
                    n == self.n(),
                    i < n,
                    *ds == self.modules@[i as int].deps,
                    k <= ds@.len(),
                    forall|x: usize, k2: int|
                        #![trigger self.dependents_of(x)[k2]]
                        x < n && 0 <= k2 < self.dependents_of(x).len() ==> self.dependents_of(x)[k2] < n
                            && self.deps_of(self.dependents_of(x)[k2]).contains(x),
                    forall|x: usize, j: usize|
                        #![trigger self.deps_of(x).contains(j)]
                        x < i && j < n && self.deps_of(x).contains(j) ==> self.dependents_of(j).contains(x),
                    forall|k2: int|
                        0 <= k2 < k && #[trigger] ds@[k2] < n ==> self.dependents_of(ds@[k2]).contains(i),
                decreases ds@.len() - k,
            {
                let j = ds[k];
                if j < n && !contains_id(&self.modules[j].dependents, i) {
                    assert(self.deps_of(i).contains(j));
                    assert(!self.dependents_of(j).contains(i));
                    return false;
                }
                k += 1;
            }
            assert forall|j: usize| j < n && self.deps_of(i).contains(j) implies self.dependents_of(j).contains(i) by {
                let k2 = choose|k2: int| 0 <= k2 < ds@.len() && ds@[k2] == j;
                assert(ds@[k2] < n);
            }
            i += 1;
        }
        assert forall|x: usize, j: usize| x < n && j < n && self.dependents_of(j).contains(x) implies
            #[trigger] self.deps_of(x).contains(j) by {
            let k = choose|k: int| 0 <= k < self.dependents_of(j).len() && self.dependents_of(j)[k] == x;
        }
        true
    }

    /// Marks module `i` dirty and changes nothing else.
    pub fn mark_dirty(&mut self, i: usize)
        requires
            i < old(self).n(),
        ensures
            final(self).modules@ == old(self).modules@.update(
                i as int,
                Module { compile_dirty: true, ..old(self).modules@[i as int] },
            ),
            final(self).deleted_modules@ == old(self).deleted_modules@,
    {
        self.modules[i].compile_dirty = true;
    }
}

/// Two states with the same graph are equally well formed.
pub proof fn lemma_same_graph_wf(a: &BuildState, b: &BuildState)
    requires
        a.wf(),
        b.same_graph(a),
    ensures
        b.wf(),
        forall|i: usize| #![trigger b.deps_of(i)] i < a.n() ==> b.deps_of(i) == a.deps_of(i),
        forall|i: usize| #![trigger b.dependents_of(i)] i < a.n() ==> b.dependents_of(i) == a.dependents_of(i),
{
    assert forall|i: usize| #![trigger b.deps_of(i)] i < a.n() implies b.deps_of(i) == a.deps_of(i) by {
        assert(b.modules@[i as int].deps@ == a.modules@[i as int].deps@);
    }
    assert forall|i: usize| #![trigger b.dependents_of(i)] i < a.n() implies b.dependents_of(i)
        == a.dependents_of(i) by {
        assert(b.modules@[i as int].dependents@ == a.modules@[i as int].dependents@);
    }
}

/// Whether `v` holds `x`.
pub(crate) fn contains_id(v: &Vec<usize>, x: usize) -> (r: bool)
    ensures
        r == v@.contains(x),
{
    let mut k: usize = 0;
    while k < v.len()
        invariant
            k <= v@.len(),
            forall|j: int| 0 <= j < k ==> v@[j] != x,
        decreases v@.len() - k,
    {
        if v[k] == x {
            assert(v@[k as int] == x);
            return true;
        }
        k += 1;
    }
    false
}

} // verus!
