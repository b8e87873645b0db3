use vstd::prelude::*;

verus! {

/// A package's namespace, with its suffix already in module form.
pub enum Namespace {
    NoNamespace,
    Namespace(String),
    NamespaceWithEntry { namespace: String, entry: String },
}

/// One JavaScript output of the root package: module format, destination
/// directory of the emitted file, and file suffix.
pub struct PackageOutput {
    pub module: String,
    pub dir: String,
    pub suffix: String,
}

/// Everything the compiler's argument vector is made from, for one unit.
pub struct CompileUnit {
    pub namespace: Namespace,
    pub module_name: String,
    pub is_interface: bool,
    pub has_interface: bool,
    /// Include directives of the package's dependencies, one group each.
    pub dependency_paths: Vec<Vec<String>>,
    pub jsx_args: Vec<String>,
    pub jsx_module_args: Vec<String>,
    pub jsx_mode_args: Vec<String>,
    pub jsx_preserve_args: Vec<String>,
    pub bsc_flags: Vec<String>,
    pub warning_args: Vec<String>,
    pub gentype_args: Vec<String>,
    pub package_name: String,
    pub package_outputs: Vec<PackageOutput>,
    pub ast_path: String,
}

pub open spec fn views(s: Seq<String>) -> Seq<Seq<char>> {
    s.map_values(|x: String| x@)
}

pub open spec fn flat(groups: Seq<Vec<String>>) -> Seq<Seq<char>>
    decreases groups.len(),
{
    if groups.len() == 0 {
        seq![]
    } else {
        flat(groups.drop_last()) + views(groups.last()@)
    }
}

pub open spec fn namespace_args(ns: Namespace, module_name: Seq<char>) -> Seq<Seq<char>> {
    match ns {
        Namespace::NoNamespace => seq![],
        Namespace::Namespace(suffix) => seq!["-bs-ns"@, suffix@],
        Namespace::NamespaceWithEntry { namespace, entry } => if entry@ == module_name {
            seq!["-open"@, namespace@]
        } else {
            seq!["-bs-ns"@, namespace@]
        },
    }
}

pub open spec fn read_cmi_args(is_interface: bool, has_interface: bool) -> Seq<Seq<char>> {
    if has_interface && !is_interface {
        seq!["-bs-read-cmi"@]
    } else {
        seq![]
    }
}

/// `module:dir:suffix`
pub open spec fn output_spec(o: PackageOutput) -> Seq<char> {
    o.module@ + seq![':'] + o.dir@ + seq![':'] + o.suffix@
}

pub open spec fn output_args(outs: Seq<PackageOutput>) -> Seq<Seq<char>>
    decreases outs.len(),
{
    if outs.len() == 0 {
        seq![]
    } else {
        output_args(outs.drop_last()) + seq!["-bs-package-output"@, output_spec(outs.last())]
    }
}

/// The compiler's argument vector for `u`, in order.
pub open spec fn spec_compiler_args(u: CompileUnit) -> Seq<Seq<char>> {
    namespace_args(u.namespace, u.module_name@) + read_cmi_args(u.is_interface, u.has_interface)
        + seq!["-I"@, "../ocaml"@] + flat(u.dependency_paths@) + views(u.jsx_args@) + views(
        u.jsx_module_args@,
    ) + views(u.jsx_mode_args@) + views(u.jsx_preserve_args@) + views(u.bsc_flags@) + views(
        u.warning_args@,
    ) + views(u.gentype_args@) + seq!["-bs-package-name"@, u.package_name@] + (if u.is_interface {
        seq![]
    } else {
        output_args(u.package_outputs@)
    }) + seq![u.ast_path@]
}

/// Relies on std's `format!` with `{}{}` on two strings: it writes the text
/// of each in turn.
#[verifier::external_body]
pub(crate) fn concat_text(a: &String, b: &String) -> (r: String)
    ensures
        r@ == a@ + b@,
{
    format!("{}{}", a, b)
}

/// `module:dir:suffix`
fn join_output_spec(module: &String, dir: &String, suffix: &String) -> (r: String)
    ensures
        r@ == module@ + seq![':'] + dir@ + seq![':'] + suffix@,
{
    let colon = text(":");
    proof {
        reveal_strlit(":");
    }
    let a = concat_text(module, &colon);
    let b = concat_text(&a, dir);
    let c = concat_text(&b, &colon);
    let r = concat_text(&c, suffix);
    assert(r@ =~= module@ + seq![':'] + dir@ + seq![':'] + suffix@);
    r
}

fn text(s: &str) -> (r: String)
    ensures
        r@ == s@,
{
    s.to_owned()
}

fn push_all(out: &mut Vec<String>, src: &Vec<String>)
    ensures
        views(final(out)@) == views(old(out)@) + views(src@),
{
    let ghost out0 = out@;
    let mut k: usize = 0;
    while k < src.len()
        invariant
            k <= src@.len(),
            views(out@) == views(out0) + views(src@.subrange(0, k as int)),
        decreases src@.len() - k,
    {
        let ghost before = out@;
        out.push(src[k].clone());
        proof {
            assert(views(out@) =~= views(before) + seq![src@[k as int]@]);
            assert(views(src@.subrange(0, k + 1)) =~= views(src@.subrange(0, k as int)) + seq![
                src@[k as int]@,
            ]);
        }
        k += 1;
    }
    assert(src@.subrange(0, src@.len() as int) =~= src@);
}

fn push_text(out: &mut Vec<String>, s: &str)
    ensures
        views(final(out)@) == views(old(out)@) + seq![s@],
{
    let ghost before = out@;
    out.push(text(s));
    assert(views(out@) =~= views(before) + seq![s@]);
}

fn push_string(out: &mut Vec<String>, s: &String)
    ensures
        views(final(out)@) == views(old(out)@) + seq![s@],
{
    let ghost before = out@;
    out.push(s.clone());
    assert(views(out@) =~= views(before) + seq![s@]);
}

/// Assembles the compiler's argument vector: namespace directive, interface
/// reading, include paths, JSX, compiler and warning flags, gentype, package
/// name, JavaScript outputs (implementations only) and the AST path.
pub fn compiler_args(u: &CompileUnit) -> (r: Vec<String>)
    ensures
        views(r@) == spec_compiler_args(*u),
{
    let mut r: Vec<String> = Vec::new();
    assert(views(r@) =~= seq![]);
    match &u.namespace {
        Namespace::NoNamespace => {},
        Namespace::Namespace(suffix) => {
            push_text(&mut r, "-bs-ns");
            push_string(&mut r, suffix);
        },
        Namespace::NamespaceWithEntry { namespace, entry } => {
            if *entry == u.module_name {
                push_text(&mut r, "-open");
            } else {
                push_text(&mut r, "-bs-ns");
            }
            push_string(&mut r, namespace);
        },
    }
    assert(views(r@) =~= namespace_args(u.namespace, u.module_name@));
    if u.has_interface && !u.is_interface {
        push_text(&mut r, "-bs-read-cmi");
    }
    push_text(&mut r, "-I");
    push_text(&mut r, "../ocaml");
    let ghost base = views(r@);
    let mut g: usize = 0;
    while g < u.dependency_paths.len()
        invariant
            g <= u.dependency_paths@.len(),
            views(r@) == base + flat(u.dependency_paths@.subrange(0, g as int)),
        decreases u.dependency_paths@.len() - g,
    {
        push_all(&mut r, &u.dependency_paths[g]);
        proof {
            let s = u.dependency_paths@.subrange(0, g + 1);
            assert(s.drop_last() =~= u.dependency_paths@.subrange(0, g as int));
        }
        g += 1;
    }
    assert(u.dependency_paths@.subrange(0, u.dependency_paths@.len() as int) =~= u.dependency_paths@);
    push_all(&mut r, &u.jsx_args);
    push_all(&mut r, &u.jsx_module_args);
    push_all(&mut r, &u.jsx_mode_args);
    push_all(&mut r, &u.jsx_preserve_args);
    push_all(&mut r, &u.bsc_flags);
    push_all(&mut r, &u.warning_args);
    push_all(&mut r, &u.gentype_args);
    push_text(&mut r, "-bs-package-name");
    push_string(&mut r, &u.package_name);
    let ghost before_outputs = views(r@);
    if !u.is_interface {
        let mut o: usize = 0;
        while o < u.package_outputs.len()
            invariant
                o <= u.package_outputs@.len(),
                views(r@) == before_outputs + output_args(u.package_outputs@.subrange(0, o as int)),
            decreases u.package_outputs@.len() - o,
        {
            let out = &u.package_outputs[o];
            push_text(&mut r, "-bs-package-output");
            let joined = join_output_spec(&out.module, &out.dir, &out.suffix);
            push_string(&mut r, &joined);
            proof {
                let s = u.package_outputs@.subrange(0, o + 1);
                assert(s.drop_last() =~= u.package_outputs@.subrange(0, o as int));
            }
            o += 1;
        }
        assert(u.package_outputs@.subrange(0, u.package_outputs@.len() as int) =~= u.package_outputs@);
    }
    push_string(&mut r, &u.ast_path);
    assert(views(r@) =~= spec_compiler_args(*u));
    r
}


/// A package that the compiled package depends on.
#[derive(Debug, Clone, PartialEq, Eq, Hash)]
pub enum DependentPackage {
    Normal(String),
    /// Visible only to sources marked as dev sources.
    Dev(String),
}

impl DependentPackage {
    pub open spec fn spec_name(&self) -> String {
        match self {
            DependentPackage::Normal(name) => *name,
            DependentPackage::Dev(name) => *name,
        }
    }

    pub fn name(&self) -> (r: &String)
        ensures
            *r == self.spec_name(),
    {
        match self {
            DependentPackage::Normal(name) => name,
            DependentPackage::Dev(name) => name,
        }
    }

    pub fn is_dev(&self) -> (r: bool)
        ensures
            r == self is Dev,
    {
        match self {
            DependentPackage::Normal(_) => false,
            DependentPackage::Dev(_) => true,
        }
    }
}

/// The packages visible to one source: its package's dev dependencies, when
/// the source is a dev source, then the normal dependencies.
pub open spec fn spec_dependent_packages(
    normal: Seq<String>,
    dev: Seq<String>,
    is_type_dev: bool,
) -> Seq<DependentPackage> {
    (if is_type_dev {
        dev.map_values(|s: String| DependentPackage::Dev(s))
    } else {
        seq![]
    }) + normal.map_values(|s: String| DependentPackage::Normal(s))
}

pub fn dependent_packages(normal: &Vec<String>, dev: &Vec<String>, is_type_dev: bool) -> (r: Vec<
    DependentPackage,
>)
    ensures
        r@ == spec_dependent_packages(normal@, dev@, is_type_dev),
{
    let mut r: Vec<DependentPackage> = Vec::new();
    if is_type_dev {
        let mut k: usize = 0;
        while k < dev.len()
            invariant
                k <= dev@.len(),
                r@ == dev@.subrange(0, k as int).map_values(|s: String| DependentPackage::Dev(s)),
            decreases dev@.len() - k,
        {
            r.push(DependentPackage::Dev(dev[k].clone()));
            assert(dev@.subrange(0, k + 1).map_values(|s: String| DependentPackage::Dev(s))
                =~= dev@.subrange(0, k as int).map_values(|s: String| DependentPackage::Dev(s)).push(
                DependentPackage::Dev(dev@[k as int]),
            ));
            k += 1;
        }
        assert(dev@.subrange(0, dev@.len() as int) =~= dev@);
    }
    let ghost first = r@;
    let mut k: usize = 0;
    while k < normal.len()
        invariant
            k <= normal@.len(),
            r@ == first + normal@.subrange(0, k as int).map_values(
                |s: String| DependentPackage::Normal(s),
            ),
        decreases normal@.len() - k,
    {
        r.push(DependentPackage::Normal(normal[k].clone()));
        assert(normal@.subrange(0, k + 1).map_values(|s: String| DependentPackage::Normal(s))
            =~= normal@.subrange(0, k as int).map_values(|s: String| DependentPackage::Normal(s)).push(
            DependentPackage::Normal(normal@[k as int]),
        ));
        k += 1;
    }
    assert(normal@.subrange(0, normal@.len() as int) =~= normal@);
    assert(r@ =~= spec_dependent_packages(normal@, dev@, is_type_dev));
    r
}

/// Include directives for the resolved packages, in order; the unresolved
/// ones are left out.
pub open spec fn include_groups(resolved: Seq<Option<String>>) -> Seq<Seq<Seq<char>>>
    decreases resolved.len(),
{
    if resolved.len() == 0 {
        seq![]
    } else {
        include_groups(resolved.drop_last()) + match resolved.last() {
            Some(p) => seq![seq!["-I"@, p@]],
            None => seq![],
        }
    }
}

/// Index of the first package that is required and could not be resolved.
pub open spec fn first_missing(deps: Seq<DependentPackage>, resolved: Seq<Option<String>>, i: int) -> bool {
    &&& 0 <= i < deps.len()
    &&& resolved[i] is None && deps[i] is Normal
    &&& forall|j: int| 0 <= j < i ==> !(resolved[j] is None && #[trigger] deps[j] is Normal)
}

/// Include directives for the dependency packages, given for each package
/// the build directory where it was found (`None`: not found). A normal
/// dependency that was not found is a configuration error: its index is
/// returned. A dev dependency that was not found is skipped.
pub fn dependency_paths(deps: &Vec<DependentPackage>, resolved: &Vec<Option<String>>) -> (r: Result<
    Vec<Vec<String>>,
    usize,
>)
    requires
        resolved@.len() == deps@.len(),
    ensures
        r matches Ok(groups) ==> groups@.map_values(|g: Vec<String>| views(g@)) == include_groups(
            resolved@,
        ),
        r is Ok <==> forall|j: int| 0 <= j < deps@.len() ==> !(resolved@[j] is None && #[trigger] deps@[j] is Normal),
        r matches Err(i) ==> first_missing(deps@, resolved@, i as int),
{
    let mut groups: Vec<Vec<String>> = Vec::new();
    let mut k: usize = 0;
    while k < deps.len()
        invariant
            k <= deps@.len(),
            resolved@.len() == deps@.len(),
            groups@.map_values(|g: Vec<String>| views(g@)) == include_groups(resolved@.subrange(0, k as int)),
            forall|j: int| 0 <= j < k ==> !(resolved@[j] is None && #[trigger] deps@[j] is Normal),
        decreases deps@.len() - k,
    {
        let ghost before = groups@;
        proof {
            assert(resolved@.subrange(0, k + 1).drop_last() =~= resolved@.subrange(0, k as int));
        }
        match &resolved[k] {
            Some(p) => {
                let mut g: Vec<String> = Vec::new();
                push_text(&mut g, "-I");
                push_string(&mut g, p);
                groups.push(g);
                assert(views(g@) =~= seq!["-I"@, p@]);
                assert(groups@.map_values(|g: Vec<String>| views(g@)) =~= before.map_values(
                    |g: Vec<String>| views(g@),
                ).push(seq!["-I"@, p@]));
            },
            None => {
                if !deps[k].is_dev() {
                    return Err(k);
                }
                assert(groups@.map_values(|g: Vec<String>| views(g@)) =~= before.map_values(
                    |g: Vec<String>| views(g@),
                ));
            },
        }
        proof {
            assert(include_groups(resolved@.subrange(0, k + 1)) =~= include_groups(
                resolved@.subrange(0, k as int),
            ) + match resolved@[k as int] {
                Some(p) => seq![seq!["-I"@, p@]],
                None => seq![],
            });
        }
        k += 1;
    }
    assert(resolved@.subrange(0, deps@.len() as int) =~= resolved@);
    Ok(groups)
}

} // verus!
