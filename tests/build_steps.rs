use rewatch_compile::args::{
    compiler_args, dependency_paths, dependent_packages, CompileUnit, DependentPackage, Namespace,
    PackageOutput,
};
use rewatch_compile::cycle::find;
use rewatch_compile::graph::{
    BuildState, CompileState, Implementation, MlMap, Module, SourceFile, SourceType,
};
use rewatch_compile::invoke::{compile_output_result, contains_diagnostic_text, same_digest};
use rewatch_compile::outcome::UnitResult;
use rewatch_compile::staleness::{
    mark_modules_with_deleted_deps_dirty, mark_modules_with_expired_deps_dirty,
};

fn module(name: &str) -> Module {
    Module {
        name: name.to_string(),
        package_name: "pkg".to_string(),
        source_type: SourceType::SourceFile(SourceFile {
            implementation: Implementation {
                path: format!("src/{name}.res"),
                compile_state: CompileState::Pending,
            },
            interface: None,
        }),
        deps: vec![],
        dependents: vec![],
        compile_dirty: false,
        last_compiled_cmi: Some(10),
        last_compiled_cmt: Some(10),
        is_type_dev: false,
    }
}

fn graph(n: usize, edges: &[(usize, usize)]) -> BuildState {
    let mut modules: Vec<Module> = (0..n).map(|i| module(&format!("M{i}"))).collect();
    for &(u, v) in edges {
        modules[v].deps.push(u);
        modules[u].dependents.push(v);
    }
    BuildState {
        modules,
        deleted_modules: vec![],
    }
}

fn strings(v: &[&str]) -> Vec<String> {
    v.iter().map(|s| s.to_string()).collect()
}

fn unit() -> CompileUnit {
    CompileUnit {
        namespace: Namespace::NoNamespace,
        module_name: "App".to_string(),
        is_interface: false,
        has_interface: false,
        dependency_paths: vec![],
        jsx_args: vec![],
        jsx_module_args: vec![],
        jsx_mode_args: vec![],
        jsx_preserve_args: vec![],
        bsc_flags: vec![],
        warning_args: vec![],
        gentype_args: vec![],
        package_name: "my-app".to_string(),
        package_outputs: vec![],
        ast_path: "src/App.ast".to_string(),
    }
}

#[test]
fn args_minimal_unit() {
    assert_eq!(
        compiler_args(&unit()),
        strings(&["-I", "../ocaml", "-bs-package-name", "my-app", "src/App.ast"])
    );
}

#[test]
fn args_full_implementation() {
    let mut u = unit();
    u.namespace = Namespace::Namespace("MyNs".to_string());
    u.has_interface = true;
    u.dependency_paths = vec![strings(&["-I", "/dep/a/lib/ocaml"]), strings(&["-I", "/dep/b/lib/ocaml"])];
    u.jsx_args = strings(&["-bs-jsx", "4"]);
    u.jsx_module_args = strings(&["-bs-jsx-module", "react"]);
    u.jsx_mode_args = strings(&["-bs-jsx-mode", "automatic"]);
    u.jsx_preserve_args = strings(&["-bs-jsx-preserve"]);
    u.bsc_flags = strings(&["-bs-no-version-header"]);
    u.warning_args = strings(&["-w", "+a"]);
    u.gentype_args = strings(&["-bs-gentype"]);
    u.package_outputs = vec![
        PackageOutput { module: "esmodule".to_string(), dir: "src".to_string(), suffix: ".res.js".to_string() },
        PackageOutput { module: "commonjs".to_string(), dir: "lib/js/src".to_string(), suffix: ".js".to_string() },
    ];
    assert_eq!(
        compiler_args(&u),
        strings(&[
            "-bs-ns", "MyNs", "-bs-read-cmi", "-I", "../ocaml", "-I", "/dep/a/lib/ocaml", "-I",
            "/dep/b/lib/ocaml", "-bs-jsx", "4", "-bs-jsx-module", "react", "-bs-jsx-mode",
            "automatic", "-bs-jsx-preserve", "-bs-no-version-header", "-w", "+a", "-bs-gentype",
            "-bs-package-name", "my-app", "-bs-package-output", "esmodule:src:.res.js",
            "-bs-package-output", "commonjs:lib/js/src:.js", "src/App.ast",
        ])
    );
}

#[test]
fn args_interface_has_no_outputs_and_no_read_cmi() {
    let mut u = unit();
    u.is_interface = true;
    u.has_interface = true;
    u.ast_path = "src/App.iast".to_string();
    u.package_outputs = vec![PackageOutput {
        module: "esmodule".to_string(),
        dir: "src".to_string(),
        suffix: ".js".to_string(),
    }];
    assert_eq!(
        compiler_args(&u),
        strings(&["-I", "../ocaml", "-bs-package-name", "my-app", "src/App.iast"])
    );
}

#[test]
fn args_namespace_entry_opens_namespace() {
    let mut u = unit();
    u.namespace = Namespace::NamespaceWithEntry { namespace: "MyNs".to_string(), entry: "App".to_string() };
    assert_eq!(&compiler_args(&u)[..2], &strings(&["-open", "MyNs"])[..]);
    u.module_name = "Other".to_string();
    assert_eq!(&compiler_args(&u)[..2], &strings(&["-bs-ns", "MyNs"])[..]);
}

#[test]
fn dev_dependencies_only_for_dev_sources() {
    let normal = strings(&["a", "b"]);
    let dev = strings(&["t"]);
    assert_eq!(
        dependent_packages(&normal, &dev, false),
        vec![DependentPackage::Normal("a".to_string()), DependentPackage::Normal("b".to_string())]
    );
    let all = dependent_packages(&normal, &dev, true);
    assert_eq!(all[0], DependentPackage::Dev("t".to_string()));
    assert_eq!(all.len(), 3);
    assert!(all[0].is_dev());
    assert_eq!(all[1].name(), "a");
}

#[test]
fn missing_dev_dependency_is_dropped() {
    let deps = vec![DependentPackage::Dev("t".to_string()), DependentPackage::Normal("a".to_string())];
    let resolved = vec![None, Some("/a/lib/ocaml".to_string())];
    assert_eq!(dependency_paths(&deps, &resolved), Ok(vec![strings(&["-I", "/a/lib/ocaml"])]));
}

#[test]
fn missing_normal_dependency_is_an_error() {
    let deps = vec![
        DependentPackage::Normal("a".to_string()),
        DependentPackage::Normal("b".to_string()),
        DependentPackage::Normal("c".to_string()),
    ];
    let resolved = vec![Some("/a".to_string()), None, None];
    assert_eq!(dependency_paths(&deps, &resolved), Err(1));
}

#[test]
fn failed_compile_is_error_with_both_streams() {
    match compile_output_result(false, "err:".to_string(), "out".to_string(), true) {
        UnitResult::Error(t) => assert_eq!(t, "err:out"),
        _ => panic!("expected an error"),
    }
}

#[test]
fn warning_kept_for_local_dropped_for_external() {
    match compile_output_result(true, "Warning 26: unused".to_string(), String::new(), true) {
        UnitResult::Warning(t) => assert_eq!(t, "Warning 26: unused"),
        _ => panic!("expected a warning"),
    }
    assert!(matches!(
        compile_output_result(true, "Warning 26: unused".to_string(), String::new(), false),
        UnitResult::Success
    ));
    assert!(matches!(
        compile_output_result(true, " \n\t".to_string(), String::new(), true),
        UnitResult::Success
    ));
}

#[test]
fn diagnostic_text_detection() {
    assert!(!contains_diagnostic_text(""));
    assert!(!contains_diagnostic_text("  \n"));
    assert!(!contains_diagnostic_text("é"));
    assert!(contains_diagnostic_text(" x "));
    assert!(contains_diagnostic_text("."));
}

#[test]
fn digest_comparison() {
    assert!(same_digest(&Some(vec![1, 2]), &Some(vec![1, 2])));
    assert!(!same_digest(&Some(vec![1, 2]), &Some(vec![1, 3])));
    assert!(!same_digest(&Some(vec![1, 2]), &Some(vec![1])));
    assert!(!same_digest(&None, &Some(vec![1])));
    assert!(!same_digest(&None, &None));
}

#[test]
fn deleted_dependency_marks_dirty() {
    let mut state = graph(3, &[(0, 1)]);
    state.modules[2].deps.push(7);
    state.deleted_modules = vec![7];
    mark_modules_with_deleted_deps_dirty(&mut state);
    let dirty: Vec<bool> = state.modules.iter().map(|m| m.compile_dirty).collect();
    assert_eq!(dirty, vec![false, false, true]);
}

#[test]
fn expired_dependent_marks_dirty() {
    // M1 depends on M0, M0's interface is newer than M1's compile
    let mut state = graph(3, &[(0, 1), (0, 2)]);
    state.modules[0].last_compiled_cmi = Some(20);
    state.modules[2].last_compiled_cmt = Some(30);
    mark_modules_with_expired_deps_dirty(&mut state);
    let dirty: Vec<bool> = state.modules.iter().map(|m| m.compile_dirty).collect();
    assert_eq!(dirty, vec![false, true, false]);
}

#[test]
fn missing_times_mark_dirty() {
    let mut state = graph(4, &[(0, 1), (2, 3)]);
    state.modules[0].last_compiled_cmt = None;
    state.modules[3].last_compiled_cmt = None;
    mark_modules_with_expired_deps_dirty(&mut state);
    let dirty: Vec<bool> = state.modules.iter().map(|m| m.compile_dirty).collect();
    assert_eq!(dirty, vec![true, false, false, true]);
}

#[test]
fn consistent_times_mark_nothing() {
    let mut state = graph(3, &[(0, 1), (1, 2)]);
    mark_modules_with_expired_deps_dirty(&mut state);
    assert!(state.modules.iter().all(|m| !m.compile_dirty));
}

#[test]
fn stale_namespace_dependent_marks_namespace() {
    // M0 -> Ns (namespace) -> M2; M2 compiled before M0's interface
    let mut state = graph(3, &[(0, 1), (1, 2)]);
    state.modules[1].source_type = SourceType::MlMap(MlMap { parse_dirty: false });
    state.modules[0].last_compiled_cmi = Some(50);
    state.modules[2].last_compiled_cmt = Some(40);
    mark_modules_with_expired_deps_dirty(&mut state);
    let dirty: Vec<bool> = state.modules.iter().map(|m| m.compile_dirty).collect();
    assert_eq!(dirty, vec![false, true, false]);
}

#[test]
fn cycle_found_among_members() {
    // 0 -> 1 -> 2 -> 1 : modules 1 and 2 depend on each other
    let state = graph(3, &[(0, 1), (1, 2), (2, 1)]);
    let c = find(&state, &vec![false, true, true]).expect("a cycle");
    let mut sorted = c.clone();
    sorted.sort();
    assert_eq!(sorted, vec![1, 2]);
    for k in 0..c.len() {
        let next = c[(k + 1) % c.len()];
        assert!(state.modules[c[k]].deps.contains(&next));
    }
}

#[test]
fn no_cycle_among_acyclic_members() {
    let state = graph(3, &[(0, 1), (1, 2)]);
    assert_eq!(find(&state, &vec![true, true, true]), None);
    assert_eq!(find(&state, &vec![false, false, false]), None);
}

#[test]
fn well_formed_graph_is_accepted() {
    let mut state = graph(3, &[(0, 1), (1, 2)]);
    assert!(state.is_well_formed());
    state.modules[2].deps.push(9);
    assert!(state.is_well_formed());
}

#[test]
fn mismatched_edges_are_rejected() {
    let mut state = graph(3, &[(0, 1)]);
    state.modules[2].deps.push(0);
    assert!(!state.is_well_formed());
    let mut state = graph(3, &[(0, 1)]);
    state.modules[1].dependents.push(2);
    assert!(!state.is_well_formed());
    let mut state = graph(2, &[]);
    state.modules[0].dependents.push(5);
    assert!(!state.is_well_formed());
}
