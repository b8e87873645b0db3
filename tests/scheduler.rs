use rewatch_compile::graph::{
    BuildState, CompileState, Implementation, Interface, MlMap, Module, SourceFile, SourceType,
};
use rewatch_compile::outcome::{ModuleResult, UnitResult};
use rewatch_compile::schedule::{Admission, RoundEnd, Schedule};

fn source_module(name: &str, with_interface: bool) -> Module {
    Module {
        name: name.to_string(),
        package_name: "pkg".to_string(),
        source_type: SourceType::SourceFile(SourceFile {
            implementation: Implementation {
                path: format!("src/{name}.res"),
                compile_state: CompileState::Pending,
            },
            interface: if with_interface {
                Some(Interface {
                    path: format!("src/{name}.resi"),
                    compile_state: CompileState::Pending,
                })
            } else {
                None
            },
        }),
        deps: vec![],
        dependents: vec![],
        compile_dirty: false,
        last_compiled_cmi: None,
        last_compiled_cmt: None,
        is_type_dev: false,
    }
}

/// `edges` holds (dependency, dependent) pairs.
fn members(n: usize, test: impl Fn(usize) -> bool) -> Vec<bool> {
    (0..n).map(test).collect()
}

fn graph(names: &[&str], edges: &[(usize, usize)], dirty: &[usize]) -> BuildState {
    let mut modules: Vec<Module> = names.iter().map(|n| source_module(n, false)).collect();
    for &(u, v) in edges {
        modules[v].deps.push(u);
        modules[u].dependents.push(v);
    }
    for &d in dirty {
        modules[d].compile_dirty = true;
    }
    BuildState {
        modules,
        deleted_modules: vec![],
    }
}

struct Run {
    end: RoundEnd,
    schedule: Schedule,
    rounds: usize,
    compiled_order: Vec<usize>,
}

/// Drives the scheduler the way the build does, with `compile` standing in
/// for the compiler: it gives the module's result and whether its interface
/// digest changed.
fn run(state: &mut BuildState, compile: impl Fn(usize) -> (UnitResult, bool)) -> Run {
    let mut schedule = Schedule::new(state);
    let mut rounds = 0;
    let mut compiled_order = vec![];
    loop {
        rounds += 1;
        let snapshot = schedule.frontier();
        let mut results = vec![];
        for &m in snapshot.iter() {
            match schedule.admission(state, m) {
                Admission::Wait => {}
                Admission::Clean => results.push((m, ModuleResult::clean_skip())),
                Admission::Namespace => results.push((m, ModuleResult::namespace())),
                Admission::Compile => {
                    let (unit, digest_changed) = compile(m);
                    compiled_order.push(m);
                    let before = Some(vec![1u8, 2, 3]);
                    let after = if digest_changed { Some(vec![9u8]) } else { before.clone() };
                    results.push((m, ModuleResult::compiled(unit, None, &before, &after)));
                }
            }
        }
        for (m, result) in results {
            schedule.fold(state, m, result, 1000 + rounds as u64);
        }
        match schedule.round_end(state) {
            RoundEnd::Continue => {}
            end => {
                return Run {
                    end,
                    schedule,
                    rounds,
                    compiled_order,
                };
            }
        }
    }
}

#[test]
fn single_dirty_leaf() {
    // A -> B -> C, only C dirty
    let mut state = graph(&["A", "B", "C"], &[(0, 1), (1, 2)], &[2]);
    let r = run(&mut state, |_| (UnitResult::Success, false));
    assert!(matches!(r.end, RoundEnd::Complete));
    assert_eq!(members(3, |i| r.schedule.is_in_universe(i)), vec![false, false, true]);
    assert_eq!(r.rounds, 1);
    assert_eq!(r.schedule.num_compiled, 1);
    assert!(!state.modules[0].compile_dirty);
    assert!(!state.modules[1].compile_dirty);
    assert!(!state.modules[2].compile_dirty);
    assert!(r.schedule.errors.is_empty());
}

#[test]
fn dirty_root_with_clean_interface() {
    let mut state = graph(&["A", "B"], &[(0, 1)], &[0]);
    let r = run(&mut state, |_| (UnitResult::Success, false));
    assert!(matches!(r.end, RoundEnd::Complete));
    assert_eq!(members(2, |i| r.schedule.is_in_universe(i)), vec![true, true]);
    assert_eq!(r.rounds, 2);
    assert_eq!(r.schedule.num_compiled, 1);
    assert_eq!(r.compiled_order, vec![0]);
    assert_eq!(members(2, |i| r.schedule.is_clean(i)), vec![true, true]);
    assert!(!state.modules[1].compile_dirty);
}

#[test]
fn dirty_root_with_changed_interface() {
    let mut state = graph(&["A", "B"], &[(0, 1)], &[0]);
    let r = run(&mut state, |_| (UnitResult::Success, true));
    assert!(matches!(r.end, RoundEnd::Complete));
    assert_eq!(r.rounds, 2);
    assert_eq!(r.schedule.num_compiled, 2);
    assert_eq!(r.compiled_order, vec![0, 1]);
    assert!(!state.modules[0].compile_dirty);
    assert!(!state.modules[1].compile_dirty);
    assert_eq!(state.modules[1].last_compiled_cmt, Some(1002));
}

#[test]
fn dependency_cycle_is_reported() {
    let mut state = graph(&["A", "B"], &[(0, 1), (1, 0)], &[0, 1]);
    let schedule = Schedule::new(&state);
    assert_eq!(schedule.frontier(), Vec::<usize>::new());
    let r = run(&mut state, |_| (UnitResult::Success, true));
    assert_eq!(r.rounds, 1);
    match r.end {
        RoundEnd::Cycle(mut c) => {
            c.sort();
            assert_eq!(c, vec![0, 1]);
        }
        _ => panic!("expected a cycle"),
    }
    assert_eq!(r.schedule.num_compiled, 0);
}

#[test]
fn compile_error_stops_propagation() {
    let mut state = graph(&["A", "B", "C"], &[(0, 1), (1, 2)], &[0, 1, 2]);
    let r = run(&mut state, |m| {
        if m == 1 {
            (UnitResult::Error("syntax error in B".to_string()), true)
        } else {
            (UnitResult::Success, true)
        }
    });
    assert!(matches!(r.end, RoundEnd::Failed));
    assert_eq!(r.rounds, 2);
    assert_eq!(r.compiled_order, vec![0, 1]);
    assert_eq!(r.schedule.errors, vec!["syntax error in B".to_string()]);
    assert!(!r.schedule.is_compiled(2));
    assert!(r.schedule.is_compiled(1));
    assert!(state.modules[1].compile_dirty);
    assert!(state.modules[2].compile_dirty);
    match &state.modules[1].source_type {
        SourceType::SourceFile(sf) => assert_eq!(sf.implementation.compile_state, CompileState::Error),
        _ => panic!("expected a source module"),
    }
}

#[test]
fn warning_on_local_package() {
    let mut state = graph(&["A"], &[], &[0]);
    let r = run(&mut state, |_| (UnitResult::Warning("unused variable x".to_string()), false));
    assert!(matches!(r.end, RoundEnd::Complete));
    assert!(r.schedule.errors.is_empty());
    assert_eq!(r.schedule.warnings, vec!["unused variable x".to_string()]);
    assert!(state.modules[0].compile_dirty);
    assert_eq!(state.modules[0].last_compiled_cmt, None);
    match &state.modules[0].source_type {
        SourceType::SourceFile(sf) => {
            assert_eq!(sf.implementation.compile_state, CompileState::Warning)
        }
        _ => panic!("expected a source module"),
    }
}

#[test]
fn universe_is_transitive_closure_of_dependents() {
    // A -> B -> C, D separate; only A dirty
    let state = graph(&["A", "B", "C", "D"], &[(0, 1), (1, 2)], &[0]);
    let schedule = Schedule::new(&state);
    assert_eq!(members(4, |i| schedule.is_in_universe(i)), vec![true, true, true, false]);
    assert_eq!(schedule.universe_count(), 3);
    assert_eq!(schedule.frontier(), vec![0]);
}

#[test]
fn admission_waits_for_dependencies() {
    let mut state = graph(&["A", "B"], &[(0, 1)], &[0, 1]);
    let mut schedule = Schedule::new(&state);
    assert!(matches!(schedule.admission(&state, 0), Admission::Compile));
    assert!(matches!(schedule.admission(&state, 1), Admission::Wait));
    let before = Some(vec![1u8]);
    schedule.fold(
        &mut state,
        0,
        ModuleResult::compiled(UnitResult::Success, None, &before, &before),
        7,
    );
    assert_eq!(schedule.frontier(), vec![1]);
    assert!(matches!(schedule.admission(&state, 1), Admission::Compile));
}

#[test]
fn clean_interface_leaves_dependents_alone() {
    let mut state = graph(&["A", "B", "C"], &[(0, 1), (0, 2)], &[0]);
    let mut schedule = Schedule::new(&state);
    let d = Some(vec![4u8, 4]);
    schedule.fold(&mut state, 0, ModuleResult::compiled(UnitResult::Success, None, &d, &d), 5);
    assert!(!state.modules[1].compile_dirty);
    assert!(!state.modules[2].compile_dirty);
    assert_eq!(schedule.frontier(), vec![1, 2]);
    assert!(matches!(schedule.admission(&state, 1), Admission::Clean));
}

#[test]
fn changed_interface_dirties_every_dependent() {
    let mut state = graph(&["A", "B", "C"], &[(0, 1), (0, 2)], &[0]);
    let mut schedule = Schedule::new(&state);
    let before = Some(vec![4u8, 4]);
    let after = Some(vec![4u8, 5]);
    schedule.fold(&mut state, 0, ModuleResult::compiled(UnitResult::Success, None, &before, &after), 5);
    assert!(state.modules[1].compile_dirty);
    assert!(state.modules[2].compile_dirty);
    assert!(!state.modules[0].compile_dirty);
    assert_eq!(state.modules[0].last_compiled_cmi, Some(5));
}

#[test]
fn missing_digest_counts_as_changed() {
    let mut state = graph(&["A", "B"], &[(0, 1)], &[0]);
    let mut schedule = Schedule::new(&state);
    let after = Some(vec![1u8]);
    let r = ModuleResult::compiled(UnitResult::Success, None, &None, &after);
    assert!(!r.is_clean_cmi);
    schedule.fold(&mut state, 0, r, 5);
    assert!(state.modules[1].compile_dirty);
}

#[test]
fn namespace_module_is_settled_and_dirties_dependents() {
    let mut state = graph(&["Ns", "A"], &[(0, 1)], &[0]);
    state.modules[0].source_type = SourceType::MlMap(MlMap { parse_dirty: true });
    let mut schedule = Schedule::new(&state);
    assert!(matches!(schedule.admission(&state, 0), Admission::Namespace));
    schedule.fold(&mut state, 0, ModuleResult::namespace(), 3);
    assert!(!state.modules[0].compile_dirty);
    assert!(matches!(state.modules[0].source_type, SourceType::MlMap(MlMap { parse_dirty: false })));
    assert!(state.modules[1].compile_dirty);
    assert_eq!(schedule.num_compiled, 0);
}

#[test]
fn interface_result_is_recorded() {
    let mut state = graph(&["A"], &[], &[0]);
    state.modules[0] = source_module("A", true);
    state.modules[0].compile_dirty = true;
    let mut schedule = Schedule::new(&state);
    let d = Some(vec![1u8]);
    schedule.fold(
        &mut state,
        0,
        ModuleResult::compiled(
            UnitResult::Success,
            Some(UnitResult::Error("bad signature".to_string())),
            &d,
            &d,
        ),
        9,
    );
    match &state.modules[0].source_type {
        SourceType::SourceFile(sf) => {
            assert_eq!(sf.implementation.compile_state, CompileState::Success);
            assert_eq!(sf.interface.as_ref().unwrap().compile_state, CompileState::Error);
        }
        _ => panic!("expected a source module"),
    }
    assert!(state.modules[0].compile_dirty);
    assert_eq!(schedule.errors, vec!["bad signature".to_string()]);
    assert!(matches!(schedule.round_end(&state), RoundEnd::Complete));
}

#[test]
fn empty_error_text_does_not_stop_the_run() {
    let mut state = graph(&["A", "B"], &[(0, 1)], &[0]);
    let mut schedule = Schedule::new(&state);
    let d = Some(vec![1u8]);
    schedule.fold(&mut state, 0, ModuleResult::compiled(UnitResult::Error(String::new()), None, &d, &d), 1);
    assert!(matches!(schedule.round_end(&state), RoundEnd::Continue));
}

#[test]
fn nothing_dirty_is_complete_at_once() {
    let mut state = graph(&["A", "B"], &[(0, 1)], &[]);
    let r = run(&mut state, |_| (UnitResult::Success, true));
    assert!(matches!(r.end, RoundEnd::Complete));
    assert_eq!(r.rounds, 1);
    assert_eq!(r.schedule.num_compiled, 0);
}

#[test]
fn cycle_behind_a_compiled_module() {
    // A -> B, B -> C, C -> B; all dirty
    let mut state = graph(&["A", "B", "C"], &[(0, 1), (1, 2), (2, 1)], &[0, 1, 2]);
    let r = run(&mut state, |_| (UnitResult::Success, true));
    assert_eq!(r.compiled_order, vec![0]);
    match r.end {
        RoundEnd::Cycle(mut c) => {
            c.sort();
            assert_eq!(c, vec![1, 2]);
        }
        _ => panic!("expected a cycle"),
    }
}
