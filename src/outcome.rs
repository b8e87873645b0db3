use vstd::prelude::*;

use crate::graph::{
    CompileState, Implementation, Interface, MlMap, Module, SourceFile, SourceType,
};

verus! {

/// What one compiler run on one compilation unit reported.
pub enum UnitResult {
    Success,
    /// Succeeded, with diagnostic text.
    Warning(String),
    /// Failed, with the compiler's output.
    Error(String),
}

pub open spec fn unit_state(u: UnitResult) -> CompileState {
    match u {
        UnitResult::Success => CompileState::Success,
        UnitResult::Warning(_) => CompileState::Warning,
        UnitResult::Error(_) => CompileState::Error,
    }
}

impl UnitResult {
    pub fn compile_state(&self) -> (r: CompileState)
        ensures
            r == unit_state(*self),
    {
        match self {
            UnitResult::Success => CompileState::Success,
            UnitResult::Warning(_) => CompileState::Warning,
            UnitResult::Error(_) => CompileState::Error,
        }
    }
}

/// The result of processing one admitted module in a round.
pub struct ModuleResult {
    pub implementation: UnitResult,
    pub interface: Option<UnitResult>,
    /// The compiled interface digest was present and unchanged by the compile.
    pub is_clean_cmi: bool,
    /// The compiler was actually run.
    pub was_compiled: bool,
}

impl ModuleResult {
    /// A module found not dirty: complete without a compile, interface unchanged.
    pub fn clean_skip() -> (r: ModuleResult)
        ensures
            r == (ModuleResult {
                implementation: UnitResult::Success,
                interface: Some(UnitResult::Success),
                is_clean_cmi: true,
                was_compiled: false,
            }),
    {
        ModuleResult {
            implementation: UnitResult::Success,
            interface: Some(UnitResult::Success),
            is_clean_cmi: true,
            was_compiled: false,
        }
    }

    /// A dirty namespace module: nothing to run, but its dependents must be rebuilt.
    pub fn namespace() -> (r: ModuleResult)
        ensures
            r == (ModuleResult {
                implementation: UnitResult::Success,
                interface: Some(UnitResult::Success),
                is_clean_cmi: false,
                was_compiled: false,
            }),
    {
        ModuleResult {
            implementation: UnitResult::Success,
            interface: Some(UnitResult::Success),
            is_clean_cmi: false,
            was_compiled: false,
        }
    }
}

/// Both compiles succeeded without diagnostics.
pub open spec fn settled(r: ModuleResult) -> bool {
    &&& r.implementation is Success
    &&& (r.interface is None || r.interface == Some(UnitResult::Success))
}

pub open spec fn unit_text(u: UnitResult, errors: bool) -> Seq<String> {
    match u {
        UnitResult::Error(t) => if errors {
            seq![t]
        } else {
            seq![]
        },
        UnitResult::Warning(t) => if errors {
            seq![]
        } else {
            seq![t]
        },
        UnitResult::Success => seq![],
    }
}

/// The error texts (or, with `errors` false, the warning texts) of a result,
/// implementation first.
pub open spec fn result_texts(r: ModuleResult, errors: bool) -> Seq<String> {
    unit_text(r.implementation, errors) + match r.interface {
        Some(u) => unit_text(u, errors),
        None => seq![],
    }
}

/// Module `md` after its result has been recorded at time `now`.
pub open spec fn after_result(md: Module, r: ModuleResult, now: u64) -> Module {
    match md.source_type {
        SourceType::MlMap(_) => Module {
            compile_dirty: false,
            source_type: SourceType::MlMap(MlMap { parse_dirty: false }),
            ..md
        },
        SourceType::SourceFile(sf) => Module {
            source_type: SourceType::SourceFile(
                SourceFile {
                    implementation: Implementation {
                        compile_state: unit_state(r.implementation),
                        ..sf.implementation
                    },
                    interface: match (sf.interface, r.interface) {
                        (Some(i), Some(u)) => Some(Interface { compile_state: unit_state(u), ..i }),
                        (i, _) => i,
                    },
                },
            ),
            compile_dirty: !settled(r),
            last_compiled_cmi: if settled(r) {
                Some(now)
            } else {
                md.last_compiled_cmi
            },
            last_compiled_cmt: if settled(r) {
                Some(now)
            } else {
                md.last_compiled_cmt
            },
            ..md
        },
    }
}

} // verus!
