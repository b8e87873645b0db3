use vstd::prelude::*;

use vstd::utf8::encode_utf8;

use crate::args::concat_text;
use crate::outcome::{ModuleResult, UnitResult};

verus! {

/// The text holds an ASCII letter, digit or punctuation mark. In UTF-8 such
/// bytes never occur inside a multi-byte character.
pub open spec fn has_diagnostic_text(b: Seq<u8>) -> bool {
    exists|i: int| 0 <= i < b.len() && 0x21 <= #[trigger] b[i] <= 0x7e
}

pub fn contains_diagnostic_text(s: &str) -> (r: bool)
    ensures
        r == has_diagnostic_text(encode_utf8(s@)),
{
    let b = s.as_bytes();
    let mut i: usize = 0;
    while i < b.len()
        invariant
            b@ == encode_utf8(s@),
            i <= b@.len(),
            forall|j: int| 0 <= j < i ==> !(0x21 <= #[trigger] b@[j] <= 0x7e),
        decreases b@.len() - i,
    {
        let c = b[i];
        if 0x21 <= c && c <= 0x7e {
            assert(0x21 <= b@[i as int] <= 0x7e);
            return true;
        }
        i += 1;
    }
    false
}

/// Reads the compiler's exit status and streams. A failed run is an error
/// with stderr followed by stdout. A successful run with diagnostic text on
/// stderr is a warning in a local package; in an external package the text
/// is dropped.
pub fn compile_output_result(success: bool, stderr: String, stdout: String, is_local_dep: bool) -> (r:
    UnitResult)
    ensures
        !success ==> (r matches UnitResult::Error(t) && t@ == stderr@ + stdout@),
        success && is_local_dep && has_diagnostic_text(encode_utf8(stderr@)) ==> (
        r matches UnitResult::Warning(t) && t@ == stderr@),
        success && !(is_local_dep && has_diagnostic_text(encode_utf8(stderr@))) ==> r is Success,
{
    if !success {
        UnitResult::Error(concat_text(&stderr, &stdout))
    } else if is_local_dep && contains_diagnostic_text(stderr.as_str()) {
        UnitResult::Warning(stderr)
    } else {
        UnitResult::Success
    }
}

/// Both digests are present and equal.
pub fn same_digest(pre: &Option<Vec<u8>>, post: &Option<Vec<u8>>) -> (r: bool)
    ensures
        r == (pre is Some && post is Some && pre->0@ == post->0@),
{
    match (pre, post) {
        (Some(a), Some(b)) => {
            if a.len() != b.len() {
                return false;
            }
            let mut i: usize = 0;
            while i < a.len()
                invariant
                    pre is Some && pre->0@ == a@,
                    post is Some && post->0@ == b@,
                    a@.len() == b@.len(),
                    i <= a@.len(),
                    forall|j: int| 0 <= j < i ==> a@[j] == b@[j],
                decreases a@.len() - i,
            {
                if a[i] != b[i] {
                    assert(a@[i as int] != b@[i as int]);
                    return false;
                }
                i += 1;
            }
            assert(a@ =~= b@);
            true
        },
        _ => false,
    }
}

impl ModuleResult {
    /// The result of compiling a source module, given its compiled interface
    /// digest before and after the compile.
    pub fn compiled(
        implementation: UnitResult,
        interface: Option<UnitResult>,
        digest_before: &Option<Vec<u8>>,
        digest_after: &Option<Vec<u8>>,
    ) -> (r: ModuleResult)
        ensures
            r.implementation == implementation,
            r.interface == interface,
            r.is_clean_cmi == (digest_before is Some && digest_after is Some && digest_before->0@
                == digest_after->0@),
            r.was_compiled,
    {
        ModuleResult {
            implementation,
            interface,
            is_clean_cmi: same_digest(digest_before, digest_after),
            was_compiled: true,
        }
    }
}

} // verus!
