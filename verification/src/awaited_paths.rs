//! The awaited-path registry: the unwrapped core functions that do real
//! refresh or backfill work without an activity-ledger occurrence of their
//! own, and the files allowed to call each one directly (its defining file,
//! which holds the instrumented wrapper, any documented exception, and test
//! files). Any other caller would do the work invisibly.

use vstd::prelude::*;
use crate::text::{concat2, contains_seq, contains_str, ends_with, is_suffix, str_eq};

verus! {

/// One unwrapped core whose work must run through its instrumented wrapper.
pub struct DirectPath {
    /// The core function's bare name.
    pub core_fn: &'static str,
    /// The file (under the sources root) defining the core and its wrapper.
    pub defining_file: &'static str,
    /// Other non-test files allowed to call the core, each with its reason.
    pub extra_allowed_files: Vec<(&'static str, &'static str)>,
}

/// The core, the defining file and the other allowed files of a path, as characters.
pub open spec fn path_view(p: DirectPath) -> (Seq<char>, Seq<char>, Seq<Seq<char>>) {
    (p.core_fn@, p.defining_file@, p.extra_allowed_files@.map_values(|e: (&'static str, &'static str)| e.0@))
}

/// The registry.
pub fn direct_paths() -> (r: Vec<DirectPath>)
    ensures
        r@.len() == 5,
        path_view(r@[0]) == ("refresh_source_for_trigger"@, "jobs/source_refresh.rs"@, seq!["jobs/handlers.rs"@]),
        path_view(r@[1]) == ("run_aggregator_fundamentals_pull_serialized"@, "jobs/aggregator_fundamentals_pull.rs"@,
            seq!["jobs/rebuild_fundamentals.rs"@]),
        path_view(r@[2]) == ("backfill_company_history"@, "jobs/backfill.rs"@, Seq::<Seq<char>>::empty()),
        path_view(r@[3]) == ("refresh_company_directories_for_trigger"@, "jobs/source_refresh.rs"@, seq!["jobs/handlers.rs"@]),
        path_view(r@[4]) == ("run_video_transcript_job"@, "jobs/transcript_runner.rs"@, seq!["commands/transcripts.rs"@]),
{
    vec![
        DirectPath {
            core_fn: "refresh_source_for_trigger",
            defining_file: "jobs/source_refresh.rs",
            extra_allowed_files: vec![(
                "jobs/handlers.rs",
                "ScheduledSourceRefreshHandler \u{2014} the queue's own dispatch seam writes its occurrence",
            )],
        },
        DirectPath {
            core_fn: "run_aggregator_fundamentals_pull_serialized",
            defining_file: "jobs/aggregator_fundamentals_pull.rs",
            extra_allowed_files: vec![(
                "jobs/rebuild_fundamentals.rs",
                "documented exception: `run_rebuild_fundamentals` is a rare, whole-corpus (3-pass) maintenance rebuild command, not itself Activity-ledgered \u{2014} wrapping only its Pass-1 sub-call would misrepresent the rebuild's true scope",
            )],
        },
        DirectPath {
            core_fn: "backfill_company_history",
            defining_file: "jobs/backfill.rs",
            extra_allowed_files: vec![],
        },
        DirectPath {
            core_fn: "refresh_company_directories_for_trigger",
            defining_file: "jobs/source_refresh.rs",
            extra_allowed_files: vec![(
                "jobs/handlers.rs",
                "ScheduledRegistryRefreshHandler \u{2014} the queue's own dispatch seam writes its occurrence",
            )],
        },
        DirectPath {
            core_fn: "run_video_transcript_job",
            defining_file: "jobs/transcript_runner.rs",
            extra_allowed_files: vec![(
                "commands/transcripts.rs",
                "the one command entry point \u{2014} `run_video_transcript_job` carries its own activity instrumentation directly, so there is no separate wrapper to route through",
            )],
        },
    ]
}

/// A test file: `*_tests.rs`, `tests.rs` (at any depth), or anything under a
/// `tests/` directory.
pub open spec fn spec_is_test_file(file: Seq<char>) -> bool {
    is_suffix("_tests.rs"@, file) || is_suffix("/tests.rs"@, file) || file == "tests.rs"@ || contains_seq(file, "/tests/"@)
}

/// Whether `file` is a test file.
pub fn is_test_file(file: &str) -> (r: bool)
    ensures
        r == spec_is_test_file(file@),
{
    ends_with(file, "_tests.rs") || ends_with(file, "/tests.rs") || str_eq(file, "tests.rs") || contains_str(file, "/tests/")
}

/// `file` may call the core of `p` directly: its defining file, a test file,
/// or a documented exception.
pub open spec fn spec_allows_caller(p: DirectPath, file: Seq<char>) -> bool {
    file == p.defining_file@ || spec_is_test_file(file)
        || exists|k: int| 0 <= k < p.extra_allowed_files@.len() && (#[trigger] p.extra_allowed_files@[k]).0@ == file
}

impl DirectPath {
    /// Whether `file` may call this core directly.
    pub fn allows_caller(&self, file: &str) -> (r: bool)
        ensures
            r == spec_allows_caller(*self, file@),
    {
        if str_eq(file, self.defining_file) || is_test_file(file) {
            return true;
        }
        let mut i: usize = 0;
        while i < self.extra_allowed_files.len()
            invariant
                i <= self.extra_allowed_files@.len(),
                forall|k: int| 0 <= k < i ==> (#[trigger] self.extra_allowed_files@[k]).0@ != file@,
            decreases self.extra_allowed_files.len() - i,
        {
            if str_eq(self.extra_allowed_files[i].0, file) {
                return true;
            }
            i = i + 1;
        }
        false
    }
}

/// A source line calls `core_fn`: it holds `core_fn(` and is not its
/// definition (`fn core_fn(`).
pub open spec fn spec_calls_core(line: Seq<char>, core_fn: Seq<char>) -> bool {
    !contains_seq(line, "fn "@ + core_fn + "("@) && contains_seq(line, core_fn + "("@)
}

/// Whether a source line calls `core_fn`.
pub fn calls_core(line: &str, core_fn: &str) -> (r: bool)
    ensures
        r == spec_calls_core(line@, core_fn@),
{
    let call = concat2(core_fn, "(");
    let def = concat2("fn ", call.as_str());
    proof {
        assert(def@ =~= "fn "@ + core_fn@ + "("@);
    }
    !contains_str(line, def.as_str()) && contains_str(line, call.as_str())
}

} // verus!
