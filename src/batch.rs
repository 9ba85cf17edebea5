//! The decisions of a batch run: what each job produces, and the fate of the
//! batch when a job fails.

use crate::columns::ColumnEntry;
use crate::outside::string_of;
use crate::text::push_all;
use crate::text::chars_of;
use vstd::prelude::*;

verus! {

/// What can go wrong in a batch run.
#[derive(Debug)]
pub enum BatchProcessingError {
    FileProcessingError(String),
    JsonParsingError(String),
    LockError(String),
    IoError(String),
}

/// The encoder a job runs.
#[derive(Debug, PartialEq, Eq, Structural)]
pub enum JobKind {
    Flow,
    Rainfall,
}

/// The name of the archive that bundles a batch's outputs.
pub const ARCHIVE_NAME: &'static str = "processed_files.zip";

/// The extension of a job's output: `r` for rainfall, `fdv` otherwise.
pub open spec fn extension_for(monitor_type: Seq<char>) -> Seq<char> {
    if monitor_type == "Rainfall"@ {
        "r"@
    } else {
        "fdv"@
    }
}

/// The output file name of a job: the site name and the type's extension.
pub open spec fn output_name(site_name: Seq<char>, monitor_type: Seq<char>) -> Seq<char> {
    site_name + seq!['.'] + extension_for(monitor_type)
}

/// Which encoder a job runs: flow for a flow or depth monitor, which needs a
/// pipe shape and size; rainfall for a rainfall monitor; none otherwise.
pub open spec fn job_kind(monitor_type: Seq<char>, has_shape: bool, has_size: bool) -> Option<
    JobKind,
> {
    if monitor_type == "Flow"@ || monitor_type == "Depth"@ {
        if has_shape && has_size {
            Some(JobKind::Flow)
        } else {
            None
        }
    } else if monitor_type == "Rainfall"@ {
        Some(JobKind::Rainfall)
    } else {
        None
    }
}

fn message(s: &str) -> (r: String)
    ensures
        r@ == s@,
{
    String::from_str(s)
}

/// The output file name of a job.
pub fn output_filename(site_name: &str, monitor_type: &str) -> (r: String)
    ensures
        r@ == output_name(site_name@, monitor_type@),
{
    let mut t = chars_of(site_name);
    t.push('.');
    if crate::text::same_text(monitor_type, "Rainfall") {
        push_all(&mut t, &chars_of("r"));
    } else {
        push_all(&mut t, &chars_of("fdv"));
    }
    string_of(&t)
}

/// Which encoder a job runs, or why it cannot run.
pub fn plan_job(monitor_type: &str, pipe_shape: Option<&str>, pipe_size: Option<&str>) -> (r:
    Result<JobKind, BatchProcessingError>)
    ensures
        match r {
            Ok(k) => job_kind(monitor_type@, pipe_shape is Some, pipe_size is Some) == Some(k),
            Err(e) => e is FileProcessingError && job_kind(
                monitor_type@,
                pipe_shape is Some,
                pipe_size is Some,
            ) is None,
        },
{
    if crate::text::same_text(monitor_type, "Flow") || crate::text::same_text(monitor_type, "Depth") {
        if pipe_shape.is_none() {
            return Err(
                BatchProcessingError::FileProcessingError(
                    message("Pipe shape is required for flow/depth conversion"),
                ),
            );
        }
        if pipe_size.is_none() {
            return Err(
                BatchProcessingError::FileProcessingError(
                    message("Pipe size is required for flow/depth conversion"),
                ),
            );
        }
        Ok(JobKind::Flow)
    } else if crate::text::same_text(monitor_type, "Rainfall") {
        Ok(JobKind::Rainfall)
    } else {
        Err(BatchProcessingError::FileProcessingError(message("Unsupported monitor type")))
    }
}

/// The name of the first column of a role, if the role has any.
pub fn extract_column_name(entries: &Vec<ColumnEntry>) -> (r: Result<String, BatchProcessingError>)
    ensures
        match r {
            Ok(name) => entries@.len() > 0 && name@ == entries@[0].name@,
            Err(e) => e is FileProcessingError && entries@.len() == 0,
        },
{
    if entries.len() == 0 {
        Err(BatchProcessingError::FileProcessingError(message("Failed to extract column name")))
    } else {
        Ok(entries[0].name.clone())
    }
}

/// The text of a job's output, if it succeeded.
pub open spec fn ok_text(r: Result<String, BatchProcessingError>) -> Option<Seq<char>> {
    match r {
        Ok(p) => Some(p@),
        Err(_) => None,
    }
}

/// The outputs of a batch under the fail-fast policy: every job's output where
/// all succeeded, else the error of the first job that failed (in job order).
pub fn collect_outputs(results: Vec<Result<String, BatchProcessingError>>) -> (r: Result<
    Vec<String>,
    BatchProcessingError,
>)
    ensures
        match r {
            Ok(v) => v@.len() == results@.len() && forall|i: int|
                0 <= i < results@.len() ==> ok_text(results@[i]) == Some(#[trigger] v@[i]@),
            Err(err) => exists|i: int|
                0 <= i < results@.len() && results@[i] == Err::<String, BatchProcessingError>(err)
                    && forall|j: int| 0 <= j < i ==> #[trigger] results@[j] is Ok,
        },
{
    let mut outs: Vec<String> = Vec::new();
    let ghost orig = results@;
    let mut rest = results;
    let n = rest.len();
    let mut i: usize = 0;
    while i < n
        invariant
            n == orig.len(),
            orig == results@,
            rest@.len() == n - i,
            forall|k: int| 0 <= k < n - i ==> #[trigger] rest@[k] == orig[k + i],
            outs@.len() == i,
            forall|k: int| 0 <= k < i ==> #[trigger] ok_text(orig[k]) == Some(outs@[k]@),
        decreases n - i,
    {
        let item = rest.remove(0);
        assert(item == orig[i as int]);
        let ghost before = outs@;
        match item {
            Ok(p) => {
                outs.push(p);
                assert(forall|k: int| 0 <= k < i ==> outs@[k] == before[k]);
                assert(ok_text(orig[i as int]) == Some(outs@[i as int]@));
            },
            Err(e) => {
                assert(orig[i as int] == Err::<String, BatchProcessingError>(e));
                assert(forall|j: int| 0 <= j < i ==> #[trigger] ok_text(orig[j]) is Some);
                assert(forall|j: int| 0 <= j < i ==> #[trigger] orig[j] is Ok) by {
                    assert forall|j: int| 0 <= j < i implies #[trigger] orig[j] is Ok by {
                        assert(ok_text(orig[j]) is Some);
                    }
                }
                assert(orig == results@);
                assert(exists|w: int|
                    0 <= w < orig.len() && orig[w] == Err::<String, BatchProcessingError>(e)
                        && forall|j: int| 0 <= j < w ==> #[trigger] orig[j] is Ok);
                return Err(e);
            },
        }
        i = i + 1;
    }
    Ok(outs)
}

} // verus!
