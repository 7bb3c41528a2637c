//! Validating the parsed job description: the input paths and the optional
//! workspace root.

use crate::content::{trim_end_chars, trim_trailing};
use vstd::prelude::*;
use vstd::string::StringExecFns;

verus! {

/// A validated job: the paths to expand and the optional workspace root
/// that display paths are made relative to.
pub struct Job {
    /// The paths to expand, in order.
    pub paths: Vec<String>,
    /// The base directory for display paths, when one was supplied.
    pub workspace_root: Option<String>,
}

/// Why a job description was rejected.
#[derive(Debug)]
pub enum JobError {
    /// The input was empty after trimming whitespace.
    EmptyInput,
    /// The input was not a JSON object of the expected shape.
    MalformedJson,
    /// The `paths` array was present but empty.
    NoPaths,
}

/// The message shown for each way a job description is rejected.
pub open spec fn job_error_message(e: JobError) -> Seq<char> {
    match e {
        JobError::EmptyInput => "No input provided. Expected JSON on stdin like: {\"paths\":[\"./file.txt\"],\"workspace_root\":\".\"}"@,
        JobError::MalformedJson => "Failed to parse JSON input. Expected format: {\"paths\":[\"path1\",\"path2\"],\"workspace_root\":\"optional\"}"@,
        JobError::NoPaths => "No paths provided in input JSON"@,
    }
}

/// Empty input, malformed JSON and an empty `paths` array are three
/// different rejections, each reported with its own message.
pub proof fn lemma_job_error_messages_distinct()
    ensures
        job_error_message(JobError::EmptyInput) != job_error_message(JobError::MalformedJson),
        job_error_message(JobError::EmptyInput) != job_error_message(JobError::NoPaths),
        job_error_message(JobError::MalformedJson) != job_error_message(JobError::NoPaths),
{
    reveal_strlit(
        "No input provided. Expected JSON on stdin like: {\"paths\":[\"./file.txt\"],\"workspace_root\":\".\"}",
    );
    reveal_strlit(
        "Failed to parse JSON input. Expected format: {\"paths\":[\"path1\",\"path2\"],\"workspace_root\":\"optional\"}",
    );
    reveal_strlit("No paths provided in input JSON");
    assert(job_error_message(JobError::EmptyInput)[0] == 'N');
    assert(job_error_message(JobError::MalformedJson)[0] == 'F');
    assert(job_error_message(JobError::EmptyInput).len() != job_error_message(
        JobError::NoPaths,
    ).len());
}

impl JobError {
    /// The human-readable message for this error.
    pub fn message(&self) -> (r: String)
        ensures
            r@ == job_error_message(*self),
    {
        match self {
            JobError::EmptyInput => String::from_str(
                "No input provided. Expected JSON on stdin like: {\"paths\":[\"./file.txt\"],\"workspace_root\":\".\"}",
            ),
            JobError::MalformedJson => String::from_str(
                "Failed to parse JSON input. Expected format: {\"paths\":[\"path1\",\"path2\"],\"workspace_root\":\"optional\"}",
            ),
            JobError::NoPaths => String::from_str("No paths provided in input JSON"),
        }
    }
}

/// True when the input is zero-length once surrounding whitespace is
/// trimmed, the condition under which the job is rejected as empty.
pub fn input_is_blank(s: &String) -> (r: bool)
    ensures
        r == (trim_end_chars(s@).len() == 0),
{
    let t = trim_trailing(s);
    t.as_str().is_empty()
}

/// Validates a job description. `blank` says whether the raw input was
/// empty after trimming; `parsed` holds the fields when the input parsed as
/// JSON of the expected shape, and nothing otherwise.
pub fn make_job(blank: bool, parsed: Option<Job>) -> (r: Result<Job, JobError>)
    ensures
        blank ==> r == Result::<Job, JobError>::Err(JobError::EmptyInput),
        !blank && parsed is None ==> r == Result::<Job, JobError>::Err(JobError::MalformedJson),
        !blank && parsed is Some && parsed->0.paths@.len() == 0 ==> r == Result::<
            Job,
            JobError,
        >::Err(JobError::NoPaths),
        !blank && parsed is Some && parsed->0.paths@.len() > 0 ==> r == Result::<
            Job,
            JobError,
        >::Ok(parsed->0),
{
    if blank {
        return Err(JobError::EmptyInput);
    }
    match parsed {
        None => Err(JobError::MalformedJson),
        Some(j) => {
            if j.paths.len() == 0 {
                Err(JobError::NoPaths)
            } else {
                Ok(j)
            }
        },
    }
}

} // verus!
