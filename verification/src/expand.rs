//! Resolving a path-expansion run into a file list or a failure.
//!
//! Walking the filesystem is the caller's job; it reports what it saw as a
//! sequence of events, one per file found and one per path or directory
//! entry that could not be used. This module decides what the run amounts
//! to: the ordered file list, or one of the two expansion failures.

use vstd::prelude::*;
use vstd::string::StringExecFns;

verus! {

/// One observation made while expanding the input paths, in order.
pub enum ExpandEvent {
    /// A regular file, given directly or found under a directory.
    FoundFile(String),
    /// A path or directory entry that could not be used, with the error
    /// text recorded for it.
    Inaccessible(String),
}

/// Why an expansion run produced no usable files.
#[derive(Debug)]
pub enum ExpandError {
    /// Nothing was found and at least one path failed; holds the recorded
    /// error texts.
    NoAccessibleFiles(Vec<String>),
    /// Nothing was found and nothing failed, as with only empty
    /// directories.
    NoFilesFound,
}

/// The files the events report, in order.
pub open spec fn found_files(events: Seq<ExpandEvent>) -> Seq<String>
    decreases events.len(),
{
    if events.len() == 0 {
        Seq::<String>::empty()
    } else {
        found_files(events.drop_last()) + match events.last() {
            ExpandEvent::FoundFile(p) => seq![p],
            ExpandEvent::Inaccessible(_) => Seq::<String>::empty(),
        }
    }
}

/// The error texts the events report, in order.
pub open spec fn error_texts(events: Seq<ExpandEvent>) -> Seq<String>
    decreases events.len(),
{
    if events.len() == 0 {
        Seq::<String>::empty()
    } else {
        error_texts(events.drop_last()) + match events.last() {
            ExpandEvent::FoundFile(_) => Seq::<String>::empty(),
            ExpandEvent::Inaccessible(m) => seq![m],
        }
    }
}

/// The first `k` of `parts`, joined with a newline between consecutive
/// parts.
pub open spec fn joined_lines(parts: Seq<String>, k: int) -> Seq<char>
    decreases k,
{
    if k <= 0 {
        Seq::<char>::empty()
    } else if k == 1 {
        parts[0]@
    } else {
        joined_lines(parts, k - 1) + "\n"@ + parts[k - 1]@
    }
}

/// Joins the recorded error texts with newlines, in order.
fn join_errors(errs: &Vec<String>) -> (r: String)
    ensures
        r@ == joined_lines(errs@, errs@.len() as int),
{
    let mut r = String::new();
    let n = errs.len();
    let mut i: usize = 0;
    while i < n
        invariant
            n == errs@.len(),
            i <= n,
            r@ == joined_lines(errs@, i as int),
        decreases n - i,
    {
        if i > 0 {
            r.append("\n");
        }
        r.append(errs[i].as_str());
        i += 1;
    }
    r
}

/// The message shown for each way an expansion run fails.
pub open spec fn expand_error_message(e: ExpandError) -> Seq<char> {
    match e {
        ExpandError::NoAccessibleFiles(errs) => "No accessible files found. Errors:\n"@
            + joined_lines(errs@, errs@.len() as int),
        ExpandError::NoFilesFound => "No files found from provided paths"@,
    }
}

impl ExpandError {
    /// The human-readable message for this failure, with the recorded
    /// error texts listed one per line.
    pub fn message(&self) -> (r: String)
        ensures
            r@ == expand_error_message(*self),
    {
        match self {
            ExpandError::NoAccessibleFiles(errs) => {
                let mut r = String::from_str("No accessible files found. Errors:\n");
                let joined = join_errors(errs);
                r.append(joined.as_str());
                r
            },
            ExpandError::NoFilesFound => String::from_str("No files found from provided paths"),
        }
    }
}

/// Resolves an expansion run: the files in the order they were found when
/// there was at least one; otherwise the failure that the run amounts to,
/// with the recorded error texts when there were any.
pub fn resolve_expansion(events: Vec<ExpandEvent>) -> (r: Result<Vec<String>, ExpandError>)
    ensures
        found_files(events@).len() > 0 ==> (r matches Ok(files) && files@ == found_files(
            events@,
        )),
        found_files(events@).len() == 0 && error_texts(events@).len() > 0 ==> (r matches Err(e)
            && e matches ExpandError::NoAccessibleFiles(errs) && errs@ == error_texts(events@)),
        found_files(events@).len() == 0 && error_texts(events@).len() == 0 ==> r == Result::<
            Vec<String>,
            ExpandError,
        >::Err(ExpandError::NoFilesFound),
{
    let mut files: Vec<String> = Vec::new();
    let mut errors: Vec<String> = Vec::new();
    let n = events.len();
    let mut i: usize = 0;
    while i < n
        invariant
            n == events@.len(),
            i <= n,
            files@ == found_files(events@.take(i as int)),
            errors@ == error_texts(events@.take(i as int)),
        decreases n - i,
    {
        proof {
            assert(events@.take(i + 1).drop_last() =~= events@.take(i as int));
            assert(events@.take(i + 1).last() == events@[i as int]);
        }
        match &events[i] {
            ExpandEvent::FoundFile(p) => {
                files.push(p.clone());
                proof {
                    assert(files@ =~= found_files(events@.take(i + 1)));
                    assert(errors@ =~= error_texts(events@.take(i + 1)));
                }
            },
            ExpandEvent::Inaccessible(m) => {
                errors.push(m.clone());
                proof {
                    assert(files@ =~= found_files(events@.take(i + 1)));
                    assert(errors@ =~= error_texts(events@.take(i + 1)));
                }
            },
        }
        i += 1;
    }
    proof {
        assert(events@.take(n as int) =~= events@);
    }
    if files.len() > 0 {
        Ok(files)
    } else if errors.len() > 0 {
        Err(ExpandError::NoAccessibleFiles(errors))
    } else {
        Err(ExpandError::NoFilesFound)
    }
}

} // verus!
