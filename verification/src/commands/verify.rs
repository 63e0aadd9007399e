//! Checking installed tools against the digests recorded at install time.
use vstd::prelude::*;

use crate::client::download::{sha256_digest, sha256_hex};
use crate::commands::upgrade::SelectionError;
use crate::state::local::{InstalledTool, StateFile};
use crate::text::{append_text, decimal, push_decimal, text_eq, text_from, to_hex_lower};

verus! {

broadcast use vstd::seq_lib::group_seq_properties;

/// The text shown when the verify selection fails.
pub open spec fn verify_selection_message(e: SelectionError) -> Seq<char> {
    match e {
        SelectionError::NotInstalled { tool } => "Tool '"@ + tool@ + "' is not installed."@,
        SelectionError::NothingSelected =>
            "Specify a tool name or use --all to verify all installed tools."@,
    }
}

impl SelectionError {
    /// The text shown when choosing tools to verify fails.
    pub fn verify_message(&self) -> (r: String)
        ensures
            r@ == verify_selection_message(*self),
    {
        match self {
            SelectionError::NotInstalled { tool } => {
                let mut r = text_from("Tool '");
                append_text(&mut r, tool.as_str());
                append_text(&mut r, "' is not installed.");
                r
            },
            SelectionError::NothingSelected => text_from(
                "Specify a tool name or use --all to verify all installed tools.",
            ),
        }
    }
}

/// The installed tools with slug `tool`, whatever their project.
pub open spec fn with_slug(s: Seq<InstalledTool>, tool: Seq<char>) -> Seq<InstalledTool> {
    s.filter(|t: InstalledTool| t.tool_slug@ == tool)
}

/// The tools to verify: every installed tool with slug `tool` when one is
/// named (an error when there is none), else all of them with `--all`.
pub fn verify_targets<'a>(state: &'a StateFile, tool: Option<&str>, all: bool) -> (r: Result<
    Vec<&'a InstalledTool>,
    SelectionError,
>)
    ensures
        match tool {
            Some(t) => if with_slug(state.installed@, t@).len() == 0 {
                r matches Err(SelectionError::NotInstalled { tool: x }) && x@ == t@
            } else {
                r matches Ok(v) && v@.map_values(|x: &InstalledTool| *x) == with_slug(
                    state.installed@,
                    t@,
                )
            },
            None => if all {
                r matches Ok(v) && v@.map_values(|x: &InstalledTool| *x) == state.installed@
            } else {
                r matches Err(SelectionError::NothingSelected)
            },
        },
{
    let n = state.installed.len();
    match tool {
        Some(t) => {
            let ghost pred = |x: InstalledTool| x.tool_slug@ == t@;
            let mut v: Vec<&InstalledTool> = Vec::new();
            let mut i: usize = 0;
            assert(state.installed@.take(0).filter(pred) =~= Seq::<InstalledTool>::empty());
            while i < n
                invariant
                    n == state.installed@.len(),
                    i <= n,
                    pred == (|x: InstalledTool| x.tool_slug@ == t@),
                    v@.map_values(|x: &InstalledTool| *x) == state.installed@.take(i as int).filter(
                        pred,
                    ),
                decreases n - i,
            {
                let x = &state.installed[i];
                let ghost before = v@;
                proof {
                    assert(state.installed@.take(i + 1) =~= state.installed@.take(i as int).push(*x));
                    state.installed@.take(i as int).lemma_filter_push(*x, pred);
                }
                if text_eq(x.tool_slug.as_str(), t) {
                    v.push(x);
                    assert(v@.map_values(|x: &InstalledTool| *x) =~= before.map_values(
                        |x: &InstalledTool| *x,
                    ).push(*x));
                }
                i = i + 1;
            }
            assert(state.installed@.take(n as int) =~= state.installed@);
            if v.len() == 0 {
                Err(SelectionError::NotInstalled { tool: text_from(t) })
            } else {
                Ok(v)
            }
        },
        None => {
            if all {
                let mut v: Vec<&InstalledTool> = Vec::new();
                let mut i: usize = 0;
                while i < n
                    invariant
                        n == state.installed@.len(),
                        i <= n,
                        v@.map_values(|x: &InstalledTool| *x) == state.installed@.take(i as int),
                    decreases n - i,
                {
                    let ghost before = v@;
                    let x = &state.installed[i];
                    v.push(x);
                    assert(v@.map_values(|x: &InstalledTool| *x) =~= before.map_values(
                        |x: &InstalledTool| *x,
                    ).push(*x));
                    assert(state.installed@.take(i + 1) =~= state.installed@.take(i as int).push(*x));
                    i = i + 1;
                }
                assert(state.installed@.take(n as int) =~= state.installed@);
                Ok(v)
            } else {
                Err(SelectionError::NothingSelected)
            }
        },
    }
}

/// The outcome of checking one installed tool.
pub enum VerifyStatus {
    /// Its file is gone.
    Missing,
    /// No digest was recorded for it.
    Skipped,
    /// Its file has the recorded digest.
    Intact,
    /// Its file has another digest.
    Modified,
}

/// The outcome known before reading the file: missing when it does not
/// exist, skipped when no digest was recorded; otherwise the file must be read.
pub fn precheck(tool: &InstalledTool, exists: bool) -> (r: Option<VerifyStatus>)
    ensures
        !exists ==> r matches Some(VerifyStatus::Missing),
        exists && tool.sha256 is None ==> r matches Some(VerifyStatus::Skipped),
        exists && tool.sha256 is Some ==> r is None,
{
    if !exists {
        Some(VerifyStatus::Missing)
    } else if tool.sha256.is_none() {
        Some(VerifyStatus::Skipped)
    } else {
        None
    }
}

/// Whether `data` has the digest `expected` (lowercase hexadecimal SHA-256).
pub fn verify_contents(expected: &str, data: &[u8]) -> (r: VerifyStatus)
    ensures
        r is Intact <==> sha256_hex(data@) == expected@,
        r is Intact || r is Modified,
{
    let digest = sha256_digest(data);
    let actual = to_hex_lower(digest.as_slice());
    if text_eq(actual.as_str(), expected) {
        VerifyStatus::Intact
    } else {
        VerifyStatus::Modified
    }
}

/// Whether an outcome counts as a failure.
pub open spec fn is_failure(s: VerifyStatus) -> bool {
    s is Missing || s is Modified
}

/// How many outcomes are failures.
pub open spec fn failure_count(s: Seq<VerifyStatus>) -> nat
    decreases s.len(),
{
    if s.len() == 0 {
        0
    } else {
        failure_count(s.drop_last()) + if is_failure(s.last()) {
            1nat
        } else {
            0nat
        }
    }
}

/// The failures among verify outcomes are exactly the missing files and the
/// modified ones: a tool with no recorded digest, or an intact one, is not
/// counted.
pub proof fn law_failures_are_missing_or_modified(s: Seq<VerifyStatus>)
    ensures
        failure_count(s) == s.filter(|x: VerifyStatus| x is Missing).len() + s.filter(
            |x: VerifyStatus| x is Modified,
        ).len(),
    decreases s.len(),
{
    let missing = |x: VerifyStatus| x is Missing;
    let modified = |x: VerifyStatus| x is Modified;
    if s.len() == 0 {
        assert(s.filter(missing) =~= Seq::<VerifyStatus>::empty());
        assert(s.filter(modified) =~= Seq::<VerifyStatus>::empty());
    } else {
        let init = s.drop_last();
        law_failures_are_missing_or_modified(init);
        assert(s =~= init.push(s.last()));
        init.lemma_filter_push(s.last(), missing);
        init.lemma_filter_push(s.last(), modified);
    }
}

/// Counts the failures among the outcomes.
pub fn count_failures(statuses: &Vec<VerifyStatus>) -> (r: usize)
    ensures
        r == failure_count(statuses@),
        r == statuses@.filter(|x: VerifyStatus| x is Missing).len() + statuses@.filter(
            |x: VerifyStatus| x is Modified,
        ).len(),
{
    proof {
        law_failures_are_missing_or_modified(statuses@);
    }
    let n = statuses.len();
    let mut count: usize = 0;
    let mut i: usize = 0;
    while i < n
        invariant
            n == statuses@.len(),
            i <= n,
            count == failure_count(statuses@.take(i as int)),
            count <= i,
        decreases n - i,
    {
        assert(statuses@.take(i + 1).drop_last() =~= statuses@.take(i as int));
        match &statuses[i] {
            VerifyStatus::Missing | VerifyStatus::Modified => {
                count = count + 1;
            },
            _ => {},
        }
        i = i + 1;
    }
    assert(statuses@.take(n as int) =~= statuses@);
    count
}

/// The text shown when some checks failed.
pub fn failures_message(count: usize) -> (r: String)
    ensures
        r@ == decimal(count as nat) + " verification failure(s)."@,
{
    let mut r = String::new();
    push_decimal(&mut r, count as u64);
    append_text(&mut r, " verification failure(s).");
    r
}

} // verus!
