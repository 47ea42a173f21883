//! Which git hook events can hand the library a list of changed files.
//!
//! Events that operate on files (the commit, push, merge, checkout, rebase,
//! rewrite, receive, update and applypatch families) can; message-oriented
//! events (`commit-msg`, `prepare-commit-msg`, `applypatch-msg`) cannot.

use vstd::prelude::*;
use crate::util::str_eq;

verus! {

/// The fixed allow-list of events that can provide a changed-file list.
pub open spec fn event_provides_files(event: Seq<char>) -> bool {
    ||| event == "pre-commit"@
    ||| event == "pre-push"@
    ||| event == "post-commit"@
    ||| event == "post-merge"@
    ||| event == "post-checkout"@
    ||| event == "pre-rebase"@
    ||| event == "post-rewrite"@
    ||| event == "pre-receive"@
    ||| event == "post-receive"@
    ||| event == "update"@
    ||| event == "post-update"@
    ||| event == "pre-applypatch"@
    ||| event == "post-applypatch"@
}

/// Whether the given git hook event can provide a list of changed files.
pub fn can_provide_files(hook_type: &str) -> (r: bool)
    ensures
        r == event_provides_files(hook_type@),
{
    str_eq(hook_type, "pre-commit") || str_eq(hook_type, "pre-push") || str_eq(
        hook_type,
        "post-commit",
    ) || str_eq(hook_type, "post-merge") || str_eq(hook_type, "post-checkout") || str_eq(
        hook_type,
        "pre-rebase",
    ) || str_eq(hook_type, "post-rewrite") || str_eq(hook_type, "pre-receive") || str_eq(
        hook_type,
        "post-receive",
    ) || str_eq(hook_type, "update") || str_eq(hook_type, "post-update") || str_eq(
        hook_type,
        "pre-applypatch",
    ) || str_eq(hook_type, "post-applypatch")
}

} // verus!
