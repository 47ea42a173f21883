//! Errors surfaced by the library.
//!
//! Each variant carries the values that its report names, and `message`
//! renders the report text; the text of every variant is pinned by
//! `spec_message`.

use vstd::prelude::*;
use crate::util::{chars_of, push_str_chars, string_from_chars};

verus! {

/// Everything that can go wrong while resolving or preparing hooks.
#[derive(Debug)]
pub enum HookError {
    /// Pre-push stdin was empty.
    NoPushInput,
    /// A pre-push stdin line had fewer than four fields.
    PushStdinFormat {
        /// The offending line.
        line: String,
    },
    /// The local object id was not 40 hexadecimal characters.
    LocalOidFormat {
        /// The offending token.
        oid: String,
    },
    /// The remote object id was not 40 hexadecimal characters.
    RemoteOidFormat {
        /// The offending token.
        oid: String,
    },
    /// A file pattern did not compile.
    InvalidPattern {
        /// The offending pattern.
        pattern: String,
    },
    /// The given directory is not the top of a git repository.
    NotARepository {
        /// The directory that was probed.
        path: String,
    },
    /// A git command run by the embedding program failed.
    GitCommand {
        /// What the git command reported.
        message: String,
    },
    /// A template named a variable outside the allow-list.
    TemplateUnknown {
        /// The offending variable name.
        variable: String,
    },
    /// Hook dependencies form a cycle.
    DependencyCycle {
        /// A hook on the cycle.
        hook: String,
    },
}

/// The report text of each error variant.
pub open spec fn spec_message(e: HookError) -> Seq<char> {
    match e {
        HookError::NoPushInput => "No input received from git pre-push hook"@,
        HookError::PushStdinFormat { line } => (
        "Invalid pre-push stdin format. Expected: <local ref> <local oid> <remote ref> <remote oid>, got: "@
            + line@),
        HookError::LocalOidFormat { oid } => (
        "Invalid local OID format: '"@ + oid@ + "'. Expected 40-character hex string"@),
        HookError::RemoteOidFormat { oid } => (
        "Invalid remote OID format: '"@ + oid@ + "'. Expected 40-character hex string"@),
        HookError::InvalidPattern { pattern } => "Invalid glob pattern: "@ + pattern@,
        HookError::NotARepository { path } => "Not a git repository: "@ + path@,
        HookError::GitCommand { message } => "Git command failed: "@ + message@,
        HookError::TemplateUnknown { variable } => "Unknown template variable: "@ + variable@,
        HookError::DependencyCycle { hook } => (
        "Dependency cycle detected involving hook '"@ + hook@ + "'"@),
    }
}

impl HookError {
    /// Render the report text of this error.
    pub fn message(&self) -> (r: String)
        ensures
            r@ == spec_message(*self),
    {
        let mut out: Vec<char> = Vec::new();
        match self {
            HookError::NoPushInput => {
                push_str_chars(&mut out, "No input received from git pre-push hook");
            },
            HookError::PushStdinFormat { line } => {
                push_str_chars(
                    &mut out,
                    "Invalid pre-push stdin format. Expected: <local ref> <local oid> <remote ref> <remote oid>, got: ",
                );
                let v = chars_of(line.as_str());
                crate::util::push_chars(&mut out, &v);
            },
            HookError::LocalOidFormat { oid } => {
                push_str_chars(&mut out, "Invalid local OID format: '");
                let v = chars_of(oid.as_str());
                crate::util::push_chars(&mut out, &v);
                push_str_chars(&mut out, "'. Expected 40-character hex string");
            },
            HookError::RemoteOidFormat { oid } => {
                push_str_chars(&mut out, "Invalid remote OID format: '");
                let v = chars_of(oid.as_str());
                crate::util::push_chars(&mut out, &v);
                push_str_chars(&mut out, "'. Expected 40-character hex string");
            },
            HookError::InvalidPattern { pattern } => {
                push_str_chars(&mut out, "Invalid glob pattern: ");
                let v = chars_of(pattern.as_str());
                crate::util::push_chars(&mut out, &v);
            },
            HookError::NotARepository { path } => {
                push_str_chars(&mut out, "Not a git repository: ");
                let v = chars_of(path.as_str());
                crate::util::push_chars(&mut out, &v);
            },
            HookError::GitCommand { message } => {
                push_str_chars(&mut out, "Git command failed: ");
                let v = chars_of(message.as_str());
                crate::util::push_chars(&mut out, &v);
            },
            HookError::TemplateUnknown { variable } => {
                push_str_chars(&mut out, "Unknown template variable: ");
                let v = chars_of(variable.as_str());
                crate::util::push_chars(&mut out, &v);
            },
            HookError::DependencyCycle { hook } => {
                push_str_chars(&mut out, "Dependency cycle detected involving hook '");
                let v = chars_of(hook.as_str());
                crate::util::push_chars(&mut out, &v);
                push_str_chars(&mut out, "'");
            },
        }
        string_from_chars(&out)
    }
}

} // verus!
