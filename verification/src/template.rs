//! Template variable expansion for hook commands and environment values.
//!
//! Occurrences of `{NAME}` are substituted against a closed,
//! case-sensitive allow-list; any other name is a hard error naming the
//! variable. Values are substituted as opaque text: the result is never
//! rescanned, and no quoting is performed. A brace that never closes is
//! kept literally.

use vstd::prelude::*;
use crate::errors::HookError;
use crate::util::{
    chars_of, chars_eq, find_char, find_char_from, lemma_find_char_from, push_chars,
    string_from_chars, subrange_chars,
};

verus! {

/// The values the allow-listed template variables stand for. The two
/// changed-file entries are present only when the hook's execution type
/// grants them; an absent entry makes its variable unknown.
#[derive(Debug)]
pub struct TemplateContext {
    /// `HOOK_DIR`: the directory of the config that defined the hook.
    pub hook_dir: String,
    /// `REPO_ROOT`: the repository root.
    pub repo_root: String,
    /// `HOME_DIR`: the user's home directory.
    pub home_dir: String,
    /// `PATH`: the inherited search path.
    pub path: String,
    /// `PROJECT_NAME`: the final segment of the repository root.
    pub project_name: String,
    /// `WORKTREE_NAME`: the worktree name, or empty.
    pub worktree_name: String,
    /// `CHANGED_FILES`: the changed files joined by spaces.
    pub changed_files: Option<String>,
    /// `CHANGED_FILES_FILE`: a file listing the changed files.
    pub changed_files_file: Option<String>,
}

/// The view of a `TemplateContext`.
#[verifier::ext_equal]
pub struct TemplateContextView {
    /// `HOOK_DIR`.
    pub hook_dir: Seq<char>,
    /// `REPO_ROOT`.
    pub repo_root: Seq<char>,
    /// `HOME_DIR`.
    pub home_dir: Seq<char>,
    /// `PATH`.
    pub path: Seq<char>,
    /// `PROJECT_NAME`.
    pub project_name: Seq<char>,
    /// `WORKTREE_NAME`.
    pub worktree_name: Seq<char>,
    /// `CHANGED_FILES`, when granted.
    pub changed_files: Option<Seq<char>>,
    /// `CHANGED_FILES_FILE`, when granted.
    pub changed_files_file: Option<Seq<char>>,
}

impl View for TemplateContext {
    type V = TemplateContextView;

    open spec fn view(&self) -> TemplateContextView {
        TemplateContextView {
            hook_dir: self.hook_dir@,
            repo_root: self.repo_root@,
            home_dir: self.home_dir@,
            path: self.path@,
            project_name: self.project_name@,
            worktree_name: self.worktree_name@,
            changed_files: self.changed_files.deep_view(),
            changed_files_file: self.changed_files_file.deep_view(),
        }
    }
}

/// The value a variable name stands for, if the name is allow-listed.
pub open spec fn spec_var_value(name: Seq<char>, ctx: TemplateContextView) -> Option<Seq<char>> {
    if name == "HOOK_DIR"@ {
        Some(ctx.hook_dir)
    } else if name == "REPO_ROOT"@ {
        Some(ctx.repo_root)
    } else if name == "HOME_DIR"@ {
        Some(ctx.home_dir)
    } else if name == "PATH"@ {
        Some(ctx.path)
    } else if name == "PROJECT_NAME"@ {
        Some(ctx.project_name)
    } else if name == "WORKTREE_NAME"@ {
        Some(ctx.worktree_name)
    } else if name == "CHANGED_FILES"@ {
        ctx.changed_files
    } else if name == "CHANGED_FILES_FILE"@ {
        ctx.changed_files_file
    } else {
        None
    }
}

/// What expanding `s` from position `i` yields: the text with each
/// `{NAME}` replaced by its value, or the first unknown name.
pub open spec fn spec_expand_from(s: Seq<char>, i: int, ctx: TemplateContextView) -> Result<
    Seq<char>,
    Seq<char>,
>
    decreases s.len() - i when 0 <= i <= s.len() via spec_expand_from_decreases
{
    match find_char_from(s, '{', i) {
        None => Ok(s.subrange(i, s.len() as int)),
        Some(o) => match find_char_from(s, '}', o + 1) {
            None => Ok(s.subrange(i, s.len() as int)),
            Some(c) => {
                let name = s.subrange(o + 1, c);
                match spec_var_value(name, ctx) {
                    None => Err(name),
                    Some(val) => match spec_expand_from(s, c + 1, ctx) {
                        Err(e) => Err(e),
                        Ok(rest) => Ok(s.subrange(i, o) + val + rest),
                    },
                }
            },
        },
    }
}

#[via_fn]
proof fn spec_expand_from_decreases(s: Seq<char>, i: int, ctx: TemplateContextView) {
    lemma_find_char_from(s, '{', i);
    match find_char_from(s, '{', i) {
        None => {},
        Some(o) => {
            lemma_find_char_from(s, '}', o + 1);
        },
    }
}

/// What expanding a whole string yields.
pub open spec fn spec_expand(s: Seq<char>, ctx: TemplateContextView) -> Result<Seq<char>, Seq<char>> {
    spec_expand_from(s, 0, ctx)
}

/// Expansion leaves a string without braces untouched: on text that
/// holds no `{`, the expander returns its input, so expansion is
/// idempotent there.
pub proof fn lemma_expand_brace_free(s: Seq<char>, ctx: TemplateContextView)
    requires
        forall|k: int| 0 <= k < s.len() ==> s[k] != '{',
    ensures
        spec_expand(s, ctx) == Ok::<Seq<char>, Seq<char>>(s),
{
    lemma_find_char_from(s, '{', 0);
    if find_char_from(s, '{', 0) is Some {
        let o = find_char_from(s, '{', 0).unwrap();
        assert(s[o] == '{');
        assert(false);
    }
    assert(s.subrange(0, s.len() as int) =~= s);
}

/// An unknown first variable always fails, and the error carries the
/// offending name.
pub proof fn lemma_expand_unknown_rejected(s: Seq<char>, i: int, ctx: TemplateContextView)
    requires
        0 <= i <= s.len(),
        find_char_from(s, '{', i) matches Some(o) && find_char_from(s, '}', o + 1) matches Some(c)
            && spec_var_value(s.subrange(o + 1, c), ctx) is None,
    ensures
        spec_expand_from(s, i, ctx) matches Err(name) && name == s.subrange(
            find_char_from(s, '{', i).unwrap() + 1,
            find_char_from(s, '}', find_char_from(s, '{', i).unwrap() + 1).unwrap(),
        ),
{
}

fn var_value<'a>(name: &Vec<char>, ctx: &'a TemplateContext) -> (r: Option<&'a String>)
    ensures
        match (r, spec_var_value(name@, ctx@)) {
            (Some(v), Some(sv)) => v@ == sv,
            (None, None) => true,
            _ => false,
        },
{
    let hook_dir = chars_of("HOOK_DIR");
    if chars_eq(name, &hook_dir) {
        return Some(&ctx.hook_dir);
    }
    let repo_root = chars_of("REPO_ROOT");
    if chars_eq(name, &repo_root) {
        return Some(&ctx.repo_root);
    }
    let home_dir = chars_of("HOME_DIR");
    if chars_eq(name, &home_dir) {
        return Some(&ctx.home_dir);
    }
    let path = chars_of("PATH");
    if chars_eq(name, &path) {
        return Some(&ctx.path);
    }
    let project_name = chars_of("PROJECT_NAME");
    if chars_eq(name, &project_name) {
        return Some(&ctx.project_name);
    }
    let worktree_name = chars_of("WORKTREE_NAME");
    if chars_eq(name, &worktree_name) {
        return Some(&ctx.worktree_name);
    }
    let changed_files = chars_of("CHANGED_FILES");
    if chars_eq(name, &changed_files) {
        return match &ctx.changed_files {
            Some(v) => Some(v),
            None => None,
        };
    }
    let changed_files_file = chars_of("CHANGED_FILES_FILE");
    if chars_eq(name, &changed_files_file) {
        return match &ctx.changed_files_file {
            Some(v) => Some(v),
            None => None,
        };
    }
    None
}

fn expand_from(s: &Vec<char>, i: usize, ctx: &TemplateContext) -> (r: Result<Vec<char>, HookError>)
    requires
        i <= s@.len(),
    ensures
        match (r, spec_expand_from(s@, i as int, ctx@)) {
            (Ok(v), Ok(sv)) => v@ == sv,
            (Err(e), Err(name)) => e matches HookError::TemplateUnknown { variable } && variable@
                == name,
            _ => false,
        },
    decreases s@.len() - i,
{
    let n = s.len();
    proof {
        lemma_find_char_from(s@, '{', i as int);
    }
    match find_char(s, '{', i) {
        None => Ok(subrange_chars(s, i, n)),
        Some(o) => {
            assert(o < n);
            proof {
                lemma_find_char_from(s@, '}', o + 1);
            }
            match find_char(s, '}', o + 1) {
                None => Ok(subrange_chars(s, i, n)),
                Some(c) => {
                    assert(c < n);
                    let name = subrange_chars(s, o + 1, c);
                    match var_value(&name, ctx) {
                        None => Err(
                            HookError::TemplateUnknown { variable: string_from_chars(&name) },
                        ),
                        Some(val) => {
                            match expand_from(s, c + 1, ctx) {
                                Err(e) => Err(e),
                                Ok(rest) => {
                                    let mut out = subrange_chars(s, i, o);
                                    let vc = chars_of(val.as_str());
                                    push_chars(&mut out, &vc);
                                    push_chars(&mut out, &rest);
                                    Ok(out)
                                },
                            }
                        },
                    }
                },
            }
        },
    }
}

/// Expand every `{NAME}` in `input` against the allow-list; an unknown
/// name is a hard error naming the variable.
pub fn expand_template(input: &str, ctx: &TemplateContext) -> (r: Result<String, HookError>)
    ensures
        match (r, spec_expand(input@, ctx@)) {
            (Ok(v), Ok(sv)) => v@ == sv,
            (Err(e), Err(name)) => e matches HookError::TemplateUnknown { variable } && variable@
                == name,
            _ => false,
        },
{
    let cs = chars_of(input);
    match expand_from(&cs, 0, ctx) {
        Ok(v) => Ok(string_from_chars(&v)),
        Err(e) => Err(e),
    }
}

} // verus!
