//! Augmentation of generated shell-completion scripts.
//!
//! A completion script generated for the command line is amended so that
//! the `run` and `lint` subcommands complete their targets dynamically:
//! for bash two case blocks are rewritten and helper functions appended,
//! for zsh the event and hook arguments are redirected to helper
//! functions, and for fish helper functions and completion rules are
//! appended. Everything here is plain text manipulation; printing and
//! script generation stay outside the library.

use vstd::prelude::*;
use crate::util::{
    chars_of, find_sub, lemma_find_sub, push_chars, push_str_chars, spec_find_sub,
    string_from_chars, subrange_chars,
};

verus! {

/// The shells whose completion scripts are amended; any other shell's
/// script is passed through unchanged.
#[derive(Clone, Copy, PartialEq, Eq, Structural, Debug)]
pub enum Shell {
    /// GNU bash.
    Bash,
    /// Zsh.
    Zsh,
    /// Fish.
    Fish,
    /// Any other shell.
    Other,
}

/// `s` with every occurrence of `pat` replaced by `rep`, left to right,
/// the replacement itself never rescanned.
pub open spec fn spec_replace_all(s: Seq<char>, pat: Seq<char>, rep: Seq<char>) -> Seq<char>
    decreases s.len() when pat.len() > 0 via spec_replace_all_decreases
{
    match spec_find_sub(s, pat, 0) {
        None => s,
        Some(i) => s.subrange(0, i) + rep + spec_replace_all(
            s.subrange(i + pat.len(), s.len() as int),
            pat,
            rep,
        ),
    }
}

#[via_fn]
proof fn spec_replace_all_decreases(s: Seq<char>, pat: Seq<char>, rep: Seq<char>) {
    lemma_find_sub(s, pat, 0);
}

/// `s` with every occurrence of `pat` replaced by `rep`.
pub fn replace_all(s: &Vec<char>, pat: &Vec<char>, rep: &Vec<char>) -> (r: Vec<char>)
    requires
        pat@.len() > 0,
    ensures
        r@ == spec_replace_all(s@, pat@, rep@),
    decreases s@.len(),
{
    proof {
        lemma_find_sub(s@, pat@, 0);
    }
    match find_sub(s, pat, 0) {
        None => {
            let r = subrange_chars(s, 0, s.len());
            assert(r@ =~= s@);
            r
        },
        Some(i) => {
            let n = s.len();
            let mut out = subrange_chars(s, 0, i);
            push_chars(&mut out, rep);
            let suffix = subrange_chars(s, i + pat.len(), n);
            let rest = replace_all(&suffix, pat, rep);
            push_chars(&mut out, &rest);
            out
        },
    }
}

/// The terminator of a bash completion case block.
pub open spec fn case_terminator() -> Seq<char> {
    "\n            ;;"@
}

/// `script` with the case block that starts at the first occurrence of
/// `marker` — up to and including its `;;` terminator line — replaced by
/// `replacement`; unchanged when marker or terminator is absent.
pub open spec fn spec_replace_case_block(
    script: Seq<char>,
    marker: Seq<char>,
    replacement: Seq<char>,
) -> Seq<char> {
    match spec_find_sub(script, marker, 0) {
        None => script,
        Some(start) => match spec_find_sub(script, case_terminator(), start) {
            None => script,
            Some(e) => script.subrange(0, start) + replacement + script.subrange(
                e + case_terminator().len(),
                script.len() as int,
            ),
        },
    }
}

/// Replace the case block starting at `marker` by `replacement`.
pub fn replace_case_block(script: &mut String, marker: &str, replacement: &str)
    ensures
        final(script)@ == spec_replace_case_block(old(script)@, marker@, replacement@),
{
    let cs = chars_of(script.as_str());
    let mc = chars_of(marker);
    proof {
        lemma_find_sub(cs@, mc@, 0);
    }
    match find_sub(&cs, &mc, 0) {
        None => {},
        Some(start) => {
            let term = chars_of("\n            ;;");
            assert(term@ == case_terminator());
            proof {
                lemma_find_sub(cs@, term@, start as int);
            }
            match find_sub(&cs, &term, start) {
                None => {},
                Some(e) => {
                    let n = cs.len();
                    let mut out = subrange_chars(&cs, 0, start);
                    push_str_chars(&mut out, replacement);
                    let tail = subrange_chars(&cs, e + term.len(), n);
                    push_chars(&mut out, &tail);
                    *script = string_from_chars(&out);
                },
            }
        },
    }
}

/// The hyphens of a command name turned into underscores, for use in
/// shell function names.
pub open spec fn spec_sanitized(bin: Seq<char>) -> Seq<char> {
    spec_replace_all(bin, seq!['-'], seq!['_'])
}

fn sanitize(bin: &Vec<char>) -> (r: Vec<char>)
    ensures
        r@ == spec_sanitized(bin@),
{
    let mut pat: Vec<char> = Vec::new();
    pat.push('-');
    let mut rep: Vec<char> = Vec::new();
    rep.push('_');
    assert(pat@ =~= seq!['-']);
    assert(rep@ =~= seq!['_']);
    replace_all(bin, &pat, &rep)
}

/// The rewritten bash case block for the `run` subcommand.
pub open spec fn bash_run_block(bin: Seq<char>) -> Seq<char> {
    "        peter__hook__run)\n            opts=\"-h --all-files --dry-run --debug --help <EVENT> [GIT_ARGS]...\"\n            if [[ ${cur} == -* ]]; then\n                COMPREPLY=( $(compgen -W \"${opts}\" -- \"${cur}\") )\n                return 0\n            fi\n            if [[ ${COMP_CWORD} -eq 2 ]]; then\n                local targets\n                targets=\"$("@
        + bin
        + " _run-targets)\"\n                COMPREPLY=( $(compgen -W \"${targets}\" -- \"${cur}\") )\n                return 0\n            fi\n            COMPREPLY=()\n            return 0\n            ;;\n"@
}

/// The rewritten bash case block for the `lint` subcommand.
pub open spec fn bash_lint_block(bin: Seq<char>) -> Seq<char> {
    "        peter__hook__lint)\n            opts=\"-h --dry-run --debug --help <HOOK_NAME>\"\n            if [[ ${cur} == -* ]]; then\n                COMPREPLY=( $(compgen -W \"${opts}\" -- \"${cur}\") )\n                return 0\n            fi\n            if [[ ${COMP_CWORD} -eq 2 ]]; then\n                local targets\n                targets=\"$("@
        + bin
        + " _lint-targets)\"\n                COMPREPLY=( $(compgen -W \"${targets}\" -- \"${cur}\") )\n                return 0\n            fi\n            COMPREPLY=()\n            return 0\n            ;;\n"@
}

/// The helper functions appended to a bash script.
pub open spec fn bash_helper(bin: Seq<char>, san: Seq<char>) -> Seq<char> {
    "\n_"@ + san + "_list_run_targets() {\n    "@ + bin + " _run-targets\n}\n\n_"@ + san
        + "_list_lint_targets() {\n    "@ + bin + " _lint-targets\n}\n"@
}

/// What bash augmentation yields: both case blocks rewritten, the
/// helpers appended.
pub open spec fn spec_augment_bash(bin: Seq<char>, script: Seq<char>) -> Seq<char> {
    let s1 = spec_replace_case_block(script, "        peter__hook__run)"@, bash_run_block(bin));
    let s2 = spec_replace_case_block(s1, "        peter__hook__lint)"@, bash_lint_block(bin));
    s2 + bash_helper(bin, spec_sanitized(bin))
}

/// Amend a generated bash completion script for dynamic `run` and `lint`
/// targets.
pub fn augment_bash(bin_name: &str, script: String) -> (r: String)
    ensures
        r@ == spec_augment_bash(bin_name@, script@),
{
    let mut updated = script;
    let bc = chars_of(bin_name);

    let mut run_block = chars_of(
        "        peter__hook__run)\n            opts=\"-h --all-files --dry-run --debug --help <EVENT> [GIT_ARGS]...\"\n            if [[ ${cur} == -* ]]; then\n                COMPREPLY=( $(compgen -W \"${opts}\" -- \"${cur}\") )\n                return 0\n            fi\n            if [[ ${COMP_CWORD} -eq 2 ]]; then\n                local targets\n                targets=\"$(",
    );
    push_chars(&mut run_block, &bc);
    push_str_chars(
        &mut run_block,
        " _run-targets)\"\n                COMPREPLY=( $(compgen -W \"${targets}\" -- \"${cur}\") )\n                return 0\n            fi\n            COMPREPLY=()\n            return 0\n            ;;\n",
    );
    assert(run_block@ =~= bash_run_block(bin_name@));
    let run_block_s = string_from_chars(&run_block);
    replace_case_block(&mut updated, "        peter__hook__run)", run_block_s.as_str());

    let mut lint_block = chars_of(
        "        peter__hook__lint)\n            opts=\"-h --dry-run --debug --help <HOOK_NAME>\"\n            if [[ ${cur} == -* ]]; then\n                COMPREPLY=( $(compgen -W \"${opts}\" -- \"${cur}\") )\n                return 0\n            fi\n            if [[ ${COMP_CWORD} -eq 2 ]]; then\n                local targets\n                targets=\"$(",
    );
    push_chars(&mut lint_block, &bc);
    push_str_chars(
        &mut lint_block,
        " _lint-targets)\"\n                COMPREPLY=( $(compgen -W \"${targets}\" -- \"${cur}\") )\n                return 0\n            fi\n            COMPREPLY=()\n            return 0\n            ;;\n",
    );
    assert(lint_block@ =~= bash_lint_block(bin_name@));
    let lint_block_s = string_from_chars(&lint_block);
    replace_case_block(&mut updated, "        peter__hook__lint)", lint_block_s.as_str());

    let san = sanitize(&bc);
    let mut helper = chars_of("\n_");
    push_chars(&mut helper, &san);
    push_str_chars(&mut helper, "_list_run_targets() {\n    ");
    push_chars(&mut helper, &bc);
    push_str_chars(&mut helper, " _run-targets\n}\n\n_");
    push_chars(&mut helper, &san);
    push_str_chars(&mut helper, "_list_lint_targets() {\n    ");
    push_chars(&mut helper, &bc);
    push_str_chars(&mut helper, " _lint-targets\n}\n");
    assert(helper@ =~= bash_helper(bin_name@, spec_sanitized(bin_name@)));
    let helper_s = string_from_chars(&helper);
    updated.append(helper_s.as_str());
    updated
}

/// The zsh helper-function template; the placeholder names are swapped
/// for the command's own function names.
pub open spec fn zsh_template() -> Seq<char> {
    "\n__RUN__() {\n    local -a targets\n    targets=(${(@f)$(__BIN__ _run-targets)})\n    if (( $#targets )); then\n        _describe 'git hook events' targets\n    else\n        _message 'no hook events found'\n    fi\n}\n\n__LINT__() {\n    local -a targets\n    targets=(${(@f)$(__BIN__ _lint-targets)})\n    if (( $#targets )); then\n        _describe 'hooks or groups' targets\n    else\n        _message 'no hooks found'\n    fi\n}\n"@
}

/// What zsh augmentation yields: the event and hook-name argument
/// completions redirected to helper functions, and those helpers
/// appended.
pub open spec fn spec_augment_zsh(bin: Seq<char>, script: Seq<char>) -> Seq<char> {
    let san = spec_sanitized(bin);
    let run_func = "_"@ + san + "_run_events"@;
    let lint_func = "_"@ + san + "_lint_targets"@;
    let u1 = spec_replace_all(
        script,
        ":event -- The git hook event (pre-commit, pre-push, etc.):_default"@,
        ":event -- The git hook event (pre-commit, pre-push, etc.):"@ + run_func,
    );
    let u2 = spec_replace_all(
        u1,
        ":hook_name -- Name of the hook or group to run:_default"@,
        ":hook_name -- Name of the hook or group to run:"@ + lint_func,
    );
    let helper = spec_replace_all(
        spec_replace_all(spec_replace_all(zsh_template(), "__RUN__"@, run_func), "__LINT__"@,
            lint_func),
        "__BIN__"@,
        bin,
    );
    u2 + helper
}

/// Amend a generated zsh completion script for dynamic `run` and `lint`
/// targets.
pub fn augment_zsh(bin_name: &str, script: String) -> (r: String)
    ensures
        r@ == spec_augment_zsh(bin_name@, script@),
{
    let bc = chars_of(bin_name);
    let san = sanitize(&bc);
    let mut run_func = chars_of("_");
    push_chars(&mut run_func, &san);
    push_str_chars(&mut run_func, "_run_events");
    let mut lint_func = chars_of("_");
    push_chars(&mut lint_func, &san);
    push_str_chars(&mut lint_func, "_lint_targets");

    proof {
        reveal_strlit(":event -- The git hook event (pre-commit, pre-push, etc.):_default");
        reveal_strlit(":hook_name -- Name of the hook or group to run:_default");
        reveal_strlit("__RUN__");
        reveal_strlit("__LINT__");
        reveal_strlit("__BIN__");
    }

    let sc = chars_of(script.as_str());
    let pat1 = chars_of(":event -- The git hook event (pre-commit, pre-push, etc.):_default");
    let mut rep1 = chars_of(":event -- The git hook event (pre-commit, pre-push, etc.):");
    push_chars(&mut rep1, &run_func);
    let u1 = replace_all(&sc, &pat1, &rep1);

    let pat2 = chars_of(":hook_name -- Name of the hook or group to run:_default");
    let mut rep2 = chars_of(":hook_name -- Name of the hook or group to run:");
    push_chars(&mut rep2, &lint_func);
    let mut u2 = replace_all(&u1, &pat2, &rep2);

    let template = chars_of(
        "\n__RUN__() {\n    local -a targets\n    targets=(${(@f)$(__BIN__ _run-targets)})\n    if (( $#targets )); then\n        _describe 'git hook events' targets\n    else\n        _message 'no hook events found'\n    fi\n}\n\n__LINT__() {\n    local -a targets\n    targets=(${(@f)$(__BIN__ _lint-targets)})\n    if (( $#targets )); then\n        _describe 'hooks or groups' targets\n    else\n        _message 'no hooks found'\n    fi\n}\n",
    );
    assert(template@ == zsh_template());
    let h1 = replace_all(&template, &chars_of("__RUN__"), &run_func);
    let h2 = replace_all(&h1, &chars_of("__LINT__"), &lint_func);
    let helper = replace_all(&h2, &chars_of("__BIN__"), &bc);
    push_chars(&mut u2, &helper);
    string_from_chars(&u2)
}

/// The fish helper functions and completion rules for a command.
pub open spec fn fish_helper(bin: Seq<char>, san: Seq<char>) -> Seq<char> {
    "\nfunction __fish_"@ + san + "_run_targets\n    "@ + bin
        + " _run-targets\nend\n\nfunction __fish_"@ + san + "_lint_targets\n    "@ + bin
        + " _lint-targets\nend\n\nfunction __fish_"@ + san
        + "_run_needs_event\n    set -l tokens (commandline -opc)\n    if test (count $tokens) -eq 0\n        return 1\n    end\n    set -e tokens[1]\n    set -l found 0\n    for token in $tokens\n        switch $token\n        case 'run'\n            set found 1\n            continue\n        case '-*'\n            continue\n        default\n            if test $found -eq 1\n                return 1\n            end\n        end\n    end\n    test $found -eq 1\nend\n\nfunction __fish_"@
        + san
        + "_lint_needs_target\n    set -l tokens (commandline -opc)\n    if test (count $tokens) -eq 0\n        return 1\n    end\n    set -e tokens[1]\n    set -l found 0\n    for token in $tokens\n        switch $token\n        case 'lint'\n            set found 1\n            continue\n        case '-*'\n            continue\n        default\n            if test $found -eq 1\n                return 1\n            end\n        end\n    end\n    test $found -eq 1\nend\n\ncomplete -c "@
        + bin + " -n \"__fish_"@ + san + "_using_subcommand run; and __fish_"@ + san
        + "_run_needs_event\" -f -a \"(__fish_"@ + san + "_run_targets)\"\ncomplete -c "@ + bin
        + " -n \"__fish_"@ + san + "_using_subcommand lint; and __fish_"@ + san
        + "_lint_needs_target\" -f -a \"(__fish_"@ + san + "_lint_targets)\"\n"@
}

/// What fish augmentation yields: the helpers and completion rules
/// appended to the script.
pub open spec fn spec_augment_fish(bin: Seq<char>, script: Seq<char>) -> Seq<char> {
    script + fish_helper(bin, spec_sanitized(bin))
}

/// Amend a generated fish completion script for dynamic `run` and `lint`
/// targets.
pub fn augment_fish(bin_name: &str, script: String) -> (r: String)
    ensures
        r@ == spec_augment_fish(bin_name@, script@),
{
    let mut updated = script;
    let bc = chars_of(bin_name);
    let san = sanitize(&bc);
    let mut helper = chars_of("\nfunction __fish_");
    push_chars(&mut helper, &san);
    push_str_chars(&mut helper, "_run_targets\n    ");
    push_chars(&mut helper, &bc);
    push_str_chars(&mut helper, " _run-targets\nend\n\nfunction __fish_");
    push_chars(&mut helper, &san);
    push_str_chars(&mut helper, "_lint_targets\n    ");
    push_chars(&mut helper, &bc);
    push_str_chars(&mut helper, " _lint-targets\nend\n\nfunction __fish_");
    push_chars(&mut helper, &san);
    push_str_chars(
        &mut helper,
        "_run_needs_event\n    set -l tokens (commandline -opc)\n    if test (count $tokens) -eq 0\n        return 1\n    end\n    set -e tokens[1]\n    set -l found 0\n    for token in $tokens\n        switch $token\n        case 'run'\n            set found 1\n            continue\n        case '-*'\n            continue\n        default\n            if test $found -eq 1\n                return 1\n            end\n        end\n    end\n    test $found -eq 1\nend\n\nfunction __fish_",
    );
    push_chars(&mut helper, &san);
    push_str_chars(
        &mut helper,
        "_lint_needs_target\n    set -l tokens (commandline -opc)\n    if test (count $tokens) -eq 0\n        return 1\n    end\n    set -e tokens[1]\n    set -l found 0\n    for token in $tokens\n        switch $token\n        case 'lint'\n            set found 1\n            continue\n        case '-*'\n            continue\n        default\n            if test $found -eq 1\n                return 1\n            end\n        end\n    end\n    test $found -eq 1\nend\n\ncomplete -c ",
    );
    push_chars(&mut helper, &bc);
    push_str_chars(&mut helper, " -n \"__fish_");
    push_chars(&mut helper, &san);
    push_str_chars(&mut helper, "_using_subcommand run; and __fish_");
    push_chars(&mut helper, &san);
    push_str_chars(&mut helper, "_run_needs_event\" -f -a \"(__fish_");
    push_chars(&mut helper, &san);
    push_str_chars(&mut helper, "_run_targets)\"\ncomplete -c ");
    push_chars(&mut helper, &bc);
    push_str_chars(&mut helper, " -n \"__fish_");
    push_chars(&mut helper, &san);
    push_str_chars(&mut helper, "_using_subcommand lint; and __fish_");
    push_chars(&mut helper, &san);
    push_str_chars(&mut helper, "_lint_needs_target\" -f -a \"(__fish_");
    push_chars(&mut helper, &san);
    push_str_chars(&mut helper, "_lint_targets)\"\n");
    assert(helper@ =~= fish_helper(bin_name@, spec_sanitized(bin_name@)));
    let helper_s = string_from_chars(&helper);
    updated.append(helper_s.as_str());
    updated
}

/// What augmenting a script for a shell yields; shells without dynamic
/// targets keep their script unchanged.
pub open spec fn spec_augment_script(shell: Shell, bin: Seq<char>, script: Seq<char>) -> Seq<
    char,
> {
    match shell {
        Shell::Bash => spec_augment_bash(bin, script),
        Shell::Zsh => spec_augment_zsh(bin, script),
        Shell::Fish => spec_augment_fish(bin, script),
        Shell::Other => script,
    }
}

/// Amend a generated completion script for the given shell.
pub fn augment_script(shell: Shell, bin_name: &str, script: String) -> (r: String)
    ensures
        r@ == spec_augment_script(shell, bin_name@, script@),
{
    match shell {
        Shell::Bash => augment_bash(bin_name, script),
        Shell::Zsh => augment_zsh(bin_name, script),
        Shell::Fish => augment_fish(bin_name, script),
        Shell::Other => script,
    }
}

} // verus!
