//! Parsing of git change reports and pre-push stdin, and file-pattern
//! matching.
//!
//! The embedding program runs the git commands that this module names and
//! hands their captured output back in; everything here is a pure function
//! of that text.

use vstd::prelude::*;
use crate::errors::HookError;
use crate::util::{
    chars_of, find_char, find_char_from, lemma_find_char_from, string_from_chars, subrange_chars,
};

verus! {

/// ASCII whitespace, the separators recognised in git report lines.
pub open spec fn is_space(c: char) -> bool {
    c == ' ' || c == '\t' || c == '\n' || c == '\r' || c == '\u{000B}' || c == '\u{000C}'
}

fn is_space_exec(c: char) -> (r: bool)
    ensures
        r == is_space(c),
{
    c == ' ' || c == '\t' || c == '\n' || c == '\r' || c == '\u{000B}' || c == '\u{000C}'
}

/// Index just past the run of non-whitespace characters starting at `i`.
pub open spec fn token_end(s: Seq<char>, i: int) -> int
    decreases s.len() - i when 0 <= i <= s.len()
{
    if i >= s.len() || is_space(s[i]) {
        i
    } else {
        token_end(s, i + 1)
    }
}

/// Bounds and content of the token starting at `i`.
pub proof fn lemma_token_end(s: Seq<char>, i: int)
    requires
        0 <= i <= s.len(),
    ensures
        i <= token_end(s, i) <= s.len(),
        i < s.len() && !is_space(s[i]) ==> token_end(s, i) > i,
        forall|k: int| i <= k < token_end(s, i) ==> !is_space(s[k]),
        token_end(s, i) < s.len() ==> is_space(s[token_end(s, i)]),
    decreases s.len() - i,
{
    if i < s.len() && !is_space(s[i]) {
        lemma_token_end(s, i + 1);
    }
}

/// The whitespace-separated tokens of `s` from position `i` on.
pub open spec fn spec_tokens_from(s: Seq<char>, i: int) -> Seq<Seq<char>>
    decreases s.len() - i when 0 <= i <= s.len()
    via spec_tokens_from_decreases
{
    if i >= s.len() {
        Seq::empty()
    } else if is_space(s[i]) {
        spec_tokens_from(s, i + 1)
    } else {
        seq![s.subrange(i, token_end(s, i))] + spec_tokens_from(s, token_end(s, i))
    }
}

#[via_fn]
proof fn spec_tokens_from_decreases(s: Seq<char>, i: int) {
    if 0 <= i && i < s.len() && !is_space(s[i]) {
        lemma_token_end(s, i);
    }
}

/// The whitespace-separated tokens of `v`.
fn split_ws(v: &Vec<char>) -> (r: Vec<Vec<char>>)
    ensures
        r.deep_view() == spec_tokens_from(v@, 0),
{
    let mut r: Vec<Vec<char>> = Vec::new();
    let mut i: usize = 0;
    while i < v.len()
        invariant
            i <= v@.len(),
            r.deep_view() + spec_tokens_from(v@, i as int) =~~= spec_tokens_from(v@, 0),
        decreases v@.len() - i,
    {
        if is_space_exec(v[i]) {
            i = i + 1;
        } else {
            let ghost r0 = r.deep_view();
            let ghost istart = i as int;
            assert(token_end(v@, istart) == token_end(v@, istart + 1));
            let mut j: usize = i + 1;
            while j < v.len() && !is_space_exec(v[j])
                invariant
                    istart < j <= v@.len(),
                    istart < v@.len(),
                    !is_space(v@[istart]),
                    token_end(v@, istart) == token_end(v@, j as int),
                decreases v@.len() - j,
            {
                proof {
                    assert(token_end(v@, j as int) == token_end(v@, j as int + 1));
                }
                j = j + 1;
            }
            assert(token_end(v@, j as int) == j as int);
            let tok = subrange_chars(v, i, j);
            r.push(tok);
            proof {
                assert(r.deep_view() =~~= r0.push(tok@));
                assert(r.deep_view() + spec_tokens_from(v@, j as int) =~~= r0 + (seq![
                    v@.subrange(istart, j as int),
                ] + spec_tokens_from(v@, j as int)));
            }
            i = j;
        }
    }
    assert(spec_tokens_from(v@, v@.len() as int) =~~= Seq::<Seq<char>>::empty());
    assert(r.deep_view() =~~= r.deep_view() + Seq::<Seq<char>>::empty());
    r
}

/// Drop one trailing carriage return, as git line endings call for.
pub open spec fn strip_cr(line: Seq<char>) -> Seq<char> {
    if line.len() > 0 && line[line.len() - 1] == '\r' {
        line.drop_last()
    } else {
        line
    }
}

/// The first line of `s`: the text before the first newline, without a
/// trailing carriage return. Nothing when `s` is empty.
pub open spec fn spec_first_line(s: Seq<char>) -> Option<Seq<char>> {
    if s.len() == 0 {
        None
    } else {
        match find_char_from(s, '\n', 0) {
            None => Some(s),
            Some(e) => Some(strip_cr(s.subrange(0, e))),
        }
    }
}

/// The first line of `v`, per `spec_first_line`.
fn first_line(v: &Vec<char>) -> (r: Option<Vec<char>>)
    ensures
        match (r, spec_first_line(v@)) {
            (Some(l), Some(sl)) => l@ == sl,
            (None, None) => true,
            _ => false,
        },
{
    if v.len() == 0 {
        return None;
    }
    proof {
        lemma_find_char_from(v@, '\n', 0);
    }
    match find_char(v, '\n', 0) {
        None => {
            let line = subrange_chars(v, 0, v.len());
            assert(v@.subrange(0, v@.len() as int) =~= v@);
            Some(line)
        },
        Some(e) => {
            let line = if e > 0 && v[e - 1] == '\r' {
                subrange_chars(v, 0, e - 1)
            } else {
                subrange_chars(v, 0, e)
            };
            proof {
                let raw = v@.subrange(0, e as int);
                if raw.len() > 0 && raw[raw.len() - 1] == '\r' {
                    assert(v@.subrange(0, e - 1) =~= raw.drop_last());
                }
            }
            Some(line)
        },
    }
}

/// A hexadecimal digit.
pub open spec fn is_hex_digit(c: char) -> bool {
    (('0' as u32) <= (c as u32) && (c as u32) <= ('9' as u32)) || (('a' as u32) <= (c as u32) && (c
        as u32) <= ('f' as u32)) || (('A' as u32) <= (c as u32) && (c as u32) <= ('F' as u32))
}

fn is_hex_digit_exec(c: char) -> (r: bool)
    ensures
        r == is_hex_digit(c),
{
    ((c as u32) >= ('0' as u32) && (c as u32) <= ('9' as u32)) || ((c as u32) >= ('a' as u32) && (c
        as u32) <= ('f' as u32)) || ((c as u32) >= ('A' as u32) && (c as u32) <= ('F' as u32))
}

/// A well-formed git object id: exactly 40 hexadecimal characters.
pub open spec fn spec_valid_oid(t: Seq<char>) -> bool {
    t.len() == 40 && (forall|k: int| 0 <= k < t.len() ==> is_hex_digit(t[k]))
}

fn valid_oid_chars(t: &Vec<char>) -> (r: bool)
    ensures
        r == spec_valid_oid(t@),
{
    if t.len() != 40 {
        return false;
    }
    let mut k: usize = 0;
    while k < t.len()
        invariant
            k <= t@.len(),
            t@.len() == 40,
            forall|m: int| 0 <= m < k ==> is_hex_digit(t@[m]),
        decreases t@.len() - k,
    {
        if !is_hex_digit_exec(t[k]) {
            return false;
        }
        k = k + 1;
    }
    true
}

/// Whether a string is a well-formed git object id.
pub fn is_valid_oid(oid: &str) -> (r: bool)
    ensures
        r == spec_valid_oid(oid@),
{
    let v = chars_of(oid);
    valid_oid_chars(&v)
}

/// Every character is the zero digit.
pub open spec fn all_zero(t: Seq<char>) -> bool {
    forall|k: int| 0 <= k < t.len() ==> t[k] == '0'
}

fn all_zero_chars(t: &Vec<char>) -> (r: bool)
    ensures
        r == all_zero(t@),
{
    let mut k: usize = 0;
    while k < t.len()
        invariant
            k <= t@.len(),
            forall|m: int| 0 <= m < k ==> t@[m] == '0',
        decreases t@.len() - k,
    {
        if t[k] != '0' {
            return false;
        }
        k = k + 1;
    }
    true
}

/// Why a pre-push stdin text was rejected.
pub enum PushParseIssue {
    /// The text was empty.
    NoInput,
    /// The first line, which had fewer than four fields.
    BadFormat(Seq<char>),
    /// The malformed local object id token.
    BadLocalOid(Seq<char>),
    /// The malformed remote object id token.
    BadRemoteOid(Seq<char>),
}

/// The object id of git's empty tree, the base used when a remote branch
/// does not exist yet.
pub open spec fn empty_tree_oid() -> Seq<char> {
    "4b825dc642cb6eb9a060e54bf8d69288fbee4904"@
}

/// What parsing pre-push stdin yields: the first line's second and fourth
/// whitespace-separated fields as `(local, remote)`, with an all-zero
/// remote id rewritten to the empty-tree id.
pub open spec fn spec_parse_push(s: Seq<char>) -> Result<(Seq<char>, Seq<char>), PushParseIssue> {
    match spec_first_line(s) {
        None => Err(PushParseIssue::NoInput),
        Some(line) => {
            let toks = spec_tokens_from(line, 0);
            if toks.len() < 4 {
                Err(PushParseIssue::BadFormat(line))
            } else if !spec_valid_oid(toks[1]) {
                Err(PushParseIssue::BadLocalOid(toks[1]))
            } else if !all_zero(toks[3]) && !spec_valid_oid(toks[3]) {
                Err(PushParseIssue::BadRemoteOid(toks[3]))
            } else {
                Ok((toks[1], if all_zero(toks[3]) {
                    empty_tree_oid()
                } else {
                    toks[3]
                }))
            }
        },
    }
}

/// How a `HookError` realises a `PushParseIssue`.
pub open spec fn push_issue_matches(e: HookError, issue: PushParseIssue) -> bool {
    match issue {
        PushParseIssue::NoInput => e matches HookError::NoPushInput,
        PushParseIssue::BadFormat(l) => e matches HookError::PushStdinFormat { line } && line@
            == l,
        PushParseIssue::BadLocalOid(t) => e matches HookError::LocalOidFormat { oid } && oid@ == t,
        PushParseIssue::BadRemoteOid(t) => e matches HookError::RemoteOidFormat { oid } && oid@
            == t,
    }
}

/// Parse the stdin text git hands a pre-push hook.
///
/// The first line has the form `<local ref> <local oid> <remote ref>
/// <remote oid>`. Returns `(local oid, remote oid)`; a remote id of all
/// zeros marks a new branch and is replaced by the empty-tree id.
pub fn parse_push_stdin(stdin_content: &str) -> (r: Result<(String, String), HookError>)
    ensures
        match spec_parse_push(stdin_content@) {
            Ok(p) => r matches Ok(q) && q.0@ == p.0 && q.1@ == p.1,
            Err(issue) => r matches Err(e) && push_issue_matches(e, issue),
        },
{
    let cs = chars_of(stdin_content);
    let line = match first_line(&cs) {
        None => {
            return Err(HookError::NoPushInput);
        },
        Some(l) => l,
    };
    let toks = split_ws(&line);
    if toks.len() < 4 {
        return Err(HookError::PushStdinFormat { line: string_from_chars(&line) });
    }
    assert(toks.deep_view()[1] == toks@[1]@);
    assert(toks.deep_view()[3] == toks@[3]@);
    if !valid_oid_chars(&toks[1]) {
        return Err(HookError::LocalOidFormat { oid: string_from_chars(&toks[1]) });
    }
    let zero = all_zero_chars(&toks[3]);
    if !zero && !valid_oid_chars(&toks[3]) {
        return Err(HookError::RemoteOidFormat { oid: string_from_chars(&toks[3]) });
    }
    let local = string_from_chars(&toks[1]);
    let remote = if zero {
        let v = chars_of("4b825dc642cb6eb9a060e54bf8d69288fbee4904");
        string_from_chars(&v)
    } else {
        string_from_chars(&toks[3])
    };
    Ok((local, remote))
}

/// An all-zero remote id is always rewritten to the empty-tree id: whenever
/// the first line parses and its remote id token is all zeros, the parse
/// succeeds with the empty-tree id as the remote side.
pub proof fn lemma_zero_remote_rewritten(s: Seq<char>)
    requires
        spec_first_line(s) is Some,
        spec_tokens_from(spec_first_line(s).unwrap(), 0).len() >= 4,
        spec_valid_oid(spec_tokens_from(spec_first_line(s).unwrap(), 0)[1]),
        all_zero(spec_tokens_from(spec_first_line(s).unwrap(), 0)[3]),
    ensures
        spec_parse_push(s) == Ok::<_, PushParseIssue>(
            (spec_tokens_from(spec_first_line(s).unwrap(), 0)[1], empty_tree_oid()),
        ),
{
}

/// A malformed object id token always fails the parse, and the error names
/// the offending token.
pub proof fn lemma_bad_oid_rejected(s: Seq<char>)
    requires
        spec_first_line(s) is Some,
        spec_tokens_from(spec_first_line(s).unwrap(), 0).len() >= 4,
    ensures
        !spec_valid_oid(spec_tokens_from(spec_first_line(s).unwrap(), 0)[1])
            ==> spec_parse_push(s) == Err::<(Seq<char>, Seq<char>), _>(
            PushParseIssue::BadLocalOid(spec_tokens_from(spec_first_line(s).unwrap(), 0)[1]),
        ),
        spec_valid_oid(spec_tokens_from(spec_first_line(s).unwrap(), 0)[1]) && !all_zero(
            spec_tokens_from(spec_first_line(s).unwrap(), 0)[3],
        ) && !spec_valid_oid(spec_tokens_from(spec_first_line(s).unwrap(), 0)[3])
            ==> spec_parse_push(s) == Err::<(Seq<char>, Seq<char>), _>(
            PushParseIssue::BadRemoteOid(spec_tokens_from(spec_first_line(s).unwrap(), 0)[3]),
        ),
{
}

/// The lines of `s` from position `i` on: split at newlines, one trailing
/// carriage return stripped from each terminated line.
pub open spec fn spec_lines_from(s: Seq<char>, i: int) -> Seq<Seq<char>>
    decreases s.len() - i when 0 <= i <= s.len()
    via spec_lines_from_decreases
{
    if i >= s.len() {
        Seq::empty()
    } else {
        match find_char_from(s, '\n', i) {
            None => seq![s.subrange(i, s.len() as int)],
            Some(e) => seq![strip_cr(s.subrange(i, e))] + spec_lines_from(s, e + 1),
        }
    }
}

#[via_fn]
proof fn spec_lines_from_decreases(s: Seq<char>, i: int) {
    if 0 <= i <= s.len() && i < s.len() {
        lemma_find_char_from(s, '\n', i);
    }
}

/// The path a `--name-status` line contributes: nothing for a deletion,
/// the destination for a rename or copy, the whole tail otherwise.
pub open spec fn spec_status_entry(line: Seq<char>) -> Option<Seq<char>> {
    match find_char_from(line, '\t', 0) {
        None => None,
        Some(t) => {
            let rest = line.subrange(t + 1, line.len() as int);
            if t > 0 && line[0] == 'D' {
                None
            } else if t > 0 && (line[0] == 'R' || line[0] == 'C') {
                match find_char_from(rest, '\t', 0) {
                    None => Some(rest),
                    Some(t2) => {
                        let rest2 = rest.subrange(t2 + 1, rest.len() as int);
                        match find_char_from(rest2, '\t', 0) {
                            None => Some(rest2),
                            Some(t3) => Some(rest2.subrange(0, t3)),
                        }
                    },
                }
            } else {
                Some(rest)
            }
        },
    }
}

/// The paths contributed by a sequence of `--name-status` lines.
pub open spec fn spec_entries_of_lines(lines: Seq<Seq<char>>) -> Seq<Seq<char>>
    decreases lines.len(),
{
    if lines.len() == 0 {
        Seq::empty()
    } else {
        match spec_status_entry(lines[0]) {
            None => spec_entries_of_lines(lines.drop_first()),
            Some(f) => seq![f] + spec_entries_of_lines(lines.drop_first()),
        }
    }
}

/// The paths contributed by a whole `--name-status` report.
pub open spec fn spec_name_status(s: Seq<char>) -> Seq<Seq<char>> {
    spec_entries_of_lines(spec_lines_from(s, 0))
}

fn status_entry(line: &Vec<char>) -> (r: Option<Vec<char>>)
    ensures
        match (r, spec_status_entry(line@)) {
            (Some(a), Some(b)) => a@ == b,
            (None, None) => true,
            _ => false,
        },
{
    proof {
        lemma_find_char_from(line@, '\t', 0);
    }
    match find_char(line, '\t', 0) {
        None => None,
        Some(t) => {
            let n = line.len();
            if t > 0 && line[0] == 'D' {
                return None;
            }
            let rest = subrange_chars(line, t + 1, n);
            if t > 0 && (line[0] == 'R' || line[0] == 'C') {
                proof {
                    lemma_find_char_from(rest@, '\t', 0);
                }
                match find_char(&rest, '\t', 0) {
                    None => Some(rest),
                    Some(t2) => {
                        let n2 = rest.len();
                        let rest2 = subrange_chars(&rest, t2 + 1, n2);
                        proof {
                            lemma_find_char_from(rest2@, '\t', 0);
                        }
                        match find_char(&rest2, '\t', 0) {
                            None => Some(rest2),
                            Some(t3) => Some(subrange_chars(&rest2, 0, t3)),
                        }
                    },
                }
            } else {
                Some(rest)
            }
        },
    }
}

/// The paths named by a `git diff --name-status` report: deletions are
/// dropped, renames and copies contribute their destination.
pub fn parse_name_status(output: &str) -> (r: Vec<String>)
    ensures
        r.deep_view() == spec_name_status(output@),
{
    let cs = chars_of(output);
    let mut r: Vec<String> = Vec::new();
    let mut i: usize = 0;
    while i < cs.len()
        invariant
            i <= cs@.len(),
            r.deep_view() + spec_entries_of_lines(spec_lines_from(cs@, i as int)) =~~= spec_name_status(cs@),
        decreases cs@.len() - i,
    {
        let ghost r0 = r.deep_view();
        let ghost i0 = i as int;
        proof {
            lemma_find_char_from(cs@, '\n', i as int);
        }
        let (line, next): (Vec<char>, usize) = match find_char(&cs, '\n', i) {
            None => (subrange_chars(&cs, i, cs.len()), cs.len()),
            Some(e) => {
                let l = if e > i && cs[e - 1] == '\r' {
                    proof {
                        assert(cs@.subrange(i as int, e - 1) =~= strip_cr(
                            cs@.subrange(i as int, e as int),
                        ));
                    }
                    subrange_chars(&cs, i, e - 1)
                } else {
                    proof {
                        assert(strip_cr(cs@.subrange(i as int, e as int)) =~= cs@.subrange(
                            i as int,
                            e as int,
                        ));
                    }
                    subrange_chars(&cs, i, e)
                };
                (l, e + 1)
            },
        };
        match status_entry(&line) {
            None => (),
            Some(f) => {
                r.push(string_from_chars(&f));
                proof {
                    assert(r.deep_view() =~~= r0.push(f@));
                }
            },
        }
        proof {
            let ls = spec_lines_from(cs@, i0);
            assert(ls.drop_first() =~~= spec_lines_from(
                cs@,
                if find_char_from(cs@, '\n', i0) is Some {
                    find_char_from(cs@, '\n', i0).unwrap() + 1
                } else {
                    cs@.len() as int
                },
            ));
        }
        i = next;
    }
    assert(r.deep_view() =~~= r.deep_view() + Seq::<Seq<char>>::empty());
    r
}

/// `s` with leading whitespace removed.
pub open spec fn spec_trim_start(s: Seq<char>) -> Seq<char>
    decreases s.len(),
{
    if s.len() == 0 || !is_space(s[0]) {
        s
    } else {
        spec_trim_start(s.drop_first())
    }
}

/// `s` with trailing whitespace removed.
pub open spec fn spec_trim_end(s: Seq<char>) -> Seq<char>
    decreases s.len(),
{
    if s.len() == 0 || !is_space(s[s.len() - 1]) {
        s
    } else {
        spec_trim_end(s.drop_last())
    }
}

/// `s` with surrounding whitespace removed.
pub open spec fn spec_trim(s: Seq<char>) -> Seq<char> {
    spec_trim_end(spec_trim_start(s))
}

fn trim_chars(v: &Vec<char>) -> (r: Vec<char>)
    ensures
        r@ == spec_trim(v@),
{
    let mut a: usize = 0;
    assert(v@.subrange(0, v@.len() as int) =~= v@);
    while a < v.len() && is_space_exec(v[a])
        invariant
            a <= v@.len(),
            spec_trim_start(v@) == spec_trim_start(v@.subrange(a as int, v@.len() as int)),
        decreases v@.len() - a,
    {
        proof {
            assert(v@.subrange(a as int, v@.len() as int).drop_first() =~= v@.subrange(
                a + 1,
                v@.len() as int,
            ));
        }
        a = a + 1;
    }
    assert(spec_trim_start(v@) =~= v@.subrange(a as int, v@.len() as int));
    let mut b: usize = v.len();
    while b > a && is_space_exec(v[b - 1])
        invariant
            a <= b <= v@.len(),
            spec_trim_start(v@) == v@.subrange(a as int, v@.len() as int),
            spec_trim_end(spec_trim_start(v@)) == spec_trim_end(v@.subrange(a as int, b as int)),
        decreases b,
    {
        proof {
            assert(v@.subrange(a as int, b as int).drop_last() =~= v@.subrange(a as int, b - 1));
        }
        b = b - 1;
    }
    assert(spec_trim_end(v@.subrange(a as int, b as int)) =~= v@.subrange(a as int, b as int));
    subrange_chars(v, a, b)
}

/// The trimmed non-empty lines of an untracked-files report.
pub open spec fn spec_untracked_of_lines(lines: Seq<Seq<char>>) -> Seq<Seq<char>>
    decreases lines.len(),
{
    if lines.len() == 0 {
        Seq::empty()
    } else {
        let t = spec_trim(lines[0]);
        if t.len() == 0 {
            spec_untracked_of_lines(lines.drop_first())
        } else {
            seq![t] + spec_untracked_of_lines(lines.drop_first())
        }
    }
}

/// The paths named by a `git ls-files --others --exclude-standard` report.
pub open spec fn spec_untracked(s: Seq<char>) -> Seq<Seq<char>> {
    spec_untracked_of_lines(spec_lines_from(s, 0))
}

/// The paths listed by an untracked-files report, trimmed, blank lines
/// dropped.
pub fn parse_untracked(output: &str) -> (r: Vec<String>)
    ensures
        r.deep_view() == spec_untracked(output@),
{
    let cs = chars_of(output);
    let mut r: Vec<String> = Vec::new();
    let mut i: usize = 0;
    while i < cs.len()
        invariant
            i <= cs@.len(),
            r.deep_view() + spec_untracked_of_lines(spec_lines_from(cs@, i as int)) =~~= spec_untracked(cs@),
        decreases cs@.len() - i,
    {
        let ghost r0 = r.deep_view();
        let ghost i0 = i as int;
        proof {
            lemma_find_char_from(cs@, '\n', i as int);
        }
        let (line, next): (Vec<char>, usize) = match find_char(&cs, '\n', i) {
            None => (subrange_chars(&cs, i, cs.len()), cs.len()),
            Some(e) => {
                let l = if e > i && cs[e - 1] == '\r' {
                    proof {
                        assert(cs@.subrange(i as int, e - 1) =~= strip_cr(
                            cs@.subrange(i as int, e as int),
                        ));
                    }
                    subrange_chars(&cs, i, e - 1)
                } else {
                    proof {
                        assert(strip_cr(cs@.subrange(i as int, e as int)) =~= cs@.subrange(
                            i as int,
                            e as int,
                        ));
                    }
                    subrange_chars(&cs, i, e)
                };
                (l, e + 1)
            },
        };
        let t = trim_chars(&line);
        if t.len() > 0 {
            r.push(string_from_chars(&t));
            proof {
                assert(r.deep_view() =~~= r0.push(t@));
            }
        }
        proof {
            let ls = spec_lines_from(cs@, i0);
            assert(ls.drop_first() =~~= spec_lines_from(
                cs@,
                if find_char_from(cs@, '\n', i0) is Some {
                    find_char_from(cs@, '\n', i0).unwrap() + 1
                } else {
                    cs@.len() as int
                },
            ));
        }
        i = next;
    }
    assert(r.deep_view() =~~= r.deep_view() + Seq::<Seq<char>>::empty());
    r
}

/// `items` from position `i` on, added to `acc` unless already present.
pub open spec fn spec_dedup_from(items: Seq<Seq<char>>, i: int, acc: Seq<Seq<char>>) -> Seq<
    Seq<char>,
>
    decreases items.len() - i when 0 <= i <= items.len()
{
    if i >= items.len() {
        acc
    } else if acc.contains(items[i]) {
        spec_dedup_from(items, i + 1, acc)
    } else {
        spec_dedup_from(items, i + 1, acc.push(items[i]))
    }
}

/// `items` with later duplicates dropped, first occurrences kept in order.
pub open spec fn spec_dedup(items: Seq<Seq<char>>) -> Seq<Seq<char>> {
    spec_dedup_from(items, 0, Seq::empty())
}

fn dedup_strings(items: &Vec<String>) -> (r: Vec<String>)
    ensures
        r.deep_view() == spec_dedup(items.deep_view()),
{
    let mut r: Vec<String> = Vec::new();
    let mut i: usize = 0;
    assert(r.deep_view() =~~= Seq::<Seq<char>>::empty());
    while i < items.len()
        invariant
            i <= items@.len(),
            spec_dedup(items.deep_view()) == spec_dedup_from(
                items.deep_view(),
                i as int,
                r.deep_view(),
            ),
        decreases items@.len() - i,
    {
        let ghost r0 = r.deep_view();
        assert(items.deep_view()[i as int] == items@[i as int]@);
        if !crate::util::contains_string(&r, &items[i]) {
            r.push(items[i].clone());
            proof {
                assert(r.deep_view() =~~= r0.push(items@[i as int]@));
            }
        }
        i = i + 1;
    }
    r
}

/// Which kind of change report to ask git for.
#[derive(Clone, Debug)]
pub enum ChangeDetectionMode {
    /// Staged, unstaged and untracked changes together.
    WorkingDirectory,
    /// Only the staged index diff.
    Staged,
    /// The diff between two commits, for pre-push.
    Push {
        /// The local commit id.
        local_oid: String,
        /// The remote commit id.
        remote_oid: String,
    },
    /// The diff across a revision range.
    CommitRange {
        /// Start commit, exclusive.
        from: String,
        /// End commit, inclusive.
        to: String,
    },
}

/// The argument vectors of the git commands a mode calls for, in the order
/// their outputs are consumed.
pub open spec fn spec_git_commands(mode: ChangeDetectionMode) -> Seq<Seq<Seq<char>>> {
    match mode {
        ChangeDetectionMode::WorkingDirectory => seq![
            seq!["diff"@, "--cached"@, "--name-status"@],
            seq!["diff"@, "--name-status"@],
            seq!["ls-files"@, "--others"@, "--exclude-standard"@],
        ],
        ChangeDetectionMode::Staged => seq![seq!["diff"@, "--cached"@, "--name-status"@]],
        ChangeDetectionMode::Push { local_oid, remote_oid } => seq![
            seq!["diff"@, "--name-status"@, remote_oid@, local_oid@],
        ],
        ChangeDetectionMode::CommitRange { from, to } => seq![
            seq!["diff"@, "--name-status"@, from@ + ".."@ + to@],
        ],
    }
}

/// The changed files a mode reports, given the outputs of its commands:
/// deletions are dropped everywhere, renames and copies appear under their
/// destination, and the working-directory union is deduplicated.
pub open spec fn spec_changed_files(mode: ChangeDetectionMode, outs: Seq<Seq<char>>) -> Seq<
    Seq<char>,
> {
    match mode {
        ChangeDetectionMode::WorkingDirectory => spec_dedup(
            spec_name_status(outs[0]) + spec_name_status(outs[1]) + spec_untracked(outs[2]),
        ),
        ChangeDetectionMode::Staged => spec_name_status(outs[0]),
        ChangeDetectionMode::Push { .. } => spec_name_status(outs[0]),
        ChangeDetectionMode::CommitRange { .. } => spec_name_status(outs[0]),
    }
}

/// Detects changed files in a git repository from the reports the
/// embedding program captures.
#[derive(Debug)]
pub struct GitChangeDetector {
    /// The repository root.
    repo_root: String,
}

impl View for GitChangeDetector {
    type V = Seq<char>;

    /// A detector is captured by its repository root text.
    closed spec fn view(&self) -> Seq<char> {
        self.repo_root@
    }
}

impl GitChangeDetector {
    /// Create a detector for `repo_root`; `git_dir_exists` reports whether
    /// `repo_root/.git` exists on disk.
    pub fn new(repo_root: String, git_dir_exists: bool) -> (r: Result<GitChangeDetector, HookError>)
        ensures
            git_dir_exists ==> (r matches Ok(d) && d@ == repo_root@),
            !git_dir_exists ==> (r matches Err(e) && e matches HookError::NotARepository { path }
                && path@ == repo_root@),
    {
        if git_dir_exists {
            Ok(GitChangeDetector { repo_root })
        } else {
            Err(HookError::NotARepository { path: repo_root })
        }
    }

    /// The repository root this detector was created for.
    pub fn repo_root(&self) -> (r: &String)
        ensures
            r@ == self@,
    {
        &self.repo_root
    }

    /// The git commands whose outputs `get_changed_files` consumes for
    /// `mode`, as argument vectors, in order.
    pub fn change_commands(&self, mode: &ChangeDetectionMode) -> (r: Vec<Vec<String>>)
        ensures
            r.deep_view() == spec_git_commands(*mode),
    {
        let mut cmds: Vec<Vec<String>> = Vec::new();
        match mode {
            ChangeDetectionMode::WorkingDirectory => {
                let mut c1: Vec<String> = Vec::new();
                c1.push("diff".to_owned());
                c1.push("--cached".to_owned());
                c1.push("--name-status".to_owned());
                let mut c2: Vec<String> = Vec::new();
                c2.push("diff".to_owned());
                c2.push("--name-status".to_owned());
                let mut c3: Vec<String> = Vec::new();
                c3.push("ls-files".to_owned());
                c3.push("--others".to_owned());
                c3.push("--exclude-standard".to_owned());
                cmds.push(c1);
                cmds.push(c2);
                cmds.push(c3);
                assert(cmds.deep_view() =~~= spec_git_commands(*mode));
            },
            ChangeDetectionMode::Staged => {
                let mut c1: Vec<String> = Vec::new();
                c1.push("diff".to_owned());
                c1.push("--cached".to_owned());
                c1.push("--name-status".to_owned());
                cmds.push(c1);
                assert(cmds.deep_view() =~~= spec_git_commands(*mode));
            },
            ChangeDetectionMode::Push { local_oid, remote_oid } => {
                let mut c1: Vec<String> = Vec::new();
                c1.push("diff".to_owned());
                c1.push("--name-status".to_owned());
                c1.push(remote_oid.clone());
                c1.push(local_oid.clone());
                cmds.push(c1);
                assert(cmds.deep_view() =~~= spec_git_commands(*mode));
            },
            ChangeDetectionMode::CommitRange { from, to } => {
                let mut range: Vec<char> = chars_of(from.as_str());
                crate::util::push_str_chars(&mut range, "..");
                let tov = chars_of(to.as_str());
                crate::util::push_chars(&mut range, &tov);
                let mut c1: Vec<String> = Vec::new();
                c1.push("diff".to_owned());
                c1.push("--name-status".to_owned());
                c1.push(string_from_chars(&range));
                cmds.push(c1);
                assert(cmds.deep_view() =~~= spec_git_commands(*mode));
            },
        }
        cmds
    }

    /// The changed files of `mode`, given the captured outputs of the
    /// commands `change_commands` named, in the same order.
    pub fn get_changed_files(&self, mode: &ChangeDetectionMode, outputs: &Vec<String>) -> (r: Vec<
        String,
    >)
        requires
            outputs@.len() == spec_git_commands(*mode).len(),
        ensures
            r.deep_view() == spec_changed_files(*mode, outputs.deep_view()),
    {
        match mode {
            ChangeDetectionMode::WorkingDirectory => {
                let mut all = parse_name_status(outputs[0].as_str());
                let mut unstaged = parse_name_status(outputs[1].as_str());
                let mut untracked = parse_untracked(outputs[2].as_str());
                let ghost g0 = all.deep_view();
                let ghost g1 = unstaged.deep_view();
                let ghost g2 = untracked.deep_view();
                all.append(&mut unstaged);
                all.append(&mut untracked);
                assert(all.deep_view() =~~= g0 + g1 + g2);
                assert(outputs.deep_view()[0] == outputs@[0]@);
                assert(outputs.deep_view()[1] == outputs@[1]@);
                assert(outputs.deep_view()[2] == outputs@[2]@);
                dedup_strings(&all)
            },
            ChangeDetectionMode::Staged => {
                assert(outputs.deep_view()[0] == outputs@[0]@);
                parse_name_status(outputs[0].as_str())
            },
            ChangeDetectionMode::Push { .. } => {
                assert(outputs.deep_view()[0] == outputs@[0]@);
                parse_name_status(outputs[0].as_str())
            },
            ChangeDetectionMode::CommitRange { .. } => {
                assert(outputs.deep_view()[0] == outputs@[0]@);
                parse_name_status(outputs[0].as_str())
            },
        }
    }
}

/// Whether the glob pattern text compiles.
pub uninterp spec fn glob_ok(pattern: Seq<char>) -> bool;

/// Whether the (compilable) glob pattern matches the path text.
pub uninterp spec fn glob_matches(pattern: Seq<char>, path: Seq<char>) -> bool;

/// Relies on `glob::Pattern::new`: whether a pattern compiles depends on
/// the pattern text alone.
#[verifier::external_body]
fn glob_compile_ok(pattern: &str) -> (r: bool)
    ensures
        r == glob_ok(pattern@),
{
    glob::Pattern::new(pattern).is_ok()
}

/// Relies on `glob::Pattern::new` and `glob::Pattern::matches`: the match
/// result of a compilable pattern depends on the pattern and path text
/// alone.
#[verifier::external_body]
fn glob_match(pattern: &str, path: &str) -> (r: bool)
    requires
        glob_ok(pattern@),
    ensures
        r == glob_matches(pattern@, path@),
{
    match glob::Pattern::new(pattern) {
        Ok(p) => p.matches(path),
        Err(_) => false,
    }
}

/// The final path segment: the text after the last slash.
pub open spec fn spec_basename(p: Seq<char>) -> Seq<char> {
    match crate::util::rfind_char(p, '/') {
        None => p,
        Some(j) => p.subrange(j + 1, p.len() as int),
    }
}

/// Whether a pattern list accepts a path: an empty list accepts every
/// path; otherwise some pattern must match the full path or its final
/// segment.
pub open spec fn spec_list_matches(pats: Seq<Seq<char>>, path: Seq<char>) -> bool {
    pats.len() == 0 || exists|i: int|
        0 <= i < pats.len() && (glob_matches(pats[i], path) || glob_matches(
            pats[i],
            spec_basename(path),
        ))
}

/// Whether a pattern list accepts any of the given paths: an empty list
/// always does; otherwise some path must be accepted.
pub open spec fn spec_matches_any(pats: Seq<Seq<char>>, files: Seq<Seq<char>>) -> bool {
    pats.len() == 0 || exists|j: int| 0 <= j < files.len() && spec_list_matches(pats, files[j])
}

/// With no files at hand, a pattern list accepts exactly when it is
/// empty.
pub proof fn lemma_matches_any_no_files(pats: Seq<Seq<char>>)
    ensures
        spec_matches_any(pats, Seq::empty()) == (pats.len() == 0),
{
}

/// A compiled list of glob patterns, matched against paths and their
/// final segments.
#[derive(Debug)]
pub struct FilePatternMatcher {
    /// The validated pattern texts.
    patterns: Vec<String>,
}

impl View for FilePatternMatcher {
    type V = Seq<Seq<char>>;

    /// A matcher is captured by its pattern texts.
    closed spec fn view(&self) -> Seq<Seq<char>> {
        self.patterns.deep_view()
    }
}

impl FilePatternMatcher {
    /// Every held pattern compiles.
    pub open spec fn wf(&self) -> bool {
        forall|i: int| 0 <= i < self@.len() ==> glob_ok(self@[i])
    }

    /// Validate the given glob patterns; fails on the first pattern that
    /// does not compile, naming it.
    pub fn new(patterns: &Vec<String>) -> (r: Result<FilePatternMatcher, HookError>)
        ensures
            match r {
                Ok(m) => m@ == patterns.deep_view() && m.wf(),
                Err(e) => exists|i: int|
                    0 <= i < patterns.deep_view().len() && !glob_ok(patterns.deep_view()[i]) && (
                    forall|k: int| 0 <= k < i ==> glob_ok(patterns.deep_view()[k])) && (e matches
                        HookError::InvalidPattern { pattern } && pattern@
                        == patterns.deep_view()[i]),
            },
            r is Ok <==> forall|i: int|
                0 <= i < patterns.deep_view().len() ==> glob_ok(patterns.deep_view()[i]),
{
        let mut i: usize = 0;
        while i < patterns.len()
            invariant
                i <= patterns@.len(),
                forall|k: int| 0 <= k < i ==> glob_ok(patterns.deep_view()[k]),
            decreases patterns@.len() - i,
        {
            assert(patterns.deep_view()[i as int] == patterns@[i as int]@);
            if !glob_compile_ok(patterns[i].as_str()) {
                return Err(HookError::InvalidPattern { pattern: patterns[i].clone() });
            }
            i = i + 1;
        }
        let held = patterns.clone();
        assert(held.deep_view() =~~= patterns.deep_view());
        Ok(FilePatternMatcher { patterns: held })
    }

    /// Whether any pattern matches the path or its final segment; with no
    /// patterns, every path matches.
    pub fn matches(&self, file_path: &str) -> (r: bool)
        requires
            self.wf(),
        ensures
            r == spec_list_matches(self@, file_path@),
    {
        if self.patterns.len() == 0 {
            return true;
        }
        let pcs = chars_of(file_path);
        proof {
            crate::util::lemma_rfind_char(pcs@, '/');
        }
        let base = match crate::util::rfind_char_exec(&pcs, '/') {
            None => subrange_chars(&pcs, 0, pcs.len()),
            Some(j) => subrange_chars(&pcs, j + 1, pcs.len()),
        };
        assert(pcs@.subrange(0, pcs@.len() as int) =~= pcs@);
        let base_s = string_from_chars(&base);
        let mut i: usize = 0;
        while i < self.patterns.len()
            invariant
                i <= self@.len(),
                self.wf(),
                base_s@ == spec_basename(file_path@),
                forall|k: int|
                    0 <= k < i ==> !glob_matches(self@[k], file_path@) && !glob_matches(
                        self@[k],
                        spec_basename(file_path@),
                    ),
            decreases self@.len() - i,
        {
            assert(self@[i as int] == self.patterns@[i as int]@);
            if glob_match(self.patterns[i].as_str(), file_path) {
                return true;
            }
            if glob_match(self.patterns[i].as_str(), base_s.as_str()) {
                return true;
            }
            i = i + 1;
        }
        false
    }

    /// Whether any of the given paths is accepted; with no patterns, the
    /// answer is always yes.
    pub fn matches_any(&self, files: &Vec<String>) -> (r: bool)
        requires
            self.wf(),
        ensures
            r == spec_matches_any(self@, files.deep_view()),
    {
        if self.patterns.len() == 0 {
            return true;
        }
        let mut j: usize = 0;
        while j < files.len()
            invariant
                j <= files@.len(),
                self.wf(),
                self@.len() > 0,
                forall|k: int| 0 <= k < j ==> !spec_list_matches(self@, files.deep_view()[k]),
            decreases files@.len() - j,
        {
            assert(files.deep_view()[j as int] == files@[j as int]@);
            if self.matches(files[j].as_str()) {
                return true;
            }
            j = j + 1;
        }
        false
    }
}

/// `find_char_from` finds exactly the first hit: if `s[j]` is `c` and no
/// position from `i` up to `j` holds `c`, the search from `i` returns `j`.
pub proof fn lemma_find_char_at(s: Seq<char>, c: char, i: int, j: int)
    requires
        0 <= i <= j < s.len(),
        s[j] == c,
        forall|k: int| i <= k < j ==> s[k] != c,
    ensures
        find_char_from(s, c, i) == Some(j),
    decreases j - i,
{
    if i < j {
        lemma_find_char_at(s, c, i + 1, j);
    }
}

/// A deletion line contributes no path: whenever a `--name-status` line
/// has a tab and its status field starts with `D`, no path is produced.
pub proof fn lemma_deleted_line_dropped(line: Seq<char>)
    requires
        line.len() > 0,
        line[0] == 'D',
        exists|k: int| 0 < k < line.len() && line[k] == '\t',
    ensures
        spec_status_entry(line) is None,
{
    lemma_find_char_from(line, '\t', 0);
}

/// A rename or copy line contributes its destination path only: for a line
/// `status<TAB>source<TAB>destination` whose status starts with `R` or
/// `C`, the produced path is exactly the destination.
pub proof fn lemma_rename_uses_destination(status: Seq<char>, src: Seq<char>, dst: Seq<char>)
    requires
        status.len() > 0,
        status[0] == 'R' || status[0] == 'C',
        forall|k: int| 0 <= k < status.len() ==> status[k] != '\t',
        forall|k: int| 0 <= k < src.len() ==> src[k] != '\t',
        forall|k: int| 0 <= k < dst.len() ==> dst[k] != '\t',
    ensures
        spec_status_entry(status + seq!['\t'] + src + seq!['\t'] + dst) == Some(dst),
{
    let line = status + seq!['\t'] + src + seq!['\t'] + dst;
    let t = status.len() as int;
    assert(line[t] == '\t');
    lemma_find_char_at(line, '\t', 0, t);
    let rest = line.subrange(t + 1, line.len() as int);
    assert(rest =~= src + seq!['\t'] + dst);
    let t2 = src.len() as int;
    assert(rest[t2] == '\t');
    lemma_find_char_at(rest, '\t', 0, t2);
    let rest2 = rest.subrange(t2 + 1, rest.len() as int);
    assert(rest2 =~= dst);
    lemma_find_char_from(rest2, '\t', 0);
    if find_char_from(rest2, '\t', 0) is Some {
        let t3 = find_char_from(rest2, '\t', 0).unwrap();
        assert(dst[t3] == '\t');
        assert(false);
    }
}

} // verus!
