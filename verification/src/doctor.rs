//! Health-check decisions.
//!
//! The embedding program probes the environment (finds the repository,
//! lists installed hook files, looks for and parses the configuration)
//! and hands the outcomes in as plain values; this module decides what
//! each probe means and words the findings. Printing the findings is the
//! embedding program's business.

use vstd::prelude::*;
use crate::config::HookConfig;
use crate::util::{chars_of, decimal_chars, push_chars, push_str_chars, spec_decimal,
    string_from_chars};

verus! {

/// The doctor for this tool; its checks cover the git repository and the
/// hook configuration.
pub struct PeterHookDoctor;

impl PeterHookDoctor {
    /// The repository this tool is published from: owner and name.
    pub fn repo_info() -> (r: (String, String))
        ensures
            r.0@ == "tftio"@,
            r.1@ == "peter-hook"@,
    {
        ("tftio".to_owned(), "peter-hook".to_owned())
    }
}

/// One finding of the doctor: what was checked, whether it passed, and
/// what to do about it when it failed.
#[derive(Debug)]
pub struct DoctorCheck {
    /// The check passed.
    pub passed: bool,
    /// What was checked, or what was found.
    pub name: String,
    /// What to do about a failure.
    pub detail: Option<String>,
}

/// The view of a `DoctorCheck`.
#[verifier::ext_equal]
pub struct DoctorCheckView {
    /// The check passed.
    pub passed: bool,
    /// What was checked, or what was found.
    pub name: Seq<char>,
    /// What to do about a failure.
    pub detail: Option<Seq<char>>,
}

impl View for DoctorCheck {
    type V = DoctorCheckView;

    open spec fn view(&self) -> DoctorCheckView {
        DoctorCheckView { passed: self.passed, name: self.name@, detail: self.detail.deep_view() }
    }
}

impl DeepView for DoctorCheck {
    type V = DoctorCheckView;

    open spec fn deep_view(&self) -> DoctorCheckView {
        self.view()
    }
}

/// A passing finding with the given text.
pub open spec fn spec_pass(name: Seq<char>) -> DoctorCheckView {
    DoctorCheckView { passed: true, name, detail: None }
}

/// A failing finding with the given text and remedy.
pub open spec fn spec_fail(name: Seq<char>, detail: Seq<char>) -> DoctorCheckView {
    DoctorCheckView { passed: false, name, detail: Some(detail) }
}

/// How many entries of `s` are true.
pub open spec fn count_true(s: Seq<bool>) -> nat
    decreases s.len(),
{
    if s.len() == 0 {
        0
    } else {
        count_true(s.drop_last()) + if s.last() {
            1nat
        } else {
            0nat
        }
    }
}

/// What probing the git repository found.
#[derive(Debug)]
pub enum GitRepoProbe {
    /// No repository was found; the probe's report.
    NotFound {
        /// What the probe reported.
        error: String,
    },
    /// A repository was found; listing its installed hooks either failed
    /// with a report, or yielded one flag per installed hook saying
    /// whether this tool manages it.
    Found {
        /// The outcome of listing the installed hooks.
        hooks: Result<Vec<bool>, String>,
    },
}

/// The findings about the git repository: found or not; then, per the
/// hook listing, whether hooks are installed and how many this tool
/// manages.
pub open spec fn spec_git_repository_checks(probe: GitRepoProbe) -> Seq<DoctorCheckView> {
    match probe {
        GitRepoProbe::NotFound { error } => seq![
            spec_fail("Git repository"@, "Not in a git repository: "@ + error@),
        ],
        GitRepoProbe::Found { hooks } => seq![spec_pass("Git repository found"@)] + match hooks {
            Err(e) => seq![spec_fail("List git hooks"@, "Failed: "@ + e@)],
            Ok(managed) => {
                if managed@.len() == 0 {
                    seq![
                        spec_fail(
                            "Git hooks"@,
                            "No git hooks installed - run 'peter-hook install' to install hooks"@,
                        ),
                    ]
                } else if count_true(managed@) == 0 {
                    seq![
                        spec_fail(
                            spec_decimal(managed@.len() as u64) + " git hook(s) found"@,
                            "No hooks managed by peter-hook - run 'peter-hook install' to install hooks"@,
                        ),
                    ]
                } else {
                    seq![
                        spec_pass(
                            spec_decimal(count_true(managed@) as u64)
                                + " hook(s) managed by peter-hook"@,
                        ),
                    ]
                }
            },
        },
    }
}

fn pass_check(name: String) -> (r: DoctorCheck)
    ensures
        r@ == spec_pass(name@),
{
    DoctorCheck { passed: true, name, detail: None }
}

fn fail_check(name: String, detail: String) -> (r: DoctorCheck)
    ensures
        r@ == spec_fail(name@, detail@),
{
    DoctorCheck { passed: false, name, detail: Some(detail) }
}

fn count_true_exec(flags: &Vec<bool>) -> (r: usize)
    ensures
        r == count_true(flags@),
{
    let mut n: usize = 0;
    let mut i: usize = 0;
    while i < flags.len()
        invariant
            i <= flags@.len(),
            n == count_true(flags@.subrange(0, i as int)),
            n <= i,
        decreases flags@.len() - i,
    {
        if flags[i] {
            n = n + 1;
        }
        proof {
            assert(flags@.subrange(0, i + 1).drop_last() =~= flags@.subrange(0, i as int));
        }
        i = i + 1;
    }
    assert(flags@.subrange(0, flags@.len() as int) =~= flags@);
    n
}

/// The findings about the git repository, from the probe's outcomes.
pub fn check_git_repository(probe: &GitRepoProbe) -> (r: Vec<DoctorCheck>)
    ensures
        r.deep_view() =~~= spec_git_repository_checks(*probe),
{
    let mut checks: Vec<DoctorCheck> = Vec::new();
    match probe {
        GitRepoProbe::NotFound { error } => {
            let mut msg = chars_of("Not in a git repository: ");
            let ec = chars_of(error.as_str());
            push_chars(&mut msg, &ec);
            checks.push(fail_check("Git repository".to_owned(), string_from_chars(&msg)));
        },
        GitRepoProbe::Found { hooks } => {
            checks.push(pass_check("Git repository found".to_owned()));
            match hooks {
                Err(e) => {
                    let mut msg = chars_of("Failed: ");
                    let ec = chars_of(e.as_str());
                    push_chars(&mut msg, &ec);
                    checks.push(fail_check("List git hooks".to_owned(), string_from_chars(&msg)));
                },
                Ok(managed) => {
                    if managed.len() == 0 {
                        checks.push(
                            fail_check(
                                "Git hooks".to_owned(),
                                "No git hooks installed - run 'peter-hook install' to install hooks".to_owned(),
                            ),
                        );
                    } else {
                        let mcount = count_true_exec(managed);
                        if mcount == 0 {
                            let mut name = decimal_chars(managed.len() as u64);
                            push_str_chars(&mut name, " git hook(s) found");
                            checks.push(
                                fail_check(
                                    string_from_chars(&name),
                                    "No hooks managed by peter-hook - run 'peter-hook install' to install hooks".to_owned(),
                                ),
                            );
                        } else {
                            let mut name = decimal_chars(mcount as u64);
                            push_str_chars(&mut name, " hook(s) managed by peter-hook");
                            checks.push(pass_check(string_from_chars(&name)));
                        }
                    }
                },
            }
        },
    }
    checks
}

/// What probing the configuration found.
#[derive(Debug)]
pub enum ConfigProbe {
    /// The search for a configuration file failed with a report.
    SearchFailed {
        /// What the search reported.
        error: String,
    },
    /// No configuration file exists above the working directory.
    NoFile,
    /// A configuration file was found but did not parse.
    ParseFailed {
        /// The file's path.
        path: String,
        /// What parsing reported.
        error: String,
    },
    /// A configuration file was found and parsed.
    Parsed {
        /// The file's path.
        path: String,
        /// The parsed configuration.
        config: HookConfig,
    },
}

/// How many hooks and groups a configuration declares.
pub open spec fn spec_name_count(c: crate::config::HookConfigView) -> nat {
    crate::config::spec_hook_names(c).len()
}

/// The findings about the configuration: whether a file was found,
/// whether it parses, and whether it declares anything.
pub open spec fn spec_configuration_checks(probe: ConfigProbe) -> Seq<DoctorCheckView> {
    match probe {
        ConfigProbe::SearchFailed { error } => seq![
            spec_fail("Config search"@, "Failed: "@ + error@),
        ],
        ConfigProbe::NoFile => seq![
            spec_fail(
                "Configuration file"@,
                "No .peter-hook.toml found - create one to configure peter-hook"@,
            ),
        ],
        ConfigProbe::ParseFailed { path, error } => seq![
            spec_pass("Config file found: "@ + path@),
            spec_fail("Config validation"@, "Invalid: "@ + error@),
        ],
        ConfigProbe::Parsed { path, config } => seq![spec_pass("Config file found: "@ + path@)]
            + if spec_name_count(config@) == 0 {
            seq![
                spec_fail("Hook configuration"@, "No hooks or groups defined in .peter-hook.toml"@),
            ]
        } else {
            seq![
                spec_pass(
                    "Found "@ + spec_decimal(spec_name_count(config@) as u64)
                        + " hook(s)/group(s)"@,
                ),
            ]
        },
    }
}

/// The findings about the configuration, from the probe's outcomes.
pub fn check_configuration(probe: &ConfigProbe) -> (r: Vec<DoctorCheck>)
    ensures
        r.deep_view() =~~= spec_configuration_checks(*probe),
{
    let mut checks: Vec<DoctorCheck> = Vec::new();
    match probe {
        ConfigProbe::SearchFailed { error } => {
            let mut msg = chars_of("Failed: ");
            let ec = chars_of(error.as_str());
            push_chars(&mut msg, &ec);
            checks.push(fail_check("Config search".to_owned(), string_from_chars(&msg)));
        },
        ConfigProbe::NoFile => {
            checks.push(
                fail_check(
                    "Configuration file".to_owned(),
                    "No .peter-hook.toml found - create one to configure peter-hook".to_owned(),
                ),
            );
        },
        ConfigProbe::ParseFailed { path, error } => {
            let mut name = chars_of("Config file found: ");
            let pc = chars_of(path.as_str());
            push_chars(&mut name, &pc);
            checks.push(pass_check(string_from_chars(&name)));
            let mut msg = chars_of("Invalid: ");
            let ec = chars_of(error.as_str());
            push_chars(&mut msg, &ec);
            checks.push(fail_check("Config validation".to_owned(), string_from_chars(&msg)));
        },
        ConfigProbe::Parsed { path, config } => {
            let mut name = chars_of("Config file found: ");
            let pc = chars_of(path.as_str());
            push_chars(&mut name, &pc);
            checks.push(pass_check(string_from_chars(&name)));
            let names = config.get_hook_names();
            let n = names.len();
            if n == 0 {
                checks.push(
                    fail_check(
                        "Hook configuration".to_owned(),
                        "No hooks or groups defined in .peter-hook.toml".to_owned(),
                    ),
                );
            } else {
                let mut text = chars_of("Found ");
                let digits = decimal_chars(n as u64);
                push_chars(&mut text, &digits);
                push_str_chars(&mut text, " hook(s)/group(s)");
                checks.push(pass_check(string_from_chars(&text)));
            }
        },
    }
    checks
}

/// Whether every finding passed.
pub open spec fn all_passed(checks: Seq<DoctorCheckView>) -> bool {
    forall|i: int| 0 <= i < checks.len() ==> checks[i].passed
}

/// The doctor's exit code: zero when every finding passed, one
/// otherwise.
pub fn doctor_exit_code(checks: &Vec<DoctorCheck>) -> (r: i32)
    ensures
        r == 0 <==> all_passed(checks.deep_view()),
        r == 0 || r == 1,
{
    let mut i: usize = 0;
    while i < checks.len()
        invariant
            i <= checks@.len(),
            forall|j: int| 0 <= j < i ==> checks.deep_view()[j].passed,
        decreases checks@.len() - i,
    {
        assert(checks.deep_view()[i as int] == checks@[i as int]@);
        if !checks[i].passed {
            return 1;
        }
        i = i + 1;
    }
    0
}

} // verus!
