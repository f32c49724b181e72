//! The daemon as a service of the operating system, at the user's level.
//!
//! What to do is a list of steps; whoever drives it performs them in order.
use vstd::prelude::*;

use crate::config;
use crate::deps;
use crate::failure;
use crate::failure::Failure;
use crate::text;

pub mod linux;
pub mod macos;
pub mod unsupported;
pub mod windows;

verus! {

/// The state of the service. The variants are loose, as each platform reports
/// it differently.
#[derive(Debug, Clone, PartialEq)]
pub enum ServiceStatus {
    /// Installed and running.
    Running,
    /// Installed but stopped.
    Stopped,
    /// Not installed at all.
    NotInstalled,
    /// Installed; precise state unknown.
    Unknown(String),
}

/// What a [`ServiceStatus`] says.
#[verifier::ext_equal]
pub enum StatusModel {
    Running,
    Stopped,
    NotInstalled,
    Unknown(Seq<char>),
}

impl View for ServiceStatus {
    type V = StatusModel;

    open spec fn view(&self) -> StatusModel {
        match self {
            ServiceStatus::Running => StatusModel::Running,
            ServiceStatus::Stopped => StatusModel::Stopped,
            ServiceStatus::NotInstalled => StatusModel::NotInstalled,
            ServiceStatus::Unknown(s) => StatusModel::Unknown(s@),
        }
    }
}

impl StatusModel {
    /// The state in words.
    pub open spec fn words(self) -> Seq<char> {
        match self {
            StatusModel::Running => "running"@,
            StatusModel::Stopped => "stopped"@,
            StatusModel::NotInstalled => "not installed"@,
            StatusModel::Unknown(s) => "unknown ("@ + s + ")"@,
        }
    }
}

impl ServiceStatus {
    /// The state in words.
    pub fn text(&self) -> (res: String)
        ensures
            res@ == self@.words(),
    {
        match self {
            ServiceStatus::Running => "running".to_string(),
            ServiceStatus::Stopped => "stopped".to_string(),
            ServiceStatus::NotInstalled => "not installed".to_string(),
            ServiceStatus::Unknown(s) => text::text3("unknown (", s.as_str(), ")"),
        }
    }
}

/// One step of installing or removing the service.
#[derive(Debug)]
pub enum Step {
    /// Make this directory and those above it.
    MakeDir(String),
    /// Write this file.
    WriteFile { path: String, body: String },
    /// Remove this file if it is there, and say so.
    RemoveFile(String),
    /// Run the platform's control program with these arguments; its failure
    /// matters only if it is required to succeed.
    Control { args: Vec<String>, required: bool },
    /// Tell the user.
    Say(String),
}

/// What a [`Step`] says.
#[verifier::ext_equal]
pub enum StepModel {
    MakeDir(Seq<char>),
    WriteFile { path: Seq<char>, body: Seq<char> },
    RemoveFile(Seq<char>),
    Control { args: Seq<Seq<char>>, required: bool },
    Say(Seq<char>),
}

impl View for Step {
    type V = StepModel;

    open spec fn view(&self) -> StepModel {
        match self {
            Step::MakeDir(path) => StepModel::MakeDir(path@),
            Step::WriteFile { path, body } => StepModel::WriteFile { path: path@, body: body@ },
            Step::RemoveFile(path) => StepModel::RemoveFile(path@),
            Step::Control { args, required } => StepModel::Control {
                args: config::texts(args@),
                required: *required,
            },
            Step::Say(line) => StepModel::Say(line@),
        }
    }
}

/// What some steps say.
pub open spec fn steps_model(steps: Seq<Step>) -> Seq<StepModel> {
    steps.map_values(|s: Step| s@)
}

/// What a program that was run gave.
#[derive(Debug)]
pub struct Output {
    pub success: bool,
    pub stdout: Vec<u8>,
    pub stderr: Vec<u8>,
}

/// The home directory, or the current one if there is none.
pub open spec fn home_or_here(home: Option<Seq<char>>) -> Seq<char> {
    match home {
        Some(home) => home,
        None => "."@,
    }
}

/// The home directory, or the current one if there is none.
pub(crate) fn home_dir<'a>(home: Option<&'a str>) -> (res: &'a str)
    ensures
        res@ == home_or_here(text::slice_said(home)),
{
    match home {
        Some(home) => home,
        None => ".",
    }
}

/// Some words with a blank between each two.
pub open spec fn joined(words: Seq<Seq<char>>) -> Seq<char>
    decreases words.len(),
{
    if words.len() == 0 {
        Seq::empty()
    } else if words.len() == 1 {
        words[0]
    } else {
        joined(words.drop_last()) + " "@ + words.last()
    }
}

/// Some words with a blank between each two.
pub(crate) fn join_words(words: &Vec<String>) -> (res: String)
    ensures
        res@ == joined(config::texts(words@)),
{
    let n: usize = words.len();
    let ghost all = config::texts(words@);
    if n == 0 {
        let none = String::new();
        assert(none@ =~= Seq::<char>::empty());
        return none;
    }
    let mut out = words[0].clone();
    let mut i: usize = 1;
    proof {
        assert(all.take(1).len() == 1);
        assert(joined(all.take(1)) == all[0]);
    }
    while i < n
        invariant
            n == words@.len(),
            1 <= i <= n,
            all == config::texts(words@),
            out@ == joined(all.take(i as int)),
        decreases n - i,
    {
        out.append(" ");
        out.append(words[i].as_str());
        proof {
            assert(all.take(i + 1).drop_last() =~= all.take(i as int));
            assert(all.take(i + 1).last() == words@[i as int]@);
        }
        i += 1;
    }
    proof {
        assert(all.take(n as int) =~= all);
    }
    out
}

/// Appends a word.
pub(crate) fn push_word(words: &mut Vec<String>, word: &str)
    ensures
        config::texts(final(words)@) == config::texts(old(words)@).push(word@),
{
    words.push(word.to_string());
    assert(config::texts(words@) =~= config::texts(old(words)@).push(word@));
}

/// Two words, as arguments.
pub(crate) fn words2(a: &str, b: &str) -> (res: Vec<String>)
    ensures
        config::texts(res@) == seq![a@, b@],
{
    let mut words: Vec<String> = Vec::new();
    assert(config::texts(words@) =~= Seq::<Seq<char>>::empty());
    push_word(&mut words, a);
    push_word(&mut words, b);
    assert(config::texts(words@) =~= seq![a@, b@]);
    words
}

/// Why a control program failed, if it did: it could not be run, or it said so
/// in its errors.
pub open spec fn control_failure(
    run: Seq<char>,
    program: Seq<char>,
    outcome: Result<Output, String>,
) -> Option<failure::FailureModel> {
    match outcome {
        Err(e) => Some(failure::because(run, e@)),
        Ok(output) => if output.success {
            None
        } else {
            Some(
                failure::plain(
                    program + " failed: "@ + text::trimmed(deps::lossy_of(output.stderr@)),
                ),
            )
        },
    }
}

/// What came of running a control program, named `run` where it could not be
/// run and `program` where it failed.
pub(crate) fn control_result(run: &str, program: &str, outcome: Result<Output, String>) -> (res:
    Result<(), Failure>)
    ensures
        match (res, control_failure(run@, program@, outcome)) {
            (Ok(_), None) => true,
            (Err(e), Some(why)) => e@ == why,
            _ => false,
        },
{
    match outcome {
        Err(e) => Err(Failure::caused(run, e)),
        Ok(output) => {
            if output.success {
                Ok(())
            } else {
                let stderr = deps::lossy_text(output.stderr.as_slice());
                Err(
                    Failure::new(text::text3(program, " failed: ", text::trim(stderr.as_str()))),
                )
            }
        },
    }
}

// ── Laws ────────────────────────────────────────────────────────────

/// Each state has its own words.
pub proof fn law_states_in_words(s: Seq<char>)
    ensures
        StatusModel::Running.words() == "running"@,
        StatusModel::Stopped.words() == "stopped"@,
        StatusModel::NotInstalled.words() == "not installed"@,
        StatusModel::Unknown(s).words() == "unknown ("@ + s + ")"@,
{
}

/// Words are joined with one blank between each two.
pub proof fn law_words_are_joined(words: Seq<Seq<char>>, word: Seq<char>)
    ensures
        joined(Seq::<Seq<char>>::empty()) == Seq::<char>::empty(),
        joined(seq![word]) == word,
        words.len() > 0 ==> joined(words.push(word)) == joined(words) + " "@ + word,
{
    assert(words.push(word).drop_last() =~= words);
}

/// A control program that ran and succeeded is no failure; one that could not be
/// run says why, and one that failed is quoted.
pub proof fn law_control_failures(
    run: Seq<char>,
    program: Seq<char>,
    outcome: Result<Output, String>,
)
    ensures
        control_failure(run, program, outcome) is None <==> (outcome is Ok
            && outcome->Ok_0.success),
        outcome matches Err(e) ==> control_failure(run, program, outcome) == Some(
            failure::FailureModel { message: run, cause: Some(e@) },
        ),
        (outcome is Ok && !outcome->Ok_0.success) ==> control_failure(run, program, outcome)
            == Some(
            failure::FailureModel {
                message: program + " failed: "@ + text::trimmed(
                    deps::lossy_of(outcome->Ok_0.stderr@),
                ),
                cause: None,
            },
        ),
{
}

/// The home directory is the one that there is, and the current one only where
/// there is none.
pub proof fn law_home(home: Seq<char>)
    ensures
        home_or_here(Some(home)) == home,
        home_or_here(None) == "."@,
{
}

/// What a step says is what it holds.
pub proof fn law_steps_say_what_they_hold(path: String, body: String, args: Vec<String>, required: bool)
    ensures
        Step::MakeDir(path)@ == StepModel::MakeDir(path@),
        (Step::WriteFile { path, body })@ == (StepModel::WriteFile { path: path@, body: body@ }),
        Step::RemoveFile(path)@ == StepModel::RemoveFile(path@),
        (Step::Control { args, required })@ == (StepModel::Control {
            args: config::texts(args@),
            required,
        }),
        Step::Say(path)@ == StepModel::Say(path@),
        ServiceStatus::Running@ is Running,
        ServiceStatus::Stopped@ is Stopped,
        ServiceStatus::NotInstalled@ is NotInstalled,
        ServiceStatus::Unknown(path)@ == StatusModel::Unknown(path@),
{
}

} // verus!
