//! The workflows of a repository and the state of their last run.

use vstd::prelude::*;
use crate::text::{
    before_char, chars_before_char, chars_eq, from_chars, next_word, to_chars, word_end, word_from,
};

verus! {

/// A workflow: the name of its file without the extension, and the name of
/// the file.
#[derive(Debug, Clone)]
pub struct WorkflowInfo {
    pub name: String,
    pub file: String,
}

/// What is known of the last run of a workflow.
#[derive(Debug, Clone)]
pub struct GhRunInfo {
    pub ok: bool,
    pub reason: Option<String>,
    pub conclusion: Option<String>,
    pub run_id: Option<u64>,
    pub html_url: Option<String>,
    pub updated_at: Option<String>,
}

impl GhRunInfo {
    /// The state of a workflow of which no run could be read, with the
    /// reason why.
    pub fn failed(reason: &str) -> (r: Self)
        ensures
            !r.ok,
            r.reason is Some && r.reason->0@ == reason@,
            r.conclusion is None,
            r.run_id is None,
            r.html_url is None,
            r.updated_at is None,
    {
        GhRunInfo {
            ok: false,
            reason: Some(String::from_str(reason)),
            conclusion: None,
            run_id: None,
            html_url: None,
            updated_at: None,
        }
    }
}

/// One run of a workflow, as `gh` lists it.
#[derive(Debug, Clone)]
pub struct GhRun {
    pub conclusion: Option<String>,
    pub database_id: Option<u64>,
    pub updated_at: Option<String>,
    pub url: Option<String>,
}

/// How the question for the last runs of a workflow ended.
#[derive(Debug, Clone)]
pub enum GhOutcome {
    /// `gh` could not be started.
    Unavailable,
    /// `gh` ended with an error.
    Failed,
    /// `gh` listed these runs, the last one first.
    Runs(Vec<GhRun>),
}

/// What is known of the last run of a workflow, given how the question for
/// its runs ended: the first run listed, or the reason why there is none.
pub fn run_info(outcome: GhOutcome) -> (r: GhRunInfo)
    ensures
        r.ok == (outcome matches GhOutcome::Runs(runs) && runs@.len() > 0),
        outcome is Unavailable ==> r.reason is Some && r.reason->0@ == "gh_unavailable"@,
        outcome is Failed ==> r.reason is Some && r.reason->0@ == "auth_required"@,
        outcome matches GhOutcome::Runs(runs) ==> if runs@.len() == 0 {
            r.reason is Some && r.reason->0@ == "no_runs"@
        } else {
            &&& r.reason is None
            &&& r.conclusion == runs@[0].conclusion
            &&& r.run_id == runs@[0].database_id
            &&& r.html_url == runs@[0].url
            &&& r.updated_at == runs@[0].updated_at
        },
        !r.ok ==> r.conclusion is None && r.run_id is None && r.html_url is None
            && r.updated_at is None,
{
    match outcome {
        GhOutcome::Unavailable => GhRunInfo::failed("gh_unavailable"),
        GhOutcome::Failed => GhRunInfo::failed("auth_required"),
        GhOutcome::Runs(runs) => {
            if runs.len() == 0 {
                return GhRunInfo::failed("no_runs");
            }
            let run = &runs[0];
            GhRunInfo {
                ok: true,
                reason: None,
                conclusion: run.conclusion.clone(),
                run_id: run.database_id,
                html_url: run.url.clone(),
                updated_at: run.updated_at.clone(),
            }
        },
    }
}

/// The workflow in the file with the stem `stem` and the extension
/// `extension`: only files with the extension `yaml` are workflows.
pub fn workflow_of(stem: &str, extension: &str) -> (r: Option<WorkflowInfo>)
    ensures
        r is Some == (extension@ == "yaml"@),
        r matches Some(info) ==> info.name@ == stem@ && info.file@ == stem@ + "."@ + extension@,
{
    if !chars_eq(&to_chars(extension), &to_chars("yaml")) {
        return None;
    }
    let mut file = String::from_str(stem);
    file.append(".");
    file.append(extension);
    Some(WorkflowInfo { name: String::from_str(stem), file })
}

/// Status and time of the last run in the listing `text` of `gh`: the first
/// two words of its first line, the time empty where the line has one word
/// only. None where the line has no word.
pub open spec fn status_in(text: Seq<char>) -> Option<(Seq<char>, Seq<char>)> {
    let line = before_char(text, '\n');
    if word_from(line, 0).len() == 0 {
        None
    } else {
        Some((word_from(line, 0), word_from(line, word_end(line, 0))))
    }
}

/// Status and time of the last run in the listing `text` of `gh`.
pub fn parse_status_line(text: &str) -> (r: Option<(String, String)>)
    ensures
        match r {
            Some((status, time)) => status_in(text@) == Some((status@, time@)),
            None => status_in(text@) is None,
        },
{
    let line = chars_before_char(&to_chars(text), '\n');
    let (status, end) = next_word(&line, 0);
    if status.len() == 0 {
        return None;
    }
    let (time, _) = next_word(&line, end);
    Some((from_chars(&status), from_chars(&time)))
}

} // verus!
