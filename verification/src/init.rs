//! Setting the notes directory up: what is still to be done of it.

use vstd::prelude::*;
use vstd::string::StringExecFns;
use crate::chars::chars_of;

verus! {

/// What was found before anything is set up.
#[derive(Debug, PartialEq, Eq)]
pub struct InitFacts {
    /// Whether the notes directory is there.
    pub notes_dir_exists: bool,
    /// Whether the notes directory is a git repository.
    pub is_repository: bool,
    /// What the shell's startup file holds; `None` where there is no such
    /// file.
    pub shell_config: Option<String>,
}

/// What is to be done to set the notes directory up.
#[derive(Debug, PartialEq, Eq)]
pub struct InitPlan {
    /// Make the notes directory.
    pub create_notes_dir: bool,
    /// Make the notes directory a git repository.
    pub init_repository: bool,
    /// Append this text to the shell's startup file.
    pub completions: Option<String>,
}

/// The line in the shell's startup file that turns completions on.
pub open spec fn completion_line() -> Seq<char> {
    "source <(COMPLETE=zsh kno)"@
}

/// Whether `needle` stands in `text` at `at`.
pub open spec fn occurs_at(needle: Seq<char>, text: Seq<char>, at: int) -> bool {
    0 <= at && at + needle.len() <= text.len() && text.subrange(at, at + needle.len()) == needle
}

/// Whether `needle` stands somewhere in `text`.
pub open spec fn occurs_in(needle: Seq<char>, text: Seq<char>) -> bool {
    exists|at: int| occurs_at(needle, text, at)
}

/// Whether completions are turned on already: there is a startup file and
/// the line stands in it.
pub open spec fn completions_configured(shell_config: Option<Seq<char>>) -> bool {
    match shell_config {
        Some(text) => occurs_in(completion_line(), text),
        None => false,
    }
}

/// What turning completions on appends to the startup file: an empty line's
/// end, the line, and its end.
pub open spec fn completion_entry() -> Seq<char> {
    seq!['\n'] + completion_line() + seq!['\n']
}

/// The view of a startup file that may be missing.
pub open spec fn config_view(shell_config: Option<String>) -> Option<Seq<char>> {
    match shell_config {
        Some(text) => Some(text@),
        None => None,
    }
}

/// What is left to do, given what was found.
pub open spec fn planned(
    notes_dir_exists: bool,
    is_repository: bool,
    shell_config: Option<Seq<char>>,
) -> (bool, bool, Option<Seq<char>>) {
    (
        !notes_dir_exists,
        !is_repository,
        if completions_configured(shell_config) {
            None
        } else {
            Some(completion_entry())
        },
    )
}

/// Tells whether `needle` stands in `text` at `at`.
fn found_at(needle: &Vec<char>, text: &Vec<char>, at: usize) -> (r: bool)
    requires
        at + needle.len() <= text.len(),
    ensures
        r == occurs_at(needle@, text@, at as int),
{
    let mut i: usize = 0;
    while i < needle.len()
        invariant
            i <= needle.len(),
            at + needle.len() <= text.len(),
            forall|k: int| 0 <= k < i ==> text@[at + k] == needle@[k],
        decreases needle.len() - i,
    {
        if text[at + i] != needle[i] {
            return false;
        }
        i += 1;
    }
    assert(text@.subrange(at as int, at + needle.len()) =~= needle@);
    true
}

/// Tells whether `needle` stands somewhere in `text`.
pub fn contains_text(text: &str, needle: &str) -> (r: bool)
    ensures
        r == occurs_in(needle@, text@),
{
    let hay = chars_of(text);
    let pin = chars_of(needle);
    if pin.len() > hay.len() {
        return false;
    }
    let last = hay.len() - pin.len();
    let mut at: usize = 0;
    loop
        invariant
            hay@ == text@,
            pin@ == needle@,
            at <= last,
            last == hay.len() - pin.len(),
            forall|k: int| 0 <= k < at ==> !occurs_at(pin@, hay@, k),
        decreases last - at,
    {
        if found_at(&pin, &hay, at) {
            return true;
        }
        if at == last {
            return false;
        }
        at += 1;
    }
}

/// Decides what is left to do to set the notes directory up: the directory
/// is made unless it is there, it is made a repository unless it is one,
/// and completions are turned on unless the startup file holds their line.
pub fn run_init(facts: &InitFacts) -> (plan: InitPlan)
    ensures
        (plan.create_notes_dir, plan.init_repository, config_view(plan.completions)) == planned(
            facts.notes_dir_exists,
            facts.is_repository,
            config_view(facts.shell_config),
        ),
{
    let configured = match &facts.shell_config {
        Some(text) => contains_text(text.as_str(), "source <(COMPLETE=zsh kno)"),
        None => false,
    };
    let completions = if configured {
        None
    } else {
        let mut entry = String::new();
        entry.push('\n');
        entry.append("source <(COMPLETE=zsh kno)");
        entry.push('\n');
        Some(entry)
    };
    InitPlan {
        create_notes_dir: !facts.notes_dir_exists,
        init_repository: !facts.is_repository,
        completions,
    }
}

} // verus!
