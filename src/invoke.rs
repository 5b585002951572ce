//! What an agent invocation computes around the process itself: its arguments, its
//! preconditions, the output it collects and the error it reports.
use vstd::prelude::*;

use crate::decode::AgentEvent;
use crate::text::{decimal, push_decimal, trim_text, trimmed};

verus! {

/// Why an invocation does not start or does not succeed.
#[derive(PartialEq, Eq, Structural, Clone, Copy, Debug)]
pub enum InvokeError {
    /// The prompt is empty or white space only.
    EmptyPrompt,
}

/// Why a working directory cannot be used.
#[derive(PartialEq, Eq, Structural, Clone, Copy, Debug)]
pub enum DirError {
    /// Nothing exists at the path.
    Missing,
    /// Something exists at the path, but not a directory.
    NotADirectory,
}

/// Whether a credential variable is usable.
#[derive(PartialEq, Eq, Structural, Clone, Copy, Debug)]
pub enum KeyStatus {
    Present,
    Empty,
    Missing,
}

/// The plain values of a list of texts.
pub open spec fn texts_view(v: Seq<String>) -> Seq<Seq<char>> {
    v.map_values(|s: String| s@)
}

/// Rejects a prompt that is empty or white space only.
pub fn check_prompt(prompt: &str) -> (r: Result<(), InvokeError>)
    ensures
        r is Err <==> trimmed(prompt@).len() == 0,
        r is Err ==> r == Err::<(), InvokeError>(InvokeError::EmptyPrompt),
{
    if trim_text(prompt).as_str().is_empty() {
        Err(InvokeError::EmptyPrompt)
    } else {
        Ok(())
    }
}

/// Checks a working directory from what is known of its path.
pub fn validate_working_directory(exists: bool, is_dir: bool) -> (r: Result<(), DirError>)
    ensures
        !exists ==> r == Err::<(), DirError>(DirError::Missing),
        exists && !is_dir ==> r == Err::<(), DirError>(DirError::NotADirectory),
        exists && is_dir ==> r is Ok,
{
    if !exists {
        Err(DirError::Missing)
    } else if !is_dir {
        Err(DirError::NotADirectory)
    } else {
        Ok(())
    }
}

/// Classifies a credential variable's value: absent, blank, or set.
pub fn api_key_status(value: Option<&str>) -> (r: KeyStatus)
    ensures
        value is None ==> r == KeyStatus::Missing,
        value is Some ==> (r == KeyStatus::Empty <==> trimmed(value->0@).len() == 0),
        value is Some ==> (r == KeyStatus::Present <==> trimmed(value->0@).len() > 0),
{
    match value {
        None => KeyStatus::Missing,
        Some(v) => if trim_text(v).as_str().is_empty() {
            KeyStatus::Empty
        } else {
            KeyStatus::Present
        },
    }
}

/// The arguments of a maker invocation.
pub open spec fn maker_arg_list(prompt: Seq<char>, continuation: bool) -> Seq<Seq<char>> {
    let base = seq![
        "-p"@,
        "--verbose"@,
        "--output-format"@,
        "stream-json"@,
        "--dangerously-skip-permissions"@,
        "--permission-mode"@,
        "acceptEdits"@,
    ];
    if continuation {
        base.push("--continue"@).push(prompt)
    } else {
        base.push(prompt)
    }
}

/// Builds the arguments of a maker invocation.
pub fn maker_args(prompt: &str, continuation: bool) -> (r: Vec<String>)
    ensures
        texts_view(r@) == maker_arg_list(prompt@, continuation),
{
    let mut r: Vec<String> = Vec::new();
    r.push(String::from_str("-p"));
    r.push(String::from_str("--verbose"));
    r.push(String::from_str("--output-format"));
    r.push(String::from_str("stream-json"));
    r.push(String::from_str("--dangerously-skip-permissions"));
    r.push(String::from_str("--permission-mode"));
    r.push(String::from_str("acceptEdits"));
    if continuation {
        r.push(String::from_str("--continue"));
    }
    r.push(prompt.to_owned());
    assert(texts_view(r@) =~= maker_arg_list(prompt@, continuation));
    r
}

/// The arguments of a critic invocation: a resumed session on later calls, a read-only
/// sandbox (in `workdir`, where one is named) on the first.
pub open spec fn critic_arg_list(
    prompt: Seq<char>,
    continuation: bool,
    skip_git_check: bool,
    workdir: Option<Seq<char>>,
) -> Seq<Seq<char>> {
    let head = if skip_git_check {
        seq!["exec"@, "--skip-git-repo-check"@]
    } else {
        seq!["exec"@]
    };
    if continuation {
        head + seq!["resume"@, "--last"@, "--json"@, prompt]
    } else {
        let sandbox = head + seq!["--sandbox"@, "read-only"@, "--json"@];
        match workdir {
            Some(d) => sandbox + seq!["-C"@, d, prompt],
            None => sandbox.push(prompt),
        }
    }
}

/// Builds the arguments of a critic invocation.
pub fn critic_args(prompt: &str, continuation: bool, skip_git_check: bool, workdir: Option<&str>) -> (r: Vec<String>)
    ensures
        texts_view(r@) == critic_arg_list(prompt@, continuation, skip_git_check, crate::prompt::opt_str(workdir)),
{
    let mut r: Vec<String> = Vec::new();
    r.push(String::from_str("exec"));
    if skip_git_check {
        r.push(String::from_str("--skip-git-repo-check"));
    }
    if continuation {
        r.push(String::from_str("resume"));
        r.push(String::from_str("--last"));
        r.push(String::from_str("--json"));
    } else {
        r.push(String::from_str("--sandbox"));
        r.push(String::from_str("read-only"));
        r.push(String::from_str("--json"));
        if let Some(d) = workdir {
            r.push(String::from_str("-C"));
            r.push(d.to_owned());
        }
    }
    r.push(prompt.to_owned());
    assert(texts_view(r@) =~= critic_arg_list(prompt@, continuation, skip_git_check, crate::prompt::opt_str(workdir)));
    r
}

/// `parts` joined with `sep` between them.
pub open spec fn joined_with(parts: Seq<Seq<char>>, sep: Seq<char>) -> Seq<char>
    decreases parts.len(),
{
    if parts.len() == 0 {
        Seq::empty()
    } else if parts.len() == 1 {
        parts[0]
    } else {
        joined_with(parts.drop_last(), sep) + sep + parts.last()
    }
}

/// Joins texts with line feeds between them.
pub fn join_lines(parts: &[String]) -> (r: String)
    ensures
        r@ == joined_with(texts_view(parts@), "\n"@),
{
    let mut r = String::new();
    let mut k: usize = 0;
    while k < parts.len()
        invariant
            k <= parts@.len(),
            r@ == joined_with(texts_view(parts@.subrange(0, k as int)), "\n"@),
        decreases parts@.len() - k,
    {
        if k > 0 {
            r.append("\n");
        }
        r.append(parts[k].as_str());
        proof {
            let before = texts_view(parts@.subrange(0, k as int));
            let after = texts_view(parts@.subrange(0, k + 1));
            assert(after.drop_last() =~= before);
            assert(after.last() == parts@[k as int]@);
            if k == 0 {
                assert(r@ =~= joined_with(after, "\n"@));
            }
        }
        k = k + 1;
    }
    assert(parts@.subrange(0, parts@.len() as int) =~= parts@);
    r
}

/// The text a batch maker run collects from an event: its text lines, and an arrow
/// line for each tool result summary.
pub open spec fn maker_collected(ev: crate::decode::EventView) -> Option<Seq<char>> {
    match ev {
        crate::decode::EventView::MakerLine(t) => Some(t),
        crate::decode::EventView::MakerToolResult { summary, .. } => Some("  -> "@ + summary),
        _ => None,
    }
}

/// Collects what a batch maker run keeps of an event.
pub fn collect_maker_output(ev: &AgentEvent, collected: &mut Vec<String>)
    ensures
        texts_view(final(collected)@) == match maker_collected(ev@) {
            Some(t) => texts_view(old(collected)@).push(t),
            None => texts_view(old(collected)@),
        },
{
    let ghost before = texts_view(collected@);
    match ev {
        AgentEvent::MakerLine(t) => {
            collected.push(t.clone());
        },
        AgentEvent::MakerToolResult { summary, .. } => {
            let mut line = String::from_str("  -> ");
            line.append(summary.as_str());
            collected.push(line);
        },
        _ => {},
    }
    assert(texts_view(collected@) =~= match maker_collected(ev@) {
        Some(t) => before.push(t),
        None => before,
    });
}

/// Collects what a batch critic run keeps of an event: its messages.
pub fn collect_critic_output(ev: &AgentEvent, collected: &mut Vec<String>)
    ensures
        texts_view(final(collected)@) == match ev@ {
            crate::decode::EventView::CriticLine(t) => texts_view(old(collected)@).push(t),
            _ => texts_view(old(collected)@),
        },
{
    let ghost before = texts_view(collected@);
    match ev {
        AgentEvent::CriticLine(t) => {
            collected.push(t.clone());
        },
        _ => {},
    }
    assert(texts_view(collected@) =~= match ev@ {
        crate::decode::EventView::CriticLine(t) => before.push(t),
        _ => before,
    });
}

/// The report of a failed invocation: the agent and its exit status, then its error
/// output, trimmed, and the output lines that could not be read, where there are any.
pub open spec fn failure_report(
    agent: Seq<char>,
    status: Seq<char>,
    stderr: Seq<char>,
    unread: Seq<Seq<char>>,
) -> Seq<char> {
    let head = agent + " exited with status: "@ + status;
    let with_err = if trimmed(stderr).len() > 0 {
        head + "\nstderr: "@ + trimmed(stderr)
    } else {
        head
    };
    if unread.len() > 0 {
        with_err + "\noutput: "@ + joined_with(unread, "\n"@)
    } else {
        with_err
    }
}

/// Builds the report of a failed invocation.
pub fn invocation_error(agent: &str, status: &str, stderr: &str, unread: &[String]) -> (r: String)
    ensures
        r@ == failure_report(agent@, status@, stderr@, texts_view(unread@)),
{
    let mut r = String::from_str(agent);
    r.append(" exited with status: ");
    r.append(status);
    let err = trim_text(stderr);
    if !err.as_str().is_empty() {
        r.append("\nstderr: ");
        r.append(err.as_str());
    }
    if unread.len() > 0 {
        r.append("\noutput: ");
        r.append(join_lines(unread).as_str());
    }
    r
}

/// A log timestamp from whole seconds since the epoch.
pub fn chrono_lite_timestamp(secs: u64) -> (r: String)
    ensures
        r@ == decimal(secs as nat) + "s"@,
{
    let mut r = String::new();
    push_decimal(&mut r, secs);
    r.append("s");
    r
}

} // verus!
