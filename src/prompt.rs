//! The prompts that frame one agent's output for the other.
use vstd::prelude::*;

verus! {

/// Opens every first maker prompt.
pub const DRIVER_GUIDANCE: &'static str = "Explain your plan first, so your peer and navigator can help identify blindspots, then build it with your peer's feedback.";

/// Opens the critic's first prompt in batch mode.
pub const NAVIGATOR_FRAMING: &'static str = "ROLE: Helpful Peer\nYou are acting as a helpful peer. Your job is to evaluate the driver's work for the task below.\nDo not offer to do things. Discuss, comment, and guide the driver.\nYour job is not to block the driver, but to help them make progress and point out things they may have missed.\nProgress is the goal, not perfection. We work iteratively, so we can improve incrementally.\n\n";

/// Closes the critic's first prompt in batch mode.
pub const NAVIGATOR_CLOSING: &'static str = "\n---\n\nIf the task is complete, you can end the conversation with \"ALL_DONE\".\n";

/// Opens a later critic prompt in batch mode.
pub const NAVIGATOR_FOLLOW_UP: &'static str = "The driver has responded:\n\n---\n";

/// Closes a later critic prompt, in both modes.
pub const REVIEW_REQUEST: &'static str = "\n---\n\nReview this response. If the task is complete, respond with \"ALL_DONE\".\n";

/// Opens the critic's first prompt in the interactive mode.
pub const CRITIC_FRAMING: &'static str = "ROLE: Helpful Peer\nYou are acting as a helpful peer. Your job is to evaluate the maker's work for the task below.\nDo not offer to do things. Discuss, comment, and guide the maker. \nYour job is not to block the maker, but to help them make progress and point out things they may have missed.\nProgress is the goal, not perfection. We work iteratively, so we can improve incrementally.\n\n## Original Task\n";

/// Opens a later critic prompt in the interactive mode.
pub const CRITIC_FOLLOW_UP: &'static str = "The maker has responded:\n\n---\n";

/// The maker's first prompt: guidance, then the task and the context under their
/// headings, where they are given.
pub open spec fn driver_prompt(task: Option<Seq<char>>, context: Option<Seq<char>>) -> Seq<char> {
    let with_task = match task {
        Some(t) => DRIVER_GUIDANCE@ + "\n\n## Task\n"@ + t,
        None => DRIVER_GUIDANCE@,
    };
    match context {
        Some(c) => with_task + "\n\n## Context\n"@ + c,
        None => with_task,
    }
}

/// The critic's prompt in batch mode: the full framing with task and context on the
/// first call, only the new output on later calls.
pub open spec fn navigator_prompt(
    task: Option<Seq<char>>,
    context: Option<Seq<char>>,
    driver_output: Seq<char>,
    is_continuation: bool,
) -> Seq<char> {
    if is_continuation {
        NAVIGATOR_FOLLOW_UP@ + driver_output + REVIEW_REQUEST@
    } else {
        let head = NAVIGATOR_FRAMING@;
        let with_task = match task {
            Some(t) => head + "## Original Task\n"@ + t + "\n\n"@,
            None => head,
        };
        let with_context = match context {
            Some(c) => with_task + "## Context\n"@ + c + "\n\n"@,
            None => with_task,
        };
        with_context + "## Driver's Output\n\n---\n"@ + driver_output + NAVIGATOR_CLOSING@
    }
}

/// The critic's prompt in the interactive mode.
pub open spec fn critic_prompt(task: Seq<char>, maker_output: Seq<char>, is_continuation: bool) -> Seq<
    char,
> {
    if is_continuation {
        CRITIC_FOLLOW_UP@ + maker_output + REVIEW_REQUEST@
    } else {
        CRITIC_FRAMING@ + task + "\n\n## Maker's Output\n\n---\n"@ + maker_output
            + NAVIGATOR_CLOSING@
    }
}

/// The plain value of an optional text.
pub open spec fn opt_str(o: Option<&str>) -> Option<Seq<char>> {
    match o {
        Some(s) => Some(s@),
        None => None,
    }
}

/// Builds the maker's first prompt from the task and the context.
pub fn build_driver_prompt(task: Option<&str>, context: Option<&str>) -> (r: String)
    ensures
        r@ == driver_prompt(opt_str(task), opt_str(context)),
{
    let mut r = String::from_str(DRIVER_GUIDANCE);
    if let Some(t) = task {
        r.append("\n\n## Task\n");
        r.append(t);
    }
    if let Some(c) = context {
        r.append("\n\n## Context\n");
        r.append(c);
    }
    r
}

/// Builds the critic's prompt in batch mode around the maker's output.
pub fn build_navigator_prompt(
    task: Option<&str>,
    context: Option<&str>,
    driver_output: &str,
    is_continuation: bool,
) -> (r: String)
    ensures
        r@ == navigator_prompt(opt_str(task), opt_str(context), driver_output@, is_continuation),
{
    if is_continuation {
        let mut r = String::from_str(NAVIGATOR_FOLLOW_UP);
        r.append(driver_output);
        r.append(REVIEW_REQUEST);
        r
    } else {
        let mut r = String::from_str(NAVIGATOR_FRAMING);
        if let Some(t) = task {
            r.append("## Original Task\n");
            r.append(t);
            r.append("\n\n");
        }
        if let Some(c) = context {
            r.append("## Context\n");
            r.append(c);
            r.append("\n\n");
        }
        r.append("## Driver's Output\n\n---\n");
        r.append(driver_output);
        r.append(NAVIGATOR_CLOSING);
        r
    }
}

/// Builds the critic's prompt in the interactive mode around the maker's output.
pub fn build_critic_prompt(task: &str, maker_output: &str, is_continuation: bool) -> (r: String)
    ensures
        r@ == critic_prompt(task@, maker_output@, is_continuation),
{
    if is_continuation {
        let mut r = String::from_str(CRITIC_FOLLOW_UP);
        r.append(maker_output);
        r.append(REVIEW_REQUEST);
        r
    } else {
        let mut r = String::from_str(CRITIC_FRAMING);
        r.append(task);
        r.append("\n\n## Maker's Output\n\n---\n");
        r.append(maker_output);
        r.append(NAVIGATOR_CLOSING);
        r
    }
}

} // verus!
