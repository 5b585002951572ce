//! The batch relay: the maker and the critic take turns until the critic is done
//! or the turn budget is spent.
use vstd::prelude::*;

use crate::prompt::{build_driver_prompt, build_navigator_prompt, driver_prompt, navigator_prompt, opt_str};
use crate::session::{launches, turn_limit_reached, Agent, Launch, RelaySettings};
use crate::text::{
    ansi_stripped, forward_text, navigator_signaled_done, prepare_forward, strip_ansi, trim_text,
    trimmed, truncate, truncated,
};
use crate::transcript::{is_completion, opt_view};

verus! {

/// Why a relay cannot start.
#[derive(PartialEq, Eq, Structural, Clone, Copy, Debug)]
pub enum RelayError {
    /// Neither a task nor a context was given.
    MissingInput,
}

/// A batch relay between the maker and the critic.
pub struct Relay {
    pub task: Option<String>,
    pub context: Option<String>,
    pub turn: usize,
    pub max_turns: usize,
    pub settings: RelaySettings,
}

/// A task or context, trimmed; one that is empty after trimming counts as absent.
pub open spec fn given_text(s: Option<Seq<char>>) -> Option<Seq<char>> {
    match s {
        Some(t) => if trimmed(t).len() > 0 {
            Some(trimmed(t))
        } else {
            None
        },
        None => None,
    }
}

/// A context as given, or absent when it is blank.
pub open spec fn given_context(s: Option<Seq<char>>) -> Option<Seq<char>> {
    match s {
        Some(t) => if trimmed(t).len() > 0 {
            Some(t)
        } else {
            None
        },
        None => None,
    }
}

/// An agent's output as the relay reads it: without terminal escapes when asked.
pub open spec fn plain_output(s: Seq<char>, strip: bool) -> Seq<char> {
    if strip {
        ansi_stripped(s)
    } else {
        s
    }
}

/// The optional text as a `&str`.
fn opt_as_str(o: &Option<String>) -> (r: Option<&str>)
    ensures
        opt_str(r) == opt_view(*o),
{
    match o {
        Some(s) => Some(s.as_str()),
        None => None,
    }
}

/// `s` trimmed, or nothing when that leaves it empty.
fn given(s: Option<&str>) -> (r: Option<String>)
    ensures
        opt_view(r) == given_text(opt_str(s)),
{
    match s {
        Some(t) => {
            let x = trim_text(t);
            if x.as_str().is_empty() {
                None
            } else {
                Some(x)
            }
        },
        None => None,
    }
}

/// `s` as given, or nothing when it is blank.
fn given_as_is(s: Option<&str>) -> (r: Option<String>)
    ensures
        opt_view(r) == given_context(opt_str(s)),
{
    match s {
        Some(t) => {
            if trim_text(t).as_str().is_empty() {
                None
            } else {
                Some(t.to_owned())
            }
        },
        None => None,
    }
}

impl Relay {
    /// A relay on a task, trimmed, and a context, as given; each is dropped when blank,
    /// and at least one of them must remain.
    pub fn new(task: Option<&str>, context: Option<&str>, max_turns: usize, settings: RelaySettings) -> (r: Result<Relay, RelayError>)
        ensures
            match r {
                Ok(relay) => {
                    &&& opt_view(relay.task) == given_text(opt_str(task))
                    &&& opt_view(relay.context) == given_context(opt_str(context))
                    &&& (relay.task is Some || relay.context is Some)
                    &&& relay.turn == 0
                    &&& relay.max_turns == max_turns
                    &&& relay.settings == settings
                },
                Err(e) => e == RelayError::MissingInput && given_text(opt_str(task)) is None
                    && given_context(opt_str(context)) is None,
            },
    {
        let task = given(task);
        let context = given_as_is(context);
        if task.is_none() && context.is_none() {
            Err(RelayError::MissingInput)
        } else {
            Ok(Relay { task, context, turn: 0, max_turns, settings })
        }
    }

    /// The first maker call: the task and context framed by `driver_prompt`; it
    /// resumes the previous session only when the settings ask for it.
    pub fn start(&self) -> (l: Launch)
        ensures
            launches(
                l,
                Agent::Maker,
                driver_prompt(opt_view(self.task), opt_view(self.context)),
                self.settings.resume_session,
            ),
    {
        let prompt = build_driver_prompt(opt_as_str(&self.task), opt_as_str(&self.context));
        Launch { agent: Agent::Maker, prompt, continuation: self.settings.resume_session }
    }

    /// The critic call on the maker's output: the full framing and a fresh session on
    /// the first turn, the short framing and the resumed session later; the output is
    /// stripped and cut as `forward_text` says before it is framed.
    pub fn after_maker(&self, output: &str) -> (l: Launch)
        ensures
            ({
                let cont = self.turn > 0;
                launches(
                    l,
                    Agent::Critic,
                    navigator_prompt(
                        opt_view(self.task),
                        opt_view(self.context),
                        forward_text(output@, self.settings.strip_ansi, self.settings.max_forward_bytes as nat),
                        cont,
                    ),
                    cont,
                )
            }),
    {
        let cont = self.turn > 0;
        let forward = prepare_forward(output, self.settings.strip_ansi, self.settings.max_forward_bytes);
        let prompt = build_navigator_prompt(
            opt_as_str(&self.task),
            opt_as_str(&self.context),
            forward.as_str(),
            cont,
        );
        Launch { agent: Agent::Critic, prompt, continuation: cont }
    }

    /// What follows the critic's output: the end, when it is the completion token; else
    /// the turn advances, and the relay ends when the budget is spent, or hands the
    /// review, cut to the byte cap, to the maker, which resumes its session.
    pub fn after_critic(&mut self, output: &str) -> (r: Option<Launch>)
        requires
            old(self).turn < usize::MAX,
        ensures
            final(self).max_turns == old(self).max_turns,
            final(self).task == old(self).task,
            final(self).context == old(self).context,
            final(self).settings == old(self).settings,
            ({
                let plain = plain_output(output@, old(self).settings.strip_ansi);
                let outcome = critic_outcome(
                    old(self).turn as nat,
                    old(self).max_turns as nat,
                    is_completion(plain),
                );
                &&& final(self).turn == outcome.0
                &&& (r is None <==> outcome.1)
                &&& r is Some ==> launches(
                    r->0,
                    Agent::Maker,
                    truncated(plain, old(self).settings.max_forward_bytes as nat),
                    true,
                )
            }),
    {
        let plain = if self.settings.strip_ansi {
            strip_ansi(output)
        } else {
            output.to_owned()
        };
        if navigator_signaled_done(plain.as_str()) {
            return None;
        }
        self.turn = self.turn + 1;
        if self.max_turns > 0 && self.turn >= self.max_turns {
            None
        } else {
            let feedback = truncate(plain.as_str(), self.settings.max_forward_bytes);
            Some(Launch { agent: Agent::Maker, prompt: feedback, continuation: true })
        }
    }
}

/// The turn and whether the relay ends, after a critic reply at `turn`: a completion
/// ends it where it stands; any other reply advances the turn, and the relay ends when
/// that spends the budget.
pub open spec fn critic_outcome(turn: nat, max_turns: nat, done: bool) -> (nat, bool) {
    if done {
        (turn, true)
    } else {
        (turn + 1, turn_limit_reached(turn + 1, max_turns))
    }
}

/// The turn and whether the relay has ended, after `n` critic replies from turn 0, none
/// of them the completion token; once ended, the relay takes no further replies.
pub open spec fn after_replies(n: nat, max_turns: nat) -> (nat, bool)
    decreases n,
{
    if n == 0 {
        (0, false)
    } else {
        let before = after_replies((n - 1) as nat, max_turns);
        if before.1 {
            before
        } else {
            critic_outcome(before.0, max_turns, false)
        }
    }
}

/// After `n` critic replies without the completion token, the relay has ended exactly
/// when the budget is positive and `n` has reached it, on the reply that reached it; the
/// turn then counts the replies taken. With a budget of 0 it never ends on the turn count.
pub proof fn lemma_turn_accounting(n: nat, max_turns: nat)
    ensures
        after_replies(n, max_turns).1 <==> (max_turns > 0 && n >= max_turns),
        after_replies(n, max_turns).0 == (if max_turns > 0 && n >= max_turns {
            max_turns
        } else {
            n
        }),
        max_turns == 0 ==> !after_replies(n, max_turns).1,
    decreases n,
{
    if n > 0 {
        lemma_turn_accounting((n - 1) as nat, max_turns);
    }
}

} // verus!
