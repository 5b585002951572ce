//! The interactive session: transcript, streaming buffer, and the turn-taking rules.
use vstd::prelude::*;

use crate::decode::AgentEvent;
use crate::prompt::{build_critic_prompt, critic_prompt};
use crate::text::{chars_of, forward_text, prepare_forward, same_text, text_of, truncate, truncated};
use crate::transcript::{
    critic_signaled_done, format_message_output, is_completion, message_text,
    items_view, opt_view, ContentItem, CriticCommand, CriticCommandStatus, ItemView, Message,
    StatusView, ToolCall,
};


verus! {

/// Where the interactive session stands.
#[derive(PartialEq, Eq, Structural, Clone, Copy)]
pub enum AppState {
    Running,
    Paused,
    Editing,
    WaitingForTask,
    Finished,
}

/// One of the two agents.
#[derive(PartialEq, Eq, Structural, Clone, Copy)]
pub enum Agent {
    Maker,
    Critic,
}

/// An agent invocation to start: which agent, its prompt, and whether it resumes its
/// previous session.
pub struct Launch {
    pub agent: Agent,
    pub prompt: String,
    pub continuation: bool,
}

/// How the session relays text between the agents.
pub struct RelaySettings {
    pub max_forward_bytes: usize,
    pub strip_ansi: bool,
    /// Whether the maker's very first call resumes its previous session.
    pub resume_session: bool,
}

/// The role name of the maker in the transcript.
pub const MAKER_ROLE: &'static str = "maker";

/// The role name of the critic in the transcript.
pub const CRITIC_ROLE: &'static str = "critic";

/// The task's text, empty when there is none.
pub open spec fn task_text(task: Option<String>) -> Seq<char> {
    match task {
        Some(t) => t@,
        None => Seq::empty(),
    }
}

/// Whether the turn budget is spent: a budget of 0 never is.
pub open spec fn turn_limit_reached(turn: nat, max_turns: nat) -> bool {
    max_turns > 0 && turn >= max_turns
}

/// Whether `l` starts `agent` with exactly this prompt and continuation flag.
pub open spec fn launches(l: Launch, agent: Agent, prompt: Seq<char>, continuation: bool) -> bool {
    l.agent == agent && l.prompt@ == prompt && l.continuation == continuation
}

/// The state of the interactive session.
pub struct App {
    pub messages: Vec<Message>,
    pub state: AppState,
    pub scroll: u16,
    pub total_lines: u16,
    pub turn: usize,
    pub max_turns: usize,
    pub edit_buffer: String,
    pub edit_cursor: usize,
    pub status_message: String,
    pub task: Option<String>,
    pub request_in_flight: bool,
    pub editing_message_index: Option<usize>,
    pub streaming_role: Option<String>,
    pub streaming_items: Vec<ContentItem>,
    pub first_maker_call_made: bool,
    pub first_critic_call_made: bool,
    /// Text that goes with the first maker prompt under a context heading.
    pub context: Option<String>,
}

/// The streamed items with the text `text` added: to the last item when it is text, on a
/// line of its own, and as a new text item otherwise.
pub open spec fn with_text(items: Seq<ItemView>, text: Seq<char>) -> Seq<ItemView> {
    if items.len() > 0 && items.last() is Text {
        let last = items.last()->Text_0;
        let joined = if last.len() > 0 {
            last.push('\n') + text
        } else {
            text
        };
        items.drop_last().push(ItemView::Text(joined))
    } else {
        items.push(ItemView::Text(text))
    }
}

/// Whether item `k` is a tool call with the id `id`.
pub open spec fn is_call_with_id(items: Seq<ItemView>, k: int, id: Seq<char>) -> bool {
    items[k] is ToolCall && items[k]->ToolCall_id == id
}

/// The streamed items after a result summary for the tool call `id` arrived: the first
/// tool call with that id gets it, and nothing else changes.
pub open spec fn with_tool_result(items: Seq<ItemView>, id: Seq<char>, summary: Seq<char>) -> Seq<
    ItemView,
> {
    if exists|k: int| 0 <= k < items.len() && is_call_with_id(items, k, id) {
        let k = choose|k: int|
            0 <= k < items.len() && is_call_with_id(items, k, id) && forall|j: int|
                0 <= j < k ==> !is_call_with_id(items, j, id);
        items.update(
            k,
            ItemView::ToolCall {
                id: items[k]->ToolCall_id,
                name: items[k]->ToolCall_name,
                result_summary: Some(summary),
            },
        )
    } else {
        items
    }
}

/// A tool result reaches the first pending call with its id, wherever that call stands
/// among the items streamed since: that call takes the summary, and every other item,
/// other pending calls included, stays as it was.
pub proof fn lemma_tool_result_correlation(
    items: Seq<ItemView>,
    id: Seq<char>,
    summary: Seq<char>,
    k: int,
)
    requires
        0 <= k < items.len(),
        is_call_with_id(items, k, id),
        forall|j: int| 0 <= j < k ==> !is_call_with_id(items, j, id),
    ensures
        with_tool_result(items, id, summary).len() == items.len(),
        with_tool_result(items, id, summary)[k] == (ItemView::ToolCall {
            id,
            name: items[k]->ToolCall_name,
            result_summary: Some(summary),
        }),
        forall|j: int|
            0 <= j < items.len() && j != k ==> #[trigger] with_tool_result(items, id, summary)[j]
                == items[j],
{
    let kk = choose|kk: int|
        0 <= kk < items.len() && is_call_with_id(items, kk, id) && forall|j: int|
            0 <= j < kk ==> !is_call_with_id(items, j, id);
    assert(kk == k) by {
        if kk < k {
        } else if kk > k {
            assert(!is_call_with_id(items, k, id));
        }
    }
}

/// Whether item `k` is a command with the text `command`.
pub open spec fn is_command(items: Seq<ItemView>, k: int, command: Seq<char>) -> bool {
    items[k] is Command && items[k]->Command_command == command
}

/// The streamed items after a command report: the first command with the same text
/// takes the new status; otherwise the command is added.
pub open spec fn with_command(items: Seq<ItemView>, command: Seq<char>, status: StatusView) -> Seq<
    ItemView,
> {
    if exists|k: int| 0 <= k < items.len() && is_command(items, k, command) {
        let k = choose|k: int|
            0 <= k < items.len() && is_command(items, k, command) && forall|j: int|
                0 <= j < k ==> !is_command(items, j, command);
        items.update(k, ItemView::Command { command, status })
    } else {
        items.push(ItemView::Command { command, status })
    }
}

impl App {
    /// `new` holds `old`'s streaming buffer as its last message, at `old`'s turn.
    pub open spec fn committed(old: App, new: App) -> bool {
        &&& old.streaming_role is Some
        &&& new.messages@.len() == old.messages@.len() + 1
        &&& new.messages@.drop_last() == old.messages@
        &&& new.messages@.last().role@ == old.streaming_role->0@
        &&& new.messages@.last().items@ == old.streaming_items@
        &&& new.messages@.last().turn == old.turn
    }

    /// The continuation flag of the next critic call: the first one starts a fresh
    /// session with the full framing, later ones resume it.
    fn take_critic_continuation(&mut self) -> (c: bool)
        ensures
            c == old(self).first_critic_call_made,
            *final(self) == (App { first_critic_call_made: true, ..*old(self) }),
    {
        let c = self.first_critic_call_made;
        self.first_critic_call_made = true;
        c
    }

    /// The continuation flag of the next maker call: only the very first one follows
    /// the resume setting.
    fn take_maker_continuation(&mut self, resume: bool) -> (c: bool)
        ensures
            c == (old(self).first_maker_call_made || resume),
            *final(self) == (App { first_maker_call_made: true, ..*old(self) }),
    {
        if self.first_maker_call_made {
            true
        } else {
            self.first_maker_call_made = true;
            resume
        }
    }

    /// The task's text, empty when there is none.
    fn task_str(&self) -> (r: &str)
        ensures
            r@ == task_text(self.task),
    {
        proof {
            reveal_strlit("");
        }
        match &self.task {
            Some(t) => t.as_str(),
            None => "",
        }
    }

    /// A new session; it runs at once when a task is given and waits for one otherwise.
    pub fn new(task: Option<String>, max_turns: usize) -> (r: App)
        ensures
            r.state == (if task is Some {
                AppState::Running
            } else {
                AppState::WaitingForTask
            }),
            r.task == task,
            r.max_turns == max_turns,
            r.messages@.len() == 0,
            r.turn == 0,
            r.scroll == 0,
            r.total_lines == 0,
            r.edit_buffer@.len() == 0,
            r.edit_cursor == 0,
            r.status_message@.len() == 0,
            !r.request_in_flight,
            r.editing_message_index is None,
            r.streaming_role is None,
            r.streaming_items@.len() == 0,
            !r.first_maker_call_made,
            !r.first_critic_call_made,
            r.context is None,
    {
        let state = if task.is_some() {
            AppState::Running
        } else {
            AppState::WaitingForTask
        };
        App {
            messages: Vec::new(),
            state,
            scroll: 0,
            total_lines: 0,
            turn: 0,
            max_turns,
            edit_buffer: String::new(),
            edit_cursor: 0,
            status_message: String::new(),
            task,
            request_in_flight: false,
            editing_message_index: None,
            streaming_role: None,
            streaming_items: Vec::new(),
            first_maker_call_made: false,
            first_critic_call_made: false,
            context: None,
        }
    }

    /// Opens an empty streaming buffer for `role`.
    pub fn start_streaming(&mut self, role: &str)
        ensures
            opt_view(final(self).streaming_role) == Some(role@),
            final(self).streaming_items@.len() == 0,
            *final(self) == (App {
                streaming_role: final(self).streaming_role,
                streaming_items: final(self).streaming_items,
                ..*old(self)
            }),
    {
        self.streaming_role = Some(role.to_owned());
        self.streaming_items.clear();
    }

    /// Adds streamed text, joining it to a text item that is last.
    pub fn append_streaming_text(&mut self, text: &str)
        ensures
            items_view(final(self).streaming_items@) == with_text(
                items_view(old(self).streaming_items@),
                text@,
            ),
            *final(self) == (App { streaming_items: final(self).streaming_items, ..*old(self) }),
    {
        let ghost before = items_view(self.streaming_items@);
        match self.streaming_items.pop() {
            Some(ContentItem::Text(t)) => {
                let mut t = t;
                if !t.as_str().is_empty() {
                    t.push('\n');
                }
                t.append(text);
                self.streaming_items.push(ContentItem::Text(t));
            },
            Some(other) => {
                self.streaming_items.push(other);
                self.streaming_items.push(ContentItem::Text(text.to_owned()));
            },
            None => {
                self.streaming_items.push(ContentItem::Text(text.to_owned()));
            },
        }
        assert(items_view(self.streaming_items@) =~= with_text(before, text@));
    }

    /// Adds a tool call to the streaming buffer.
    pub fn add_streaming_tool_call(&mut self, tool_call: ToolCall)
        ensures
            items_view(final(self).streaming_items@) == items_view(
                old(self).streaming_items@,
            ).push(
                ItemView::ToolCall {
                    id: tool_call.id@,
                    name: tool_call.name@,
                    result_summary: opt_view(tool_call.result_summary),
                },
            ),
            *final(self) == (App { streaming_items: final(self).streaming_items, ..*old(self) }),
    {
        let ghost before = items_view(self.streaming_items@);
        let ghost tc = tool_call;
        self.streaming_items.push(ContentItem::ToolCall(tool_call));
        assert(items_view(self.streaming_items@) =~= before.push(
            ItemView::ToolCall {
                id: tc.id@,
                name: tc.name@,
                result_summary: opt_view(tc.result_summary),
            },
        ));
    }

    /// Gives the first tool call with the id `tool_use_id` its result summary.
    pub fn update_streaming_tool_result(&mut self, tool_use_id: &str, summary: String)
        ensures
            items_view(final(self).streaming_items@) == with_tool_result(
                items_view(old(self).streaming_items@),
                tool_use_id@,
                summary@,
            ),
            *final(self) == (App { streaming_items: final(self).streaming_items, ..*old(self) }),
    {
        let ghost before = items_view(self.streaming_items@);
        let n = self.streaming_items.len();
        let mut k: usize = 0;
        while k < n
            invariant
                k <= n,
                n == self.streaming_items@.len(),
                *self == *old(self),
                before == items_view(self.streaming_items@),
                forall|j: int| 0 <= j < k ==> !is_call_with_id(before, j, tool_use_id@),
            decreases n - k,
        {
            let hit = match &self.streaming_items[k] {
                ContentItem::ToolCall(tc) => crate::text::same_text(tc.id.as_str(), tool_use_id),
                _ => false,
            };
            if hit {
                let old_item = self.streaming_items.remove(k);
                if let ContentItem::ToolCall(tc) = old_item {
                    let updated = ToolCall { id: tc.id, name: tc.name, result_summary: Some(summary) };
                    self.streaming_items.insert(k, ContentItem::ToolCall(updated));
                }
                proof {
                    assert(is_call_with_id(before, k as int, tool_use_id@));
                    let kk = choose|kk: int|
                        0 <= kk < before.len() && is_call_with_id(before, kk, tool_use_id@)
                            && forall|j: int| 0 <= j < kk ==> !is_call_with_id(before, j, tool_use_id@);
                    assert(kk == k) by {
                        if kk < k {
                        } else if kk > k {
                            assert(!is_call_with_id(before, k as int, tool_use_id@));
                        }
                    }
                }
                assert(items_view(self.streaming_items@) =~= with_tool_result(
                    before,
                    tool_use_id@,
                    summary@,
                ));
                return;
            }
            k = k + 1;
        }
        assert(items_view(self.streaming_items@) =~= with_tool_result(
            before,
            tool_use_id@,
            summary@,
        ));
    }

    /// Adds reasoning to the streaming buffer.
    pub fn add_streaming_reasoning(&mut self, text: String)
        ensures
            items_view(final(self).streaming_items@) == items_view(
                old(self).streaming_items@,
            ).push(ItemView::Reasoning(text@)),
            *final(self) == (App { streaming_items: final(self).streaming_items, ..*old(self) }),
    {
        let ghost before = items_view(self.streaming_items@);
        let ghost t = text@;
        self.streaming_items.push(ContentItem::Reasoning(text));
        assert(items_view(self.streaming_items@) =~= before.push(ItemView::Reasoning(t)));
    }

    /// Records a critic command: a command already listed under the same text takes the
    /// new status, another is added.
    pub fn add_streaming_command(&mut self, command: String, status: CriticCommandStatus)
        ensures
            items_view(final(self).streaming_items@) == with_command(
                items_view(old(self).streaming_items@),
                command@,
                status@,
            ),
            *final(self) == (App { streaming_items: final(self).streaming_items, ..*old(self) }),
    {
        let ghost before = items_view(self.streaming_items@);
        let ghost cv = command@;
        let ghost sv = status@;
        let n = self.streaming_items.len();
        let mut k: usize = 0;
        while k < n
            invariant
                k <= n,
                n == self.streaming_items@.len(),
                *self == *old(self),
                before == items_view(self.streaming_items@),
                cv == command@,
                sv == status@,
                forall|j: int| 0 <= j < k ==> !is_command(before, j, cv),
            decreases n - k,
        {
            let hit = match &self.streaming_items[k] {
                ContentItem::Command(c) => crate::text::same_text(
                    c.command.as_str(),
                    command.as_str(),
                ),
                _ => false,
            };
            if hit {
                self.streaming_items.remove(k);
                self.streaming_items.insert(k, ContentItem::Command(CriticCommand { command, status }));
                proof {
                    assert(is_command(before, k as int, cv));
                    let kk = choose|kk: int|
                        0 <= kk < before.len() && is_command(before, kk, cv) && forall|j: int|
                            0 <= j < kk ==> !is_command(before, j, cv);
                    assert(kk == k) by {
                        if kk > k {
                            assert(!is_command(before, k as int, cv));
                        }
                    }
                }
                assert(items_view(self.streaming_items@) =~= with_command(before, cv, sv));
                return;
            }
            k = k + 1;
        }
        self.streaming_items.push(ContentItem::Command(CriticCommand { command, status }));
        assert(items_view(self.streaming_items@) =~= with_command(before, cv, sv));
    }

    /// Closes the streaming buffer, handing out its role and items; nothing when no
    /// buffer is open.
    pub fn finish_streaming(&mut self) -> (r: Option<(String, Vec<ContentItem>)>)
        ensures
            final(self).streaming_role is None,
            match old(self).streaming_role {
                Some(role) => r is Some && ({
                    let p = r->0;
                    p.0 == role && p.1@ == old(self).streaming_items@
                }) && final(self).streaming_items@.len() == 0,
                None => r is None && final(self).streaming_items == old(self).streaming_items,
            },
            *final(self) == (App {
                streaming_role: final(self).streaming_role,
                streaming_items: final(self).streaming_items,
                ..*old(self)
            }),
    {
        match self.streaming_role.take() {
            Some(role) => {
                let mut items: Vec<ContentItem> = Vec::new();
                core::mem::swap(&mut items, &mut self.streaming_items);
                Some((role, items))
            },
            None => None,
        }
    }

    /// Scrolls up by `amount` lines, stopping at the top.
    pub fn scroll_up(&mut self, amount: u16)
        ensures
            final(self).scroll == (if old(self).scroll >= amount {
                old(self).scroll - amount
            } else {
                0
            }),
            *final(self) == (App { scroll: final(self).scroll, ..*old(self) }),
    {
        self.scroll = if self.scroll >= amount {
            self.scroll - amount
        } else {
            0
        };
    }

    /// The largest scroll offset that still fills a view of `visible_height` lines.
    pub open spec fn max_scroll(&self, visible_height: u16) -> u16 {
        if self.total_lines >= visible_height {
            (self.total_lines - visible_height) as u16
        } else {
            0
        }
    }

    /// Scrolls down by `amount` lines, stopping where the last line is at the bottom.
    pub fn scroll_down(&mut self, amount: u16, visible_height: u16)
        ensures
            final(self).scroll as int == if old(self).scroll + amount <= old(self).max_scroll(
                visible_height,
            ) {
                old(self).scroll + amount
            } else {
                old(self).max_scroll(visible_height) as int
            },
            *final(self) == (App { scroll: final(self).scroll, ..*old(self) }),
    {
        let max_scroll = if self.total_lines >= visible_height {
            self.total_lines - visible_height
        } else {
            0
        };
        if amount <= max_scroll && self.scroll <= max_scroll - amount {
            self.scroll = self.scroll + amount;
        } else {
            self.scroll = max_scroll;
        }
    }

    /// Scrolls so that the last line is at the bottom.
    pub fn scroll_to_bottom(&mut self, visible_height: u16)
        ensures
            final(self).scroll == old(self).max_scroll(visible_height),
            *final(self) == (App { scroll: final(self).scroll, ..*old(self) }),
    {
        self.scroll = if self.total_lines >= visible_height {
            self.total_lines - visible_height
        } else {
            0
        };
    }

    /// Appends a message for `role` at the current turn.
    pub fn add_message(&mut self, role: &str, items: Vec<ContentItem>)
        ensures
            final(self).messages@.len() == old(self).messages@.len() + 1,
            final(self).messages@.drop_last() == old(self).messages@,
            final(self).messages@.last().role@ == role@,
            final(self).messages@.last().turn == old(self).turn,
            final(self).messages@.last().items == items,
            *final(self) == (App { messages: final(self).messages, ..*old(self) }),
    {
        self.messages.push(Message { role: role.to_owned(), turn: self.turn, items });
        assert(self.messages@.drop_last() =~= old(self).messages@);
    }
}

impl App {
    /// Applies one event of the running invocation. Output goes into the streaming
    /// buffer. When the maker finishes, its message is committed and, while running,
    /// the critic is started on it; when the critic finishes, its message is
    /// committed, the turn advances, and the session finishes on the completion token or
    /// a spent turn budget, or else, while running, the maker is started on the
    /// review. An error commits what was streamed, with the error, and pauses.
    pub fn handle_agent_event(&mut self, ev: AgentEvent, cfg: &RelaySettings) -> (r: Option<
        Launch,
    >)
        requires
            ev is CriticDone ==> old(self).turn < usize::MAX,
        ensures
            final(self).max_turns == old(self).max_turns,
            final(self).task == old(self).task,
            match ev@ {
                crate::decode::EventView::MakerLine(t) => r is None && *final(self) == (App {
                    streaming_items: final(self).streaming_items,
                    ..*old(self)
                }) && items_view(
                    final(self).streaming_items@,
                ) == with_text(items_view(old(self).streaming_items@), t),
                crate::decode::EventView::CriticLine(t) => r is None && *final(self) == (App {
                    streaming_items: final(self).streaming_items,
                    ..*old(self)
                }) && items_view(
                    final(self).streaming_items@,
                ) == with_text(items_view(old(self).streaming_items@), t),
                crate::decode::EventView::MakerToolCall { id, name, result_summary } => r is None && *final(self) == (App {
                    streaming_items: final(self).streaming_items,
                    ..*old(self)
                })
                    && items_view(final(self).streaming_items@) == items_view(
                    old(self).streaming_items@,
                ).push(ItemView::ToolCall { id, name, result_summary }),
                crate::decode::EventView::MakerToolResult { tool_use_id, summary } => r is None && *final(self) == (App {
                    streaming_items: final(self).streaming_items,
                    ..*old(self)
                })
                    && items_view(final(self).streaming_items@) == with_tool_result(
                    items_view(old(self).streaming_items@),
                    tool_use_id,
                    summary,
                ),
                crate::decode::EventView::CriticReasoning(t) => r is None && *final(self) == (App {
                    streaming_items: final(self).streaming_items,
                    ..*old(self)
                }) && items_view(
                    final(self).streaming_items@,
                ) == items_view(old(self).streaming_items@).push(ItemView::Reasoning(t)),
                crate::decode::EventView::CriticCommand { command, status } => r is None && *final(self) == (App {
                    streaming_items: final(self).streaming_items,
                    ..*old(self)
                })
                    && items_view(final(self).streaming_items@) == with_command(
                    items_view(old(self).streaming_items@),
                    command,
                    status,
                ),
                crate::decode::EventView::MakerDone => {
                    &&& old(self).streaming_role is None ==> r is None && final(self).messages
                        == old(self).messages && !final(self).request_in_flight
                    &&& old(self).streaming_role is Some ==> {
                        &&& App::committed(*old(self), *final(self))
                        &&& final(self).turn == old(self).turn
                        &&& final(self).state == old(self).state
                        &&& if old(self).state == AppState::Running {
                            &&& r is Some
                            &&& launches(
                                r->0,
                                Agent::Critic,
                                critic_prompt(
                                    task_text(old(self).task),
                                    forward_text(
                                        message_text(old(self).streaming_items@),
                                        cfg.strip_ansi,
                                        cfg.max_forward_bytes as nat,
                                    ),
                                    old(self).first_critic_call_made,
                                ),
                                old(self).first_critic_call_made,
                            )
                            &&& final(self).first_critic_call_made
                            &&& final(self).request_in_flight
                            &&& opt_view(final(self).streaming_role) == Some(CRITIC_ROLE@)
                            &&& final(self).streaming_items@.len() == 0
                        } else {
                            r is None && !final(self).request_in_flight
                        }
                    }
                },
                crate::decode::EventView::CriticDone => {
                    &&& old(self).streaming_role is None ==> r is None && final(self).messages
                        == old(self).messages && !final(self).request_in_flight
                    &&& old(self).streaming_role is Some ==> {
                        let done = exists|k: int|
                            0 <= k < old(self).streaming_items@.len()
                                && #[trigger] old(self).streaming_items@[k] is Text
                                && is_completion(old(self).streaming_items@[k]->Text_0@);
                        &&& App::committed(*old(self), *final(self))
                        &&& final(self).turn == old(self).turn + 1
                        &&& if done || turn_limit_reached(
                            final(self).turn as nat,
                            old(self).max_turns as nat,
                        ) {
                            r is None && final(self).state == AppState::Finished
                                && !final(self).request_in_flight
                        } else if old(self).state == AppState::Running {
                            &&& r is Some
                            &&& launches(
                                r->0,
                                Agent::Maker,
                                forward_text(
                                    message_text(old(self).streaming_items@),
                                    cfg.strip_ansi,
                                    cfg.max_forward_bytes as nat,
                                ),
                                true,
                            )
                            &&& final(self).state == AppState::Running
                            &&& final(self).request_in_flight
                            &&& opt_view(final(self).streaming_role) == Some(MAKER_ROLE@)
                            &&& final(self).streaming_items@.len() == 0
                        } else {
                            r is None && final(self).state == old(self).state
                                && !final(self).request_in_flight
                        }
                    }
                },
                crate::decode::EventView::Error(e) => {
                    &&& r is None
                    &&& final(self).state == AppState::Paused
                    &&& !final(self).request_in_flight
                    &&& final(self).status_message@ == e
                    &&& final(self).streaming_role is None
                    &&& old(self).streaming_role is Some ==> {
                        &&& final(self).messages@.len() == old(self).messages@.len() + 1
                        &&& final(self).messages@.drop_last() == old(self).messages@
                        &&& final(self).messages@.last().role@ == old(self).streaming_role->0@
                        &&& final(self).messages@.last().items@ == old(
                            self,
                        ).streaming_items@.push(ContentItem::Text(final(self).status_message))
                    }
                    &&& old(self).streaming_role is None ==> final(self).messages == old(
                        self,
                    ).messages
                },
            },
    {
        match ev {
            AgentEvent::MakerLine(line) => {
                self.append_streaming_text(line.as_str());
                None
            },
            AgentEvent::CriticLine(line) => {
                self.append_streaming_text(line.as_str());
                None
            },
            AgentEvent::MakerToolCall(tc) => {
                self.add_streaming_tool_call(tc);
                None
            },
            AgentEvent::MakerToolResult { tool_use_id, summary } => {
                self.update_streaming_tool_result(tool_use_id.as_str(), summary);
                None
            },
            AgentEvent::CriticReasoning(text) => {
                self.add_streaming_reasoning(text);
                None
            },
            AgentEvent::CriticCommand { command, status } => {
                self.add_streaming_command(command, status);
                None
            },
            AgentEvent::MakerDone => {
                self.request_in_flight = false;
                match self.finish_streaming() {
                    Some((role, items)) => {
                        let formatted = format_message_output(items.as_slice());
                        self.add_message(role.as_str(), items);
                        if self.state == AppState::Running {
                            self.status_message = String::from_str("Running critic...");
                            self.request_in_flight = true;
                            let cont = self.take_critic_continuation();
                            self.start_streaming(CRITIC_ROLE);
                            let forward = prepare_forward(
                                formatted.as_str(),
                                cfg.strip_ansi,
                                cfg.max_forward_bytes,
                            );
                            let prompt = build_critic_prompt(
                                self.task_str(),
                                forward.as_str(),
                                cont,
                            );
                            Some(Launch { agent: Agent::Critic, prompt, continuation: cont })
                        } else {
                            self.status_message = String::from_str(
                                "Paused. Press 'c' to continue, 'e' to edit, 'q' to quit.",
                            );
                            None
                        }
                    },
                    None => None,
                }
            },
            AgentEvent::CriticDone => {
                self.request_in_flight = false;
                match self.finish_streaming() {
                    Some((role, items)) => {
                        let done = critic_signaled_done(items.as_slice());
                        let formatted = format_message_output(items.as_slice());
                        self.add_message(role.as_str(), items);
                        self.turn = self.turn + 1;
                        if done {
                            self.state = AppState::Finished;
                            self.status_message = String::from_str(
                                "Critic signaled ALL_DONE. Press 'q' to quit.",
                            );
                            None
                        } else if self.max_turns > 0 && self.turn >= self.max_turns {
                            self.state = AppState::Finished;
                            self.status_message = String::from_str("Finished: turn limit reached. Press 'q' to quit.");
                            None
                        } else if self.state == AppState::Running {
                            self.status_message = String::from_str("Running maker...");
                            self.request_in_flight = true;
                            self.start_streaming(MAKER_ROLE);
                            let forward = prepare_forward(
                                formatted.as_str(),
                                cfg.strip_ansi,
                                cfg.max_forward_bytes,
                            );
                            Some(Launch { agent: Agent::Maker, prompt: forward, continuation: true })
                        } else {
                            self.status_message = String::from_str(
                                "Paused. Press 'c' to continue, 'q' to quit.",
                            );
                            None
                        }
                    },
                    None => None,
                }
            },
            AgentEvent::Error(e) => {
                self.request_in_flight = false;
                self.state = AppState::Paused;
                match self.finish_streaming() {
                    Some((role, items)) => {
                        let mut items = items;
                        items.push(ContentItem::Text(e.clone()));
                        self.add_message(role.as_str(), items);
                    },
                    None => {},
                }
                self.status_message = e;
                None
            },
        }
    }
}

/// A key press or paste, as the session reads it.
pub enum KeyInput {
    /// A character typed (control combinations other than Ctrl-C included).
    Char(char),
    /// Ctrl-C.
    CtrlC,
    Backspace,
    Left,
    Right,
    Up,
    Down,
    PageUp,
    PageDown,
    Home,
    End,
    Enter,
    /// Text pasted at once.
    Paste(String),
    /// Any other key.
    Other,
}

/// What the caller does after a key press.
pub enum KeyOutcome {
    Nothing,
    Quit,
    Start(Launch),
}

/// `buf` with `ins` put in at character position `pos`, or at its end when `pos` is
/// past it.
pub open spec fn inserted(buf: Seq<char>, pos: nat, ins: Seq<char>) -> Seq<char> {
    let p = if pos <= buf.len() {
        pos as int
    } else {
        buf.len() as int
    };
    buf.subrange(0, p) + ins + buf.subrange(p, buf.len() as int)
}

/// The smaller of two numbers.
pub open spec fn min_nat(a: nat, b: nat) -> nat {
    if a <= b {
        a
    } else {
        b
    }
}

/// Whether `l` is the invocation that follows `old`'s last message: the critic on a
/// maker message, the maker otherwise.
pub open spec fn follows_last(old: App, new: App, l: Launch, cfg: RelaySettings) -> bool {
    let last = old.messages@.last();
    let text = forward_text(message_text(last.items@), cfg.strip_ansi, cfg.max_forward_bytes as nat);
    if last.role@ == MAKER_ROLE@ {
        let cont = old.first_critic_call_made;
        &&& launches(l, Agent::Critic, critic_prompt(task_text(old.task), text, cont), cont)
        &&& opt_view(new.streaming_role) == Some(CRITIC_ROLE@)
        &&& new.first_critic_call_made
    } else {
        &&& launches(l, Agent::Maker, text, true)
        &&& opt_view(new.streaming_role) == Some(MAKER_ROLE@)
    }
}

impl App {
    /// Puts `ins` into the edit buffer at the cursor and moves the cursor past it.
    pub fn edit_insert(&mut self, ins: &str)
        ensures
            final(self).edit_buffer@ == inserted(old(self).edit_buffer@, old(self).edit_cursor as nat, ins@),
            final(self).edit_cursor == min_nat(old(self).edit_cursor as nat, old(self).edit_buffer@.len()) + ins@.len(),
            *final(self) == (App {
                edit_buffer: final(self).edit_buffer,
                edit_cursor: final(self).edit_cursor,
                ..*old(self)
            }),
    {
        let chars = chars_of(self.edit_buffer.as_str());
        let n = chars.len();
        let p = if self.edit_cursor <= n {
            self.edit_cursor
        } else {
            n
        };
        let mut buf = text_of(&chars, 0, p);
        buf.append(ins);
        let tail = text_of(&chars, p, n);
        buf.append(tail.as_str());
        // the new length fits, so the new cursor does too
        let m = chars_of(buf.as_str()).len();
        let cursor = m - (n - p);
        self.edit_buffer = buf;
        self.edit_cursor = cursor;
    }

    /// Removes the character before the cursor, if there is one.
    pub fn edit_backspace(&mut self)
        ensures
            old(self).edit_cursor > 0 ==> final(self).edit_cursor == old(self).edit_cursor - 1,
            old(self).edit_cursor > 0 && old(self).edit_cursor <= old(self).edit_buffer@.len() ==> final(self).edit_buffer@ == old(self).edit_buffer@.remove(old(self).edit_cursor - 1),
            old(self).edit_cursor > old(self).edit_buffer@.len() ==> final(self).edit_buffer == old(self).edit_buffer,
            old(self).edit_cursor == 0 ==> *final(self) == *old(self),
            *final(self) == (App {
                edit_buffer: final(self).edit_buffer,
                edit_cursor: final(self).edit_cursor,
                ..*old(self)
            }),
    {
        if self.edit_cursor > 0 {
            self.edit_cursor = self.edit_cursor - 1;
            let chars = chars_of(self.edit_buffer.as_str());
            let n = chars.len();
            let k = self.edit_cursor;
            if k < n {
                let mut buf = text_of(&chars, 0, k);
                buf.append(text_of(&chars, k + 1, n).as_str());
                assert(buf@ =~= old(self).edit_buffer@.remove(k as int));
                self.edit_buffer = buf;
            }
        }
    }

    /// Moves the cursor one character left, if it can.
    pub fn edit_left(&mut self)
        ensures
            final(self).edit_cursor == (if old(self).edit_cursor > 0 {
                (old(self).edit_cursor - 1) as usize
            } else {
                0
            }),
            *final(self) == (App { edit_cursor: final(self).edit_cursor, ..*old(self) }),
    {
        if self.edit_cursor > 0 {
            self.edit_cursor = self.edit_cursor - 1;
        }
    }

    /// Moves the cursor one character right, if it is not at the end.
    pub fn edit_right(&mut self)
        ensures
            final(self).edit_cursor as int == (if old(self).edit_cursor < old(
                self,
            ).edit_buffer@.len() {
                old(self).edit_cursor + 1
            } else {
                old(self).edit_cursor as int
            }),
            *final(self) == (App { edit_cursor: final(self).edit_cursor, ..*old(self) }),
    {
        if self.edit_cursor < self.edit_buffer.as_str().unicode_len() {
            self.edit_cursor = self.edit_cursor + 1;
        }
    }

    /// Starts the invocation that follows the last message, as `follows_last` says.
    fn launch_after_last(&mut self, cfg: &RelaySettings) -> (l: Launch)
        requires
            old(self).messages@.len() > 0,
        ensures
            follows_last(*old(self), *final(self), l, *cfg),
            final(self).streaming_items@.len() == 0,
            *final(self) == (App {
                status_message: final(self).status_message,
                streaming_role: final(self).streaming_role,
                streaming_items: final(self).streaming_items,
                first_critic_call_made: final(self).first_critic_call_made,
                ..*old(self)
            }),
    {
        let n = self.messages.len();
        let is_maker = same_text(self.messages[n - 1].role.as_str(), MAKER_ROLE);
        let formatted = format_message_output(self.messages[n - 1].items.as_slice());
        let forward = prepare_forward(formatted.as_str(), cfg.strip_ansi, cfg.max_forward_bytes);
        if is_maker {
            let cont = self.take_critic_continuation();
            self.status_message = String::from_str("Running critic...");
            let prompt = build_critic_prompt(self.task_str(), forward.as_str(), cont);
            self.start_streaming(CRITIC_ROLE);
            Launch { agent: Agent::Critic, prompt, continuation: cont }
        } else {
            self.status_message = String::from_str("Running maker...");
            self.start_streaming(MAKER_ROLE);
            Launch { agent: Agent::Maker, prompt: forward, continuation: true }
        }
    }
}

/// `new` is `old` after the edit key `key` (a character, a paste, Backspace, Left or
/// Right) was applied to the edit buffer and its cursor.
pub open spec fn edited(old: App, new: App, key: KeyInput) -> bool {
    let same_rest = new == (App { edit_buffer: new.edit_buffer, edit_cursor: new.edit_cursor, ..old });
    let cur = old.edit_cursor as nat;
    let buf = old.edit_buffer@;
    same_rest && match key {
        KeyInput::Char(c) => new.edit_buffer@ == inserted(buf, cur, seq![c]) && new.edit_cursor
            == min_nat(cur, buf.len()) + 1,
        KeyInput::Paste(t) => new.edit_buffer@ == inserted(buf, cur, t@) && new.edit_cursor
            == min_nat(cur, buf.len()) + t@.len(),
        KeyInput::Backspace => if cur == 0 {
            new == old
        } else {
            new.edit_cursor == cur - 1 && (if cur <= buf.len() {
                new.edit_buffer@ == buf.remove(cur - 1)
            } else {
                new.edit_buffer == old.edit_buffer
            })
        },
        KeyInput::Left => new.edit_buffer == old.edit_buffer && new.edit_cursor == (if cur > 0 {
            cur - 1
        } else {
            0
        }),
        KeyInput::Right => new.edit_buffer == old.edit_buffer && new.edit_cursor == (if cur
            < buf.len() {
            cur + 1
        } else {
            cur
        }),
        _ => false,
    }
}

/// Whether `key` edits the buffer.
pub open spec fn is_edit_key(key: KeyInput) -> bool {
    key is Char || key is Paste || key is Backspace || key is Left || key is Right
}

/// The first maker prompt of the interactive session: the task, followed by the context
/// under its heading where there is one.
pub open spec fn initial_prompt(task: Seq<char>, context: Option<String>) -> Seq<char> {
    match context {
        Some(c) => task + "\n\n## Context\n"@ + c@,
        None => task,
    }
}

/// What a key does while the session waits for its task. Enter submits a non-empty task
/// when no invocation is in flight; every key that the rules do not name changes nothing.
pub open spec fn task_key_result(old: App, new: App, key: KeyInput, r: KeyOutcome, cfg: RelaySettings) -> bool {
    let submits = key is Enter && old.edit_buffer@.len() > 0 && !old.request_in_flight;
    &&& (key is CtrlC ==> r is Quit && new == old)
    &&& (is_edit_key(key) ==> r is Nothing && edited(old, new, key))
    &&& (submits ==> {
        let cont = old.first_maker_call_made || cfg.resume_session;
        &&& r is Start
        &&& launches(r->Start_0, Agent::Maker, initial_prompt(old.edit_buffer@, old.context), cont)
        &&& opt_view(new.task) == Some(old.edit_buffer@)
        &&& new.edit_buffer@.len() == 0
        &&& new.edit_cursor == 0
        &&& new.state == AppState::Running
        &&& new.request_in_flight
        &&& new.first_maker_call_made
        &&& opt_view(new.streaming_role) == Some(MAKER_ROLE@)
        &&& new.streaming_items@.len() == 0
        &&& new == (App {
            task: new.task,
            edit_buffer: new.edit_buffer,
            edit_cursor: new.edit_cursor,
            state: new.state,
            status_message: new.status_message,
            request_in_flight: new.request_in_flight,
            first_maker_call_made: new.first_maker_call_made,
            streaming_role: new.streaming_role,
            streaming_items: new.streaming_items,
            ..old
        })
    })
    &&& (!(key is CtrlC || is_edit_key(key) || submits) ==> r is Nothing && new == old)
}

/// What a key does while a message is edited. Enter forwards a non-empty edit when no
/// invocation is in flight; every key that the rules do not name changes nothing.
pub open spec fn edit_key_result(old: App, new: App, key: KeyInput, r: KeyOutcome, cfg: RelaySettings) -> bool {
    let submits = key is Enter && old.edit_buffer@.len() > 0 && !old.request_in_flight;
    &&& (key is CtrlC ==> {
        &&& r is Nothing
        &&& new.state == AppState::Paused
        &&& new.edit_buffer@.len() == 0
        &&& new.edit_cursor == 0
        &&& new.editing_message_index is None
        &&& new == (App {
            state: new.state,
            edit_buffer: new.edit_buffer,
            edit_cursor: new.edit_cursor,
            editing_message_index: new.editing_message_index,
            status_message: new.status_message,
            ..old
        })
    })
    &&& (is_edit_key(key) ==> r is Nothing && edited(old, new, key))
    &&& (submits ==> {
        let edit = old.edit_buffer@;
        let forward = truncated(edit, cfg.max_forward_bytes as nat);
        let to_critic = new.messages@.len() == 0
            || new.messages@.last().role@ == MAKER_ROLE@;
        let cont = old.first_critic_call_made;
        &&& r is Start
        &&& new.state == AppState::Running
        &&& new.request_in_flight
        &&& new.edit_buffer@.len() == 0
        &&& new.edit_cursor == 0
        &&& new.editing_message_index is None
        &&& new.messages@.len() == old.messages@.len()
        &&& forall|k: int|
            0 <= k < old.messages@.len() && Some(k as usize) != old.editing_message_index ==> #[trigger] new.messages@[k] == old.messages@[k]
        &&& (match old.editing_message_index {
            Some(i) => i < old.messages@.len() ==> {
                &&& new.messages@[i as int].role == old.messages@[i as int].role
                &&& new.messages@[i as int].turn == old.messages@[i as int].turn
                &&& items_view(new.messages@[i as int].items@) == seq![ItemView::Text(edit)]
            },
            None => true,
        })
        &&& if to_critic {
            &&& launches(r->Start_0, Agent::Critic, critic_prompt(task_text(old.task), forward, cont), cont)
            &&& opt_view(new.streaming_role) == Some(CRITIC_ROLE@)
            &&& new.first_critic_call_made
        } else {
            &&& launches(r->Start_0, Agent::Maker, forward, true)
            &&& opt_view(new.streaming_role) == Some(MAKER_ROLE@)
            &&& new.first_critic_call_made == old.first_critic_call_made
        }
        &&& new.streaming_items@.len() == 0
        &&& new == (App {
            messages: new.messages,
            state: new.state,
            request_in_flight: new.request_in_flight,
            edit_buffer: new.edit_buffer,
            edit_cursor: new.edit_cursor,
            editing_message_index: new.editing_message_index,
            status_message: new.status_message,
            first_critic_call_made: new.first_critic_call_made,
            streaming_role: new.streaming_role,
            streaming_items: new.streaming_items,
            ..old
        })
    })
    &&& (!(key is CtrlC || is_edit_key(key) || submits) ==> r is Nothing && new == old)
}

/// The scroll offset after moving up by `amount` lines.
pub open spec fn scrolled_up(scroll: u16, amount: u16) -> u16 {
    if scroll >= amount {
        (scroll - amount) as u16
    } else {
        0
    }
}

/// The scroll offset after moving down by `amount` lines in a view of `visible_height`.
pub open spec fn scrolled_down(app: App, amount: u16, visible_height: u16) -> int {
    if app.scroll + amount <= app.max_scroll(visible_height) {
        app.scroll + amount
    } else {
        app.max_scroll(visible_height) as int
    }
}

/// What a key does while the transcript is shown. Only `c` can start an invocation, and
/// only when none is in flight; every key that the rules do not name changes nothing.
pub open spec fn view_key_result(
    old: App,
    new: App,
    key: KeyInput,
    visible_height: u16,
    r: KeyOutcome,
    cfg: RelaySettings,
) -> bool {
    let only_scroll = new == (App { scroll: new.scroll, ..old });
    let pauses = key == KeyInput::Char('p') && old.state == AppState::Running;
    let resumes = key == KeyInput::Char('c') && old.state == AppState::Paused
        && !old.request_in_flight;
    let edits = key == KeyInput::Char('e') && old.state == AppState::Paused
        && !old.request_in_flight && old.messages@.len() > 0;
    let up = key is Up || key == KeyInput::Char('k');
    let down = key is Down || key == KeyInput::Char('j');
    let scrolls = up || down || key is PageUp || key is PageDown || key is Home || key is End;
    &&& (key is CtrlC ==> r is Quit && new == old)
    &&& (pauses ==> r is Nothing && new.state == AppState::Paused && new == (App {
        state: new.state,
        status_message: new.status_message,
        ..old
    }))
    &&& (resumes ==> if old.messages@.len() > 0 {
        &&& r is Start
        &&& follows_last(old, new, r->Start_0, cfg)
        &&& new.state == AppState::Running
        &&& new.request_in_flight
        &&& new.streaming_items@.len() == 0
        &&& new == (App {
            state: new.state,
            request_in_flight: new.request_in_flight,
            status_message: new.status_message,
            streaming_role: new.streaming_role,
            streaming_items: new.streaming_items,
            first_critic_call_made: new.first_critic_call_made,
            ..old
        })
    } else {
        r is Nothing && new == (App { status_message: new.status_message, ..old })
    })
    &&& (edits ==> {
        &&& r is Nothing
        &&& new.state == AppState::Editing
        &&& new.edit_buffer@ == message_text(old.messages@.last().items@)
        &&& new.edit_cursor == new.edit_buffer@.len()
        &&& new.editing_message_index == Some((old.messages@.len() - 1) as usize)
        &&& new == (App {
            state: new.state,
            edit_buffer: new.edit_buffer,
            edit_cursor: new.edit_cursor,
            editing_message_index: new.editing_message_index,
            status_message: new.status_message,
            ..old
        })
    })
    &&& (up ==> r is Nothing && only_scroll && new.scroll == scrolled_up(old.scroll, 1))
    &&& (key is PageUp ==> r is Nothing && only_scroll && new.scroll == scrolled_up(old.scroll, 10))
    &&& (down ==> r is Nothing && only_scroll && new.scroll == scrolled_down(old, 1, visible_height))
    &&& (key is PageDown ==> r is Nothing && only_scroll && new.scroll == scrolled_down(
        old,
        10,
        visible_height,
    ))
    &&& (key is Home ==> r is Nothing && only_scroll && new.scroll == 0)
    &&& (key is End ==> r is Nothing && only_scroll && new.scroll == old.max_scroll(visible_height))
    &&& (!(key is CtrlC || pauses || resumes || edits || scrolls) ==> r is Nothing && new == old)
}

impl App {
    /// The first maker prompt for `task`, as `initial_prompt` says.
    fn first_prompt(&self, task: &str) -> (r: String)
        ensures
            r@ == initial_prompt(task@, self.context),
    {
        let mut r = String::from_str(task);
        if let Some(c) = &self.context {
            r.append("\n\n## Context\n");
            r.append(c.as_str());
        }
        r
    }
}

impl App {
    /// Applies an edit key to the edit buffer.
    fn apply_edit_key(&mut self, key: KeyInput)
        requires
            is_edit_key(key),
        ensures
            edited(*old(self), *final(self), key),
    {
        match &key {
            KeyInput::Char(c) => {
                let mut one = String::new();
                one.push(*c);
                assert(one@ =~= seq![*c]);
                self.edit_insert(one.as_str());

            },
            KeyInput::Paste(t) => {
                self.edit_insert(t.as_str());
            },
            KeyInput::Backspace => {
                self.edit_backspace();
            },
            KeyInput::Left => {
                self.edit_left();
            },
            KeyInput::Right => {
                self.edit_right();
            },
            _ => {},
        }
    }

    /// Handles a key while the session waits for its task: edit keys edit it, Enter
    /// submits a non-empty task and starts the maker on it, Ctrl-C quits.
    pub fn handle_task_key(&mut self, key: KeyInput, cfg: &RelaySettings) -> (r: KeyOutcome)
        requires
            old(self).state == AppState::WaitingForTask,
        ensures
            task_key_result(*old(self), *final(self), key, r, *cfg),
    {
        match key {
            KeyInput::CtrlC => KeyOutcome::Quit,
            KeyInput::Enter => {
                if self.edit_buffer.as_str().is_empty() || self.request_in_flight {
                    KeyOutcome::Nothing
                } else {
                    let task = self.edit_buffer.clone();
                    let prompt = self.first_prompt(self.edit_buffer.as_str());
                    self.task = Some(task);
                    self.edit_buffer = String::new();
                    self.edit_cursor = 0;
                    self.state = AppState::Running;
                    self.status_message = String::from_str("Running maker...");
                    self.request_in_flight = true;
                    let cont = self.take_maker_continuation(cfg.resume_session);
                    self.start_streaming(MAKER_ROLE);
                    KeyOutcome::Start(Launch { agent: Agent::Maker, prompt, continuation: cont })
                }
            },
            KeyInput::Char(_) | KeyInput::Paste(_) | KeyInput::Backspace | KeyInput::Left
            | KeyInput::Right => {
                self.apply_edit_key(key);
                KeyOutcome::Nothing
            },
            _ => KeyOutcome::Nothing,
        }
    }

    /// Handles a key while a message is edited: edit keys edit it, Ctrl-C drops the edit
    /// and pauses, Enter puts the non-empty edit in place of the message and forwards it
    /// as it stands to the agent that comes next.
    pub fn handle_edit_key(&mut self, key: KeyInput, cfg: &RelaySettings) -> (r: KeyOutcome)
        requires
            old(self).state == AppState::Editing,
        ensures
            edit_key_result(*old(self), *final(self), key, r, *cfg),
    {
        match key {
            KeyInput::CtrlC => {
                self.state = AppState::Paused;
                self.edit_buffer = String::new();
                self.edit_cursor = 0;
                self.editing_message_index = None;
                self.status_message = String::from_str("Edit cancelled. Press 'c' to continue.");
                KeyOutcome::Nothing
            },
            KeyInput::Enter => {
                if self.edit_buffer.as_str().is_empty() || self.request_in_flight {
                    KeyOutcome::Nothing
                } else {
                    let edited_text = self.edit_buffer.clone();
                    if let Some(idx) = self.editing_message_index {
                        if idx < self.messages.len() {
                            let mut items: Vec<ContentItem> = Vec::new();
                            items.push(ContentItem::Text(edited_text.clone()));
                            let ghost before = self.messages@;
                            let mut msg = self.messages.remove(idx);
                            msg.items = items;
                            self.messages.insert(idx, msg);
                            assert(items_view(self.messages@[idx as int].items@) =~= seq![
                                ItemView::Text(old(self).edit_buffer@),
                            ]);
                            assert(forall|k: int| 0 <= k < before.len() && k != idx ==> #[trigger] self.messages@[k] == before[k]);
                        }
                    }
                    self.edit_buffer = String::new();
                    self.edit_cursor = 0;
                    self.editing_message_index = None;
                    self.state = AppState::Running;
                    self.request_in_flight = true;
                    let forward = truncate(edited_text.as_str(), cfg.max_forward_bytes);
                    let n = self.messages.len();
                    let to_critic = n == 0 || same_text(
                        self.messages[n - 1].role.as_str(),
                        MAKER_ROLE,
                    );
                    if to_critic {
                        self.status_message = String::from_str("Running critic with edited message...");
                        let cont = self.take_critic_continuation();
                        self.start_streaming(CRITIC_ROLE);
                        let prompt = build_critic_prompt(self.task_str(), forward.as_str(), cont);
                        KeyOutcome::Start(Launch { agent: Agent::Critic, prompt, continuation: cont })
                    } else {
                        self.status_message = String::from_str("Running maker with edited message...");
                        self.start_streaming(MAKER_ROLE);
                        KeyOutcome::Start(Launch { agent: Agent::Maker, prompt: forward, continuation: true })
                    }
                }
            },
            KeyInput::Char(_) | KeyInput::Paste(_) | KeyInput::Backspace | KeyInput::Left
            | KeyInput::Right => {
                self.apply_edit_key(key);
                KeyOutcome::Nothing
            },
            _ => KeyOutcome::Nothing,
        }
    }
}

impl App {
    /// Handles a key while the transcript is shown: Ctrl-C quits; `p` pauses a running
    /// session; `c` resumes a paused one with no invocation in flight, starting the agent
    /// that follows the last message; `e` opens the last message for editing; the
    /// arrows, `j`, `k`, the page keys, Home and End scroll.
    pub fn handle_view_key(&mut self, key: KeyInput, visible_height: u16, cfg: &RelaySettings) -> (r: KeyOutcome)
        requires
            old(self).state == AppState::Running || old(self).state == AppState::Paused
                || old(self).state == AppState::Finished,
        ensures
            view_key_result(*old(self), *final(self), key, visible_height, r, *cfg),
    {
        match key {
            KeyInput::CtrlC => KeyOutcome::Quit,
            KeyInput::Char(ch) => {
                if ch == 'p' && self.state == AppState::Running {
                    self.state = AppState::Paused;
                    self.status_message = String::from_str(
                        "Paused. Press 'c' to continue, 'e' to edit, ^C to quit.",
                    );
                    KeyOutcome::Nothing
                } else if ch == 'c' && self.state == AppState::Paused && !self.request_in_flight {
                    if self.messages.len() > 0 {
                        self.state = AppState::Running;
                        self.request_in_flight = true;
                        let l = self.launch_after_last(cfg);
                        KeyOutcome::Start(l)
                    } else {
                        self.status_message = String::from_str("No messages to continue from.");
                        KeyOutcome::Nothing
                    }
                } else if ch == 'e' && self.state == AppState::Paused && !self.request_in_flight {
                    let n = self.messages.len();
                    if n > 0 {
                        let text = format_message_output(self.messages[n - 1].items.as_slice());
                        let count = chars_of(text.as_str()).len();
                        self.state = AppState::Editing;
                        self.edit_buffer = text;
                        self.edit_cursor = count;
                        self.editing_message_index = Some(n - 1);
                        self.status_message = String::from_str("Editing. Enter to send, ^C to cancel.");
                    }
                    KeyOutcome::Nothing
                } else if ch == 'k' {
                    self.scroll_up(1);
                    KeyOutcome::Nothing
                } else if ch == 'j' {
                    self.scroll_down(1, visible_height);
                    KeyOutcome::Nothing
                } else {
                    KeyOutcome::Nothing
                }
            },
            KeyInput::Up => {
                self.scroll_up(1);
                KeyOutcome::Nothing
            },
            KeyInput::Down => {
                self.scroll_down(1, visible_height);
                KeyOutcome::Nothing
            },
            KeyInput::PageUp => {
                self.scroll_up(10);
                KeyOutcome::Nothing
            },
            KeyInput::PageDown => {
                self.scroll_down(10, visible_height);
                KeyOutcome::Nothing
            },
            KeyInput::Home => {
                self.scroll = 0;
                KeyOutcome::Nothing
            },
            KeyInput::End => {
                self.scroll_to_bottom(visible_height);
                KeyOutcome::Nothing
            },
            _ => KeyOutcome::Nothing,
        }
    }

    /// Starts the session on the task it was created with: the maker gets the task, with
    /// the context where there is one, as its prompt and resumes its previous session only when the settings ask for it. Nothing
    /// starts without a task, or when the session is not running.
    pub fn begin(&mut self, cfg: &RelaySettings) -> (r: Option<Launch>)
        ensures
            old(self).task is Some && old(self).state == AppState::Running ==> {
                &&& r is Some
                &&& launches(
                    r->0,
                    Agent::Maker,
                    initial_prompt(old(self).task->0@, old(self).context),
                    cfg.resume_session,
                )
                &&& final(self).request_in_flight
                &&& final(self).first_maker_call_made
                &&& opt_view(final(self).streaming_role) == Some(MAKER_ROLE@)
                &&& final(self).streaming_items@.len() == 0
                &&& final(self).state == old(self).state
                &&& final(self).task == old(self).task
                &&& final(self).messages == old(self).messages
            },
            !(old(self).task is Some && old(self).state == AppState::Running) ==> r is None
                && *final(self) == *old(self),
    {
        if self.state != AppState::Running {
            return None;
        }
        match &self.task {
            Some(t) => {
                let prompt = self.first_prompt(t.as_str());
                self.status_message = String::from_str("Running maker...");
                self.request_in_flight = true;
                self.first_maker_call_made = true;
                self.start_streaming(MAKER_ROLE);
                Some(Launch { agent: Agent::Maker, prompt, continuation: cfg.resume_session })
            },
            None => None,
        }
    }

    /// Handles a key press or paste in whatever state the session is in. A paste only
    /// counts while text is typed, and while an invocation is in flight no key starts
    /// another one.
    pub fn handle_key(&mut self, key: KeyInput, visible_height: u16, cfg: &RelaySettings) -> (r: KeyOutcome)
        ensures
            old(self).state == AppState::WaitingForTask ==> task_key_result(
                *old(self),
                *final(self),
                key,
                r,
                *cfg,
            ),
            old(self).state == AppState::Editing ==> edit_key_result(
                *old(self),
                *final(self),
                key,
                r,
                *cfg,
            ),
            !(old(self).state == AppState::WaitingForTask || old(self).state == AppState::Editing)
                ==> if key is Paste {
                r is Nothing && *final(self) == *old(self)
            } else {
                view_key_result(*old(self), *final(self), key, visible_height, r, *cfg)
            },
            old(self).request_in_flight ==> !(r is Start) && final(self).request_in_flight,
    {
        match self.state {
            AppState::WaitingForTask => self.handle_task_key(key, cfg),
            AppState::Editing => self.handle_edit_key(key, cfg),
            _ => {
                if let KeyInput::Paste(_) = key {
                    KeyOutcome::Nothing
                } else {
                    self.handle_view_key(key, visible_height, cfg)
                }
            },
        }
    }
}

} // verus!
