//! The two agents' event protocols, as values, and the canonical events they carry.
use vstd::prelude::*;

use crate::text::{decimal, line_summary, push_decimal, summarize_command_output, summarize_text, truncate_line, truncated_line};
use crate::transcript::{opt_view, CriticCommandStatus, StatusView, ToolCall};

verus! {

/// An element of a JSON array in a tool result, as the summary reads it: for an object,
/// its `type` and `text` members where they are strings.
pub struct ListEntry {
    pub kind: Option<String>,
    pub text: Option<String>,
}

/// The content of a tool result, as the summary reads it.
pub enum ToolResultContent {
    /// A JSON string.
    Text(String),
    /// A JSON array.
    List(Vec<ListEntry>),
    /// Any other JSON value, in its JSON text.
    Other(String),
}

/// A content block of a maker message.
pub enum MakerBlock {
    Text { text: String },
    ToolUse { id: String, name: String },
    ToolResult { tool_use_id: String, content: Option<ToolResultContent> },
    Unknown,
}

/// One line of the maker's event stream.
pub enum MakerEvent {
    Assistant { content: Vec<MakerBlock> },
    User { content: Vec<MakerBlock> },
    Result { result: String },
    Unknown,
}

/// The item inside a critic's `item.completed` event.
pub enum CriticItem {
    Reasoning { text: Option<String> },
    AgentMessage { text: Option<String> },
    CommandExecution {
        command: Option<String>,
        status: Option<String>,
        exit_code: Option<i32>,
        output: Option<String>,
    },
    Unknown,
}

/// One line of the critic's event stream.
pub enum CriticEvent {
    ItemCompleted { item: CriticItem },
    Unknown,
}

/// A canonical event from a running agent invocation.
pub enum AgentEvent {
    MakerLine(String),
    MakerToolCall(ToolCall),
    MakerToolResult { tool_use_id: String, summary: String },
    CriticLine(String),
    CriticReasoning(String),
    CriticCommand { command: String, status: CriticCommandStatus },
    MakerDone,
    CriticDone,
    Error(String),
}

/// What a canonical event holds, as plain values.
pub enum EventView {
    MakerLine(Seq<char>),
    MakerToolCall { id: Seq<char>, name: Seq<char>, result_summary: Option<Seq<char>> },
    MakerToolResult { tool_use_id: Seq<char>, summary: Seq<char> },
    CriticLine(Seq<char>),
    CriticReasoning(Seq<char>),
    CriticCommand { command: Seq<char>, status: StatusView },
    MakerDone,
    CriticDone,
    Error(Seq<char>),
}

impl View for AgentEvent {
    type V = EventView;

    open spec fn view(&self) -> EventView {
        match self {
            AgentEvent::MakerLine(t) => EventView::MakerLine(t@),
            AgentEvent::MakerToolCall(tc) => EventView::MakerToolCall {
                id: tc.id@,
                name: tc.name@,
                result_summary: opt_view(tc.result_summary),
            },
            AgentEvent::MakerToolResult { tool_use_id, summary } => EventView::MakerToolResult {
                tool_use_id: tool_use_id@,
                summary: summary@,
            },
            AgentEvent::CriticLine(t) => EventView::CriticLine(t@),
            AgentEvent::CriticReasoning(t) => EventView::CriticReasoning(t@),
            AgentEvent::CriticCommand { command, status } => EventView::CriticCommand {
                command: command@,
                status: status@,
            },
            AgentEvent::MakerDone => EventView::MakerDone,
            AgentEvent::CriticDone => EventView::CriticDone,
            AgentEvent::Error(e) => EventView::Error(e@),
        }
    }
}

/// The texts of the entries whose `type` is `"text"` and that have a text.
pub open spec fn entry_texts(entries: Seq<ListEntry>) -> Seq<Seq<char>>
    decreases entries.len(),
{
    if entries.len() == 0 {
        Seq::empty()
    } else {
        let e = entries.last();
        let rest = entry_texts(entries.drop_last());
        if opt_view(e.kind) == Some("text"@) && e.text is Some {
            rest.push(e.text->0@)
        } else {
            rest
        }
    }
}

/// `parts` joined with single spaces.
pub open spec fn joined(parts: Seq<Seq<char>>) -> Seq<char>
    decreases parts.len(),
{
    if parts.len() == 0 {
        Seq::empty()
    } else if parts.len() == 1 {
        parts[0]
    } else {
        joined(parts.drop_last()) + " "@ + parts.last()
    }
}

/// The summary of a tool result: `done` without content; the line summary of a string,
/// or of the joined texts of a list; the number of entries of a list without texts; the
/// JSON text of anything else, cut to 50 characters.
pub open spec fn tool_result_summary(content: Option<ToolResultContent>) -> Seq<char> {
    match content {
        None => "done"@,
        Some(ToolResultContent::Text(s)) => line_summary(s@),
        Some(ToolResultContent::List(entries)) => {
            let texts = entry_texts(entries@);
            if texts.len() > 0 {
                line_summary(joined(texts))
            } else {
                decimal(entries@.len()) + " items"@
            }
        },
        Some(ToolResultContent::Other(s)) => truncated_line(s@, 50),
    }
}

/// Whether an optional text holds exactly `"text"`.
fn is_text_kind(kind: &Option<String>) -> (r: bool)
    ensures
        r == (opt_view(*kind) == Some("text"@)),
{
    match kind {
        Some(k) => crate::text::same_text(k.as_str(), "text"),
        None => false,
    }
}

/// Summarizes tool result content for display.
pub fn summarize_tool_result(content: &Option<ToolResultContent>) -> (r: String)
    ensures
        r@ == tool_result_summary(*content),
{
    match content {
        None => String::from_str("done"),
        Some(ToolResultContent::Text(s)) => summarize_text(s.as_str()),
        Some(ToolResultContent::List(entries)) => {
            let mut combined = String::new();
            let mut found: usize = 0;
            let mut k: usize = 0;
            assert(entries@.subrange(0, 0) =~= Seq::<ListEntry>::empty());
            while k < entries.len()
                invariant
                    k <= entries@.len(),
                    found == entry_texts(entries@.subrange(0, k as int)).len(),
                    found <= k,
                    combined@ == joined(entry_texts(entries@.subrange(0, k as int))),
                decreases entries@.len() - k,
            {
                let e = &entries[k];
                assert(entries@.subrange(0, k + 1).drop_last() =~= entries@.subrange(0, k as int));
                if is_text_kind(&e.kind) {
                    if let Some(t) = &e.text {
                        if found > 0 {
                            combined.append(" ");
                        }
                        combined.append(t.as_str());
                        found = found + 1;
                        let ghost parts = entry_texts(entries@.subrange(0, k + 1));
                        assert(parts.drop_last() == entry_texts(entries@.subrange(0, k as int)));
                        if found == 1 {
                            assert(combined@ =~= joined(parts));
                        } else {
                            assert(combined@ =~= joined(parts));
                        }
                    }
                }
                k = k + 1;
            }
            assert(entries@.subrange(0, entries@.len() as int) =~= entries@);
            if found > 0 {
                summarize_text(combined.as_str())
            } else {
                let mut r = String::new();
                push_decimal(&mut r, entries.len() as u64);
                r.append(" items");
                assert(r@ =~= decimal(entries@.len()) + " items"@);
                r
            }
        },
        Some(ToolResultContent::Other(s)) => truncate_line(s.as_str(), 50),
    }
}

/// The canonical events of the blocks of an assistant message: one line per text block,
/// one pending tool call per tool use.
pub open spec fn assistant_events(blocks: Seq<MakerBlock>) -> Seq<EventView>
    decreases blocks.len(),
{
    if blocks.len() == 0 {
        Seq::empty()
    } else {
        let rest = assistant_events(blocks.drop_last());
        match blocks.last() {
            MakerBlock::Text { text } => rest.push(EventView::MakerLine(text@)),
            MakerBlock::ToolUse { id, name } => rest.push(
                EventView::MakerToolCall { id: id@, name: name@, result_summary: None },
            ),
            _ => rest,
        }
    }
}

/// The canonical events of the blocks of a user message: one result summary per tool
/// result, for the tool use that it names.
pub open spec fn user_events(blocks: Seq<MakerBlock>) -> Seq<EventView>
    decreases blocks.len(),
{
    if blocks.len() == 0 {
        Seq::empty()
    } else {
        let rest = user_events(blocks.drop_last());
        match blocks.last() {
            MakerBlock::ToolResult { tool_use_id, content } => rest.push(
                EventView::MakerToolResult {
                    tool_use_id: tool_use_id@,
                    summary: tool_result_summary(content),
                },
            ),
            _ => rest,
        }
    }
}

/// The canonical events of one maker event.
pub open spec fn maker_events(ev: MakerEvent) -> Seq<EventView> {
    match ev {
        MakerEvent::Assistant { content } => assistant_events(content@),
        MakerEvent::User { content } => user_events(content@),
        _ => Seq::empty(),
    }
}

/// The plain values of a sequence of events.
pub open spec fn events_view(events: Seq<AgentEvent>) -> Seq<EventView> {
    events.map_values(|e: AgentEvent| e@)
}

/// Turns one maker event into canonical events, in order.
pub fn decode_maker_event(ev: &MakerEvent) -> (r: Vec<AgentEvent>)
    ensures
        events_view(r@) == maker_events(*ev),
{
    let mut out: Vec<AgentEvent> = Vec::new();
    match ev {
        MakerEvent::Assistant { content } => {
            let mut k: usize = 0;
            assert(content@.subrange(0, 0) =~= Seq::<MakerBlock>::empty());
            while k < content.len()
                invariant
                    k <= content@.len(),
                    events_view(out@) == assistant_events(content@.subrange(0, k as int)),
                decreases content@.len() - k,
            {
                assert(content@.subrange(0, k + 1).drop_last() =~= content@.subrange(0, k as int));
                match &content[k] {
                    MakerBlock::Text { text } => {
                        out.push(AgentEvent::MakerLine(text.clone()));
                    },
                    MakerBlock::ToolUse { id, name } => {
                        out.push(
                            AgentEvent::MakerToolCall(
                                ToolCall { id: id.clone(), name: name.clone(), result_summary: None },
                            ),
                        );
                    },
                    _ => {},
                }
                k = k + 1;
                assert(events_view(out@) =~= assistant_events(content@.subrange(0, k as int)));
            }
            assert(content@.subrange(0, content@.len() as int) =~= content@);
        },
        MakerEvent::User { content } => {
            let mut k: usize = 0;
            assert(content@.subrange(0, 0) =~= Seq::<MakerBlock>::empty());
            while k < content.len()
                invariant
                    k <= content@.len(),
                    events_view(out@) == user_events(content@.subrange(0, k as int)),
                decreases content@.len() - k,
            {
                assert(content@.subrange(0, k + 1).drop_last() =~= content@.subrange(0, k as int));
                match &content[k] {
                    MakerBlock::ToolResult { tool_use_id, content: result } => {
                        let summary = summarize_tool_result(result);
                        out.push(
                            AgentEvent::MakerToolResult { tool_use_id: tool_use_id.clone(), summary },
                        );
                    },
                    _ => {},
                }
                k = k + 1;
                assert(events_view(out@) =~= user_events(content@.subrange(0, k as int)));
            }
            assert(content@.subrange(0, content@.len() as int) =~= content@);
        },
        _ => {},
    }
    assert(events_view(out@) =~= maker_events(*ev));
    out
}

/// The canonical event of one critic event, if it carries one: non-empty reasoning and
/// messages; a command with a non-empty command text that is `in_progress` or `completed`.
pub open spec fn critic_event(ev: CriticEvent) -> Option<EventView> {
    match ev {
        CriticEvent::ItemCompleted { item } => match item {
            CriticItem::Reasoning { text: Some(t) } => if t@.len() > 0 {
                Some(EventView::CriticReasoning(t@))
            } else {
                None
            },
            CriticItem::AgentMessage { text: Some(t) } => if t@.len() > 0 {
                Some(EventView::CriticLine(t@))
            } else {
                None
            },
            CriticItem::CommandExecution { command: Some(c), status, exit_code, output } => {
                if c@.len() == 0 {
                    None
                } else if opt_view(status) == Some("in_progress"@) {
                    Some(EventView::CriticCommand { command: c@, status: StatusView::InProgress })
                } else if opt_view(status) == Some("completed"@) {
                    Some(
                        EventView::CriticCommand {
                            command: c@,
                            status: StatusView::Completed {
                                exit_code: match exit_code {
                                    Some(x) => x,
                                    None => 0,
                                },
                                output_summary: match output {
                                    None => Seq::empty(),
                                    Some(o) => line_summary(o@),
                                },
                            },
                        },
                    )
                } else {
                    None
                }
            },
            _ => None,
        },
        _ => None,
    }
}

/// Whether an optional text holds exactly `want`.
fn opt_is(o: &Option<String>, want: &str) -> (r: bool)
    ensures
        r == (opt_view(*o) == Some(want@)),
{
    match o {
        Some(s) => crate::text::same_text(s.as_str(), want),
        None => false,
    }
}

/// Turns one critic event into the canonical event it carries, if any.
pub fn decode_critic_event(ev: &CriticEvent) -> (r: Option<AgentEvent>)
    ensures
        match r {
            Some(e) => critic_event(*ev) == Some(e@),
            None => critic_event(*ev) is None,
        },
{
    match ev {
        CriticEvent::ItemCompleted { item } => match item {
            CriticItem::Reasoning { text: Some(t) } => {
                if t.as_str().is_empty() {
                    None
                } else {
                    Some(AgentEvent::CriticReasoning(t.clone()))
                }
            },
            CriticItem::AgentMessage { text: Some(t) } => {
                if t.as_str().is_empty() {
                    None
                } else {
                    Some(AgentEvent::CriticLine(t.clone()))
                }
            },
            CriticItem::CommandExecution { command: Some(c), status, exit_code, output } => {
                if c.as_str().is_empty() {
                    None
                } else if opt_is(status, "in_progress") {
                    Some(
                        AgentEvent::CriticCommand {
                            command: c.clone(),
                            status: CriticCommandStatus::InProgress,
                        },
                    )
                } else if opt_is(status, "completed") {
                    let code = match exit_code {
                        Some(x) => *x,
                        None => 0,
                    };
                    Some(
                        AgentEvent::CriticCommand {
                            command: c.clone(),
                            status: CriticCommandStatus::Completed {
                                exit_code: code,
                                output_summary: summarize_command_output(output),
                            },
                        },
                    )
                } else {
                    None
                }
            },
            _ => None,
        },
        _ => None,
    }
}

} // verus!
