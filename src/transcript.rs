//! The transcript model: what agents emit, and its plain-text form.
use vstd::prelude::*;

use crate::text::{
    completion_token, is_space, navigator_signaled_done, signed_decimal, signed_text, split_lines,
    text_lines, trim_end, trim_end_text, trim_start, trimmed, truncate_line, truncated_line,
    upper_of,
};

verus! {

/// A tool call with its name and a summary of the result.
#[derive(Clone, Debug)]
pub struct ToolCall {
    pub id: String,
    pub name: String,
    pub result_summary: Option<String>,
}

/// Where a critic's shell command stands.
#[derive(Clone, Debug)]
pub enum CriticCommandStatus {
    InProgress,
    Completed { exit_code: i32, output_summary: String },
}

/// A shell command that the critic ran, with its status.
#[derive(Clone, Debug)]
pub struct CriticCommand {
    pub command: String,
    pub status: CriticCommandStatus,
}

/// One unit of agent output.
#[derive(Clone, Debug)]
pub enum ContentItem {
    Text(String),
    ToolCall(ToolCall),
    Reasoning(String),
    Command(CriticCommand),
}

/// One committed message of the transcript.
#[derive(Clone)]
pub struct Message {
    pub role: String,
    pub turn: usize,
    pub items: Vec<ContentItem>,
}

/// What a command status holds, as plain values.
pub enum StatusView {
    InProgress,
    Completed { exit_code: i32, output_summary: Seq<char> },
}

/// What a content item holds, as plain values.
pub enum ItemView {
    Text(Seq<char>),
    ToolCall { id: Seq<char>, name: Seq<char>, result_summary: Option<Seq<char>> },
    Reasoning(Seq<char>),
    Command { command: Seq<char>, status: StatusView },
}

/// The plain value of an optional text.
pub open spec fn opt_view(o: Option<String>) -> Option<Seq<char>> {
    match o {
        Some(s) => Some(s@),
        None => None,
    }
}

impl View for CriticCommandStatus {
    type V = StatusView;

    open spec fn view(&self) -> StatusView {
        match self {
            CriticCommandStatus::InProgress => StatusView::InProgress,
            CriticCommandStatus::Completed { exit_code, output_summary } => StatusView::Completed {
                exit_code: *exit_code,
                output_summary: output_summary@,
            },
        }
    }
}

impl View for ContentItem {
    type V = ItemView;

    open spec fn view(&self) -> ItemView {
        match self {
            ContentItem::Text(t) => ItemView::Text(t@),
            ContentItem::ToolCall(tc) => ItemView::ToolCall {
                id: tc.id@,
                name: tc.name@,
                result_summary: opt_view(tc.result_summary),
            },
            ContentItem::Reasoning(t) => ItemView::Reasoning(t@),
            ContentItem::Command(c) => ItemView::Command { command: c.command@, status: c.status@ },
        }
    }
}

/// The plain values of a sequence of items.
pub open spec fn items_view(items: Seq<ContentItem>) -> Seq<ItemView> {
    items.map_values(|i: ContentItem| i@)
}

/// The line shown for a tool call.
pub open spec fn tool_call_line(tc: ToolCall) -> Seq<char> {
    let result = match tc.result_summary {
        Some(s) => s@,
        None => "..."@,
    };
    "  ["@ + tc.name@ + "] "@ + truncated_line(result, 80) + "\n"@
}

/// The line shown for a critic command, without its line feed.
pub open spec fn command_status_text(cmd: CriticCommand) -> Seq<char> {
    match cmd.status {
        CriticCommandStatus::InProgress => "  running: "@ + truncated_line(cmd.command@, 60),
        CriticCommandStatus::Completed { exit_code, output_summary } => {
            if output_summary@.len() == 0 {
                "  [exit "@ + signed_decimal(exit_code as int) + "] "@ + truncated_line(
                    cmd.command@,
                    60,
                )
            } else {
                "  [exit "@ + signed_decimal(exit_code as int) + "] "@ + truncated_line(
                    cmd.command@,
                    40,
                ) + " -> "@ + truncated_line(output_summary@, 30)
            }
        },
    }
}

/// The lines shown for reasoning, one per line of it.
pub open spec fn reasoning_block(lines: Seq<Seq<char>>) -> Seq<char>
    decreases lines.len(),
{
    if lines.len() == 0 {
        Seq::empty()
    } else {
        reasoning_block(lines.drop_last()) + "  thinking: "@ + truncated_line(lines.last(), 80)
            + "\n"@
    }
}

/// `out` with a line feed added unless it is empty or already ends in one.
pub open spec fn line_start(out: Seq<char>) -> Seq<char> {
    if out.len() > 0 && out.last() != '\n' {
        out.push('\n')
    } else {
        out
    }
}

/// `out` followed by the plain-text form of `item`.
pub open spec fn append_item(out: Seq<char>, item: ContentItem) -> Seq<char> {
    match item {
        ContentItem::Text(t) => {
            let o = line_start(out) + t@;
            if t@.len() > 0 && t@.last() == '\n' {
                o
            } else {
                o.push('\n')
            }
        },
        ContentItem::ToolCall(tc) => out + tool_call_line(tc),
        ContentItem::Reasoning(t) => out + reasoning_block(text_lines(t@)),
        ContentItem::Command(cmd) => out + command_status_text(cmd) + "\n"@,
    }
}

/// The plain-text form of `items`, before trailing white space is removed.
pub open spec fn render_items(items: Seq<ContentItem>) -> Seq<char>
    decreases items.len(),
{
    if items.len() == 0 {
        Seq::empty()
    } else {
        append_item(render_items(items.drop_last()), items.last())
    }
}

/// The plain-text form of a message, as it is shown and forwarded.
pub open spec fn message_text(items: Seq<ContentItem>) -> Seq<char> {
    trim_end(render_items(items))
}

/// The line shown for a critic command, without its line feed.
pub fn command_status_line(cmd: &CriticCommand) -> (r: String)
    ensures
        r@ == command_status_text(*cmd),
{
    match &cmd.status {
        CriticCommandStatus::InProgress => {
            let mut r = String::from_str("  running: ");
            r.append(truncate_line(cmd.command.as_str(), 60).as_str());
            r
        },
        CriticCommandStatus::Completed { exit_code, output_summary } => {
            let mut r = String::from_str("  [exit ");
            r.append(signed_text(*exit_code as i64).as_str());
            r.append("] ");
            if output_summary.as_str().is_empty() {
                r.append(truncate_line(cmd.command.as_str(), 60).as_str());
            } else {
                r.append(truncate_line(cmd.command.as_str(), 40).as_str());
                r.append(" -> ");
                r.append(truncate_line(output_summary.as_str(), 30).as_str());
            }
            r
        },
    }
}

/// Writes the plain-text form of `item` at the end of `out`.
fn push_item(out: &mut String, item: &ContentItem)
    ensures
        final(out)@ == append_item(old(out)@, *item),
{
    match item {
        ContentItem::Text(text) => {
            let n = out.as_str().unicode_len();
            if n > 0 && out.as_str().get_char(n - 1) != '\n' {
                out.push('\n');
            }
            out.append(text.as_str());
            let m = text.as_str().unicode_len();
            if !(m > 0 && text.as_str().get_char(m - 1) == '\n') {
                out.push('\n');
            }
        },
        ContentItem::ToolCall(tc) => {
            let result = match &tc.result_summary {
                Some(s) => truncate_line(s.as_str(), 80),
                None => truncate_line("...", 80),
            };
            out.append("  [");
            out.append(tc.name.as_str());
            out.append("] ");
            out.append(result.as_str());
            out.append("\n");
            assert(final(out)@ =~= old(out)@ + tool_call_line(*tc));
        },
        ContentItem::Reasoning(text) => {
            let lines = split_lines(text.as_str());
            let ghost all = text_lines(text@);
            let mut k: usize = 0;
            assert(all.subrange(0, 0) =~= Seq::<Seq<char>>::empty());
            assert(old(out)@ + reasoning_block(Seq::empty()) =~= old(out)@);
            while k < lines.len()
                invariant
                    k <= lines@.len(),
                    lines@.len() == all.len(),
                    forall|j: int| 0 <= j < lines@.len() ==> #[trigger] lines@[j]@ == all[j],
                    out@ == old(out)@ + reasoning_block(all.subrange(0, k as int)),
                decreases lines@.len() - k,
            {
                out.append("  thinking: ");
                out.append(truncate_line(lines[k].as_str(), 80).as_str());
                out.append("\n");
                assert(all.subrange(0, k + 1).drop_last() =~= all.subrange(0, k as int));
                k = k + 1;
                assert(out@ =~= old(out)@ + reasoning_block(all.subrange(0, k as int)));
            }
            assert(all.subrange(0, lines@.len() as int) =~= all);
        },
        ContentItem::Command(cmd) => {
            out.append(command_status_line(cmd).as_str());
            out.append("\n");
            assert(final(out)@ =~= old(out)@ + command_status_text(*cmd) + "\n"@);
        },
    }
}

/// Formats message items for forwarding to the other agent: the same text that is shown.
pub fn format_message_output(items: &[ContentItem]) -> (r: String)
    ensures
        r@ == message_text(items@),
{
    let mut out = String::new();
    let mut k: usize = 0;
    assert(items@.subrange(0, 0) =~= Seq::<ContentItem>::empty());
    while k < items.len()
        invariant
            k <= items@.len(),
            out@ == render_items(items@.subrange(0, k as int)),
        decreases items@.len() - k,
    {
        push_item(&mut out, &items[k]);
        assert(items@.subrange(0, k + 1).drop_last() =~= items@.subrange(0, k as int));
        k = k + 1;
    }
    assert(items@.subrange(0, items@.len() as int) =~= items@);
    trim_end_text(out.as_str())
}

/// Whether a critic reply, trimmed, is the completion token in any letter case.
pub open spec fn is_completion(s: Seq<char>) -> bool {
    trimmed(s) == completion_token() || upper_of(trimmed(s)) == completion_token()
}

/// Whether one of the text items of a critic message is, trimmed, the completion token.
pub fn critic_signaled_done(items: &[ContentItem]) -> (r: bool)
    ensures
        r == exists|k: int|
            0 <= k < items@.len() && #[trigger] items@[k] is Text && is_completion(
                items@[k]->Text_0@,
            ),
{
    let mut k: usize = 0;
    while k < items.len()
        invariant
            k <= items@.len(),
            forall|j: int|
                0 <= j < k ==> !(#[trigger] items@[j] is Text && is_completion(
                    items@[j]->Text_0@,
                )),
        decreases items@.len() - k,
    {
        if let ContentItem::Text(text) = &items[k] {
            if navigator_signaled_done(text.as_str()) {
                return true;
            }
        }
        k = k + 1;
    }
    false
}

/// Whether every character of `s` is white space.
pub open spec fn all_space(s: Seq<char>) -> bool {
    forall|k: int| 0 <= k < s.len() ==> is_space(#[trigger] s[k])
}

proof fn lemma_trim_start_skips(p: Seq<char>, x: Seq<char>)
    requires
        all_space(p),
    ensures
        trim_start(p + x) == trim_start(x),
    decreases p.len(),
{
    if p.len() > 0 {
        assert((p + x).drop_first() =~= p.drop_first() + x);
        lemma_trim_start_skips(p.drop_first(), x);
    } else {
        assert(p + x =~= x);
    }
}

proof fn lemma_trim_end_skips(x: Seq<char>, q: Seq<char>)
    requires
        all_space(q),
    ensures
        trim_end(x + q) == trim_end(x),
    decreases q.len(),
{
    if q.len() > 0 {
        assert((x + q).drop_last() =~= x + q.drop_last());
        lemma_trim_end_skips(x, q.drop_last());
    } else {
        assert(x + q =~= x);
    }
}

proof fn lemma_trim_start_append(t: Seq<char>, q: Seq<char>)
    ensures
        trim_start(t).len() > 0 ==> trim_start(t + q) == trim_start(t) + q,
        trim_start(t).len() == 0 ==> trim_start(t + q) == trim_start(q),
    decreases t.len(),
{
    if t.len() == 0 {
        assert(t + q =~= q);
    } else if is_space(t[0]) {
        assert((t + q).drop_first() =~= t.drop_first() + q);
        lemma_trim_start_append(t.drop_first(), q);
    } else {
        assert((t + q)[0] == t[0]);
    }
}

proof fn lemma_all_space_trims_away(q: Seq<char>)
    requires
        all_space(q),
    ensures
        trim_start(q).len() == 0,
    decreases q.len(),
{
    if q.len() > 0 {
        lemma_all_space_trims_away(q.drop_first());
    }
}

/// White space around a text changes nothing of what it trims to.
pub proof fn lemma_trimmed_ignores_surrounding_space(p: Seq<char>, t: Seq<char>, q: Seq<char>)
    requires
        all_space(p),
        all_space(q),
    ensures
        trimmed(p + t + q) == trimmed(t),
{
    assert(p + t + q =~= p + (t + q));
    lemma_trim_start_skips(p, t + q);
    lemma_trim_start_append(t, q);
    if trim_start(t).len() > 0 {
        lemma_trim_end_skips(trim_start(t), q);
    } else {
        lemma_all_space_trims_away(q);
        assert(trim_start(q) =~= Seq::<char>::empty());
    }
}

/// Completion is decided on the trimmed reply: white space around a reply does not
/// change whether it completes, and the token itself, with any white space around it,
/// completes.
pub proof fn lemma_completion_on_trimmed_reply(p: Seq<char>, t: Seq<char>, q: Seq<char>)
    requires
        all_space(p),
        all_space(q),
    ensures
        is_completion(p + t + q) == is_completion(t),
        is_completion(p + completion_token() + q),
{
    lemma_trimmed_ignores_surrounding_space(p, t, q);
    lemma_trimmed_ignores_surrounding_space(p, completion_token(), q);
    reveal_strlit("ALL_DONE");
    let tok = completion_token();
    assert(trim_start(tok) == tok);
    assert(trim_end(tok) == tok);
}

/// How a display line is styled.
#[derive(PartialEq, Eq, Structural, Clone, Copy, Debug)]
pub enum LineKind {
    Content,
    Tool,
    Reasoning,
    Command,
}

/// One line of the transcript view.
pub struct DisplayLine {
    pub kind: LineKind,
    pub text: String,
}

/// Each line of `lines`, cut to `width` characters after `prefix`, as a display line of
/// kind `kind`.
pub open spec fn prefixed_lines(lines: Seq<Seq<char>>, kind: LineKind, prefix: Seq<char>, width: nat) -> Seq<(LineKind, Seq<char>)>
    decreases lines.len(),
{
    if lines.len() == 0 {
        Seq::empty()
    } else {
        prefixed_lines(lines.drop_last(), kind, prefix, width).push((kind, prefix + truncated_line(lines.last(), width)))
    }
}

/// The display lines of one item: each text line cut to 500 characters; one line per
/// tool call and per command; each reasoning line cut to 80 characters.
pub open spec fn item_display(item: ContentItem) -> Seq<(LineKind, Seq<char>)> {
    match item {
        ContentItem::Text(t) => prefixed_lines(text_lines(t@), LineKind::Content, Seq::empty(), 500),
        ContentItem::ToolCall(tc) => seq![(LineKind::Tool, tool_call_line(tc).drop_last())],
        ContentItem::Reasoning(t) => prefixed_lines(text_lines(t@), LineKind::Reasoning, "  thinking: "@, 80),
        ContentItem::Command(c) => seq![(LineKind::Command, command_status_text(c))],
    }
}

/// The display lines of a sequence of items, in order.
pub open spec fn items_display(items: Seq<ContentItem>) -> Seq<(LineKind, Seq<char>)>
    decreases items.len(),
{
    if items.len() == 0 {
        Seq::empty()
    } else {
        items_display(items.drop_last()) + item_display(items.last())
    }
}

/// The plain values of display lines.
pub open spec fn display_view(lines: Seq<DisplayLine>) -> Seq<(LineKind, Seq<char>)> {
    lines.map_values(|l: DisplayLine| (l.kind, l.text@))
}

/// Adds the lines of `text`, each cut to `width` characters after `prefix`.
fn push_prefixed(out: &mut Vec<DisplayLine>, text: &str, kind: LineKind, prefix: &str, width: usize)
    ensures
        display_view(final(out)@) == display_view(old(out)@) + prefixed_lines(text_lines(text@), kind, prefix@, width as nat),
{
    let lines = split_lines(text);
    let ghost all = text_lines(text@);
    let mut k: usize = 0;
    assert(all.subrange(0, 0) =~= Seq::<Seq<char>>::empty());
    assert(display_view(out@) =~= display_view(old(out)@) + prefixed_lines(all.subrange(0, 0), kind, prefix@, width as nat));
    while k < lines.len()
        invariant
            k <= lines@.len(),
            lines@.len() == all.len(),
            forall|j: int| 0 <= j < lines@.len() ==> #[trigger] lines@[j]@ == all[j],
            display_view(out@) == display_view(old(out)@) + prefixed_lines(all.subrange(0, k as int), kind, prefix@, width as nat),
        decreases lines@.len() - k,
    {
        let ghost before = out@;
        let mut line = String::from_str(prefix);
        line.append(truncate_line(lines[k].as_str(), width).as_str());
        let ghost lv = line@;
        out.push(DisplayLine { kind, text: line });
        assert(display_view(out@) =~= display_view(before).push((kind, lv)));
        assert(all.subrange(0, k + 1).drop_last() =~= all.subrange(0, k as int));
        k = k + 1;
        assert(display_view(out@) =~= display_view(old(out)@) + prefixed_lines(all.subrange(0, k as int), kind, prefix@, width as nat));
    }
    assert(all.subrange(0, lines@.len() as int) =~= all);
}

/// Renders message items to the lines of the transcript view.
pub fn render_items_to_lines(items: &[ContentItem], lines: &mut Vec<DisplayLine>)
    ensures
        display_view(final(lines)@) == display_view(old(lines)@) + items_display(items@),
{
    let mut k: usize = 0;
    assert(items@.subrange(0, 0) =~= Seq::<ContentItem>::empty());
    assert(display_view(lines@) =~= display_view(old(lines)@) + items_display(items@.subrange(0, 0)));
    while k < items.len()
        invariant
            k <= items@.len(),
            display_view(lines@) == display_view(old(lines)@) + items_display(items@.subrange(0, k as int)),
        decreases items@.len() - k,
    {
        let ghost before = display_view(lines@);
        match &items[k] {
            ContentItem::Text(t) => {
                proof {
                    reveal_strlit("");
                }
                push_prefixed(lines, t.as_str(), LineKind::Content, "", 500);
                assert(""@ =~= Seq::<char>::empty());
            },
            ContentItem::ToolCall(tc) => {
                let result = match &tc.result_summary {
                    Some(s) => truncate_line(s.as_str(), 80),
                    None => truncate_line("...", 80),
                };
                let mut line = String::from_str("  [");
                line.append(tc.name.as_str());
                line.append("] ");
                line.append(result.as_str());
                proof {
                    reveal_strlit("\n");
                    assert(tool_call_line(*tc).drop_last() =~= line@);
                }
                let ghost lv = line@;
                lines.push(DisplayLine { kind: LineKind::Tool, text: line });
                assert(display_view(lines@) =~= before.push((LineKind::Tool, lv)));
            },
            ContentItem::Reasoning(t) => {
                push_prefixed(lines, t.as_str(), LineKind::Reasoning, "  thinking: ", 80);
            },
            ContentItem::Command(c) => {
                let line = command_status_line(c);
                let ghost lv = line@;
                lines.push(DisplayLine { kind: LineKind::Command, text: line });
                assert(display_view(lines@) =~= before.push((LineKind::Command, lv)));
            },
        }
        assert(display_view(lines@) =~= before + item_display(items@[k as int]));
        assert(items@.subrange(0, k + 1).drop_last() =~= items@.subrange(0, k as int));
        assert(display_view(lines@) =~= display_view(old(lines)@) + items_display(items@.subrange(0, k + 1)));
        k = k + 1;
    }
    assert(items@.subrange(0, items@.len() as int) =~= items@);
}

} // verus!
