use leonard::decode::{
    decode_maker_event, decode_critic_event, summarize_tool_result, AgentEvent, ListEntry,
    MakerBlock, MakerEvent, CriticEvent, CriticItem, ToolResultContent,
};
use leonard::transcript::CriticCommandStatus;

fn text(s: &str) -> Option<ToolResultContent> {
    Some(ToolResultContent::Text(s.to_string()))
}

fn entry(kind: &str, text: Option<&str>) -> ListEntry {
    ListEntry { kind: Some(kind.to_string()), text: text.map(|t| t.to_string()) }
}

#[test]
fn test_summarize_tool_result_none() {
    let result = summarize_tool_result(&None);
    assert_eq!(result, "done");
}

#[test]
fn test_summarize_tool_result_short_string() {
    let content = text("Short message");
    let result = summarize_tool_result(&content);
    assert_eq!(result, "Short message");
}

#[test]
fn test_summarize_tool_result_long_string() {
    let long_text = "x".repeat(150);
    let content = text(&long_text);
    let result = summarize_tool_result(&content);

    assert!(result.len() <= 103);
    assert!(result.ends_with("..."));
}

#[test]
fn test_summarize_tool_result_multiline_short() {
    let content = text("Line 1\nLine 2\nLine 3");
    let result = summarize_tool_result(&content);
    assert!(result.contains("Line"));
}

#[test]
fn test_summarize_tool_result_multiline_long() {
    let content = text("Line 1\nLine 2\nLine 3\nLine 4\nLine 5");
    let result = summarize_tool_result(&content);
    assert_eq!(result, "5 lines");
}

#[test]
fn test_summarize_tool_result_array_with_text() {
    let content = Some(ToolResultContent::List(vec![
        entry("text", Some("First message")),
        entry("text", Some("Second message")),
    ]));
    let result = summarize_tool_result(&content);
    assert!(result.contains("First message"));
    assert_eq!(result, "First message Second message");
}

#[test]
fn test_summarize_tool_result_array_without_text() {
    let content = Some(ToolResultContent::List(vec![entry("image", None), entry("other", None)]));
    let result = summarize_tool_result(&content);
    assert_eq!(result, "2 items");
}

#[test]
fn test_summarize_tool_result_other_json() {
    let content = Some(ToolResultContent::Other("{\"count\":42,\"status\":\"ok\"}".to_string()));
    let result = summarize_tool_result(&content);
    assert!(result.len() <= 50);
    assert_eq!(result, "{\"count\":42,\"status\":\"ok\"}");
}

#[test]
fn summary_of_each_kind() {
    assert_eq!(summarize_tool_result(&None), "done");
    assert_eq!(summarize_tool_result(&text("first\nsecond")), "first\nsecond");
    assert_eq!(summarize_tool_result(&text("1\n2\n3\n4\n5")), "5 lines");
    let two_objects = Some(ToolResultContent::List(vec![entry("image", None), entry("other", None)]));
    assert_eq!(summarize_tool_result(&two_objects), "2 items");
    let long = "y".repeat(60);
    assert_eq!(
        summarize_tool_result(&Some(ToolResultContent::Other(long))),
        format!("{}...", "y".repeat(50))
    );
    // a text entry without text is skipped; a non-text entry with text is too
    let mixed = Some(ToolResultContent::List(vec![
        entry("text", None),
        entry("image", Some("ignored")),
        entry("text", Some("kept")),
    ]));
    assert_eq!(summarize_tool_result(&mixed), "kept");
    assert_eq!(summarize_tool_result(&Some(ToolResultContent::List(vec![]))), "0 items");
}

#[test]
fn maker_events_become_canonical_in_order() {
    let ev = MakerEvent::Assistant {
        content: vec![
            MakerBlock::Text { text: "Plan".to_string() },
            MakerBlock::ToolUse { id: "t1".to_string(), name: "Read".to_string() },
            MakerBlock::Unknown,
            MakerBlock::Text { text: "Done".to_string() },
        ],
    };
    let out = decode_maker_event(&ev);
    assert_eq!(out.len(), 3);
    assert!(matches!(&out[0], AgentEvent::MakerLine(t) if t == "Plan"));
    assert!(matches!(&out[1], AgentEvent::MakerToolCall(tc) if tc.id == "t1" && tc.name == "Read" && tc.result_summary.is_none()));
    assert!(matches!(&out[2], AgentEvent::MakerLine(t) if t == "Done"));

    let user = MakerEvent::User {
        content: vec![MakerBlock::ToolResult {
            tool_use_id: "t1".to_string(),
            content: text("1\n2\n3\n4"),
        }],
    };
    let out = decode_maker_event(&user);
    assert_eq!(out.len(), 1);
    assert!(matches!(&out[0], AgentEvent::MakerToolResult { tool_use_id, summary } if tool_use_id == "t1" && summary == "4 lines"));

    assert!(decode_maker_event(&MakerEvent::Result { result: "x".to_string() }).is_empty());
    assert!(decode_maker_event(&MakerEvent::Unknown).is_empty());
}

#[test]
fn critic_events_become_canonical() {
    let reasoning = CriticEvent::ItemCompleted { item: CriticItem::Reasoning { text: Some("hmm".to_string()) } };
    assert!(matches!(decode_critic_event(&reasoning), Some(AgentEvent::CriticReasoning(t)) if t == "hmm"));
    let empty = CriticEvent::ItemCompleted { item: CriticItem::AgentMessage { text: Some(String::new()) } };
    assert!(decode_critic_event(&empty).is_none());
    let msg = CriticEvent::ItemCompleted { item: CriticItem::AgentMessage { text: Some("ok".to_string()) } };
    assert!(matches!(decode_critic_event(&msg), Some(AgentEvent::CriticLine(t)) if t == "ok"));
    let running = CriticEvent::ItemCompleted {
        item: CriticItem::CommandExecution {
            command: Some("ls".to_string()),
            status: Some("in_progress".to_string()),
            exit_code: None,
            output: None,
        },
    };
    assert!(matches!(decode_critic_event(&running), Some(AgentEvent::CriticCommand { command, status: CriticCommandStatus::InProgress }) if command == "ls"));
    let done = CriticEvent::ItemCompleted {
        item: CriticItem::CommandExecution {
            command: Some("ls".to_string()),
            status: Some("completed".to_string()),
            exit_code: Some(2),
            output: Some("a\nb".to_string()),
        },
    };
    assert!(matches!(decode_critic_event(&done), Some(AgentEvent::CriticCommand { command, status: CriticCommandStatus::Completed { exit_code: 2, output_summary } }) if command == "ls" && output_summary == "a\nb"));
    let other = CriticEvent::ItemCompleted {
        item: CriticItem::CommandExecution {
            command: Some("ls".to_string()),
            status: Some("failed".to_string()),
            exit_code: None,
            output: None,
        },
    };
    assert!(decode_critic_event(&other).is_none());
    assert!(decode_critic_event(&CriticEvent::Unknown).is_none());
}
