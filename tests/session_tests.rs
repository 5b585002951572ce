use leonard::decode::{decode_maker_event, AgentEvent, MakerBlock, MakerEvent};
use leonard::invoke::{
    api_key_status, check_prompt, chrono_lite_timestamp, collect_maker_output,
    collect_critic_output, invocation_error, join_lines, maker_args, critic_args,
    validate_working_directory, DirError, InvokeError, KeyStatus,
};
use leonard::relay::{Relay, RelayError};
use leonard::session::{Agent, App, AppState, KeyInput, KeyOutcome, RelaySettings};
use leonard::transcript::{
    critic_signaled_done, format_message_output, render_items_to_lines, ContentItem,
    CriticCommand, CriticCommandStatus, DisplayLine, LineKind, ToolCall,
};

fn settings(max_forward_bytes: usize) -> RelaySettings {
    RelaySettings { max_forward_bytes, strip_ansi: true, resume_session: false }
}

fn call(id: &str, name: &str) -> ToolCall {
    ToolCall { id: id.to_string(), name: name.to_string(), result_summary: None }
}

fn summary_of(app: &App, k: usize) -> Option<String> {
    match &app.streaming_items[k] {
        ContentItem::ToolCall(tc) => tc.result_summary.clone(),
        _ => panic!("not a tool call"),
    }
}

#[test]
fn new_app_waits_for_task_without_one() {
    let app = App::new(None, 3);
    assert!(app.state == AppState::WaitingForTask);
    let app = App::new(Some("t".to_string()), 3);
    assert!(app.state == AppState::Running);
    assert_eq!(app.turn, 0);
    assert!(app.messages.is_empty());
}

#[test]
fn streaming_text_joins_lines() {
    let mut app = App::new(None, 0);
    app.start_streaming("maker");
    app.append_streaming_text("one");
    app.append_streaming_text("two");
    app.add_streaming_tool_call(call("a", "Read"));
    app.append_streaming_text("three");
    assert_eq!(app.streaming_items.len(), 3);
    assert!(matches!(&app.streaming_items[0], ContentItem::Text(t) if t == "one\ntwo"));
    assert!(matches!(&app.streaming_items[2], ContentItem::Text(t) if t == "three"));
}

#[test]
fn tool_result_updates_only_the_matching_call() {
    let mut app = App::new(None, 0);
    app.start_streaming("maker");
    app.add_streaming_tool_call(call("a", "Read"));
    app.add_streaming_tool_call(call("b", "Edit"));
    app.append_streaming_text("between");
    app.add_streaming_tool_call(call("c", "Bash"));
    app.update_streaming_tool_result("b", "ok".to_string());
    assert_eq!(summary_of(&app, 0), None);
    assert_eq!(summary_of(&app, 1), Some("ok".to_string()));
    assert_eq!(summary_of(&app, 3), None);
    app.update_streaming_tool_result("zzz", "lost".to_string());
    assert_eq!(summary_of(&app, 0), None);
    assert_eq!(summary_of(&app, 3), None);
}

#[test]
fn commands_update_in_place_by_text() {
    let mut app = App::new(None, 0);
    app.start_streaming("critic");
    app.add_streaming_command("ls".to_string(), CriticCommandStatus::InProgress);
    app.add_streaming_reasoning("think".to_string());
    app.add_streaming_command(
        "ls".to_string(),
        CriticCommandStatus::Completed { exit_code: 0, output_summary: "a".to_string() },
    );
    assert_eq!(app.streaming_items.len(), 2);
    assert!(matches!(&app.streaming_items[0], ContentItem::Command(c) if matches!(c.status, CriticCommandStatus::Completed { exit_code: 0, .. })));
}

#[test]
fn finish_streaming_hands_out_buffer() {
    let mut app = App::new(None, 0);
    assert!(app.finish_streaming().is_none());
    app.start_streaming("maker");
    app.append_streaming_text("x");
    let (role, items) = app.finish_streaming().unwrap();
    assert_eq!(role, "maker");
    assert_eq!(items.len(), 1);
    assert!(app.streaming_items.is_empty());
    assert!(app.streaming_role.is_none());
    app.add_message(&role, items);
    assert_eq!(app.messages.len(), 1);
    assert_eq!(app.messages[0].turn, 0);
}

#[test]
fn scrolling_stays_in_range() {
    let mut app = App::new(None, 0);
    app.total_lines = 30;
    app.scroll_down(5, 10);
    assert_eq!(app.scroll, 5);
    app.scroll_down(100, 10);
    assert_eq!(app.scroll, 20);
    app.scroll_up(3);
    assert_eq!(app.scroll, 17);
    app.scroll_up(100);
    assert_eq!(app.scroll, 0);
    app.scroll_to_bottom(10);
    assert_eq!(app.scroll, 20);
    app.scroll = u16::MAX - 1;
    app.scroll_down(u16::MAX, 10);
    assert_eq!(app.scroll, 20);
    app.scroll_to_bottom(50);
    assert_eq!(app.scroll, 0);
}

#[test]
fn format_message_output_matches_display_form() {
    let items = vec![
        ContentItem::Text("Hello".to_string()),
        ContentItem::ToolCall(ToolCall { id: "1".to_string(), name: "Read".to_string(), result_summary: Some("ok".to_string()) }),
        ContentItem::ToolCall(call("2", "Edit")),
        ContentItem::Reasoning("a\nb".to_string()),
        ContentItem::Command(CriticCommand { command: "ls".to_string(), status: CriticCommandStatus::InProgress }),
        ContentItem::Command(CriticCommand {
            command: "make".to_string(),
            status: CriticCommandStatus::Completed { exit_code: -1, output_summary: String::new() },
        }),
        ContentItem::Command(CriticCommand {
            command: "cargo".to_string(),
            status: CriticCommandStatus::Completed { exit_code: 101, output_summary: "3 lines".to_string() },
        }),
        ContentItem::Text("Bye\n\n".to_string()),
    ];
    assert_eq!(
        format_message_output(&items),
        "Hello\n  [Read] ok\n  [Edit] ...\n  thinking: a\n  thinking: b\n  running: ls\n  [exit -1] make\n  [exit 101] cargo -> 3 lines\nBye"
    );
    assert_eq!(format_message_output(&[]), "");
}

#[test]
fn display_lines_follow_items() {
    let items = vec![
        ContentItem::Text("a\nb".to_string()),
        ContentItem::ToolCall(call("1", "Read")),
        ContentItem::Reasoning("r".to_string()),
    ];
    let mut lines: Vec<DisplayLine> = Vec::new();
    render_items_to_lines(&items, &mut lines);
    let got: Vec<(LineKind, String)> = lines.into_iter().map(|l| (l.kind, l.text)).collect();
    assert_eq!(
        got,
        vec![
            (LineKind::Content, "a".to_string()),
            (LineKind::Content, "b".to_string()),
            (LineKind::Tool, "  [Read] ...".to_string()),
            (LineKind::Reasoning, "  thinking: r".to_string()),
        ]
    );
}

#[test]
fn critic_done_needs_exact_token() {
    assert!(critic_signaled_done(&[ContentItem::Reasoning("x".to_string()), ContentItem::Text(" all_done\n".to_string())]));
    assert!(!critic_signaled_done(&[ContentItem::Text("ALL_DONE but more".to_string())]));
    assert!(!critic_signaled_done(&[ContentItem::Reasoning("ALL_DONE".to_string())]));
}

fn run_to_critic(app: &mut App, cfg: &RelaySettings) -> leonard::session::Launch {
    app.start_streaming("maker");
    app.request_in_flight = true;
    assert!(app.handle_agent_event(AgentEvent::MakerLine("did it".to_string()), cfg).is_none());
    app.handle_agent_event(AgentEvent::MakerDone, cfg).unwrap()
}

#[test]
fn interactive_turns_alternate_and_stop_at_budget() {
    let cfg = settings(1000);
    let mut app = App::new(Some("task".to_string()), 2);
    let l = run_to_critic(&mut app, &cfg);
    assert!(l.agent == Agent::Critic);
    assert!(!l.continuation);
    assert!(l.prompt.contains("## Original Task\ntask"));
    assert!(l.prompt.contains("did it"));
    assert!(app.request_in_flight);
    assert!(app.handle_agent_event(AgentEvent::CriticLine("fix more".to_string()), &cfg).is_none());
    let l = app.handle_agent_event(AgentEvent::CriticDone, &cfg).unwrap();
    assert!(l.agent == Agent::Maker);
    assert!(l.continuation);
    assert_eq!(l.prompt, "fix more");
    assert_eq!(app.turn, 1);
    assert!(app.handle_agent_event(AgentEvent::MakerLine("again".to_string()), &cfg).is_none());
    let l = app.handle_agent_event(AgentEvent::MakerDone, &cfg).unwrap();
    assert!(l.continuation);
    assert!(l.prompt.starts_with("The maker has responded"));
    app.handle_agent_event(AgentEvent::CriticLine("still more".to_string()), &cfg);
    assert!(app.handle_agent_event(AgentEvent::CriticDone, &cfg).is_none());
    assert_eq!(app.turn, 2);
    assert!(app.state == AppState::Finished);
    assert_eq!(app.messages.len(), 4);
}

#[test]
fn interactive_completion_finishes() {
    let cfg = settings(1000);
    let mut app = App::new(Some("task".to_string()), 0);
    run_to_critic(&mut app, &cfg);
    app.handle_agent_event(AgentEvent::CriticLine("  ALL_DONE ".to_string()), &cfg);
    assert!(app.handle_agent_event(AgentEvent::CriticDone, &cfg).is_none());
    assert!(app.state == AppState::Finished);
    assert!(!app.request_in_flight);
}

#[test]
fn error_commits_partial_output_and_pauses() {
    let cfg = settings(1000);
    let mut app = App::new(Some("task".to_string()), 0);
    app.start_streaming("maker");
    app.handle_agent_event(AgentEvent::MakerLine("partial".to_string()), &cfg);
    assert!(app.handle_agent_event(AgentEvent::Error("boom".to_string()), &cfg).is_none());
    assert!(app.state == AppState::Paused);
    assert_eq!(app.status_message, "boom");
    assert_eq!(app.messages.len(), 1);
    assert_eq!(app.messages[0].items.len(), 2);
}

#[test]
fn typing_a_task_starts_the_maker() {
    let cfg = settings(1000);
    let mut app = App::new(None, 0);
    for c in "Fix".chars() {
        assert!(matches!(app.handle_key(KeyInput::Char(c), 10, &cfg), KeyOutcome::Nothing));
    }
    app.handle_key(KeyInput::Left, 10, &cfg);
    app.handle_key(KeyInput::Paste("\u{e9}\u{e9}".to_string()), 10, &cfg);
    assert_eq!(app.edit_buffer, "Fi\u{e9}\u{e9}x");
    assert_eq!(app.edit_cursor, 4);
    app.handle_key(KeyInput::Backspace, 10, &cfg);
    assert_eq!(app.edit_buffer, "Fi\u{e9}x");
    app.handle_key(KeyInput::Right, 10, &cfg);
    app.handle_key(KeyInput::Right, 10, &cfg);
    assert_eq!(app.edit_cursor, 4);
    match app.handle_key(KeyInput::Enter, 10, &cfg) {
        KeyOutcome::Start(l) => {
            assert!(l.agent == Agent::Maker);
            assert_eq!(l.prompt, "Fi\u{e9}x");
            assert!(!l.continuation);
        },
        _ => panic!("expected a launch"),
    }
    assert_eq!(app.task.as_deref(), Some("Fi\u{e9}x"));
    assert!(app.state == AppState::Running);
    assert!(app.edit_buffer.is_empty());
    assert!(matches!(app.handle_key(KeyInput::CtrlC, 10, &cfg), KeyOutcome::Quit));
}

#[test]
fn pause_edit_and_resume() {
    let cfg = settings(1000);
    let mut app = App::new(Some("task".to_string()), 0);
    run_to_critic(&mut app, &cfg);
    app.handle_agent_event(AgentEvent::CriticLine("review".to_string()), &cfg);
    app.handle_key(KeyInput::Char('p'), 10, &cfg);
    assert!(app.state == AppState::Paused);
    assert!(app.handle_agent_event(AgentEvent::CriticDone, &cfg).is_none());
    assert!(!app.request_in_flight);
    app.handle_key(KeyInput::Char('e'), 10, &cfg);
    assert!(app.state == AppState::Editing);
    assert_eq!(app.edit_buffer, "review");
    assert_eq!(app.edit_cursor, 6);
    app.handle_key(KeyInput::Char('!'), 10, &cfg);
    match app.handle_key(KeyInput::Enter, 10, &cfg) {
        KeyOutcome::Start(l) => {
            assert!(l.agent == Agent::Maker);
            assert_eq!(l.prompt, "review!");
        },
        _ => panic!("expected a launch"),
    }
    assert!(matches!(&app.messages[1].items[0], ContentItem::Text(t) if t == "review!"));
    assert!(app.state == AppState::Running);
    app.handle_agent_event(AgentEvent::MakerLine("changed".to_string()), &cfg);
    app.handle_key(KeyInput::Char('p'), 10, &cfg);
    app.handle_agent_event(AgentEvent::MakerDone, &cfg);
    match app.handle_key(KeyInput::Char('c'), 10, &cfg) {
        KeyOutcome::Start(l) => {
            assert!(l.agent == Agent::Critic);
            assert!(l.continuation);
            assert!(l.prompt.contains("changed"));
        },
        _ => panic!("expected a launch"),
    }
}

#[test]
fn editing_can_be_cancelled() {
    let cfg = settings(1000);
    let mut app = App::new(Some("task".to_string()), 0);
    app.add_message("maker", vec![ContentItem::Text("m".to_string())]);
    app.state = AppState::Paused;
    app.handle_key(KeyInput::Char('e'), 10, &cfg);
    app.handle_key(KeyInput::CtrlC, 10, &cfg);
    assert!(app.state == AppState::Paused);
    assert!(app.edit_buffer.is_empty());
    assert!(matches!(&app.messages[0].items[0], ContentItem::Text(t) if t == "m"));
}

#[test]
fn batch_relay_end_to_end() {
    let relay = Relay::new(Some("Add input validation"), None, 10, settings(100_000));
    let mut relay = relay.unwrap();
    let first = relay.start();
    assert!(first.agent == Agent::Maker);
    assert!(first.prompt.contains("## Task\nAdd input validation"));

    let ev = MakerEvent::Assistant {
        content: vec![MakerBlock::Text { text: "Added validation.".to_string() }],
    };
    let mut collected: Vec<String> = Vec::new();
    for e in decode_maker_event(&ev) {
        collect_maker_output(&e, &mut collected);
    }
    let output = join_lines(&collected);
    assert_eq!(output, "Added validation.");

    let review = relay.after_maker(&output);
    assert!(review.agent == Agent::Critic);
    assert!(!review.continuation);
    assert!(review.prompt.contains("## Original Task"));
    assert_eq!(review.prompt.matches("Added validation.").count(), 1);

    assert!(relay.after_critic(" ALL_DONE\n").is_none());
    assert_eq!(relay.turn, 0);
}

#[test]
fn batch_relay_turn_budget() {
    for max_turns in 0..4usize {
        let mut relay = Relay::new(Some("t"), None, max_turns, settings(100)).unwrap();
        let mut stopped_at = None;
        for n in 1..=6usize {
            let next = relay.after_critic("keep going");
            assert_eq!(relay.turn, n);
            match next {
                None => {
                    stopped_at = Some(n);
                    break;
                },
                Some(l) => {
                    assert!(l.agent == Agent::Maker && l.continuation);
                    assert_eq!(l.prompt, "keep going");
                    let r = relay.after_maker("work");
                    assert!(r.continuation);
                },
            }
        }
        if max_turns == 0 {
            assert_eq!(stopped_at, None);
        } else {
            assert_eq!(stopped_at, Some(max_turns));
        }
    }
}

#[test]
fn batch_relay_needs_task_or_context() {
    assert!(matches!(Relay::new(Some("  "), None, 1, settings(10)), Err(RelayError::MissingInput)));
    assert!(matches!(Relay::new(None, None, 1, settings(10)), Err(RelayError::MissingInput)));
    let r = Relay::new(None, Some(" ctx \n"), 1, settings(10)).unwrap();
    assert_eq!(r.context.as_deref(), Some(" ctx \n"));
    assert!(matches!(Relay::new(None, Some(" \n\t"), 1, settings(10)), Err(RelayError::MissingInput)));
    assert!(r.task.is_none());
}

#[test]
fn batch_relay_strips_and_cuts_forwarded_text() {
    let mut relay = Relay::new(Some("t"), None, 0, settings(5)).unwrap();
    let review = relay.after_maker("\x1b[31mabcdefgh\x1b[0m");
    assert!(review.prompt.contains("[...truncated...]\ndefgh\n---"));
    let next = relay.after_critic("\x1b[1m123456\x1b[0m").unwrap();
    assert_eq!(next.prompt, "[...truncated...]\n23456");
}

#[test]
fn invocation_helpers() {
    assert_eq!(check_prompt("  \n"), Err(InvokeError::EmptyPrompt));
    assert_eq!(check_prompt("go"), Ok(()));
    assert_eq!(validate_working_directory(false, false), Err(DirError::Missing));
    assert_eq!(validate_working_directory(true, false), Err(DirError::NotADirectory));
    assert_eq!(validate_working_directory(true, true), Ok(()));
    assert_eq!(api_key_status(None), KeyStatus::Missing);
    assert_eq!(api_key_status(Some(" ")), KeyStatus::Empty);
    assert_eq!(api_key_status(Some("k")), KeyStatus::Present);
    assert_eq!(chrono_lite_timestamp(0), "0s");
    assert_eq!(chrono_lite_timestamp(1700000000), "1700000000s");
    assert_eq!(
        maker_args("hi", true),
        vec!["-p", "--verbose", "--output-format", "stream-json", "--dangerously-skip-permissions", "--permission-mode", "acceptEdits", "--continue", "hi"]
    );
    assert_eq!(critic_args("hi", true, true, None), vec!["exec", "--skip-git-repo-check", "resume", "--last", "--json", "hi"]);
    assert_eq!(critic_args("hi", false, false, Some("/w")), vec!["exec", "--sandbox", "read-only", "--json", "-C", "/w", "hi"]);
    assert_eq!(
        invocation_error("Maker", "exit status: 1", "  bad\n", &["x".to_string(), "y".to_string()]),
        "Maker exited with status: exit status: 1\nstderr: bad\noutput: x\ny"
    );
    assert_eq!(invocation_error("A", "1", " ", &[]), "A exited with status: 1");
    let mut collected = Vec::new();
    collect_maker_output(&AgentEvent::MakerToolResult { tool_use_id: "1".to_string(), summary: "done".to_string() }, &mut collected);
    collect_critic_output(&AgentEvent::CriticLine("r".to_string()), &mut collected);
    collect_critic_output(&AgentEvent::CriticReasoning("hidden".to_string()), &mut collected);
    assert_eq!(collected, vec!["  -> done".to_string(), "r".to_string()]);
}

#[test]
fn begin_starts_maker_on_initial_task() {
    let cfg = RelaySettings { max_forward_bytes: 10, strip_ansi: false, resume_session: true };
    let mut app = App::new(Some("do it".to_string()), 0);
    let l = app.begin(&cfg).unwrap();
    assert!(l.agent == Agent::Maker);
    assert_eq!(l.prompt, "do it");
    assert!(l.continuation);
    assert!(app.request_in_flight);
    assert_eq!(app.streaming_role.as_deref(), Some("maker"));
    let mut idle = App::new(None, 0);
    assert!(idle.begin(&cfg).is_none());
}

#[test]
fn resume_setting_only_affects_first_maker_call() {
    let cfg = RelaySettings { max_forward_bytes: 1000, strip_ansi: false, resume_session: true };
    let mut relay = Relay::new(Some("t"), None, 0, cfg).unwrap();
    assert!(relay.start().continuation);
    let first = relay.after_maker("out");
    assert!(!first.continuation);
    assert!(first.prompt.starts_with("ROLE: Helpful Peer"));
    relay.after_critic("more").unwrap();
    let later = relay.after_maker("out2");
    assert!(later.continuation);
    assert!(later.prompt.starts_with("The driver has responded"));

    let cfg = RelaySettings { max_forward_bytes: 1000, strip_ansi: false, resume_session: true };
    let mut app = App::new(Some("task".to_string()), 0);
    let l = app.begin(&cfg).unwrap();
    assert!(l.continuation);
    app.handle_agent_event(AgentEvent::MakerLine("did".to_string()), &cfg);
    let critic = app.handle_agent_event(AgentEvent::MakerDone, &cfg).unwrap();
    assert!(critic.agent == Agent::Critic);
    assert!(!critic.continuation);
    assert!(critic.prompt.starts_with("ROLE: Helpful Peer"));
}

#[test]
fn no_key_starts_a_second_invocation() {
    let cfg = settings(1000);
    let mut app = App::new(None, 0);
    app.handle_key(KeyInput::Char('x'), 10, &cfg);
    app.request_in_flight = true;
    assert!(matches!(app.handle_key(KeyInput::Enter, 10, &cfg), KeyOutcome::Nothing));
    assert!(app.request_in_flight);
    assert_eq!(app.edit_buffer, "x");

    let mut app = App::new(Some("task".to_string()), 0);
    app.begin(&cfg).unwrap();
    app.state = AppState::Paused;
    for key in [KeyInput::Char('c'), KeyInput::Char('e'), KeyInput::Char('z'), KeyInput::Enter] {
        assert!(matches!(app.handle_key(key, 10, &cfg), KeyOutcome::Nothing));
        assert!(app.request_in_flight);
        assert!(app.state == AppState::Paused);
    }
}

#[test]
fn context_follows_the_first_interactive_prompt() {
    let cfg = settings(1000);
    let mut app = App::new(Some("task".to_string()), 0);
    app.context = Some("ctx".to_string());
    let l = app.begin(&cfg).unwrap();
    assert_eq!(l.prompt, "task\n\n## Context\nctx");
}
