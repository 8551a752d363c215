use agent::app::App;
use agent::types::{AgentMode, MessageKind, NodeStatus, PlanItem, PlanStatus, Role, ToolCall, ToolResult};

fn make_app() -> App {
    App::new("test-model".into(), std::path::PathBuf::from("/tmp"))
}

#[test]
fn app_add_user_message_appends() {
    let mut app = make_app();
    app.add_user_message("hello".into());
    assert_eq!(app.messages.len(), 1);
    assert_eq!(app.messages[0].content, "hello");
    assert!(matches!(app.messages[0].role, Role::User));
}

#[test]
fn app_start_assistant_turn_sets_streaming() {
    let mut app = make_app();
    app.start_assistant_turn();
    assert!(app.streaming);
    assert!(app.current_streaming_text.is_empty());
}

#[test]
fn app_append_streaming_text_accumulates() {
    let mut app = make_app();
    app.start_assistant_turn();
    app.append_streaming_text("foo");
    app.append_streaming_text("bar");
    assert_eq!(app.current_streaming_text, "foobar");
}

#[test]
fn app_finish_assistant_turn_moves_text_to_messages() {
    let mut app = make_app();
    app.start_assistant_turn();
    app.append_streaming_text("response");
    app.finish_assistant_turn();
    assert!(!app.streaming);
    assert_eq!(app.messages.len(), 1);
    assert_eq!(app.messages[0].content, "response");
    assert!(app.current_streaming_text.is_empty());
}

#[test]
fn app_finish_assistant_turn_empty_no_message() {
    let mut app = make_app();
    app.start_assistant_turn();
    app.finish_assistant_turn();
    assert!(app.messages.is_empty());
}

#[test]
fn app_set_thinking_toggles() {
    let mut app = make_app();
    app.set_thinking(true);
    assert!(app.thinking);
    app.set_thinking(false);
    assert!(!app.thinking);
}

#[test]
fn app_add_tool_call_adds_message() {
    let mut app = make_app();
    let call = ToolCall {
        id: "c1".into(),
        name: "read_file".into(),
        arguments: serde_json::from_str::<serde_json::Value>(r#"{"path": "foo.rs"}"#).unwrap(),
    };
    app.add_tool_call(&call);
    assert_eq!(app.messages.len(), 1);
    assert!(matches!(app.messages[0].kind, MessageKind::ToolCall { .. }));
}

#[test]
fn app_scroll_up_increments_disables_auto_scroll() {
    let mut app = make_app();
    app.scroll_up();
    assert_eq!(app.scroll_offset, 1);
    assert!(!app.auto_scroll);
}

#[test]
fn app_scroll_down_decrements() {
    let mut app = make_app();
    app.scroll_offset = 5;
    app.scroll_down();
    assert_eq!(app.scroll_offset, 4);
}

#[test]
fn app_scroll_down_at_zero_stays_zero() {
    let mut app = make_app();
    app.scroll_down();
    assert_eq!(app.scroll_offset, 0);
}

#[test]
fn app_scroll_to_bottom_enables_auto_scroll() {
    let mut app = make_app();
    app.scroll_up();
    app.scroll_to_bottom();
    assert!(app.auto_scroll);
    assert_eq!(app.scroll_offset, 0);
}

#[test]
fn app_set_error_stores_message() {
    let mut app = make_app();
    app.set_error("oops".into());
    assert_eq!(app.error_message, Some("oops".into()));
}

#[test]
fn app_tick_increments() {
    let mut app = make_app();
    app.tick();
    app.tick();
    app.tick();
    assert_eq!(app.tick, 3);
}

#[test]
fn app_spinner_char_cycles() {
    let mut app = make_app();
    assert_eq!(app.spinner_char(), '⠋'); // tick=0
    app.tick = 4;
    assert_eq!(app.spinner_char(), '⠙'); // tick=4 → idx 1
    app.tick = 40;
    assert_eq!(app.spinner_char(), '⠋'); // wraps back
}

#[test]
fn app_start_assistant_turn_records_instant() {
    let mut app = make_app();
    app.start_assistant_turn();
    assert!(app.turn_started_at.is_some());
}

#[test]
fn app_finish_assistant_turn_clears_instant() {
    let mut app = make_app();
    app.start_assistant_turn();
    app.append_streaming_text("x");
    app.finish_assistant_turn();
    assert!(app.turn_started_at.is_none());
}

#[test]
fn app_viewport_height_default_zero() {
    let app = make_app();
    assert_eq!(app.viewport_height, 0);
}

#[test]
fn app_scroll_page_up_moves_half_viewport() {
    let mut app = make_app();
    app.viewport_height = 20;
    app.scroll_page_up();
    assert_eq!(app.scroll_offset, 10);
}

#[test]
fn app_scroll_page_up_disables_auto_scroll() {
    let mut app = make_app();
    app.viewport_height = 20;
    assert!(app.auto_scroll);
    app.scroll_page_up();
    assert!(!app.auto_scroll);
}

#[test]
fn app_scroll_page_down_moves_half_viewport() {
    let mut app = make_app();
    app.viewport_height = 20;
    app.scroll_offset = 20;
    app.auto_scroll = false;
    app.scroll_page_down();
    assert_eq!(app.scroll_offset, 10);
}

#[test]
fn app_scroll_page_down_to_zero_enables_auto_scroll() {
    let mut app = make_app();
    app.viewport_height = 20;
    app.scroll_offset = 5;
    app.auto_scroll = false;
    app.scroll_page_down();
    assert_eq!(app.scroll_offset, 0);
    assert!(app.auto_scroll);
}

#[test]
fn app_scroll_page_up_saturates_at_u32_max() {
    let mut app = make_app();
    app.viewport_height = 20;
    app.scroll_offset = u32::MAX - 5;
    app.scroll_page_up();
    assert_eq!(app.scroll_offset, u32::MAX);
}

#[test]
fn app_scroll_page_down_clamps_to_zero() {
    let mut app = make_app();
    app.viewport_height = 40;
    app.scroll_offset = 3;
    app.auto_scroll = false;
    app.scroll_page_down();
    assert_eq!(app.scroll_offset, 0);
    assert!(app.auto_scroll);
}

#[test]
fn app_scroll_page_up_zero_viewport_moves_by_one() {
    let mut app = make_app();
    app.viewport_height = 0;
    app.scroll_page_up();
    assert_eq!(app.scroll_offset, 1);
}

#[test]
fn app_scroll_page_down_zero_viewport_moves_by_one() {
    let mut app = make_app();
    app.viewport_height = 0;
    app.scroll_offset = 5;
    app.auto_scroll = false;
    app.scroll_page_down();
    assert_eq!(app.scroll_offset, 4);
}

#[test]
fn app_scroll_page_up_odd_viewport() {
    let mut app = make_app();
    app.viewport_height = 21;
    app.scroll_page_up();
    assert_eq!(app.scroll_offset, 10); // 21/2 = 10 (integer division)
}

#[test]
fn app_scroll_page_up_viewport_one() {
    let mut app = make_app();
    app.viewport_height = 1;
    app.scroll_page_up();
    assert_eq!(app.scroll_offset, 1); // max(1/2, 1) = max(0, 1) = 1
}

#[test]
fn app_multiple_page_ups_accumulate() {
    let mut app = make_app();
    app.viewport_height = 20;
    app.scroll_page_up();
    app.scroll_page_up();
    app.scroll_page_up();
    assert_eq!(app.scroll_offset, 30);
}

#[test]
fn app_page_up_then_page_down_returns_to_original() {
    let mut app = make_app();
    app.viewport_height = 20;
    app.scroll_offset = 10;
    app.auto_scroll = false;
    app.scroll_page_up();
    assert_eq!(app.scroll_offset, 20);
    app.scroll_page_down();
    assert_eq!(app.scroll_offset, 10);
}

#[test]
fn app_clear_messages_idempotent_on_empty() {
    let mut app = make_app();
    app.clear_messages();
    assert!(app.messages.is_empty());
}

#[test]
fn app_scroll_down_to_zero_enables_auto_scroll() {
    let mut app = make_app();
    app.scroll_offset = 1;
    app.auto_scroll = false;
    app.scroll_down();
    assert_eq!(app.scroll_offset, 0);
    assert!(app.auto_scroll);
}

#[test]
fn app_pending_images_lifecycle() {
    let mut app = make_app();
    assert_eq!(app.pending_image_count(), 0);
    app.add_pending_image("base64data".into());
    assert_eq!(app.pending_image_count(), 1);
    let images = app.take_pending_images();
    assert_eq!(images.len(), 1);
    assert_eq!(app.pending_image_count(), 0);
}

#[test]
fn app_help_text_not_empty() {
    assert!(!App::help_text().is_empty());
}

#[test]
fn app_context_window_size_default_none() {
    let app = make_app();
    assert!(app.context_window_size.is_none());
}

#[test]
fn app_context_window_size_set() {
    let mut app = make_app();
    app.context_window_size = Some(32768);
    assert_eq!(app.context_window_size, Some(32768));
}

#[test]
fn app_multiple_turns_accumulate_messages() {
    let mut app = make_app();
    app.add_user_message("q1".into());
    app.start_assistant_turn();
    app.append_streaming_text("a1");
    app.finish_assistant_turn();
    app.add_user_message("q2".into());
    app.start_assistant_turn();
    app.append_streaming_text("a2");
    app.finish_assistant_turn();
    assert_eq!(app.messages.len(), 4);
    assert_eq!(app.messages[0].content, "q1");
    assert_eq!(app.messages[1].content, "a1");
    assert_eq!(app.messages[2].content, "q2");
    assert_eq!(app.messages[3].content, "a2");
}

#[test]
fn mod_tick_increments() {
    let mut app = make_app();
    app.tick();
    app.tick();
    app.tick();
    assert_eq!(app.tick, 3);
}

#[test]
fn mod_spinner_char_cycles() {
    let mut app = make_app();
    assert_eq!(app.spinner_char(), '⠋');
    app.tick = 4;
    assert_eq!(app.spinner_char(), '⠙');
    app.tick = 40;
    assert_eq!(app.spinner_char(), '⠋');
}

#[test]
fn mod_set_error_stores_message() {
    let mut app = make_app();
    app.set_error("oops".into());
    assert_eq!(app.error_message, Some("oops".into()));
}

#[test]
fn mod_help_text_not_empty() {
    assert!(!App::help_text().is_empty());
}

#[test]
fn mod_context_window_size_default_none() {
    let app = make_app();
    assert!(app.context_window_size.is_none());
}

#[test]
fn mod_context_window_size_set() {
    let mut app = make_app();
    app.context_window_size = Some(32768);
    assert_eq!(app.context_window_size, Some(32768));
}

#[test]
fn interview_picker_default_none_and_mode_default() {
    let app = make_app();
    assert!(app.interview_picker.is_none());
    assert_eq!(app.mode, AgentMode::default());
}

#[test]
fn messages_add_user_message_appends() {
    let mut app = make_app();
    app.add_user_message("hello".into());
    assert_eq!(app.messages.len(), 1);
    assert_eq!(app.messages[0].content, "hello");
    assert!(matches!(app.messages[0].role, Role::User));
}

#[test]
fn messages_add_tool_call_adds_message() {
    let mut app = make_app();
    let call = ToolCall {
        id: "c1".into(),
        name: "read_file".into(),
        arguments: serde_json::from_str::<serde_json::Value>(r#"{"path": "foo.rs"}"#).unwrap(),
    };
    app.add_tool_call(&call);
    assert_eq!(app.messages.len(), 1);
    assert!(matches!(app.messages[0].kind, MessageKind::ToolCall { .. }));
}

#[test]
fn messages_add_tool_result_adds_message() {
    let mut app = make_app();
    let call = ToolCall {
        id: "c1".into(),
        name: "read_file".into(),
        arguments: serde_json::from_str::<serde_json::Value>(r#"{}"#).unwrap(),
    };
    app.add_tool_call(&call);
    let result = ToolResult {
        call_id: "c1".into(),
        output: "content".into(),
        is_error: false,
        images: vec![],
    };
    app.add_tool_result(&result);
    assert_eq!(app.messages.len(), 2);
    assert!(matches!(
        app.messages[1].kind,
        MessageKind::ToolResult {
            is_error: false,
            ..
        }
    ));
}

#[test]
fn messages_add_tool_result_without_call_defaults_to_tool() {
    let mut app = make_app();
    let result = ToolResult {
        call_id: "c1".into(),
        output: "result".into(),
        is_error: false,
        images: vec![],
    };
    app.add_tool_result(&result);
    if let MessageKind::ToolResult { name, .. } = &app.messages[0].kind {
        assert_eq!(name, "tool");
    } else {
        panic!("expected ToolResult");
    }
}

#[test]
fn add_tool_call_delegate_does_not_increment_counter() {
    let mut app = make_app();
    let call = ToolCall {
        id: "c1".into(),
        name: "delegate_task".into(),
        arguments: serde_json::from_str::<serde_json::Value>(r#"{"prompt": "do stuff"}"#).unwrap(),
    };
    app.add_tool_call(&call);
    assert_eq!(app.subtask_tool_calls, 0);
}

#[test]
fn messages_clear_messages_empties_all() {
    let mut app = make_app();
    app.add_user_message("hello".into());
    app.set_error("oops".into());
    app.update_turn_stats(10, 500_000_000, 20, 0);
    app.clear_messages();
    assert!(app.messages.is_empty());
    assert!(app.error_message.is_none());
    assert!(app.last_eval_count.is_none());
    assert!(app.last_eval_duration_ns.is_none());
    assert!(app.last_prompt_eval_count.is_none());
}

#[test]
fn messages_clear_messages_idempotent_on_empty() {
    let mut app = make_app();
    app.clear_messages();
    assert!(app.messages.is_empty());
}

#[test]
fn clear_messages_clears_queue() {
    let mut app = make_app();
    app.enqueue_message("msg".into(), vec![]);
    app.clear_messages();
    assert_eq!(app.queue_len(), 0);
    assert!(app.messages.is_empty());
}

#[test]
fn messages_pending_images_lifecycle() {
    let mut app = make_app();
    assert_eq!(app.pending_image_count(), 0);
    app.add_pending_image("base64data".into());
    assert_eq!(app.pending_image_count(), 1);
    let images = app.take_pending_images();
    assert_eq!(images.len(), 1);
    assert_eq!(app.pending_image_count(), 0);
}

#[test]
fn enqueue_message_adds_to_queue_and_messages() {
    let mut app = make_app();
    app.enqueue_message("queued msg".into(), vec![]);
    assert_eq!(app.queue_len(), 1);
    assert_eq!(app.messages.len(), 1);
    assert_eq!(app.messages[0].content, "queued msg");
    assert!(matches!(app.messages[0].kind, MessageKind::Queued));
    assert!(matches!(app.messages[0].role, Role::User));
}

#[test]
fn enqueue_multiple_preserves_order() {
    let mut app = make_app();
    app.enqueue_message("first".into(), vec![]);
    app.enqueue_message("second".into(), vec![]);
    app.enqueue_message("third".into(), vec![]);
    assert_eq!(app.queue_len(), 3);
    assert_eq!(app.messages.len(), 3);
}

#[test]
fn dequeue_returns_fifo_order() {
    let mut app = make_app();
    app.enqueue_message("first".into(), vec!["img1".into()]);
    app.enqueue_message("second".into(), vec![]);
    let (text, images) = app.dequeue_message().unwrap();
    assert_eq!(text, "first");
    assert_eq!(images, vec!["img1"]);
    assert_eq!(app.queue_len(), 1);
    let (text, _) = app.dequeue_message().unwrap();
    assert_eq!(text, "second");
    assert_eq!(app.queue_len(), 0);
}

#[test]
fn dequeue_promotes_queued_to_text() {
    let mut app = make_app();
    app.enqueue_message("msg".into(), vec![]);
    assert!(matches!(app.messages[0].kind, MessageKind::Queued));
    app.dequeue_message();
    assert!(matches!(app.messages[0].kind, MessageKind::Text));
}

#[test]
fn dequeue_empty_returns_none() {
    let mut app = make_app();
    assert!(app.dequeue_message().is_none());
}

#[test]
fn enqueue_with_images() {
    let mut app = make_app();
    app.enqueue_message("with img".into(), vec!["base64data".into()]);
    let (text, images) = app.dequeue_message().unwrap();
    assert_eq!(text, "with img");
    assert_eq!(images.len(), 1);
    assert_eq!(images[0], "base64data");
}

#[test]
fn dequeue_promotes_only_first_queued() {
    let mut app = make_app();
    app.enqueue_message("first".into(), vec![]);
    app.enqueue_message("second".into(), vec![]);
    app.dequeue_message();
    assert!(matches!(app.messages[0].kind, MessageKind::Text));
    assert!(matches!(app.messages[1].kind, MessageKind::Queued));
}

#[test]
fn apply_plan_update_stores_plan_and_appends_message() {
    let mut app = make_app();
    let items = vec![
        PlanItem {
            content: "step 1".into(),
            status: PlanStatus::Pending,
        },
        PlanItem {
            content: "step 2".into(),
            status: PlanStatus::InProgress,
        },
    ];
    app.apply_plan_update(items.clone());
    assert_eq!(app.plan, items);
    assert_eq!(app.messages.len(), 1);
    assert!(matches!(
        app.messages[0].kind,
        MessageKind::PlanUpdate { .. }
    ));
    if let MessageKind::PlanUpdate { items: stored } = &app.messages[0].kind {
        assert_eq!(stored.len(), 2);
    }
}

#[test]
fn clear_messages_clears_plan() {
    let mut app = make_app();
    app.apply_plan_update(vec![PlanItem {
        content: "task".into(),
        status: PlanStatus::Pending,
    }]);
    app.clear_messages();
    assert!(app.plan.is_empty());
    assert!(app.messages.is_empty());
}

#[test]
fn apply_plan_update_replaces_previous_plan() {
    let mut app = make_app();
    app.apply_plan_update(vec![PlanItem {
        content: "old".into(),
        status: PlanStatus::Pending,
    }]);
    app.apply_plan_update(vec![
        PlanItem {
            content: "new 1".into(),
            status: PlanStatus::InProgress,
        },
        PlanItem {
            content: "new 2".into(),
            status: PlanStatus::Pending,
        },
    ]);
    assert_eq!(app.plan.len(), 2);
    assert_eq!(app.plan[0].content, "new 1");
    assert_eq!(app.messages.len(), 2);
}

#[test]
fn scroll_scroll_up_increments_disables_auto_scroll() {
    let mut app = make_app();
    app.scroll_up();
    assert_eq!(app.scroll_offset, 1);
    assert!(!app.auto_scroll);
}

#[test]
fn scroll_scroll_down_decrements() {
    let mut app = make_app();
    app.scroll_offset = 5;
    app.scroll_down();
    assert_eq!(app.scroll_offset, 4);
}

#[test]
fn scroll_scroll_down_at_zero_stays_zero() {
    let mut app = make_app();
    app.scroll_down();
    assert_eq!(app.scroll_offset, 0);
}

#[test]
fn scroll_scroll_to_bottom_enables_auto_scroll() {
    let mut app = make_app();
    app.scroll_up();
    app.scroll_to_bottom();
    assert!(app.auto_scroll);
    assert_eq!(app.scroll_offset, 0);
}

#[test]
fn scroll_scroll_down_to_zero_enables_auto_scroll() {
    let mut app = make_app();
    app.scroll_offset = 1;
    app.auto_scroll = false;
    app.scroll_down();
    assert_eq!(app.scroll_offset, 0);
    assert!(app.auto_scroll);
}

#[test]
fn scroll_viewport_height_default_zero() {
    let app = make_app();
    assert_eq!(app.viewport_height, 0);
}

#[test]
fn scroll_scroll_page_up_moves_half_viewport() {
    let mut app = make_app();
    app.viewport_height = 20;
    app.scroll_page_up();
    assert_eq!(app.scroll_offset, 10);
}

#[test]
fn scroll_scroll_page_up_disables_auto_scroll() {
    let mut app = make_app();
    app.viewport_height = 20;
    assert!(app.auto_scroll);
    app.scroll_page_up();
    assert!(!app.auto_scroll);
}

#[test]
fn scroll_scroll_page_down_moves_half_viewport() {
    let mut app = make_app();
    app.viewport_height = 20;
    app.scroll_offset = 20;
    app.auto_scroll = false;
    app.scroll_page_down();
    assert_eq!(app.scroll_offset, 10);
}

#[test]
fn scroll_scroll_page_down_to_zero_enables_auto_scroll() {
    let mut app = make_app();
    app.viewport_height = 20;
    app.scroll_offset = 5;
    app.auto_scroll = false;
    app.scroll_page_down();
    assert_eq!(app.scroll_offset, 0);
    assert!(app.auto_scroll);
}

#[test]
fn scroll_scroll_page_up_saturates_at_u32_max() {
    let mut app = make_app();
    app.viewport_height = 20;
    app.scroll_offset = u32::MAX - 5;
    app.scroll_page_up();
    assert_eq!(app.scroll_offset, u32::MAX);
}

#[test]
fn scroll_scroll_page_down_clamps_to_zero() {
    let mut app = make_app();
    app.viewport_height = 40;
    app.scroll_offset = 3;
    app.auto_scroll = false;
    app.scroll_page_down();
    assert_eq!(app.scroll_offset, 0);
    assert!(app.auto_scroll);
}

#[test]
fn scroll_scroll_page_up_zero_viewport_moves_by_one() {
    let mut app = make_app();
    app.viewport_height = 0;
    app.scroll_page_up();
    assert_eq!(app.scroll_offset, 1);
}

#[test]
fn scroll_scroll_page_down_zero_viewport_moves_by_one() {
    let mut app = make_app();
    app.viewport_height = 0;
    app.scroll_offset = 5;
    app.auto_scroll = false;
    app.scroll_page_down();
    assert_eq!(app.scroll_offset, 4);
}

#[test]
fn scroll_scroll_page_up_odd_viewport() {
    let mut app = make_app();
    app.viewport_height = 21;
    app.scroll_page_up();
    assert_eq!(app.scroll_offset, 10);
}

#[test]
fn scroll_scroll_page_up_viewport_one() {
    let mut app = make_app();
    app.viewport_height = 1;
    app.scroll_page_up();
    assert_eq!(app.scroll_offset, 1);
}

#[test]
fn scroll_multiple_page_ups_accumulate() {
    let mut app = make_app();
    app.viewport_height = 20;
    app.scroll_page_up();
    app.scroll_page_up();
    app.scroll_page_up();
    assert_eq!(app.scroll_offset, 30);
}

#[test]
fn scroll_page_up_then_page_down_returns_to_original() {
    let mut app = make_app();
    app.viewport_height = 20;
    app.scroll_offset = 10;
    app.auto_scroll = false;
    app.scroll_page_up();
    assert_eq!(app.scroll_offset, 20);
    app.scroll_page_down();
    assert_eq!(app.scroll_offset, 10);
}

#[test]
fn streaming_start_assistant_turn_sets_streaming() {
    let mut app = make_app();
    app.start_assistant_turn();
    assert!(app.streaming);
    assert!(app.current_streaming_text.is_empty());
}

#[test]
fn streaming_append_streaming_text_accumulates() {
    let mut app = make_app();
    app.start_assistant_turn();
    app.append_streaming_text("foo");
    app.append_streaming_text("bar");
    assert_eq!(app.current_streaming_text, "foobar");
}

#[test]
fn streaming_finish_assistant_turn_moves_text_to_messages() {
    let mut app = make_app();
    app.start_assistant_turn();
    app.append_streaming_text("response");
    app.finish_assistant_turn();
    assert!(!app.streaming);
    assert_eq!(app.messages.len(), 1);
    assert_eq!(app.messages[0].content, "response");
    assert!(app.current_streaming_text.is_empty());
}

#[test]
fn streaming_finish_assistant_turn_empty_no_message() {
    let mut app = make_app();
    app.start_assistant_turn();
    app.finish_assistant_turn();
    assert!(app.messages.is_empty());
}

#[test]
fn streaming_set_thinking_toggles() {
    let mut app = make_app();
    app.set_thinking(true);
    assert!(app.thinking);
    app.set_thinking(false);
    assert!(!app.thinking);
}

#[test]
fn streaming_start_assistant_turn_records_instant() {
    let mut app = make_app();
    app.start_assistant_turn();
    assert!(app.turn_started_at.is_some());
}

#[test]
fn streaming_finish_assistant_turn_clears_instant() {
    let mut app = make_app();
    app.start_assistant_turn();
    app.append_streaming_text("x");
    app.finish_assistant_turn();
    assert!(app.turn_started_at.is_none());
}

#[test]
fn streaming_update_turn_stats_stores_values() {
    let mut app = make_app();
    app.update_turn_stats(100, 2_000_000_000, 200, 0);
    assert_eq!(app.last_eval_count, Some(100));
    assert_eq!(app.last_eval_duration_ns, Some(2_000_000_000));
    assert_eq!(app.last_prompt_eval_count, Some(200));
}

#[test]
fn streaming_update_turn_stats_accumulates_across_turns() {
    let mut app = make_app();
    app.update_turn_stats(100, 1_000_000_000, 200, 0);
    app.update_turn_stats(50, 500_000_000, 75, 0);
    assert_eq!(app.total_tokens_down, 150);
    assert_eq!(app.total_tokens_up, 275);
}

#[test]
fn streaming_clear_messages_does_not_reset_cumulative_tokens() {
    let mut app = make_app();
    app.update_turn_stats(100, 1_000_000_000, 200, 0);
    app.clear_messages();
    assert_eq!(app.total_tokens_down, 100);
    assert_eq!(app.total_tokens_up, 200);
}

#[test]
fn flush_thinking_moves_to_messages() {
    let mut app = make_app();
    app.current_thinking_text = "deep thought".into();
    app.thinking = true;
    app.flush_thinking();
    assert!(!app.thinking);
    assert!(app.current_thinking_text.is_empty());
    assert_eq!(app.messages.len(), 1);
    assert_eq!(app.messages[0].content, "deep thought");
    assert!(matches!(app.messages[0].kind, MessageKind::Thinking));
}

#[test]
fn flush_thinking_empty_noop() {
    let mut app = make_app();
    app.flush_thinking();
    assert!(app.messages.is_empty());
}

#[test]
fn finish_assistant_turn_flushes_thinking_and_text() {
    let mut app = make_app();
    app.current_thinking_text = "reason".into();
    app.current_streaming_text = "response".into();
    app.streaming = true;
    app.finish_assistant_turn();
    assert_eq!(app.messages.len(), 2);
    assert!(matches!(app.messages[0].kind, MessageKind::Thinking));
    assert_eq!(app.messages[0].content, "reason");
    assert!(matches!(app.messages[1].kind, MessageKind::Text));
    assert_eq!(app.messages[1].content, "response");
    assert!(!app.streaming);
    assert!(app.current_thinking_text.is_empty());
    assert!(app.current_streaming_text.is_empty());
}

#[test]
fn finish_assistant_turn_with_only_thinking() {
    let mut app = make_app();
    app.current_thinking_text = "thought".into();
    app.streaming = true;
    app.finish_assistant_turn();
    assert_eq!(app.messages.len(), 1);
    assert!(matches!(app.messages[0].kind, MessageKind::Thinking));
    assert!(!app.streaming);
}

#[test]
fn update_turn_stats_depth0_updates_prompt_eval() {
    let mut app = make_app();
    app.update_turn_stats(100, 2_000_000_000, 500, 0);
    assert_eq!(app.last_prompt_eval_count, Some(500));
}

#[test]
fn update_turn_stats_depth1_skips_prompt_eval() {
    let mut app = make_app();
    app.update_turn_stats(100, 2_000_000_000, 500, 0);
    app.update_turn_stats(50, 1_000_000_000, 200, 1);
    assert_eq!(app.last_prompt_eval_count, Some(500));
    assert_eq!(app.total_tokens_down, 150);
    assert_eq!(app.total_tokens_up, 700);
}

#[test]
fn context_used_reflects_latest_prompt_not_sum() {
    let mut app = make_app();
    app.update_turn_stats(100, 1_000_000_000, 200, 0);
    assert_eq!(app.context_used, 200);
    app.update_turn_stats(50, 500_000_000, 275, 0);
    // prompt_eval_count 275 already includes prior history — counter must SET, not sum
    assert_eq!(app.context_used, 275);
}

#[test]
fn context_used_not_polluted_by_subagent_turns() {
    let mut app = make_app();
    app.update_turn_stats(100, 1_000_000_000, 200, 0);
    // subagent runs many turns with its own growing prompt — must NOT affect main counter
    app.update_turn_stats(50, 500_000_000, 5000, 1);
    app.update_turn_stats(50, 500_000_000, 8000, 2);
    assert_eq!(app.context_used, 200);
    // next main-thread turn: counter reflects its own prompt size only
    app.update_turn_stats(100, 1_000_000_000, 350, 0);
    assert_eq!(app.context_used, 350);
}

#[test]
fn subtask_node_context_used_updates_independently() {
    let mut app = make_app();
    app.start_assistant_turn();
    app.update_turn_stats(10, 1_000_000_000, 200, 0);
    app.enter_subtask(1, "worker_a".into());
    app.update_turn_stats(20, 1_000_000_000, 500, 1);
    assert_eq!(app.tree[0].context_used, 200, "orchestrator node");
    assert_eq!(app.tree[1].context_used, 500, "worker_a node");
}

#[test]
fn new_subtask_resets_context_bar() {
    let mut app = make_app();
    app.start_assistant_turn();
    app.enter_subtask(1, "worker_a".into());
    app.update_turn_stats(20, 1_000_000_000, 900, 1);
    assert_eq!(app.tree[1].context_used, 900);
    app.exit_subtask(1);
    app.enter_subtask(1, "worker_b".into());
    // fresh subtask — counter starts at 0
    assert_eq!(app.tree.last().unwrap().context_used, 0);
}

#[test]
fn streaming_multiple_turns_accumulate_messages() {
    let mut app = make_app();
    app.add_user_message("q1".into());
    app.start_assistant_turn();
    app.append_streaming_text("a1");
    app.finish_assistant_turn();
    app.add_user_message("q2".into());
    app.start_assistant_turn();
    app.append_streaming_text("a2");
    app.finish_assistant_turn();
    assert_eq!(app.messages.len(), 4);
    assert_eq!(app.messages[0].content, "q1");
    assert_eq!(app.messages[1].content, "a1");
    assert_eq!(app.messages[2].content, "q2");
    assert_eq!(app.messages[3].content, "a2");
}

#[test]
fn start_assistant_turn_seeds_root_node() {
    let mut app = make_app();
    app.start_assistant_turn();
    assert_eq!(app.tree.len(), 1);
    assert_eq!(app.tree[0].depth, 0);
    assert_eq!(app.tree[0].label, "orchestrator");
    assert_eq!(app.tree[0].status, NodeStatus::Active);
}

#[test]
fn enter_subtask_suspends_parent_and_adds_child() {
    let mut app = make_app();
    app.start_assistant_turn();
    app.enter_subtask(1, "search files".into());
    assert_eq!(app.tree.len(), 2);
    assert_eq!(app.tree[0].status, NodeStatus::Suspended);
    assert_eq!(app.tree[1].depth, 1);
    assert_eq!(app.tree[1].label, "search files");
    assert_eq!(app.tree[1].status, NodeStatus::Active);
}

#[test]
fn exit_subtask_marks_done_and_reactivates_parent() {
    let mut app = make_app();
    app.start_assistant_turn();
    app.enter_subtask(1, "task".into());
    app.exit_subtask(1);
    assert_eq!(app.tree[0].status, NodeStatus::Active);
    assert_eq!(app.tree[1].status, NodeStatus::Done);
}

#[test]
fn enter_exit_resets_tool_call_counter() {
    let mut app = make_app();
    app.start_assistant_turn();
    app.subtask_tool_calls = 5;
    app.enter_subtask(1, "task".into());
    assert_eq!(app.subtask_tool_calls, 0);
    app.subtask_tool_calls = 3;
    app.exit_subtask(1);
    assert_eq!(app.subtask_tool_calls, 0);
}

#[test]
fn nested_subtasks_suspend_and_resume_correctly() {
    let mut app = make_app();
    app.start_assistant_turn();
    app.enter_subtask(1, "coordinator".into());
    app.enter_subtask(2, "worker".into());
    assert_eq!(app.tree[0].status, NodeStatus::Suspended);
    assert_eq!(app.tree[1].status, NodeStatus::Suspended);
    assert_eq!(app.tree[2].status, NodeStatus::Active);
    app.exit_subtask(2);
    assert_eq!(app.tree[2].status, NodeStatus::Done);
    assert_eq!(app.tree[1].status, NodeStatus::Active);
    assert_eq!(app.tree[0].status, NodeStatus::Suspended);
    app.exit_subtask(1);
    assert_eq!(app.tree[1].status, NodeStatus::Done);
    assert_eq!(app.tree[0].status, NodeStatus::Active);
}

#[test]
fn fail_active_node_marks_active_as_failed() {
    let mut app = make_app();
    app.start_assistant_turn();
    app.enter_subtask(1, "failing task".into());
    app.fail_active_node();
    assert_eq!(app.tree[1].status, NodeStatus::Failed);
    assert_eq!(app.tree[0].status, NodeStatus::Suspended);
}

#[test]
fn has_tree_false_until_subtask_entered() {
    let mut app = make_app();
    app.start_assistant_turn();
    assert!(!app.has_tree());
    app.enter_subtask(1, "task".into());
    assert!(app.has_tree());
}

#[test]
fn finish_assistant_turn_clears_tree() {
    let mut app = make_app();
    app.start_assistant_turn();
    app.enter_subtask(1, "task".into());
    app.append_streaming_text("done");
    app.finish_assistant_turn();
    assert!(app.tree.is_empty());
    assert_eq!(app.subtask_tool_calls, 0);
}

#[test]
fn multiple_subtasks_at_same_depth() {
    let mut app = make_app();
    app.start_assistant_turn();
    app.enter_subtask(1, "first".into());
    app.exit_subtask(1);
    app.enter_subtask(1, "second".into());
    app.exit_subtask(1);
    assert_eq!(app.tree.len(), 3);
    assert_eq!(app.tree[1].status, NodeStatus::Done);
    assert_eq!(app.tree[2].status, NodeStatus::Done);
    assert_eq!(app.tree[0].status, NodeStatus::Active);
}
