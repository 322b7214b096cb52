use oben::message::{Message, MessageContent, MessagePart, MessageRole, ToolCall};
use oben::sanitize::{
    drop_thinking_only_assistant, is_thinking_only_assistant, merge_consecutive_assistant_messages,
    merge_consecutive_user_messages, sanitize_messages, strip_non_ascii, strip_surrogates,
};

fn no_arguments() -> serde_json::Value {
    serde_json::Value::Object(serde_json::Map::new())
}

fn argument(key: &str, value: &str) -> serde_json::Value {
    let mut map = serde_json::Map::new();
    map.insert(key.to_string(), serde_json::Value::String(value.to_string()));
    serde_json::Value::Object(map)
}

fn make_assistant(text: &str) -> Message {
    Message {
        role: MessageRole::Assistant,
        content: MessageContent::Text(text.to_string()),
        id: None,
        tool_call_ids: vec![],
        tool_calls: None,
        reasoning: None,
        delegation_id: None,
        tool_error: false,
        include_in_prompt: true,
    }
}

fn make_assistant_with_tools() -> Message {
    Message {
        role: MessageRole::Assistant,
        content: MessageContent::Text("Using tool...".to_string()),
        id: None,
        tool_call_ids: vec![],
        tool_calls: Some(vec![]),
        reasoning: None,
        delegation_id: None,
        tool_error: false,
        include_in_prompt: true,
    }
}

fn make_user(text: &str) -> Message {
    Message::user(text)
}

fn make_system(text: &str) -> Message {
    Message::system(text)
}

#[test]
fn test_is_thinking_only_assistant_empty() {
    let msg = make_assistant("");
    assert!(is_thinking_only_assistant(&msg));
}

#[test]
fn test_is_thinking_only_assistant_whitespace() {
    let msg = make_assistant("   \n  ");
    assert!(is_thinking_only_assistant(&msg));
}

#[test]
fn test_is_thinking_only_assistant_with_text() {
    let msg = make_assistant("Hello, how can I help?");
    assert!(!is_thinking_only_assistant(&msg));
}

#[test]
fn test_is_thinking_only_assistant_with_tools() {
    let msg = make_assistant_with_tools();
    assert!(!is_thinking_only_assistant(&msg));
}

#[test]
fn test_drop_thinking_only_messages() {
    let mut messages = vec![
        make_user("Hello"),
        make_assistant(""),         // thinking-only, drop
        make_assistant("Response"), // keep
        make_user("Follow up"),
    ];

    drop_thinking_only_assistant(&mut messages);

    assert_eq!(messages.len(), 3);
    assert_eq!(messages[0].role, MessageRole::User);
    assert_eq!(messages[1].role, MessageRole::Assistant);
    assert_eq!(messages[1].content.to_text(), "Response");
    assert_eq!(messages[2].role, MessageRole::User);
}

#[test]
fn test_merge_consecutive_user_messages() {
    let mut messages = vec![
        make_user("First"),
        make_user("Second"),
        make_user("Third"),
        make_system("System prompt"),
        make_user("After system"),
    ];

    merge_consecutive_user_messages(&mut messages);

    assert_eq!(messages.len(), 3);
    assert_eq!(messages[0].role, MessageRole::User);
    let combined = messages[0].content.to_text();
    assert!(combined.contains("First"));
    assert!(combined.contains("Second"));
    assert!(combined.contains("Third"));
    assert_eq!(messages[1].role, MessageRole::System);
    assert_eq!(messages[2].role, MessageRole::User);
}

#[test]
fn test_merge_preserves_image_messages() {
    let img_msg = Message {
        role: MessageRole::User,
        content: MessageContent::Image {
            url: "data:image/png;base64,abc123".into(),
            detail: None,
        },
        id: None,
        tool_call_ids: vec![],
        tool_calls: None,
        reasoning: None,
        delegation_id: None,
        tool_error: false,
        include_in_prompt: true,
    };

    let text_msg = make_user("Hello");

    let mut messages = vec![text_msg, img_msg];
    merge_consecutive_user_messages(&mut messages);

    assert_eq!(messages.len(), 2);
    assert_eq!(messages[0].content.to_text(), "Hello");
    assert!(
        matches!(messages[1].content, MessageContent::Image { ref url, .. } if url == "data:image/png;base64,abc123")
    );
}

#[test]
fn test_merge_preserves_parts_with_image() {
    let parts_msg = Message {
        role: MessageRole::User,
        content: MessageContent::Parts(vec![
            MessagePart::Text("分析下这个图片".into()),
            MessagePart::Image {
                url: "data:image/jpg;base64,xyz".into(),
                detail: None,
            },
        ]),
        id: None,
        tool_call_ids: vec![],
        tool_calls: None,
        reasoning: None,
        delegation_id: None,
        tool_error: false,
        include_in_prompt: true,
    };

    let text_msg = make_user("先看这张");
    let text_msg2 = make_user("再看那张");

    // Image in the middle means text1 and text2 are NOT consecutive
    let mut messages = vec![text_msg, parts_msg, text_msg2];
    merge_consecutive_user_messages(&mut messages);

    assert_eq!(messages.len(), 3);
    // text_msg preserved as-is
    assert!(matches!(messages[0].content, MessageContent::Text(ref t) if t == "先看这张"));
    // parts_msg preserved with image intact
    assert!(
        matches!(messages[1].content, MessageContent::Parts(ref parts) if parts.len() == 2 && matches!(&parts[1], MessagePart::Image { .. }))
    );
    // text_msg2 preserved as-is
    assert!(matches!(messages[2].content, MessageContent::Text(ref t) if t == "再看那张"));
}

#[test]
fn test_sanitize_preserves_latest_user_message() {
    let img_msg = Message {
        role: MessageRole::User,
        content: MessageContent::Image {
            url: "data:image/png;base64,abc123".into(),
            detail: None,
        },
        id: None,
        tool_call_ids: vec![],
        tool_calls: None,
        reasoning: None,
        delegation_id: None,
        tool_error: false,
        include_in_prompt: true,
    };

    let mut messages = vec![make_user("previous"), make_assistant("hello"), img_msg];

    sanitize_messages(&mut messages);

    assert_eq!(messages.len(), 3);
    assert_eq!(messages[0].content.to_text(), "previous");
    assert_eq!(messages[1].content.to_text(), "hello");
    assert!(
        matches!(messages[2].content, MessageContent::Image { ref url, .. } if url == "data:image/png;base64,abc123")
    );
}

#[test]
fn test_sanitize_preserves_latest_user_parts_with_image() {
    let parts_msg = Message {
        role: MessageRole::User,
        content: MessageContent::Parts(vec![
            MessagePart::Text("分析下这个图片".into()),
            MessagePart::Image {
                url: "data:image/png;base64,screenshot".into(),
                detail: None,
            },
        ]),
        id: None,
        tool_call_ids: vec![],
        tool_calls: None,
        reasoning: None,
        delegation_id: None,
        tool_error: false,
        include_in_prompt: true,
    };

    let mut messages = vec![
        make_user("prev1"),
        make_user("prev2"),
        make_assistant("hi"),
        parts_msg,
    ];

    sanitize_messages(&mut messages);

    // "prev1" and "prev2" should be merged in history
    assert_eq!(messages.len(), 3);
    assert!(
        matches!(messages[0].content, MessageContent::Text(ref t) if t.contains("prev1") && t.contains("prev2"))
    );
    assert_eq!(messages[1].content.to_text(), "hi");
    // Latest user message preserved with image content intact
    assert!(
        matches!(messages[2].content, MessageContent::Parts(ref parts) if parts.len() == 2 && matches!(&parts[1], MessagePart::Image { .. }))
    );
}

#[test]
fn test_sanitize_merging_history_user_messages() {
    let mut messages = vec![make_user("hi"), make_user("there"), make_user("world")];

    sanitize_messages(&mut messages);

    // Only the last message is exempt — history should merge
    // merge history → user("hi\n\nthere")
    // result → [user("hi\n\nthere"), user("world")]
    assert_eq!(messages.len(), 2);
    assert!(
        matches!(messages[0].content, MessageContent::Text(ref t) if t.contains("hi") && t.contains("there"))
    );
    assert_eq!(messages[1].content.to_text(), "world");
}

#[test]
fn test_merge_image_before_text_messages() {
    let img_msg = Message {
        role: MessageRole::User,
        content: MessageContent::Image {
            url: "data:image/png;base64,abc123".into(),
            detail: None,
        },
        id: None,
        tool_call_ids: vec![],
        tool_calls: None,
        reasoning: None,
        delegation_id: None,
        tool_error: false,
        include_in_prompt: true,
    };

    let text_msg1 = make_user("先");
    let text_msg2 = make_user("后");

    let mut messages = vec![img_msg, text_msg1, text_msg2];
    merge_consecutive_user_messages(&mut messages);

    assert_eq!(messages.len(), 2);
    // Image should be first
    assert!(matches!(messages[0].content, MessageContent::Image { .. }));
    // text_msg1 and text_msg2 should be merged
    assert!(
        matches!(messages[1].content, MessageContent::Text(ref t) if t.contains("先") && t.contains("后"))
    );
}

#[test]
fn test_strip_surrogates() {
    let input = "Hello, world!";
    let output = strip_surrogates(input);
    assert_eq!(output, "Hello, world!");
}

#[test]
fn test_strip_non_ascii() {
    let input = "Hello 世界 🌍";
    let output = strip_non_ascii(input);
    // Only ASCII chars kept: "Hello " + space before 世 (kept) + space before 🌍 (kept)
    assert_eq!(output, "Hello  ");
}

#[test]
fn test_no_merge_when_alternating() {
    let mut messages = vec![
        make_user("User 1"),
        make_assistant("Assistant 1"),
        make_user("User 2"),
    ];

    merge_consecutive_user_messages(&mut messages);

    assert_eq!(messages.len(), 3);
    assert_eq!(messages[0].content.to_text(), "User 1");
    assert_eq!(messages[2].content.to_text(), "User 2");
}

#[test]
fn test_merge_preserves_order() {
    let mut messages = vec![
        make_user("A"),
        make_user("B"),
        make_system("S"),
        make_user("C"),
        make_user("D"),
    ];

    merge_consecutive_user_messages(&mut messages);

    assert_eq!(messages.len(), 3);
    assert!(messages[0].content.to_text().contains("A"));
    assert!(messages[0].content.to_text().contains("B"));
    assert_eq!(messages[1].role, MessageRole::System);
    assert!(messages[2].content.to_text().contains("C"));
    assert!(messages[2].content.to_text().contains("D"));
}

#[test]
fn test_sanitize_messages_runs_full_pipeline() {
    let mut messages = vec![
        make_user("Hello"),
        make_assistant(""), // thinking-only
        make_assistant("Response"),
        make_user("Follow up"),
    ];

    sanitize_messages(&mut messages);

    // Thinking-only dropped, others preserved
    assert_eq!(messages.len(), 3);
}

#[test]
fn test_merge_consecutive_assistant_messages() {
    let mut messages = vec![
        make_user("Hello"),
        make_assistant("Response 1"),
        make_assistant("Response 2"), // Should be merged with previous
        make_user("Follow up"),
    ];

    merge_consecutive_assistant_messages(&mut messages);

    assert_eq!(messages.len(), 3);
    assert_eq!(messages[1].role, MessageRole::Assistant);
    let content = messages[1].content.to_text();
    assert!(content.contains("Response 1"));
    assert!(content.contains("Response 2"));
}

#[test]
fn test_merge_consecutive_assistant_messages_with_tools() {
    let tool1 = ToolCall {
        id: "tool-1".to_string(),
        tool_name: "test_tool".to_string(),
        arguments: no_arguments(),
    };

    let tool2 = ToolCall {
        id: "tool-2".to_string(),
        tool_name: "test_tool".to_string(),
        arguments: no_arguments(),
    };

    let mut msg1 = make_assistant("Response 1");
    msg1.tool_calls = Some(vec![tool1]);

    let mut msg2 = make_assistant("Response 2");
    msg2.tool_calls = Some(vec![tool2]);

    let mut messages = vec![
        make_user("Hello"),
        msg1,
        msg2, // Should be merged with previous, tool_calls combined
        make_user("Follow up"),
    ];

    merge_consecutive_assistant_messages(&mut messages);

    assert_eq!(messages.len(), 3);
    assert_eq!(messages[1].role, MessageRole::Assistant);
    let content = messages[1].content.to_text();
    assert!(content.contains("Response 1"));
    assert!(content.contains("Response 2"));
    // Tool calls should be combined
    let tool_calls = messages[1].tool_calls.as_ref();
    assert!(tool_calls.is_some());
    assert_eq!(tool_calls.unwrap().len(), 2);
}

#[test]
fn test_merge_assistant_separated_by_system_message() {
    let mut messages = vec![
        make_user("Hello"),
        make_assistant("Response 1"),
        make_system("System instruction"),
        make_assistant("Response 2"),
        make_user("Follow up"),
    ];

    merge_consecutive_assistant_messages(&mut messages);

    // System message should remain but assistants should be merged
    assert_eq!(messages.len(), 4);
    assert_eq!(messages[1].role, MessageRole::Assistant);
    let content = messages[1].content.to_text();
    assert!(content.contains("Response 1"));
    assert!(content.contains("Response 2"));
    assert_eq!(messages[2].role, MessageRole::System);
}

#[test]
fn test_merge_multiple_assistants_separated_by_system_messages() {
    let mut messages = vec![
        make_user("Hello"),
        make_assistant("Response 1"),
        make_system("System instruction 1"),
        make_assistant("Response 2"),
        make_system("System instruction 2"),
        make_assistant("Response 3"),
        make_user("Follow up"),
    ];

    merge_consecutive_assistant_messages(&mut messages);

    // All three assistants should be merged into one
    // System messages remain at their original positions
    // Final structure: [User, Assistant(merged), System, System, User]
    assert_eq!(messages.len(), 5);
    assert_eq!(messages[0].role, MessageRole::User);
    assert_eq!(messages[1].role, MessageRole::Assistant);
    let content = messages[1].content.to_text();
    assert!(content.contains("Response 1"));
    assert!(content.contains("Response 2"));
    assert!(content.contains("Response 3"));
    assert_eq!(messages[2].role, MessageRole::System);
    assert_eq!(messages[2].content.to_text(), "System instruction 1");
    assert_eq!(messages[3].role, MessageRole::System);
    assert_eq!(messages[3].content.to_text(), "System instruction 2");
    assert_eq!(messages[4].role, MessageRole::User);
}

#[test]
fn test_merge_consecutive_assistants_original_behavior() {
    let mut messages = vec![
        make_user("Hello"),
        make_assistant("Response 1"),
        make_assistant("Response 2"),
        make_assistant("Response 3"),
        make_user("Follow up"),
    ];

    merge_consecutive_assistant_messages(&mut messages);

    assert_eq!(messages.len(), 3);
    assert_eq!(messages[1].role, MessageRole::Assistant);
    let content = messages[1].content.to_text();
    assert!(content.contains("Response 1"));
    assert!(content.contains("Response 2"));
    assert!(content.contains("Response 3"));
}

#[test]
fn test_merge_assistants_with_tool_calls() {
    let tool1 = ToolCall {
        id: "tool-1".to_string(),
        tool_name: "web_search".to_string(),
        arguments: argument("query", "weather"),
    };

    let tool2 = ToolCall {
        id: "tool-2".to_string(),
        tool_name: "file_read".to_string(),
        arguments: argument("path", "/tmp/data.txt"),
    };

    let tool3 = ToolCall {
        id: "tool-3".to_string(),
        tool_name: "web_search".to_string(),
        arguments: argument("query", "news"),
    };

    let mut msg1 = make_assistant("I'll search the web");
    msg1.tool_calls = Some(vec![tool1]);

    let mut msg2 = make_assistant("Then I'll read the file");
    msg2.tool_calls = Some(vec![tool2]);

    let mut msg3 = make_assistant("Finally another web search");
    msg3.tool_calls = Some(vec![tool3]);

    let mut messages = vec![
        make_user("Task"),
        msg1,
        make_system("You can do multiple tool calls"),
        msg2,
        make_system("Go ahead"),
        msg3,
        make_user("Complete"),
    ];

    merge_consecutive_assistant_messages(&mut messages);

    // All three assistants merged into one
    assert_eq!(messages.len(), 5);
    assert_eq!(messages[1].role, MessageRole::Assistant);

    // Content should be combined
    let content = messages[1].content.to_text();
    assert!(content.contains("I'll search the web"));
    assert!(content.contains("Then I'll read the file"));
    assert!(content.contains("Finally another web search"));

    // Tool calls should be combined (3 unique tools)
    let tool_calls = messages[1].tool_calls.as_ref();
    assert!(tool_calls.is_some());
    assert_eq!(tool_calls.unwrap().len(), 3);

    // Verify all tool IDs are present
    let tool_ids: Vec<&str> = tool_calls.unwrap().iter().map(|t| t.id.as_str()).collect();
    assert!(tool_ids.contains(&"tool-1"));
    assert!(tool_ids.contains(&"tool-2"));
    assert!(tool_ids.contains(&"tool-3"));
}

#[test]
fn test_merge_empty_assistant_with_tool_calls() {
    let tool1 = ToolCall {
        id: "tool-1".to_string(),
        tool_name: "web_search".to_string(),
        arguments: argument("query", "weather"),
    };

    let tool2 = ToolCall {
        id: "tool-2".to_string(),
        tool_name: "file_read".to_string(),
        arguments: argument("path", "/tmp/data.txt"),
    };

    // Empty assistant (only tool calls)
    let msg1 = Message {
        role: MessageRole::Assistant,
        content: MessageContent::Text(String::new()),
        id: None,
        tool_call_ids: vec![],
        tool_calls: Some(vec![tool1]),
        reasoning: None,
        delegation_id: None,
        tool_error: false,
        include_in_prompt: true,
    };

    // Assistant with both text and tool calls
    let mut msg2 = make_assistant("Processing...");
    msg2.tool_calls = Some(vec![tool2]);

    let mut messages = vec![
        make_user("Task"),
        msg1,
        make_system("System message between"),
        msg2,
        make_user("Complete"),
    ];

    merge_consecutive_assistant_messages(&mut messages);

    // Empty and non-empty assistants should be merged
    assert_eq!(messages.len(), 4);
    assert_eq!(messages[1].role, MessageRole::Assistant);

    // Content should be combined (empty + non-empty)
    let content = messages[1].content.to_text();
    assert!(content.contains("Processing..."));

    // Tool calls should be combined
    let tool_calls = messages[1].tool_calls.as_ref();
    assert!(tool_calls.is_some());
    assert_eq!(tool_calls.unwrap().len(), 2);
}

#[test]
fn test_merge_empty_content_only() {
    let tool1 = ToolCall {
        id: "tool-1".to_string(),
        tool_name: "web_search".to_string(),
        arguments: argument("query", "weather"),
    };

    let tool2 = ToolCall {
        id: "tool-2".to_string(),
        tool_name: "file_read".to_string(),
        arguments: argument("path", "/tmp/data.txt"),
    };

    let msg1 = Message {
        role: MessageRole::Assistant,
        content: MessageContent::Text(String::new()),
        id: None,
        tool_call_ids: vec![],
        tool_calls: Some(vec![tool1]),
        reasoning: None,
        delegation_id: None,
        tool_error: false,
        include_in_prompt: true,
    };

    let msg2 = Message {
        role: MessageRole::Assistant,
        content: MessageContent::Text(String::new()),
        id: None,
        tool_call_ids: vec![],
        tool_calls: Some(vec![tool2]),
        reasoning: None,
        delegation_id: None,
        tool_error: false,
        include_in_prompt: true,
    };

    let mut messages = vec![
        make_user("Task"),
        msg1,
        make_system("System message"),
        msg2,
        make_user("Complete"),
    ];

    merge_consecutive_assistant_messages(&mut messages);

    assert_eq!(messages.len(), 4);
    assert_eq!(messages[1].role, MessageRole::Assistant);

    // Content should remain empty (both were empty)
    assert!(messages[1].content.to_text().is_empty());

    // Tool calls should be combined
    let tool_calls = messages[1].tool_calls.as_ref();
    assert!(tool_calls.is_some());
    assert_eq!(tool_calls.unwrap().len(), 2);
}

#[test]
fn test_merge_assistants_not_merged_when_user_separates() {
    // Assistant messages separated by user messages should NOT be merged
    let mut messages = vec![
        make_user("First"),
        make_assistant("Response 1"),
        make_user("Second question"), // User message separates them
        make_assistant("Response 2"),
        make_user("Third"),
    ];

    merge_consecutive_assistant_messages(&mut messages);

    // Should remain 5 messages - assistants should NOT be merged
    assert_eq!(messages.len(), 5);
    assert_eq!(messages[1].role, MessageRole::Assistant);
    assert_eq!(messages[1].content.to_text(), "Response 1");
    assert_eq!(messages[3].role, MessageRole::Assistant);
    assert_eq!(messages[3].content.to_text(), "Response 2");
}

#[test]
fn test_merge_assistants_not_merged_when_tool_separates() {
    // Assistant messages separated by tool messages should NOT be merged
    let mut msg1 = make_assistant("Using tool");
    msg1.tool_calls = Some(vec![]);

    let tool_msg = Message {
        role: MessageRole::Tool,
        content: MessageContent::Text("Tool result".to_string()),
        id: None,
        tool_call_ids: vec!["tool-1".to_string()],
        tool_calls: None,
        reasoning: None,
        delegation_id: None,
        tool_error: false,
        include_in_prompt: true,
    };

    let msg2 = make_assistant("Another response");

    let mut messages = vec![
        make_user("First"),
        msg1,
        tool_msg,
        msg2,
        make_user("Second"),
    ];

    merge_consecutive_assistant_messages(&mut messages);

    // Should remain 5 messages - assistants should NOT be merged
    assert_eq!(messages.len(), 5);
    assert_eq!(messages[1].role, MessageRole::Assistant);
    assert_eq!(messages[1].content.to_text(), "Using tool");
    assert_eq!(messages[3].role, MessageRole::Assistant);
    assert_eq!(messages[3].content.to_text(), "Another response");
}

fn make_tool(text: &str) -> Message {
    Message::with_text(MessageRole::Tool, text.to_string())
}

fn make_image(url: &str) -> Message {
    let mut message = make_user("");
    message.content = MessageContent::Image { url: url.to_string(), detail: None };
    message
}

fn make_parts(parts: Vec<MessagePart>) -> Message {
    let mut message = make_user("");
    message.content = MessageContent::Parts(parts);
    message
}

fn call(id: &str, tool_name: &str) -> ToolCall {
    ToolCall { id: id.to_string(), tool_name: tool_name.to_string(), arguments: no_arguments() }
}

fn texts(messages: &[Message]) -> Vec<(MessageRole, String)> {
    messages.iter().map(|m| (m.role, m.content.to_text())).collect()
}

fn entry(role: MessageRole, text: &str) -> (MessageRole, String) {
    (role, text.to_string())
}

#[test]
fn text_of_parts_is_one_line_each() {
    let content = MessageContent::Parts(vec![
        MessagePart::Text("one".into()),
        MessagePart::Image { url: "u".into(), detail: Some("high".into()) },
        MessagePart::Text("".into()),
        MessagePart::Text("two".into()),
    ]);
    assert_eq!(content.to_text(), "one\n\ntwo");
    assert_eq!(MessageContent::Parts(vec![]).to_text(), "");
    assert_eq!(MessageContent::Image { url: "u".into(), detail: None }.to_text(), "");
}

#[test]
fn white_space_alone_is_no_text() {
    for text in ["\u{b}\u{c}", "\u{85}", "\u{a0}\u{1680}", "\u{2003}\u{2028}\u{2029}", "\u{202f}\u{205f}\u{3000}"] {
        assert!(is_thinking_only_assistant(&make_assistant(text)));
    }
    for text in ["\u{200b}", "\u{1}", " . "] {
        assert!(!is_thinking_only_assistant(&make_assistant(text)));
    }
    assert!(!is_thinking_only_assistant(&make_user("")));
}

#[test]
fn tool_calls_make_an_empty_assistant_worth_keeping() {
    let mut message = make_assistant(" ");
    message.tool_calls = Some(vec![]);
    assert!(is_thinking_only_assistant(&message));
    message.tool_calls = Some(vec![call("a", "t")]);
    assert!(!is_thinking_only_assistant(&message));
}

#[test]
fn merged_user_text_is_exact() {
    let mut messages = vec![
        make_user("First"),
        make_parts(vec![MessagePart::Text("a".into()), MessagePart::Text("b".into())]),
        make_user(""),
        make_tool("result"),
    ];
    messages[0].id = Some("id-1".to_string());
    merge_consecutive_user_messages(&mut messages);
    assert_eq!(
        texts(&messages),
        vec![entry(MessageRole::User, "First\n\na\nb\n\n"), entry(MessageRole::Tool, "result")]
    );
    assert!(messages[0].id.is_none());
}

#[test]
fn single_user_message_is_not_rebuilt() {
    let mut messages = vec![make_parts(vec![MessagePart::Text("a".into())])];
    messages[0].id = Some("id-1".to_string());
    merge_consecutive_user_messages(&mut messages);
    assert!(matches!(messages[0].content, MessageContent::Parts(ref parts) if parts.len() == 1));
    assert_eq!(messages[0].id.as_deref(), Some("id-1"));

    let mut none: Vec<Message> = vec![];
    merge_consecutive_user_messages(&mut none);
    assert!(none.is_empty());
}

#[test]
fn merged_assistant_is_exact() {
    let mut first = make_assistant("one");
    first.id = Some("first".to_string());
    first.tool_calls = Some(vec![call("a", "x"), call("b", "x")]);
    let mut second = make_assistant("two");
    second.id = Some("second".to_string());
    second.tool_calls = Some(vec![call("b", "y"), call("c", "y"), call("c", "z")]);
    let mut messages = vec![first, make_system("s"), second, make_assistant("")];
    merge_consecutive_assistant_messages(&mut messages);
    assert_eq!(
        texts(&messages),
        vec![entry(MessageRole::Assistant, "one\ntwo"), entry(MessageRole::System, "s")]
    );
    assert_eq!(messages[0].id.as_deref(), Some("first"));
    let calls: Vec<(&str, &str)> = messages[0]
        .tool_calls
        .as_ref()
        .unwrap()
        .iter()
        .map(|c| (c.id.as_str(), c.tool_name.as_str()))
        .collect();
    assert_eq!(calls, vec![("a", "x"), ("b", "x"), ("c", "y")]);
}

#[test]
fn calls_of_the_second_assistant_are_taken_over() {
    let mut second = make_assistant("");
    second.tool_calls = Some(vec![call("a", "x"), call("a", "y")]);
    let mut messages = vec![make_assistant("one"), second];
    merge_consecutive_assistant_messages(&mut messages);
    assert_eq!(messages.len(), 1);
    assert_eq!(messages[0].content.to_text(), "one");
    assert_eq!(messages[0].tool_calls.as_ref().unwrap().len(), 2);
}

#[test]
fn leading_system_messages_stay_in_front() {
    let mut messages = vec![make_system("s"), make_assistant("a"), make_assistant("b")];
    merge_consecutive_assistant_messages(&mut messages);
    assert_eq!(
        texts(&messages),
        vec![entry(MessageRole::System, "s"), entry(MessageRole::Assistant, "a\nb")]
    );
}

#[test]
fn sanitize_without_user_messages() {
    let mut messages = vec![make_assistant("a"), make_assistant(" "), make_system("s"), make_assistant("b")];
    sanitize_messages(&mut messages);
    assert_eq!(
        texts(&messages),
        vec![entry(MessageRole::Assistant, "a\nb"), entry(MessageRole::System, "s")]
    );
}

#[test]
fn sanitize_keeps_the_last_user_message_as_it_is() {
    let mut last = make_parts(vec![MessagePart::Text("x".into()), MessagePart::Text("y".into())]);
    last.id = Some("last".to_string());
    last.tool_call_ids = vec!["t".to_string()];
    let mut messages = vec![make_user("a"), make_user("b"), last, make_assistant("c"), make_assistant("d")];
    sanitize_messages(&mut messages);
    assert_eq!(messages.len(), 3);
    assert_eq!(messages[0].content.to_text(), "a\n\nb");
    assert!(matches!(messages[1].content, MessageContent::Parts(ref parts) if parts.len() == 2));
    assert_eq!(messages[1].id.as_deref(), Some("last"));
    assert_eq!(messages[1].tool_call_ids, vec!["t".to_string()]);
    assert_eq!(messages[2].content.to_text(), "c\nd");
}

#[test]
fn sanitize_keeps_systems_tools_and_images_in_order() {
    let mut messages = vec![
        make_system("s1"),
        make_user("a"),
        make_image("i1"),
        make_user("b"),
        make_assistant(""),
        make_user("c"),
        make_tool("t"),
        make_system("s2"),
        make_user("d"),
    ];
    sanitize_messages(&mut messages);
    assert_eq!(
        texts(&messages),
        vec![
            entry(MessageRole::System, "s1"),
            entry(MessageRole::User, "a"),
            entry(MessageRole::User, ""),
            entry(MessageRole::User, "b\n\nc"),
            entry(MessageRole::Tool, "t"),
            entry(MessageRole::System, "s2"),
            entry(MessageRole::User, "d"),
        ]
    );
    assert!(matches!(messages[2].content, MessageContent::Image { ref url, .. } if url == "i1"));
}

#[test]
fn sanitize_twice_is_sanitize_once() {
    let mut messages = vec![
        make_user("a"),
        make_user("b"),
        make_assistant("c"),
        make_system("s"),
        make_assistant("d"),
        make_user("e"),
        make_user("f"),
        make_assistant("g"),
        make_assistant("h"),
    ];
    sanitize_messages(&mut messages);
    let once = texts(&messages);
    sanitize_messages(&mut messages);
    assert_eq!(texts(&messages), once);
    assert_eq!(
        once,
        vec![
            entry(MessageRole::User, "a\n\nb"),
            entry(MessageRole::Assistant, "c\nd"),
            entry(MessageRole::System, "s"),
            entry(MessageRole::User, "e"),
            entry(MessageRole::User, "f"),
            entry(MessageRole::Assistant, "g\nh"),
        ]
    );
}

#[test]
fn stripping_surrogates_loses_nothing() {
    assert_eq!(strip_surrogates("a\u{d7ff}\u{e000}\u{10ffff}世"), "a\u{d7ff}\u{e000}\u{10ffff}世");
    assert_eq!(strip_surrogates(""), "");
}

#[test]
fn stripping_non_ascii_keeps_ascii() {
    assert_eq!(strip_non_ascii("\u{0}a\u{7f}\u{80}é"), "\u{0}a\u{7f}");
    let once = strip_non_ascii("naïve 世界");
    assert_eq!(once, "nave ");
    assert_eq!(strip_non_ascii(&once), once);
}
