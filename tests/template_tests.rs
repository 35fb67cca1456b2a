use chatsafe::dto::{Message, Role};
use chatsafe::template::{
    StreamChunkResult, TemplateConfig, TemplateEngine, EMPTY_RESPONSE_FALLBACK,
    ROLE_POLLUTION_FALLBACK,
};

fn test_template() -> TemplateConfig {
    TemplateConfig {
        id: "test".to_string(),
        name: "Test".to_string(),
        system_prefix: "<|system|>".to_string(),
        system_suffix: "</|system|>".to_string(),
        user_prefix: "<|user|>".to_string(),
        user_suffix: "</|user|>".to_string(),
        assistant_prefix: "<|assistant|>".to_string(),
        assistant_suffix: "</|assistant|>".to_string(),
        default_system_prompt: "You are helpful.".to_string(),
    }
}

fn llama3_template() -> TemplateConfig {
    TemplateConfig {
        id: "llama3".to_string(),
        name: "Llama 3".to_string(),
        system_prefix: "<|start_header_id|>system<|end_header_id|>\n\n".to_string(),
        system_suffix: "<|eot_id|>".to_string(),
        user_prefix: "<|start_header_id|>user<|end_header_id|>\n\n".to_string(),
        user_suffix: "<|eot_id|>".to_string(),
        assistant_prefix: "<|start_header_id|>assistant<|end_header_id|>\n\n".to_string(),
        assistant_suffix: "<|eot_id|>".to_string(),
        default_system_prompt: "You are helpful.".to_string(),
    }
}

fn runtime_template() -> TemplateConfig {
    TemplateConfig {
        id: "test".to_string(),
        name: "Test Template".to_string(),
        system_prefix: "<|start_header_id|>system<|end_header_id|>\n\n".to_string(),
        system_suffix: "<|eot_id|>".to_string(),
        user_prefix: "<|start_header_id|>user<|end_header_id|>\n\n".to_string(),
        user_suffix: "<|eot_id|>".to_string(),
        assistant_prefix: "<|start_header_id|>assistant<|end_header_id|>\n\n".to_string(),
        assistant_suffix: "<|eot_id|>".to_string(),
        default_system_prompt: "You are a helpful assistant.".to_string(),
    }
}

fn msg(role: Role, content: &str) -> Message {
    Message { role, content: content.to_string() }
}

#[test]
fn test_format_prompt() {
    let template = test_template();
    let messages = vec![msg(Role::System, "Be concise."), msg(Role::User, "Hello")];
    let prompt = TemplateEngine::format_prompt(&messages, &template);
    assert!(prompt.contains("<|system|>Be concise.</|system|>"));
    assert!(prompt.contains("<|user|>Hello</|user|>"));
    assert!(prompt.ends_with("<|assistant|>"));
}

#[test]
fn format_prompt_exact_with_default_system_turn() {
    let template = test_template();
    let messages = vec![msg(Role::User, "Hi"), msg(Role::Assistant, "Yo"), msg(Role::User, "Q")];
    let prompt = TemplateEngine::format_prompt(&messages, &template);
    assert_eq!(
        prompt,
        "<|system|>You are helpful.</|system|><|user|>Hi</|user|><|assistant|>Yo</|assistant|><|user|>Q</|user|><|assistant|>"
    );
}

#[test]
fn format_prompt_of_no_messages_is_the_assistant_prefix() {
    let prompt = TemplateEngine::format_prompt(&[], &test_template());
    assert_eq!(prompt, "<|assistant|>");
}

#[test]
fn test_clean_response() {
    let template = test_template();
    let stop_sequences = vec!["<|stop|>".to_string()];
    let cleaned = TemplateEngine::clean_response(
        "Hello world<|stop|>Extra content",
        &template,
        &stop_sequences,
        "<|eos|>",
    );
    assert_eq!(cleaned.content, "Hello world");
    assert_eq!(cleaned.stopped_at, Some("<|stop|>".to_string()));
}

#[test]
fn test_remove_role_pollution() {
    let text = "AI: This is a response\nNormal line\nYou: Should be removed\nAnother line";
    let cleaned = TemplateEngine::remove_role_pollution(text);
    assert!(cleaned.contains("I understand you'd like me to respond"));
    assert!(!cleaned.contains("AI:"));
    assert!(!cleaned.contains("You:"));

    let text_single = "AI: This is a response\nNormal line\nAnother line";
    let cleaned_single = TemplateEngine::remove_role_pollution(text_single);
    assert!(cleaned_single.contains("This is a response"));
    assert!(cleaned_single.contains("Normal line"));
    assert!(!cleaned_single.contains("AI:"));
}

#[test]
fn remove_role_pollution_exact_lines() {
    let cleaned = TemplateEngine::remove_role_pollution("AI: This is a response\nNormal line\nAnother line");
    assert_eq!(cleaned, "This is a response\nNormal line\nAnother line");
}

#[test]
fn remove_role_pollution_drops_marker_only_lines_and_falls_back() {
    assert_eq!(TemplateEngine::remove_role_pollution("User:\nBot:   "), EMPTY_RESPONSE_FALLBACK);
    assert_eq!(TemplateEngine::remove_role_pollution(""), EMPTY_RESPONSE_FALLBACK);
}

#[test]
fn remove_role_pollution_mid_line_marker_after_sentence() {
    assert_eq!(TemplateEngine::remove_role_pollution("Done. User: next"), "Done.  next");
}

#[test]
fn test_stream_chunk_processing() {
    let template = test_template();
    let stop_sequences = vec!["STOP".to_string()];
    let mut buffer = String::new();
    match TemplateEngine::process_stream_chunk("Hello ", &template, &stop_sequences, "EOS", &mut buffer) {
        StreamChunkResult::Partial { content } => assert_eq!(content, "Hello"),
        _ => panic!("Expected partial result"),
    }
    buffer.clear();
    match TemplateEngine::process_stream_chunk("Hello STOP there", &template, &stop_sequences, "EOS", &mut buffer) {
        StreamChunkResult::Complete { content, stopped_at } => {
            assert_eq!(content, "Hello");
            assert_eq!(stopped_at, Some("STOP".to_string()));
        }
        _ => panic!("Expected complete result"),
    }
}

#[test]
fn stream_chunk_empty_piece_buffers() {
    let mut buffer = String::from("abc");
    let r = TemplateEngine::process_stream_chunk("", &test_template(), &[], "EOS", &mut buffer);
    assert!(matches!(r, StreamChunkResult::Buffering));
    assert_eq!(buffer, "abc");
}

#[test]
fn contains_stop_sequence_follows_list_order() {
    let stops = vec!["B".to_string(), "A".to_string()];
    assert_eq!(TemplateEngine::contains_stop_sequence("xAyB", &stops, "q"), Some("B".to_string()));
    assert_eq!(TemplateEngine::contains_stop_sequence("xAyB", &stops, "x"), Some("B".to_string()));
    assert_eq!(TemplateEngine::contains_stop_sequence("xAy", &stops, "x"), Some("A".to_string()));
    assert_eq!(TemplateEngine::contains_stop_sequence("xyz", &stops, "y"), Some("y".to_string()));
    assert_eq!(TemplateEngine::contains_stop_sequence("xyz", &stops, "q"), None);
    let tie = vec!["ab".to_string(), "a".to_string()];
    assert_eq!(TemplateEngine::contains_stop_sequence("zab", &tie, "q"), Some("ab".to_string()));
}

#[test]
fn clean_response_cuts_at_the_earliest_stop() {
    let stops = vec!["B".to_string(), "A".to_string()];
    let cleaned = TemplateEngine::clean_response("xAyB", &test_template(), &stops, "<|eos|>");
    assert_eq!(cleaned.content, "x");
    assert_eq!(cleaned.stopped_at, Some("A".to_string()));
}

#[test]
fn markers_re_formed_by_a_removal_are_removed_too() {
    let stops = vec!["<|eot_id|>".to_string()];
    let cleaned = TemplateEngine::clean_response("<|eot<|im_end|>_id|>hi", &llama3_template(), &stops, "<|end_of_text|>");
    assert_eq!(cleaned.content, "hi");
}

#[test]
fn repeated_role_markers_are_all_stripped() {
    assert_eq!(TemplateEngine::remove_role_pollution("AI: AI: hi"), "hi");
    assert_eq!(TemplateEngine::remove_role_pollution("User: Bot: hello\nplain"), "hello\nplain");
}

#[test]
fn test_no_role_pollution_in_clean_response() {
    let template = llama3_template();
    let stop_sequences = vec!["<|eot_id|>".to_string()];
    let polluted = "AI: Hello there!\nYou: How are you?\nI'm doing well, thank you.";
    let cleaned = TemplateEngine::clean_response(polluted, &template, &stop_sequences, "<|end_of_text|>");
    assert!(!cleaned.content.contains("AI:"));
    assert!(!cleaned.content.contains("You:"));
    // Both parties of a transcript are present, so the whole response is replaced.
    assert_eq!(cleaned.content, ROLE_POLLUTION_FALLBACK);
}

#[test]
fn test_stop_at_turn_boundary() {
    let template = llama3_template();
    let stop_sequences = vec!["<|eot_id|>".to_string()];
    let response = "Here is my answer.<|eot_id|><|start_header_id|>user<|end_header_id|>Thanks!";
    let cleaned = TemplateEngine::clean_response(response, &template, &stop_sequences, "<|end_of_text|>");
    assert_eq!(cleaned.content, "Here is my answer.");
    assert_eq!(cleaned.stopped_at, Some("<|eot_id|>".to_string()));
}

#[test]
fn test_remove_template_markers() {
    let template = llama3_template();
    let stop_sequences = vec!["<|eot_id|>".to_string()];
    let response = "<|start_header_id|>assistant<|end_header_id|>\n\nHello there!";
    let cleaned = TemplateEngine::clean_response(response, &template, &stop_sequences, "<|end_of_text|>");
    assert!(!cleaned.content.contains("<|start_header_id|>"));
    assert!(!cleaned.content.contains("<|end_header_id|>"));
    assert!(!cleaned.content.contains("assistant"));
    assert_eq!(cleaned.content, "Hello there!");
}

#[test]
fn clean_response_scrubs_markers_inside_text() {
    let cleaned = TemplateEngine::clean_response("Hi<|im_start|> there<|im_end|>", &llama3_template(), &[], "<|end_of_text|>");
    assert_eq!(cleaned.content, "Hi there");
    assert_eq!(cleaned.stopped_at, None);
}

#[test]
fn test_long_response_boundary() {
    let template = llama3_template();
    let stop_sequences = vec!["<|eot_id|>".to_string()];
    let mut long_response = String::new();
    for i in 1..=100 {
        long_response.push_str(&format!("Line {}. ", i));
    }
    long_response.push_str("<|eot_id|>Extra content after boundary");
    let cleaned = TemplateEngine::clean_response(&long_response, &template, &stop_sequences, "<|end_of_text|>");
    assert!(!cleaned.content.contains("Extra content"));
    assert!(cleaned.content.contains("Line 100"));
    assert_eq!(cleaned.stopped_at, Some("<|eot_id|>".to_string()));
}

#[test]
fn test_streaming_role_pollution_removal() {
    let template = llama3_template();
    let stop_sequences = vec!["<|eot_id|>".to_string()];
    let mut buffer = String::new();
    let result = TemplateEngine::process_stream_chunk(
        "AI: This is a response\nContinuing...",
        &template,
        &stop_sequences,
        "<|end_of_text|>",
        &mut buffer,
    );
    match result {
        StreamChunkResult::Partial { content } => {
            assert!(!content.contains("AI:"));
            assert!(content.contains("This is a response"));
        }
        _ => panic!("Expected partial result"),
    }
}

#[test]
fn test_streaming_stop_detection() {
    let template = llama3_template();
    let stop_sequences = vec!["<|eot_id|>".to_string()];
    let mut buffer = String::new();
    let result1 = TemplateEngine::process_stream_chunk("Hello world", &template, &stop_sequences, "<|end_of_text|>", &mut buffer);
    assert!(matches!(result1, StreamChunkResult::Partial { .. }));
    let result2 = TemplateEngine::process_stream_chunk("<|eot_id|>Extra", &template, &stop_sequences, "<|end_of_text|>", &mut buffer);
    match result2 {
        StreamChunkResult::Complete { content, stopped_at } => {
            assert_eq!(content, "Hello world");
            assert_eq!(stopped_at, Some("<|eot_id|>".to_string()));
        }
        _ => panic!("Expected complete result"),
    }
    assert_eq!(buffer, "");
}

#[test]
fn test_multi_turn_prompt_formatting() {
    let template = llama3_template();
    let messages = vec![msg(Role::User, "Hello"), msg(Role::Assistant, "Hi there!"), msg(Role::User, "How are you?")];
    let prompt = TemplateEngine::format_prompt(&messages, &template);
    assert!(prompt.contains("<|start_header_id|>user<|end_header_id|>\n\nHello<|eot_id|>"));
    assert!(prompt.contains("<|start_header_id|>assistant<|end_header_id|>\n\nHi there!<|eot_id|>"));
    assert!(prompt.contains("<|start_header_id|>user<|end_header_id|>\n\nHow are you?<|eot_id|>"));
    assert!(prompt.ends_with("<|start_header_id|>assistant<|end_header_id|>\n\n"));
}

#[test]
fn test_defensive_cleaning() {
    let template = llama3_template();
    let stop_sequences = vec!["<|eot_id|>".to_string()];
    let malformed = "AI: <|start_header_id|>Hello\nYou: there<|eot_id|>\nUser: How<|end_of_text|> are you?";
    let cleaned = TemplateEngine::clean_response(malformed, &template, &stop_sequences, "<|end_of_text|>");
    assert!(!cleaned.content.contains("AI:"));
    assert!(!cleaned.content.contains("You:"));
    assert!(!cleaned.content.contains("User:"));
    assert!(!cleaned.content.contains("<|start_header_id|>"));
    assert!(!cleaned.content.contains("<|eot_id|>"));
    // What is left before the stop sequence is a two-party transcript, which
    // the refusal line replaces whole.
    assert_eq!(cleaned.content, ROLE_POLLUTION_FALLBACK);
}

#[test]
fn template_marker_scrub_scenario() {
    let template = llama3_template();
    let stops = vec!["<|eot_id|>".to_string(), "<|end_of_text|>".to_string(), "<|start_header_id|>".to_string()];
    let cleaned = TemplateEngine::clean_response(
        "Hello<|eot_id|><|start_header_id|>user<|end_header_id|>ignored",
        &template,
        &stops,
        "<|end_of_text|>",
    );
    assert_eq!(cleaned.content, "Hello");
}

#[test]
fn test_no_role_pollution_in_response() {
    let template = runtime_template();
    let stop_sequences = vec!["<|eot_id|>".to_string()];
    let polluted_responses = vec![
        "AI: This is my response",
        "You: asked a question\nAI: Here's my answer",
        "User: What?\nAssistant: Let me help",
        "\n\nHuman: test\nBot: response",
    ];
    for response in polluted_responses {
        let cleaned = TemplateEngine::clean_response(response, &template, &stop_sequences, "<|end_of_text|>");
        assert!(!cleaned.content.lines().any(|line| {
            let trimmed = line.trim_start();
            trimmed.starts_with("AI:")
                || trimmed.starts_with("You:")
                || trimmed.starts_with("User:")
                || trimmed.starts_with("Assistant:")
                || trimmed.starts_with("Human:")
                || trimmed.starts_with("Bot:")
        }), "Role pollution not cleaned: {}", cleaned.content);
    }
}

#[test]
fn test_stop_sequence_detection() {
    let template = runtime_template();
    let stop_sequences = vec!["<|eot_id|>".to_string(), "<|end_of_text|>".to_string()];
    let test_cases = vec![
        ("Hello world<|eot_id|>extra", "Hello world", Some("<|eot_id|>".to_string())),
        ("Response<|end_of_text|>", "Response", Some("<|end_of_text|>".to_string())),
        ("Complete<|endoftext|>ignored", "Complete", Some("<|endoftext|>".to_string())),
        ("No stop sequence here", "No stop sequence here", None),
    ];
    for (input, expected_content, expected_stop) in test_cases {
        let cleaned = TemplateEngine::clean_response(input, &template, &stop_sequences, "<|endoftext|>");
        assert_eq!(cleaned.content, expected_content);
        assert_eq!(cleaned.stopped_at, expected_stop);
    }
}

#[test]
fn test_streaming_chunk_processing() {
    let template = runtime_template();
    let stop_sequences = vec!["STOP".to_string()];
    let mut buffer = String::new();
    let chunks = vec!["Hello ", "world", "! This ", "is streaming", " STOP", " ignored"];
    let mut accumulated = String::new();
    let mut stopped = false;
    for chunk in chunks {
        if stopped {
            break;
        }
        match TemplateEngine::process_stream_chunk(chunk, &template, &stop_sequences, "END", &mut buffer) {
            StreamChunkResult::Partial { content } => accumulated.push_str(&content),
            StreamChunkResult::Complete { content, stopped_at } => {
                accumulated = content;
                assert_eq!(stopped_at, Some("STOP".to_string()));
                stopped = true;
            }
            StreamChunkResult::Buffering => {}
        }
    }
    assert_eq!(accumulated.trim(), "Hello world! This is streaming");
}

#[test]
fn test_prompt_formatting() {
    let template = runtime_template();
    let messages = vec![
        msg(Role::System, "Be concise."),
        msg(Role::User, "Hello"),
        msg(Role::Assistant, "Hi there!"),
        msg(Role::User, "How are you?"),
    ];
    let prompt = TemplateEngine::format_prompt(&messages, &template);
    assert!(prompt.contains("<|start_header_id|>system<|end_header_id|>"));
    assert!(prompt.contains("Be concise."));
    assert!(prompt.contains("<|start_header_id|>user<|end_header_id|>"));
    assert!(prompt.contains("Hello"));
    assert!(prompt.contains("<|start_header_id|>assistant<|end_header_id|>"));
    assert!(prompt.contains("Hi there!"));
    assert!(prompt.contains("How are you?"));
    assert!(prompt.ends_with("<|start_header_id|>assistant<|end_header_id|>\n\n"));
    assert!(!prompt.contains("You are a helpful assistant."));
}

#[test]
fn test_clean_multi_line_response() {
    let template = runtime_template();
    let stop_sequences: Vec<String> = vec![];
    let response = "Line 1\nAI: Line 2\nLine 3\nYou: Line 4";
    let cleaned = TemplateEngine::clean_response(response, &template, &stop_sequences, "END");
    assert!(cleaned.content.contains("I understand you'd like me to respond"));
    assert!(!cleaned.content.contains("AI:"));
    assert!(!cleaned.content.contains("You:"));
}
