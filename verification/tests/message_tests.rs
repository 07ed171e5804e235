use discuss_bot::messages::{
    discuss_message, get_fail_message, get_help_message, get_success_message, get_topics_choice_message,
    get_topics_message, get_topics_option_message, Block, Text, TextFormat, TopicSelect, HELP_TOPICS,
};
use discuss_bot::models::{SqlTopic, SqlUrl};
use discuss_bot::queries::topics_query;

fn markdown_section(s: &str) -> Block {
    Block::Section {
        block_id: None,
        text: Text { format: TextFormat::Markdown, text: s.to_string(), emoji: None },
        accessory: None,
    }
}

#[test]
fn fail_message() {
    let m = get_fail_message("add");
    assert_eq!(m.blocks, vec![markdown_section("fail: add")]);
}

#[test]
fn success_message() {
    let m = get_success_message("register");
    assert_eq!(m.blocks, vec![markdown_section("success: register")]);
}

#[test]
fn help_message() {
    let m = get_help_message();
    assert_eq!(m.blocks.len(), 5);
    match &m.blocks[0] {
        Block::Section { text, .. } => assert!(text.text.starts_with("Hey there")),
        _ => panic!("first block is a section"),
    }
    assert_eq!(m.blocks[3], Block::Divider);
    assert_eq!(
        m.blocks[4],
        Block::Context {
            elements: vec![Text { format: TextFormat::Markdown, text: HELP_TOPICS.to_string(), emoji: None }]
        }
    );
}

#[test]
fn topics_choice_message() {
    let m = get_topics_choice_message("https://a.com".to_string());
    assert_eq!(
        m.blocks,
        vec![Block::Section {
            block_id: Some("section678".to_string()),
            text: Text {
                format: TextFormat::Markdown,
                text: "Pick one or more topics from the list (max 3)".to_string(),
                emoji: None
            },
            accessory: Some(TopicSelect {
                action_id: "https://a.com".to_string(),
                placeholder: Text { format: TextFormat::Plain, text: "Select topics".to_string(), emoji: Some(true) },
                max_selected_items: 3,
            }),
        }]
    );
}

#[test]
fn topics_option_message() {
    let m = get_topics_option_message(vec![(4, "rust".to_string()), (-1, "new one".to_string())]);
    assert_eq!(m.options.len(), 2);
    assert_eq!(m.options[0], r#"{"text": {"type": "plain_text", "text": "rust", "emoji": true}, "value": "4"}"#);
    let v: serde_json::Value = serde_json::from_str(&m.options[1]).unwrap();
    assert_eq!(v["text"]["text"], "new one");
    assert_eq!(v["text"]["type"], "plain_text");
    assert_eq!(v["text"]["emoji"], true);
    assert_eq!(v["value"], "-1");
}

#[test]
fn topics_message() {
    let m = get_topics_message(&vec![(1, "go".to_string())]);
    assert_eq!(m.blocks.len(), 1);
    match &m.blocks[0] {
        Block::Framed { json } => {
            let v: serde_json::Value = serde_json::from_str(json).unwrap();
            assert_eq!(v["type"], "section");
            assert_eq!(v["text"]["type"], "plain_text");
            assert_eq!(v["text"]["text"], "go");
        }
        _ => panic!("a listed topic is framed JSON"),
    }
    assert!(get_topics_message(&Vec::new()).blocks.is_empty());
}

#[test]
fn discuss_message_attachments() {
    let urls = vec![SqlUrl {
        id: 1,
        value: "https://a.com".to_string(),
        topics: vec![SqlTopic { id: 2, name: "rust".to_string() }],
    }];
    let m = discuss_message(&"U42".to_string(), &urls);
    assert!(m.as_user);
    assert_eq!(m.channel, "U42");
    assert_eq!(m.attachments.len(), 1);
    let v: serde_json::Value = serde_json::from_str(&m.attachments[0]).unwrap();
    assert_eq!(v["type"], "section");
    assert_eq!(v["text"], "https://a.com\n`rust`");
}

#[test]
fn topics_query_text() {
    assert_eq!(topics_query("ru"), "SELECT t.id, t.name from topics t WHERE t.name LIKE 'ru%'");
}
