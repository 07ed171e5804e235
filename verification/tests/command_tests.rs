use discuss_bot::bot::{reply_for, Reply};
use discuss_bot::command::{Command, CommandParser};

fn parser() -> CommandParser {
    CommandParser::new().expect("the command expressions compile")
}

fn strings(v: &[&str]) -> Vec<String> {
    v.iter().map(|s| s.to_string()).collect()
}

#[test]
fn add_with_address() {
    let c = parser().parse("add https://github.com/rust-lang");
    assert_eq!(c, Command::Add { url: "https://github.com/rust-lang".to_string() });
}

#[test]
fn add_without_scheme() {
    let c = parser().parse("add example.com/page extra words");
    assert_eq!(c, Command::Add { url: "example.com/page".to_string() });
}

#[test]
fn add_keeps_the_typed_address() {
    // only the leading "add" is taken off: the address typed after it is read as typed
    let c = parser().parse("add https://address.com");
    assert_eq!(c, Command::Add { url: "https://address.com".to_string() });
    assert_eq!(reply_for(&c, true), Reply::ChooseTopics { url: "https://address.com".to_string() });
}

#[test]
fn add_keeps_later_adds() {
    let c = parser().parse("add https://add.example.com/add more add");
    assert_eq!(c, Command::Add { url: "https://add.example.com/add".to_string() });
}

#[test]
fn add_without_address_fails() {
    let c = parser().parse("add not a url");
    assert_eq!(c, Command::Add { url: String::new() });
    assert_eq!(reply_for(&c, true), Reply::Fail { kind: "add".to_string() });
}

#[test]
fn add_with_address_asks_for_topics() {
    let c = parser().parse("add rust-lang.org");
    assert_eq!(reply_for(&c, true), Reply::ChooseTopics { url: "rust-lang.org".to_string() });
}

#[test]
fn register_lists_trimmed_topics() {
    let c = parser().parse("Register to rust, go");
    assert_eq!(c, Command::Register { topics: strings(&["rust", "go"]) });
    assert_eq!(reply_for(&c, true), Reply::UserTopics);
    assert_eq!(reply_for(&c, false), Reply::Fail { kind: "register".to_string() });
}

#[test]
fn register_skips_empty_items() {
    let c = parser().parse("register rust,,go ");
    assert_eq!(c, Command::Register { topics: strings(&["rust", "go"]) });
}

#[test]
fn register_class_also_takes_a_comma() {
    let c = parser().parse(",egister web");
    assert_eq!(c, Command::Register { topics: strings(&["web"]) });
}

#[test]
fn unregister_comes_before_register() {
    let c = parser().parse("unregister from rust");
    assert_eq!(c, Command::Unregister { topics: strings(&["rust"]) });
    assert_eq!(reply_for(&c, false), Reply::Fail { kind: "unregister".to_string() });
}

#[test]
fn listing_commands() {
    let p = parser();
    assert_eq!(p.parse("mytopics"), Command::MyTopics);
    assert_eq!(p.parse("topics"), Command::AllTopics);
    assert_eq!(reply_for(&Command::MyTopics, true), Reply::UserTopics);
    assert_eq!(reply_for(&Command::AllTopics, true), Reply::AllTopics);
}

#[test]
fn create_topics_lower_cases_names() {
    let c = parser().parse("create topics Rust, Go Lang");
    assert_eq!(c, Command::CreateTopics { names: strings(&["rust", "go lang"]) });
    assert_eq!(reply_for(&c, true), Reply::Help);
}

#[test]
fn create_single_topic() {
    let c = parser().parse("Create topic ÉCOLE");
    assert_eq!(c, Command::CreateTopics { names: strings(&["école"]) });
}

#[test]
fn anything_else_is_help() {
    let p = parser();
    assert_eq!(p.parse("hello"), Command::Help);
    assert_eq!(p.parse(""), Command::Help);
    assert_eq!(p.parse(" add x.com"), Command::Help);
    assert_eq!(reply_for(&Command::Help, true), Reply::Help);
}

#[test]
fn url_from_command() {
    let p = parser();
    assert_eq!(p.get_url_from_command("  http://a.b/c d"), "http://a.b/c");
    assert_eq!(p.get_url_from_command("nodot"), "");
    assert_eq!(p.get_url_from_command(""), "");
}

#[test]
fn topic_names_of_a_list() {
    let p = parser();
    assert_eq!(p.topic_names(" a , b "), strings(&["a", "b"]));
    assert_eq!(p.topic_names(""), Vec::<String>::new());
    assert_eq!(p.new_topic_names(" A ,B"), strings(&["a", "b"]));
}
