//! The Slack messages the bot sends: block messages, the options of a topic
//! menu, and the summary of links posted to a user. Where a message embeds a
//! name or an address in JSON text, the library frames that text and the
//! application parses it.
use vstd::prelude::*;
use vstd::string::*;

use crate::bot::all_have_topics;
use crate::models::SqlUrl;
use crate::text::{decimal, int_decimal, lemma_int_decimal_injective};

verus! {

/// How Slack renders a text.
#[derive(Debug, PartialEq, Eq)]
pub enum TextFormat {
    /// `mrkdwn`
    Markdown,
    /// `plain_text`
    Plain,
}

/// A text object; `emoji` is written only when it is `Some`.
#[derive(Debug, PartialEq, Eq)]
pub struct Text {
    pub format: TextFormat,
    pub text: String,
    pub emoji: Option<bool>,
}

/// A menu that offers topics fetched from the bot (`multi_external_select`).
#[derive(Debug, PartialEq, Eq)]
pub struct TopicSelect {
    pub action_id: String,
    pub placeholder: Text,
    pub max_selected_items: u32,
}

/// A layout block.
#[derive(Debug, PartialEq, Eq)]
pub enum Block {
    /// A `section`, with an optional id and an optional menu beside it.
    Section { block_id: Option<String>, text: Text, accessory: Option<TopicSelect> },
    /// A `divider`.
    Divider,
    /// A `context` holding texts.
    Context { elements: Vec<Text> },
    /// A block given as JSON text, which the application parses.
    Framed { json: String },
}

/// A message made of blocks.
#[derive(Debug, PartialEq, Eq)]
pub struct BlocksMessage {
    pub blocks: Vec<Block>,
}

/// The options of a topic menu, each given as JSON text.
#[derive(Debug, PartialEq, Eq)]
pub struct OptionsMessage {
    pub options: Vec<String>,
}

/// A message posted through `chat.postMessage`; each attachment is given as
/// JSON text.
#[derive(Debug, PartialEq, Eq)]
pub struct ChatPostMessage {
    pub as_user: bool,
    pub channel: String,
    pub attachments: Vec<String>,
}

/// Whether `t` is a text of the given format holding `s`, with no emoji flag.
pub open spec fn is_text(t: Text, markdown: bool, s: Seq<char>) -> bool {
    &&& (t.format is Markdown) == markdown
    &&& t.text@ == s
    &&& t.emoji is None
}

/// Whether `b` is a section holding the markdown text `s` and nothing else.
pub open spec fn is_markdown_section(b: Block, s: Seq<char>) -> bool {
    b matches Block::Section { block_id, text, accessory } && block_id is None && accessory is None
        && is_text(text, true, s)
}

/// Whether `b` is a block given as the JSON text `json`.
pub open spec fn is_framed(b: Block, json: Seq<char>) -> bool {
    b matches Block::Framed { json: j } && j@ == json
}

/// Whether `b` is the section asking which topics to file `url` under: the
/// id [`CHOICE_BLOCK_ID`], the markdown question [`CHOICE_QUESTION`], and
/// beside it a topic menu whose action id is `url`, whose placeholder is the
/// plain text [`CHOICE_PLACEHOLDER`] with emoji on, and that takes at most
/// [`MAX_TOPICS_PER_LINK`] topics.
pub open spec fn is_topics_choice(b: Block, url: Seq<char>) -> bool {
    &&& b matches Block::Section { block_id, text, accessory }
    &&& block_id matches Some(id) && id@ == CHOICE_BLOCK_ID@
    &&& is_text(text, true, CHOICE_QUESTION@)
    &&& accessory matches Some(menu)
    &&& menu.action_id@ == url
    &&& menu.placeholder.format is Plain
    &&& menu.placeholder.text@ == CHOICE_PLACEHOLDER@
    &&& menu.placeholder.emoji == Some(true)
    &&& menu.max_selected_items == MAX_TOPICS_PER_LINK
}

fn markdown(s: String) -> (t: Text)
    ensures
        is_text(t, true, s@),
{
    Text { format: TextFormat::Markdown, text: s, emoji: None }
}

fn markdown_section(s: String) -> (b: Block)
    ensures
        is_markdown_section(b, s@),
{
    Block::Section { block_id: None, text: markdown(s), accessory: None }
}

/// A message of one markdown section holding `prefix` then `kind`.
fn one_line_message(prefix: &str, kind: &str) -> (m: BlocksMessage)
    ensures
        m.blocks@.len() == 1,
        is_markdown_section(m.blocks@[0], prefix@ + kind@),
{
    let mut s = String::from_str(prefix);
    s.append(kind);
    let mut blocks = Vec::new();
    blocks.push(markdown_section(s));
    BlocksMessage { blocks }
}

/// The message telling that the command `kind` failed: one markdown section
/// `fail: <kind>`.
pub fn get_fail_message(kind: &str) -> (m: BlocksMessage)
    ensures
        m.blocks@.len() == 1,
        is_markdown_section(m.blocks@[0], "fail: "@ + kind@),
{
    one_line_message("fail: ", kind)
}

/// The message telling that the command `kind` succeeded: one markdown
/// section `success: <kind>`.
pub fn get_success_message(kind: &str) -> (m: BlocksMessage)
    ensures
        m.blocks@.len() == 1,
        is_markdown_section(m.blocks@[0], "success: "@ + kind@),
{
    one_line_message("success: ", kind)
}

/// The greeting of the help message.
pub const HELP_GREETING: &'static str = "Hey there 👋 I'm Discuss Bot. I'm here to help you manage your technologie watch in Slack.\nThere are two main command to know:";

/// The help on adding a link.
pub const HELP_ADD: &'static str = "*1️⃣ Use the `/discuss add {url} topics {topic} ` command*. Type `/discuss add` followed by the {url} you want to add to the discuss list. You should also provide a list of topic comma separated to set topic to your link (e.g. `topics \" topic1, topic2, topic3\"`) with a *maximum of 3 topics*.";

/// The help on registering to topics.
pub const HELP_REGISTER: &'static str = "*2️⃣ Use the `/discuss register {topic}` command.* This will register you as user to topics and enable me, DiscussBot, to give you a daily summary of article you may be interested on..";

/// The help on listing topics.
pub const HELP_TOPICS: &'static str = "👀 View all topics with `/discuss topics`";

/// The help message: the greeting, the help on adding and on registering
/// (markdown sections), a divider, and a context holding the help on
/// listing topics.
pub fn get_help_message() -> (m: BlocksMessage)
    ensures
        m.blocks@.len() == 5,
        is_markdown_section(m.blocks@[0], HELP_GREETING@),
        is_markdown_section(m.blocks@[1], HELP_ADD@),
        is_markdown_section(m.blocks@[2], HELP_REGISTER@),
        m.blocks@[3] is Divider,
        m.blocks@[4] matches Block::Context { elements } && elements@.len() == 1 && is_text(
            elements@[0],
            true,
            HELP_TOPICS@,
        ),
{
    let mut blocks = Vec::new();
    blocks.push(markdown_section(String::from_str(HELP_GREETING)));
    blocks.push(markdown_section(String::from_str(HELP_ADD)));
    blocks.push(markdown_section(String::from_str(HELP_REGISTER)));
    blocks.push(Block::Divider);
    let mut elements = Vec::new();
    elements.push(markdown(String::from_str(HELP_TOPICS)));
    blocks.push(Block::Context { elements });
    BlocksMessage { blocks }
}

/// The id of the section that asks for a link's topics.
pub const CHOICE_BLOCK_ID: &'static str = "section678";

/// The question that asks for a link's topics.
pub const CHOICE_QUESTION: &'static str = "Pick one or more topics from the list (max 3)";

/// The placeholder of the topic menu.
pub const CHOICE_PLACEHOLDER: &'static str = "Select topics";

/// The most topics a link can be filed under.
pub const MAX_TOPICS_PER_LINK: u32 = 3;

/// The message asking which topics to file `url` under: one section (see
/// [`is_topics_choice`]).
pub fn get_topics_choice_message(url: String) -> (m: BlocksMessage)
    ensures
        m.blocks@.len() == 1,
        is_topics_choice(m.blocks@[0], url@),
{
    let menu = TopicSelect {
        action_id: url,
        placeholder: Text {
            format: TextFormat::Plain,
            text: String::from_str(CHOICE_PLACEHOLDER),
            emoji: Some(true),
        },
        max_selected_items: MAX_TOPICS_PER_LINK,
    };
    let mut blocks = Vec::new();
    blocks.push(
        Block::Section {
            block_id: Some(String::from_str(CHOICE_BLOCK_ID)),
            text: markdown(String::from_str(CHOICE_QUESTION)),
            accessory: Some(menu),
        },
    );
    BlocksMessage { blocks }
}

/// The JSON text of a menu option before the topic's name.
pub const OPTION_OPEN: &'static str = "{\"text\": {\"type\": \"plain_text\", \"text\": \"";

/// The JSON text of a menu option between the name and the id.
pub const OPTION_MIDDLE: &'static str = "\", \"emoji\": true}, \"value\": \"";

/// The JSON text of a menu option after the id.
pub const OPTION_CLOSE: &'static str = "\"}";

/// The JSON text of the menu option for the topic `id` named `name`: the
/// name is written as it stands and the id in decimal.
pub open spec fn option_json(id: i64, name: Seq<char>) -> Seq<char> {
    OPTION_OPEN@ + name + OPTION_MIDDLE@ + int_decimal(id as int) + OPTION_CLOSE@
}

/// A menu option's JSON text holds the topic's whole name, as it stands,
/// right after the fixed opening, and the topic's id, in decimal, right
/// before the fixed closing; so two options with different ids never hold
/// the same value text.
pub proof fn lemma_option_holds_name_and_id(id: i64, name: Seq<char>)
    ensures
        option_json(id, name).subrange(0, (OPTION_OPEN@.len() + name.len()) as int)
            == OPTION_OPEN@ + name,
        option_json(id, name).subrange(
            option_json(id, name).len() - int_decimal(id as int).len() - OPTION_CLOSE@.len(),
            option_json(id, name).len() as int,
        ) == int_decimal(id as int) + OPTION_CLOSE@,
        forall|other: i64|
            #[trigger] int_decimal(other as int) == int_decimal(id as int) ==> other == id,
{
    let j = option_json(id, name);
    let d = int_decimal(id as int);
    assert(j.subrange(0, (OPTION_OPEN@.len() + name.len()) as int) =~= OPTION_OPEN@ + name);
    assert(j.subrange(j.len() - d.len() - OPTION_CLOSE@.len(), j.len() as int) =~= d
        + OPTION_CLOSE@);
    assert forall|other: i64| #[trigger] int_decimal(other as int) == int_decimal(id as int) implies other
        == id by {
        lemma_int_decimal_injective(other as int, id as int);
    }
}

/// The options of a topic menu, one for each (id, name) in `topics`, in
/// order (see [`option_json`]).
pub fn get_topics_option_message(topics: Vec<(i64, String)>) -> (m: OptionsMessage)
    ensures
        m.options@.len() == topics@.len(),
        forall|k: int|
            0 <= k < topics@.len() ==> #[trigger] m.options@[k]@ == option_json(
                topics@[k].0,
                topics@[k].1@,
            ),
{
    let mut options: Vec<String> = Vec::new();
    for i in 0..topics.len()
        invariant
            options@.len() == i,
            forall|k: int|
                0 <= k < i ==> #[trigger] options@[k]@ == option_json(topics@[k].0, topics@[k].1@),
    {
        let mut s = String::from_str(OPTION_OPEN);
        s.append(topics[i].1.as_str());
        s.append(OPTION_MIDDLE);
        let id = decimal(topics[i].0);
        s.append(id.as_str());
        s.append(OPTION_CLOSE);
        options.push(s);
    }
    OptionsMessage { options }
}

/// The JSON text of a listed topic before its name.
pub const TOPIC_OPEN: &'static str = "{\"type\": \"section\", \"text\": {\"type\": \"plain_text\", \"text\": \"";

/// The JSON text of a listed topic after its name.
pub const TOPIC_CLOSE: &'static str = "\"}}";

/// The JSON text of the section listing the topic `name`, written as it
/// stands.
pub open spec fn topic_section_json(name: Seq<char>) -> Seq<char> {
    TOPIC_OPEN@ + name + TOPIC_CLOSE@
}

/// A listed topic's section holds the topic's whole name, as it stands,
/// between the fixed JSON text around it: the name can be read back from the
/// section, so two different names never give the same section.
pub proof fn lemma_topic_section_holds_the_whole_name(name: Seq<char>, other: Seq<char>)
    ensures
        topic_section_json(name).len() == TOPIC_OPEN@.len() + name.len() + TOPIC_CLOSE@.len(),
        topic_section_json(name).subrange(0, TOPIC_OPEN@.len() as int) == TOPIC_OPEN@,
        topic_section_json(name).subrange(
            TOPIC_OPEN@.len() as int,
            (TOPIC_OPEN@.len() + name.len()) as int,
        ) == name,
        topic_section_json(name).subrange(
            (TOPIC_OPEN@.len() + name.len()) as int,
            topic_section_json(name).len() as int,
        ) == TOPIC_CLOSE@,
        topic_section_json(name) == topic_section_json(other) ==> name == other,
{
    let j = topic_section_json(name);
    let o = TOPIC_OPEN@.len() as int;
    assert(j.subrange(0, o) =~= TOPIC_OPEN@);
    assert(j.subrange(o, o + name.len()) =~= name);
    assert(j.subrange(o + name.len(), j.len() as int) =~= TOPIC_CLOSE@);
    let k = topic_section_json(other);
    assert(k.subrange(o, o + other.len()) =~= other);
    if j == k {
        assert(name.len() == other.len());
    }
}

/// The message listing `topics`: one section per topic, in order, given as
/// JSON text (see [`topic_section_json`]).
pub fn get_topics_message(topics: &Vec<(i64, String)>) -> (m: BlocksMessage)
    ensures
        m.blocks@.len() == topics@.len(),
        forall|k: int|
            0 <= k < topics@.len() ==> is_framed(
                #[trigger] m.blocks@[k],
                topic_section_json(topics@[k].1@),
            ),
{
    let mut blocks: Vec<Block> = Vec::new();
    for i in 0..topics.len()
        invariant
            blocks@.len() == i,
            forall|k: int|
                0 <= k < i ==> is_framed(#[trigger] blocks@[k], topic_section_json(topics@[k].1@)),
    {
        let mut s = String::from_str(TOPIC_OPEN);
        s.append(topics[i].1.as_str());
        s.append(TOPIC_CLOSE);
        blocks.push(Block::Framed { json: s });
    }
    BlocksMessage { blocks }
}

/// The JSON text of a link's attachment before the address.
pub const ATTACHMENT_OPEN: &'static str = "{\"type\": \"section\", \"text\": \"";

/// The JSON text of a link's attachment between the address and the topic:
/// an escaped line break and a back quote.
pub const ATTACHMENT_MIDDLE: &'static str = "\\n`";

/// The JSON text of a link's attachment after the topic.
pub const ATTACHMENT_CLOSE: &'static str = "`\"}";

/// The JSON text of the attachment for the link `address` under the topic
/// `topic`, both written as they stand.
pub open spec fn attachment_json(address: Seq<char>, topic: Seq<char>) -> Seq<char> {
    ATTACHMENT_OPEN@ + address + ATTACHMENT_MIDDLE@ + topic + ATTACHMENT_CLOSE@
}

/// A link's attachment holds the link's whole address, as it stands, right
/// after the fixed opening, and the topic's whole name right before the
/// fixed closing.
pub proof fn lemma_attachment_holds_address_and_topic(address: Seq<char>, topic: Seq<char>)
    ensures
        attachment_json(address, topic).subrange(0, (ATTACHMENT_OPEN@.len() + address.len()) as int)
            == ATTACHMENT_OPEN@ + address,
        attachment_json(address, topic).subrange(
            attachment_json(address, topic).len() - topic.len() - ATTACHMENT_CLOSE@.len(),
            attachment_json(address, topic).len() as int,
        ) == topic + ATTACHMENT_CLOSE@,
        attachment_json(address, topic).len() == ATTACHMENT_OPEN@.len() + address.len()
            + ATTACHMENT_MIDDLE@.len() + topic.len() + ATTACHMENT_CLOSE@.len(),
{
    let j = attachment_json(address, topic);
    assert(j.subrange(0, (ATTACHMENT_OPEN@.len() + address.len()) as int) =~= ATTACHMENT_OPEN@
        + address);
    assert(j.subrange(j.len() - topic.len() - ATTACHMENT_CLOSE@.len(), j.len() as int) =~= topic
        + ATTACHMENT_CLOSE@);
}

/// The summary of `urls` posted to the channel `user_chan`, as the bot user:
/// one attachment per link, in order, naming the link's first topic (see
/// [`attachment_json`]). Every link must have a topic.
pub fn discuss_message(user_chan: &String, urls: &Vec<SqlUrl>) -> (m: ChatPostMessage)
    requires
        all_have_topics(urls@),
    ensures
        m.as_user,
        m.channel@ == user_chan@,
        m.attachments@.len() == urls@.len(),
        forall|k: int|
            0 <= k < urls@.len() ==> #[trigger] m.attachments@[k]@ == attachment_json(
                urls@[k].value@,
                urls@[k].topics@[0].name@,
            ),
{
    let mut attachments: Vec<String> = Vec::new();
    for i in 0..urls.len()
        invariant
            all_have_topics(urls@),
            attachments@.len() == i,
            forall|k: int|
                0 <= k < i ==> #[trigger] attachments@[k]@ == attachment_json(
                    urls@[k].value@,
                    urls@[k].topics@[0].name@,
                ),
    {
        assert(urls@[i as int].topics@.len() > 0);
        let url = &urls[i];
        let mut s = String::from_str(ATTACHMENT_OPEN);
        s.append(url.value.as_str());
        s.append(ATTACHMENT_MIDDLE);
        s.append(url.topics[0].name.as_str());
        s.append(ATTACHMENT_CLOSE);
        attachments.push(s);
    }
    ChatPostMessage { as_user: true, channel: user_chan.clone(), attachments }
}

} // verus!
