//! The slash commands the bot understands, and how a command text is read.
use vstd::prelude::*;
use vstd::string::*;

use crate::pattern::{Pattern, regex_compiles, regex_is_match, regex_replace_all, regex_whole_matches};
use crate::text::{
    first_word, first_word_of, has_prefix, lowercase_of, starts_with, to_lowercase, lemma_trimmed,
    trim, trimmed,
};

verus! {

/// The word that starts a command adding a link.
pub const ADD_COMMAND: &'static str = "add";

/// The word that starts a command listing the caller's topics.
pub const MY_TOPICS_COMMAND: &'static str = "mytopics";

/// The word that starts a command listing every topic.
pub const TOPICS_COMMAND: &'static str = "topics";

/// Recognises a command registering the caller to topics.
pub const REGISTER_PATTERN: &'static str = "^[R,r]egister (to )*";

/// Recognises a command unregistering the caller from topics.
pub const UNREGISTER_PATTERN: &'static str = "^[U,u]nregister (from )*";

/// Recognises a command creating topics.
pub const CREATE_TOPICS_PATTERN: &'static str = "^[C,c]reate (topic(s)? )*";

/// One item of a comma-separated list.
pub const COMMA_SEPARATED_PATTERN: &'static str = "([^,]+)";

/// A web address, with or without its scheme.
pub const URL_PATTERN: &'static str =
    r"^(?:http(s)?://)?[\w.-]+(?:\.[\w\.-]+)+([\w\-\._~:/?#\[\]@!\$&'\(\)\*\+,;=.])+$";

/// A command read from the text typed after the slash command.
#[derive(Debug, PartialEq, Eq)]
pub enum Command {
    /// Add a link; `url` is empty when the text held no address.
    Add { url: String },
    /// Unregister the caller from the listed topics.
    Unregister { topics: Vec<String> },
    /// Register the caller to the listed topics.
    Register { topics: Vec<String> },
    /// List the caller's topics.
    MyTopics,
    /// List every topic.
    AllTopics,
    /// Create the listed topics (names in lower case).
    CreateTopics { names: Vec<String> },
    /// Anything else: show the help.
    Help,
}

/// The mathematical form of a [`Command`].
pub enum CommandView {
    Add { url: Seq<char> },
    Unregister { topics: Seq<Seq<char>> },
    Register { topics: Seq<Seq<char>> },
    MyTopics,
    AllTopics,
    CreateTopics { names: Seq<Seq<char>> },
    Help,
}

/// The texts of a list of strings.
pub open spec fn texts(v: Seq<String>) -> Seq<Seq<char>> {
    v.map_values(|s: String| s@)
}

impl View for Command {
    type V = CommandView;

    open spec fn view(&self) -> CommandView {
        match self {
            Command::Add { url } => CommandView::Add { url: url@ },
            Command::Unregister { topics } => CommandView::Unregister { topics: texts(topics@) },
            Command::Register { topics } => CommandView::Register { topics: texts(topics@) },
            Command::MyTopics => CommandView::MyTopics,
            Command::AllTopics => CommandView::AllTopics,
            Command::CreateTopics { names } => CommandView::CreateTopics { names: texts(names@) },
            Command::Help => CommandView::Help,
        }
    }
}

/// The address in a command: the first word of `command` when the address
/// expression matches it, as the first match the expression finds there;
/// otherwise the empty text.
pub open spec fn url_in(command: Seq<char>) -> Seq<char> {
    let word = first_word(command);
    let found = regex_whole_matches(URL_PATTERN@, word);
    if regex_is_match(URL_PATTERN@, word) && found.len() > 0 {
        found[0]
    } else {
        Seq::empty()
    }
}

/// The topic names in a comma-separated list: each item, trimmed.
pub open spec fn topic_names_in(list: Seq<char>) -> Seq<Seq<char>> {
    regex_whole_matches(COMMA_SEPARATED_PATTERN@, list).map_values(|item: Seq<char>| trimmed(item))
}

/// The names of topics to create in a comma-separated list: each item,
/// trimmed, then in lower case.
pub open spec fn new_topic_names_in(list: Seq<char>) -> Seq<Seq<char>> {
    regex_whole_matches(COMMA_SEPARATED_PATTERN@, list).map_values(
        |item: Seq<char>| lowercase_of(trimmed(item)),
    )
}

/// What follows the leading `add` of a command adding a link.
pub open spec fn after_add(text: Seq<char>) -> Seq<char> {
    text.subrange(ADD_COMMAND@.len() as int, text.len() as int)
}

/// The command that `text` asks for. The tests are tried in this order:
/// a text that starts with `add` adds the address typed after that `add`
/// (`/discuss add {url}`); one that the unregister or the register
/// expression matches names topics after the matched words; one that starts
/// with `mytopics`, then `topics`, lists topics; one that the create
/// expression matches names topics to create; anything else asks for help.
pub open spec fn command_of(text: Seq<char>) -> CommandView {
    if has_prefix(text, ADD_COMMAND@) {
        CommandView::Add { url: url_in(after_add(text)) }
    } else if regex_is_match(UNREGISTER_PATTERN@, text) {
        CommandView::Unregister {
            topics: topic_names_in(regex_replace_all(UNREGISTER_PATTERN@, text, Seq::empty())),
        }
    } else if regex_is_match(REGISTER_PATTERN@, text) {
        CommandView::Register {
            topics: topic_names_in(regex_replace_all(REGISTER_PATTERN@, text, Seq::empty())),
        }
    } else if has_prefix(text, MY_TOPICS_COMMAND@) {
        CommandView::MyTopics
    } else if has_prefix(text, TOPICS_COMMAND@) {
        CommandView::AllTopics
    } else if regex_is_match(CREATE_TOPICS_PATTERN@, text) {
        CommandView::CreateTopics {
            names: new_topic_names_in(
                regex_replace_all(CREATE_TOPICS_PATTERN@, text, Seq::empty()),
            ),
        }
    } else {
        CommandView::Help
    }
}

/// The address added is the word typed, character for character: when the
/// first word of the command is itself the first match of the address
/// expression there, the address is that word; in any case the address is
/// empty or one of the matches found in the first word.
pub proof fn lemma_url_is_the_typed_word(command: Seq<char>)
    ensures
        regex_is_match(URL_PATTERN@, first_word(command)) && regex_whole_matches(
            URL_PATTERN@,
            first_word(command),
        ).len() > 0 && regex_whole_matches(URL_PATTERN@, first_word(command))[0] == first_word(
            command,
        ) ==> url_in(command) == first_word(command),
        url_in(command).len() == 0 || regex_whole_matches(
            URL_PATTERN@,
            first_word(command),
        ).contains(url_in(command)),
{
    let found = regex_whole_matches(URL_PATTERN@, first_word(command));
    if regex_is_match(URL_PATTERN@, first_word(command)) && found.len() > 0 {
        assert(found[0] == url_in(command));
    }
}

/// A command adding a link adds the word typed right after its leading
/// `add`, character for character, whenever that word is itself the first
/// match of the address expression.
pub proof fn lemma_add_reads_the_typed_address(text: Seq<char>)
    requires
        text.len() >= 3,
        text.subrange(0, 3) == seq!['a', 'd', 'd'],
    ensures
        ({
            let word = first_word(text.subrange(3, text.len() as int));
            let found = regex_whole_matches(URL_PATTERN@, word);
            regex_is_match(URL_PATTERN@, word) && found.len() > 0 && found[0] == word
                ==> command_of(text) == (CommandView::Add { url: word })
        }),
{
    reveal_strlit("add");
    assert(ADD_COMMAND@ =~= seq!['a', 'd', 'd']);
    lemma_url_is_the_typed_word(text.subrange(3, text.len() as int));
}

/// Each comma-separated item of a list gives exactly one name, in order:
/// there are as many names as items, and name `k` is item `k` trimmed (in
/// lower case, for topics to create). No item is dropped or added.
pub proof fn lemma_one_name_per_item(list: Seq<char>)
    ensures
        topic_names_in(list).len() == regex_whole_matches(COMMA_SEPARATED_PATTERN@, list).len(),
        new_topic_names_in(list).len() == regex_whole_matches(COMMA_SEPARATED_PATTERN@, list).len(),
        forall|k: int|
            0 <= k < regex_whole_matches(COMMA_SEPARATED_PATTERN@, list).len() ==> {
                &&& #[trigger] topic_names_in(list)[k] == trimmed(
                    regex_whole_matches(COMMA_SEPARATED_PATTERN@, list)[k],
                )
                &&& new_topic_names_in(list)[k] == lowercase_of(
                    trimmed(regex_whole_matches(COMMA_SEPARATED_PATTERN@, list)[k]),
                )
            },
{
}

/// Adding a link takes precedence: a text that starts with `add` asks to add
/// the address found in it, whatever else the text matches.
pub proof fn lemma_add_takes_precedence(text: Seq<char>)
    requires
        has_prefix(text, ADD_COMMAND@),
    ensures
        command_of(text) == (CommandView::Add { url: url_in(after_add(text)) }),
{
}

/// The topic names read from a list are already trimmed: none starts or
/// ends with white space, so " rust " and "rust" name the same topic.
pub proof fn lemma_topic_names_are_trimmed(list: Seq<char>)
    ensures
        forall|k: int|
            0 <= k < topic_names_in(list).len() ==> trimmed(#[trigger] topic_names_in(list)[k])
                == topic_names_in(list)[k],
{
    let items = regex_whole_matches(COMMA_SEPARATED_PATTERN@, list);
    assert forall|k: int| 0 <= k < topic_names_in(list).len() implies trimmed(
        #[trigger] topic_names_in(list)[k],
    ) == topic_names_in(list)[k] by {
        lemma_trimmed(items[k]);
    }
}

/// Whether every expression the commands use is accepted by the `regex`
/// crate.
pub open spec fn patterns_compile() -> bool {
    &&& regex_compiles(REGISTER_PATTERN@)
    &&& regex_compiles(UNREGISTER_PATTERN@)
    &&& regex_compiles(CREATE_TOPICS_PATTERN@)
    &&& regex_compiles(COMMA_SEPARATED_PATTERN@)
    &&& regex_compiles(URL_PATTERN@)
}

/// The compiled expressions that reading a command needs.
pub struct CommandParser {
    register: Pattern,
    unregister: Pattern,
    create_topics: Pattern,
    comma_separated: Pattern,
    url: Pattern,
}

impl CommandParser {
    #[verifier::type_invariant]
    spec fn compiled_from_sources(&self) -> bool {
        &&& self.register@ == REGISTER_PATTERN@
        &&& self.unregister@ == UNREGISTER_PATTERN@
        &&& self.create_topics@ == CREATE_TOPICS_PATTERN@
        &&& self.comma_separated@ == COMMA_SEPARATED_PATTERN@
        &&& self.url@ == URL_PATTERN@
    }

    /// Compiles the expressions; `None` when the `regex` crate refuses one.
    pub fn new() -> (r: Option<CommandParser>)
        ensures
            r is Some <==> patterns_compile(),
    {
        let register = match Pattern::compile(String::from_str(REGISTER_PATTERN)) {
            Some(p) => p,
            None => return None,
        };
        let unregister = match Pattern::compile(String::from_str(UNREGISTER_PATTERN)) {
            Some(p) => p,
            None => return None,
        };
        let create_topics = match Pattern::compile(String::from_str(CREATE_TOPICS_PATTERN)) {
            Some(p) => p,
            None => return None,
        };
        let comma_separated = match Pattern::compile(String::from_str(COMMA_SEPARATED_PATTERN)) {
            Some(p) => p,
            None => return None,
        };
        let url = match Pattern::compile(String::from_str(URL_PATTERN)) {
            Some(p) => p,
            None => return None,
        };
        Some(CommandParser { register, unregister, create_topics, comma_separated, url })
    }

    /// The address in `command` (see [`url_in`]).
    pub fn get_url_from_command(&self, command: &str) -> (r: String)
        ensures
            r@ == url_in(command@),
    {
        proof {
            use_type_invariant(self);
        }
        let word = first_word_of(command);
        if !self.url.is_match(word) {
            return String::new();
        }
        let found = self.url.whole_matches(word);
        if found.len() > 0 {
            assert(texts(found@)[0] == found@[0]@);
            found[0].clone()
        } else {
            String::new()
        }
    }

    /// The topic names in the comma-separated `list` (see [`topic_names_in`]).
    pub fn topic_names(&self, list: &str) -> (r: Vec<String>)
        ensures
            texts(r@) == topic_names_in(list@),
    {
        proof {
            use_type_invariant(self);
        }
        let items = self.comma_separated.whole_matches(list);
        let ghost found = regex_whole_matches(COMMA_SEPARATED_PATTERN@, list@);
        let mut names: Vec<String> = Vec::new();
        for i in 0..items.len()
            invariant
                texts(items@) == found,
                names@.len() == i,
                forall|k: int| 0 <= k < i ==> #[trigger] names@[k]@ == trimmed(found[k]),
        {
            assert(texts(items@)[i as int] == items@[i as int]@);
            names.push(String::from_str(trim(items[i].as_str())));
        }
        assert(texts(names@) =~= topic_names_in(list@));
        names
    }

    /// The names of topics to create in the comma-separated `list` (see
    /// [`new_topic_names_in`]).
    pub fn new_topic_names(&self, list: &str) -> (r: Vec<String>)
        ensures
            texts(r@) == new_topic_names_in(list@),
    {
        proof {
            use_type_invariant(self);
        }
        let items = self.comma_separated.whole_matches(list);
        let ghost found = regex_whole_matches(COMMA_SEPARATED_PATTERN@, list@);
        let mut names: Vec<String> = Vec::new();
        for i in 0..items.len()
            invariant
                texts(items@) == found,
                names@.len() == i,
                forall|k: int|
                    0 <= k < i ==> #[trigger] names@[k]@ == lowercase_of(trimmed(found[k])),
        {
            assert(texts(items@)[i as int] == items@[i as int]@);
            names.push(to_lowercase(trim(items[i].as_str())));
        }
        assert(texts(names@) =~= new_topic_names_in(list@));
        names
    }

    /// The command that `text` asks for (see [`command_of`]).
    pub fn parse(&self, text: &str) -> (c: Command)
        ensures
            c@ == command_of(text@),
    {
        proof {
            use_type_invariant(self);
            reveal_strlit("");
            assert(""@ =~= Seq::<char>::empty());
        }
        if starts_with(text, ADD_COMMAND) {
            let rest = text.substring_char(ADD_COMMAND.unicode_len(), text.unicode_len());
            Command::Add { url: self.get_url_from_command(rest) }
        } else if self.unregister.is_match(text) {
            let rest = self.unregister.replace_all(text, "");
            Command::Unregister { topics: self.topic_names(rest.as_str()) }
        } else if self.register.is_match(text) {
            let rest = self.register.replace_all(text, "");
            Command::Register { topics: self.topic_names(rest.as_str()) }
        } else if starts_with(text, MY_TOPICS_COMMAND) {
            Command::MyTopics
        } else if starts_with(text, TOPICS_COMMAND) {
            Command::AllTopics
        } else if self.create_topics.is_match(text) {
            let rest = self.create_topics.replace_all(text, "");
            Command::CreateTopics { names: self.new_topic_names(rest.as_str()) }
        } else {
            Command::Help
        }
    }
}

} // verus!
