//! The bot's decisions between the requests it gets and the work the
//! application does for them: which reply a command gets, which topics a
//! menu offers, what an interaction asks to store, and how the links to send
//! are gathered per user.
use vstd::prelude::*;
use vstd::string::*;

use crate::command::{Command, CommandView, texts};
use crate::models::{Choice, Payload, SqlUrl, SqlUserUrlResult};

verus! {

/// The reply to a command, once the work it asks for is done.
#[derive(Debug, PartialEq, Eq)]
pub enum Reply {
    /// The command failed; `kind` names it.
    Fail { kind: String },
    /// Ask which topics to file the link `url` under.
    ChooseTopics { url: String },
    /// List the caller's topics.
    UserTopics,
    /// List every topic.
    AllTopics,
    /// Show the help.
    Help,
}

/// The mathematical form of a [`Reply`].
pub enum ReplyView {
    Fail { kind: Seq<char> },
    ChooseTopics { url: Seq<char> },
    UserTopics,
    AllTopics,
    Help,
}

impl View for Reply {
    type V = ReplyView;

    open spec fn view(&self) -> ReplyView {
        match self {
            Reply::Fail { kind } => ReplyView::Fail { kind: kind@ },
            Reply::ChooseTopics { url } => ReplyView::ChooseTopics { url: url@ },
            Reply::UserTopics => ReplyView::UserTopics,
            Reply::AllTopics => ReplyView::AllTopics,
            Reply::Help => ReplyView::Help,
        }
    }
}

/// The reply to `command`, where `handled` tells whether the work for a
/// (un)registration went through: a link with no address fails as `add`;
/// a link with one asks for its topics; an (un)registration lists the
/// caller's topics, or fails when it did not go through; the listing
/// commands list; creating topics and anything else show the help.
pub open spec fn reply_of(command: CommandView, handled: bool) -> ReplyView {
    match command {
        CommandView::Add { url } => if url.len() == 0 {
            ReplyView::Fail { kind: "add"@ }
        } else {
            ReplyView::ChooseTopics { url }
        },
        CommandView::Unregister { .. } => if handled {
            ReplyView::UserTopics
        } else {
            ReplyView::Fail { kind: "unregister"@ }
        },
        CommandView::Register { .. } => if handled {
            ReplyView::UserTopics
        } else {
            ReplyView::Fail { kind: "register"@ }
        },
        CommandView::MyTopics => ReplyView::UserTopics,
        CommandView::AllTopics => ReplyView::AllTopics,
        CommandView::CreateTopics { .. } => ReplyView::Help,
        CommandView::Help => ReplyView::Help,
    }
}

/// The reply to `command` (see [`reply_of`]).
pub fn reply_for(command: &Command, handled: bool) -> (r: Reply)
    ensures
        r@ == reply_of(command@, handled),
{
    match command {
        Command::Add { url } => {
            if url.unicode_len() == 0 {
                Reply::Fail { kind: String::from_str("add") }
            } else {
                Reply::ChooseTopics { url: url.clone() }
            }
        },
        Command::Unregister { .. } => {
            if handled {
                Reply::UserTopics
            } else {
                Reply::Fail { kind: String::from_str("unregister") }
            }
        },
        Command::Register { .. } => {
            if handled {
                Reply::UserTopics
            } else {
                Reply::Fail { kind: String::from_str("register") }
            }
        },
        Command::MyTopics => Reply::UserTopics,
        Command::AllTopics => Reply::AllTopics,
        Command::CreateTopics { .. } => Reply::Help,
        Command::Help => Reply::Help,
    }
}

/// The id a topic menu gives to the option that stands for a topic not
/// created yet.
pub const NEW_TOPIC_ID: i64 = -1;

/// The options of a topic menu: the topics found, or, when none was found,
/// the typed text itself under [`NEW_TOPIC_ID`].
pub open spec fn options_of(found: Seq<(i64, String)>, typed: String) -> Seq<(i64, String)> {
    if found.len() == 0 {
        seq![(NEW_TOPIC_ID, typed)]
    } else {
        found
    }
}

/// The options of a topic menu (see [`options_of`]).
pub fn topic_options(found: Vec<(i64, String)>, typed: String) -> (r: Vec<(i64, String)>)
    ensures
        r@ == options_of(found@, typed),
{
    let mut options = found;
    if options.len() == 0 {
        options.push((NEW_TOPIC_ID, typed));
        assert(options@ =~= seq![(NEW_TOPIC_ID, typed)]);
    }
    options
}

/// The menu offers every topic found, in order, and nothing else; only when
/// nothing was found does it offer the typed text, once, as a new topic.
pub proof fn lemma_options_offer_every_topic_found(found: Seq<(i64, String)>, typed: String)
    ensures
        found.len() > 0 ==> options_of(found, typed).len() == found.len() && forall|k: int|
            0 <= k < found.len() ==> #[trigger] options_of(found, typed)[k] == found[k],
        found.len() == 0 ==> options_of(found, typed).len() == 1 && options_of(found, typed)[0]
            == (-1i64, typed),
{
}

/// A topic menu always offers at least one option.
pub proof fn lemma_options_never_empty(found: Seq<(i64, String)>, typed: String)
    ensures
        options_of(found, typed).len() > 0,
{
}

/// A link with an address is answered by asking for the topics of that very
/// address; one with no address fails as `add`; creating topics and
/// anything unrecognised are answered with the help.
pub proof fn lemma_reply_to_links_and_help(url: Seq<char>, names: Seq<Seq<char>>, handled: bool)
    ensures
        url.len() > 0 ==> reply_of(CommandView::Add { url }, handled) == (ReplyView::ChooseTopics {
            url,
        }),
        url.len() == 0 ==> reply_of(CommandView::Add { url }, handled) == (ReplyView::Fail {
            kind: "add"@,
        }),
        reply_of(CommandView::CreateTopics { names }, handled) == ReplyView::Help,
        reply_of(CommandView::Help, handled) == ReplyView::Help,
        reply_of(CommandView::AllTopics, handled) == ReplyView::AllTopics,
{
}

/// A registration or unregistration that went through is answered with the
/// caller's own topics, the same answer as asking for one's topics; listing
/// every topic is the answer to `topics` alone.
pub proof fn lemma_handled_subscription_lists_own_topics(topics: Seq<Seq<char>>, handled: bool)
    ensures
        reply_of(CommandView::Unregister { topics }, true) == ReplyView::UserTopics,
        reply_of(CommandView::Register { topics }, true) == ReplyView::UserTopics,
        reply_of(CommandView::Unregister { topics }, true) == reply_of(CommandView::MyTopics, handled),
        reply_of(CommandView::Register { topics }, true) == reply_of(CommandView::MyTopics, handled),
        forall|c: CommandView| #[trigger] reply_of(c, handled) is AllTopics ==> c is AllTopics,
{
}

/// A command fails only when it asks to add a link and holds no address, or
/// when an (un)registration did not go through; every other command gets a
/// listing, a topic menu or the help.
pub proof fn lemma_reply_fails_only_on_missing_url_or_unhandled(command: CommandView, handled: bool)
    ensures
        reply_of(command, handled) is Fail <==> (command matches CommandView::Add { url } && url.len()
            == 0) || (!handled && (command is Register || command is Unregister)),
{
}

/// The values of picked options.
pub open spec fn choice_values(choices: Seq<Choice>) -> Seq<Seq<char>> {
    choices.map_values(|c: Choice| c.value@)
}

/// What an interaction asks to store: the link of its first action and the
/// values (topic ids) of the options picked there. The payload must hold an
/// action.
pub fn selected_discussion(payload: &Payload) -> (r: (String, Vec<String>))
    requires
        payload.actions@.len() > 0,
    ensures
        r.0@ == payload.actions@[0].action_id@,
        texts(r.1@) == choice_values(payload.actions@[0].selected_options@),
{
    let action = &payload.actions[0];
    let mut values: Vec<String> = Vec::new();
    for i in 0..action.selected_options.len()
        invariant
            action == payload.actions@[0],
            values@.len() == i,
            forall|k: int|
                0 <= k < i ==> #[trigger] values@[k]@ == action.selected_options@[k].value@,
    {
        values.push(action.selected_options[i].value.clone());
    }
    assert(texts(values@) =~= choice_values(action.selected_options@));
    (action.action_id.clone(), values)
}

/// The links to send to one user.
#[derive(Debug, PartialEq, Eq)]
pub struct UserUrls {
    pub user: String,
    pub urls: Vec<SqlUrl>,
}

/// The mathematical form of a list of [`UserUrls`].
pub open spec fn group_views(groups: Seq<UserUrls>) -> Seq<(Seq<char>, Seq<SqlUrl>)> {
    groups.map_values(|g: UserUrls| (g.user@, g.urls@))
}

/// The rows gathered into runs of consecutive rows with the same user: each
/// run is the user and the links of its rows, in order (what
/// `group_by(|row| row.user.id)` gives).
pub open spec fn runs_by_user(rows: Seq<SqlUserUrlResult>) -> Seq<(Seq<char>, Seq<SqlUrl>)>
    decreases rows.len(),
{
    if rows.len() == 0 {
        Seq::empty()
    } else {
        let before = runs_by_user(rows.drop_last());
        let row = rows.last();
        if before.len() > 0 && before.last().0 == row.user.id@ {
            before.update(before.len() - 1, (row.user.id@, before.last().1.push(row.url)))
        } else {
            before.push((row.user.id@, seq![row.url]))
        }
    }
}

/// Each (user, link) pair of a list of runs, in order.
pub open spec fn run_pairs(runs: Seq<(Seq<char>, Seq<SqlUrl>)>) -> Seq<(Seq<char>, SqlUrl)>
    decreases runs.len(),
{
    if runs.len() == 0 {
        Seq::empty()
    } else {
        let user = runs.last().0;
        run_pairs(runs.drop_last()) + runs.last().1.map_values(|u: SqlUrl| (user, u))
    }
}

/// The (user, link) pair of each row, in order.
pub open spec fn row_pairs(rows: Seq<SqlUserUrlResult>) -> Seq<(Seq<char>, SqlUrl)> {
    rows.map_values(|r: SqlUserUrlResult| (r.user.id@, r.url))
}

/// Gathering rows by user loses, adds and reorders nothing: reading the
/// runs back pair by pair gives the rows' (user, link) pairs; no run is
/// empty; and two neighbouring runs belong to different users.
pub proof fn lemma_runs_partition_rows(rows: Seq<SqlUserUrlResult>)
    ensures
        run_pairs(runs_by_user(rows)) == row_pairs(rows),
        forall|k: int|
            0 <= k < runs_by_user(rows).len() ==> #[trigger] runs_by_user(rows)[k].1.len() > 0,
        forall|k: int|
            0 < k < runs_by_user(rows).len() ==> runs_by_user(rows)[k - 1].0
                != #[trigger] runs_by_user(rows)[k].0,
    decreases rows.len(),
{
    if rows.len() > 0 {
        let prefix = rows.drop_last();
        lemma_runs_partition_rows(prefix);
        let before = runs_by_user(prefix);
        let runs = runs_by_user(rows);
        let row = rows.last();
        let u = row.user.id@;
        assert(row_pairs(rows) =~= row_pairs(prefix).push((u, row.url)));
        if before.len() > 0 && before.last().0 == u {
            let urls = before.last().1;
            assert(runs.drop_last() =~= before.drop_last());
            assert(urls.push(row.url).map_values(|x: SqlUrl| (u, x)) =~= urls.map_values(
                |x: SqlUrl| (u, x),
            ).push((u, row.url)));
            assert(run_pairs(runs) =~= run_pairs(before).push((u, row.url)));
        } else {
            assert(runs.drop_last() =~= before);
            assert(seq![row.url].map_values(|x: SqlUrl| (u, x)) =~= seq![(u, row.url)]);
            assert(run_pairs(runs) =~= run_pairs(before).push((u, row.url)));
        }
    }
}

/// Gathers the rows into runs of consecutive rows with the same user (see
/// [`runs_by_user`]).
pub fn group_by_user(rows: Vec<SqlUserUrlResult>) -> (groups: Vec<UserUrls>)
    ensures
        group_views(groups@) == runs_by_user(rows@),
{
    let ghost all = rows@;
    let ghost n = rows@.len();
    let mut rows = rows;
    assert(rows@.len() == rows.len());
    let mut groups: Vec<UserUrls> = Vec::new();
    let mut i: usize = 0;
    assert(all.take(0) =~= Seq::<SqlUserUrlResult>::empty());
    assert(all.subrange(0, n as int) =~= all);
    while rows.len() > 0
        invariant
            n == all.len(),
            n <= usize::MAX,
            i <= n,
            rows@ == all.subrange(i as int, n as int),
            group_views(groups@) == runs_by_user(all.take(i as int)),
        decreases rows.len(),
    {
        let row = rows.remove(0);
        proof {
            assert(row == all[i as int]);
            assert(all.take(i + 1).drop_last() =~= all.take(i as int));
            assert(all.take(i + 1).last() == row);
        }
        let ghost before = group_views(groups@);
        let joins = groups.len() > 0 && groups[groups.len() - 1].user == row.user.id;
        if joins {
            let mut last = groups.pop().unwrap();
            last.urls.push(row.url);
            groups.push(last);
            assert(group_views(groups@) =~= before.update(
                before.len() - 1,
                (row.user.id@, before.last().1.push(row.url)),
            ));
        } else {
            let mut urls: Vec<SqlUrl> = Vec::new();
            urls.push(row.url);
            groups.push(UserUrls { user: row.user.id, urls });
            assert(urls@ =~= seq![row.url]);
            assert(group_views(groups@) =~= before.push((row.user.id@, seq![row.url])));
        }
        i = i + 1;
        assert(rows@ =~= all.subrange(i as int, n as int));
    }
    assert(all.take(n as int) =~= all);
    groups
}

/// Whether every link was filed under at least one topic.
pub open spec fn all_have_topics(urls: Seq<SqlUrl>) -> bool {
    forall|k: int| 0 <= k < urls.len() ==> #[trigger] urls[k].topics@.len() > 0
}

/// The first topic of each link, in order: the topics whose last sending
/// date is brought up to date once the links were sent. Every link must
/// have a topic.
pub fn first_topic_ids(urls: &Vec<SqlUrl>) -> (ids: Vec<u32>)
    requires
        all_have_topics(urls@),
    ensures
        ids@ == urls@.map_values(|u: SqlUrl| u.topics@[0].id),
{
    let mut ids: Vec<u32> = Vec::new();
    for i in 0..urls.len()
        invariant
            all_have_topics(urls@),
            ids@.len() == i,
            forall|k: int| 0 <= k < i ==> #[trigger] ids@[k] == urls@[k].topics@[0].id,
    {
        assert(urls@[i as int].topics@.len() > 0);
        ids.push(urls[i].topics[0].id);
    }
    assert(ids@ =~= urls@.map_values(|u: SqlUrl| u.topics@[0].id));
    ids
}

} // verus!
