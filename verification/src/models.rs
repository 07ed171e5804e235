//! The records the bot receives from Slack and reads from its database.
use vstd::prelude::*;

verus! {

/// The form Slack posts when a user types the slash command.
#[derive(Clone, Debug, PartialEq, Eq)]
pub struct SlackInput {
    pub token: String,
    pub command: String,
    pub text: String,
    pub response_url: String,
    pub trigger_id: String,
    pub user_id: String,
    pub user_name: String,
    pub team_id: String,
}

/// The interaction payload Slack posts when a user picks topics for a link.
#[derive(Clone, Debug, PartialEq, Eq)]
pub struct Payload {
    pub response_url: String,
    pub actions: Vec<Action>,
    pub user: User,
}

/// The payload Slack posts to ask for the options of a topic menu.
#[derive(Clone, Debug, PartialEq, Eq)]
pub struct LabelRequestPayload {
    pub value: String,
}

/// One action of an interaction: the link it is about (its id) and the
/// options picked.
#[derive(Clone, Debug, PartialEq, Eq)]
pub struct Action {
    pub action_id: String,
    pub selected_options: Vec<Choice>,
}

/// The Slack user behind an interaction.
#[derive(Clone, Debug, PartialEq, Eq)]
pub struct User {
    pub id: String,
}

/// One picked option: its value is a topic id.
#[derive(Clone, Debug, PartialEq, Eq)]
pub struct Choice {
    pub value: String,
}

/// The form Slack posts around an interaction payload (JSON text).
#[derive(Clone, Debug, PartialEq, Eq)]
pub struct SlackPayload {
    pub payload: String,
}

/// A user as the database knows it.
#[derive(Clone, Debug, PartialEq, Eq)]
pub struct SqlUser {
    pub id: String,
}

/// A topic as the database knows it.
#[derive(Clone, Debug, PartialEq, Eq)]
pub struct SqlTopic {
    pub id: u32,
    pub name: String,
}

/// A stored link and the topics it was filed under.
#[derive(Clone, Debug, PartialEq, Eq)]
pub struct SqlUrl {
    pub id: u32,
    pub value: String,
    pub topics: Vec<SqlTopic>,
}

/// One row of the query for links to send: a user and a link under one of
/// the user's topics.
#[derive(Clone, Debug, PartialEq, Eq)]
pub struct SqlUserUrlResult {
    pub user: SqlUser,
    pub url: SqlUrl,
}

} // verus!
