//! The database queries the bot builds from what users type.
use vstd::prelude::*;
use vstd::string::*;

verus! {

/// The query for topics before the typed beginning of their name.
pub const TOPICS_QUERY_OPEN: &'static str = "SELECT t.id, t.name from topics t WHERE t.name LIKE '";

/// The query for topics after the typed beginning of their name.
pub const TOPICS_QUERY_CLOSE: &'static str = "%'";

/// The query for the id and name of every topic whose name begins with
/// `starting_with`, which is written into the query as it stands.
pub fn topics_query(starting_with: &str) -> (q: String)
    ensures
        q@ == TOPICS_QUERY_OPEN@ + starting_with@ + TOPICS_QUERY_CLOSE@,
{
    let mut q = String::from_str(TOPICS_QUERY_OPEN);
    q.append(starting_with);
    q.append(TOPICS_QUERY_CLOSE);
    q
}

} // verus!
