# discuss_bot

A Slack bot that keeps a shared list of links filed under topics.

- `src/` is the verified library: `command` reads slash-command texts,
  `bot` chooses replies and gathers links per user, `messages` builds the
  Slack messages, `queries` builds database queries, `text` holds the
  character-level text functions, `pattern` runs regular expressions
  through the `regex` crate, and `models` holds the request and database
  records.
- `app/` is the service around it: the Rocket endpoints, the SQLite
  database, the calls to Slack's web API and the scheduled sending.
- `tests/` runs the library on concrete inputs.
