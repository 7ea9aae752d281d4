# spond_accept

A bot that answers Spond event invitations the moment they open, for every
configured member, and reports the outcome to a Discord webhook.

- `src/` is the verified library (Verus): choosing the next event from the
  event list, the waiting schedule before an invitation opens, reading the
  reply to an acceptance and judging a configuration by it, member lookup,
  the addresses the bot calls, the text of events.json, and the messages it
  posts to the webhook or prints about each event. The console's progress
  lines (the countdown, the chosen event, the webhook's status) are written
  in `app/`. Calls into chrono,
  serde_json, reqwest's header validation and os_info stand behind small
  trusted wrappers whose contracts are documented where they are declared.
- `app/` is the program around it: configuration and data files, HTTP
  requests, sleeping, printing, and the serde forms of the library's types.
- `tests/` exercises the library on concrete values.
