# docsgpt-telegram

Telegram bots for [DocsGPT](https://www.docsgpt.cloud/) agents. One program runs any
number of bots, each connected to one or more agents: answers stream in as live drafts
with a stop button and end as rich messages, files and voice notes become questions,
and what an agent's tools produce is sent back into the chat.

What the bots decide is a library, verified with [Verus](https://github.com/verus-lang/verus):
each function states in its contract what it returns, and the contracts are proved.

## Layout

- `src/` — the library
  - `config.rs`, `config_laws.rs` — configuration: environment references, the
    environment layout, what is refused and why
  - `storage/` — scopes and their keys, the store in memory, documents of older
    deployments
  - `docsgpt/` — server-sent events, stream events, tool outputs, replies
  - `telegram/` — MarkdownV2 rendering, splitting and packing, request parameters,
    pacing, polling, webhooks
  - `handlers/` — routing of messages, commands, buttons, business, guest and inline
    queries; the turn, its draft, its delivery, and the intake of files
  - `text.rs`, `json.rs`, `pattern.rs`, `util.rs` — what the rest is built from
- `tests/` — tests of the library
- `app/` — the program: command line, HTTP, Telegram and database calls

Calls into other crates stand behind small wrappers marked `external_body`; the comment
above each says what it takes on trust.

The laws that hold across functions are public proof functions, next to what they speak
of or in a `laws` module: that nothing of an answer is lost when it is split, that a
store gives back what was stored, that every delivery comes to its end.
