# ai_group_chat

The core of a desktop app in which several AI models discuss a topic with a human: bots,
topics and messages kept in SQLite, the conversation each bot is sent (with attached files,
images for models that see them, and the text of linked pages), the server-sent event stream
of its answer, the retry policy of a bot's turn, and topic export and import.

- `src/` is the library, verified with Verus. Its functions carry contracts over spec
  functions, and the laws that span several calls are proof functions. The database
  functions work on a `db::Db`, which records, as ghost state, each statement handed to
  SQLite with its parameters and what came back; their contracts state those calls and how
  the result is decoded from the rows read. What SQLite itself does with a statement (that a
  later read sees an earlier write) is not modelled.
  - `text`, `urls`: character-level helpers, link extraction.
  - `models`, `db`, `schema`, `bots`, `topics`, `messages`, `attachments`: the stored data
    and how rows are read and written.
  - `client`, `chat`, `fetch`, `stream`, `turn`: building chat requests, fetched pages,
    decoding streamed answers, and the state machine of one bot's turn.
  - `transfer`: export and import of a topic.
  - `encoding`, `ids`: calls into `base64`, `html2text`, `uuid` and `chrono`.
- `tests/` runs the library on concrete values.
- `app/` is the desktop shell around it: Tauri commands, HTTP, files, and the loop that
  performs what a bot's turn asks for.

Default bots: `schema::default_bot_list` seeds four bots. The first two are seeded as
"Sonnet 4" (model `sonnet-4-20250514`) and "Opus 4.6" (model `opus-4-6`), without their
vendor prefix in the name, the model identifier and the prompt. These are not the
identifiers the vendor's API serves: before use, set them in `default_bot_list` and
`default_bots` to the model identifiers your endpoint expects.
