# ragtg-bot

A Telegram group-chat bot that remembers: a window of recent messages in Redis,
summaries, facts and past moments in SQLite and Qdrant, and answers from language
models.

The bot's rules are a library under `src/`, verified with Verus. It holds no sockets
and no clocks. What a task does next is a function of what has happened so far, and
`app/` carries the steps out.

- `src/bot`: messages, media, commands, answers
- `src/decision.rs`: whether to answer
- `src/llm`: requests, retries, event streams, prompts
- `src/memory`: the window and the long-term memories
- `src/storage`: commands to Redis, a model of the server they run on, searches in
  Qdrant
- `src/tasks`: summaries, facts, scoring, duplicates, portraits of chats
- `src/text.rs`, `src/encoding.rs`, `src/float_bits.rs`: texts, digests, comparison of
  floats by their bits
- `tests/`: the library's tests
- `app/`: the program, with Telegram, HTTP, the databases and the configuration

Proof functions whose names begin with `law_` state what holds across calls: that a
stored description comes back, that a user who has to wait takes nothing of the chat's
quota, that no readable candidate is lost where every model fails.

`Cargo.toml` names `takecell` only to hold it at a version: `teloxide` depends on it,
and its later releases ask for a newer compiler than this crate does.

The program reads `config/config.toml`, or the file that `CONFIG_PATH` names, the
migrations under `migrations/`, and examples of the bot's style from
`config/shots.json`.
