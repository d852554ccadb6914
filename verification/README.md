# nightwatche

The verified core of a small host-monitoring service. Slave nodes watch their
authentication log and report security events (SSH logins, sudo, new users and
groups) to a master node, which relays them to Telegram chats and answers
`/health`, `/who` and `/list` commands about all nodes.

- `src/` is the library, written in Verus: message text in MarkdownV2
  (`templates`), settings parsing (`config`, `numbers`, `text`), the slave
  registry (`registry`), request authentication (`auth`), log-line
  classification, failure tracking and address selection (`informer`), the
  bot's decisions (`bot`) and the connector's (`connector`).
- `app/` is the program around it: environment and files, HTTP (axum and
  reqwest), the Telegram bot (teloxide), file watching and the async runtime.
- `tests/` runs the library on concrete values.

The slave registry and the failure tracker keep their entries as vectors of
(key, value) pairs with distinct keys, not as `HashMap`s: with `String` keys,
vstd's specification of `HashMap` lets `insert` and `get` be called but proves
nothing of what they do (not even that a map has one entry after one insert),
so no contract could say what a lookup gives.
