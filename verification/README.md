# tgState

Private file storage on top of a Telegram channel, with a verified core.

Files are uploaded over the web or the API, stored in a channel in one piece
or in chunks with a manifest, and shared by short links. A bot follows the
channel, users log in with OpenID Connect.

## Layout

- `src/` is the library: everything the service decides and computes, in Rust
  with contracts that Verus proves. It sends nothing and opens nothing. Where
  the service has to act, a function says what to do (`ApiRequest`,
  `UploadAction`, `CallbackAction`, `DeleteAction`, ...) and takes what came of
  it.
- `src/outside.rs` holds the calls into other crates and into parts of the
  standard library that have no specification. These are believed, and each
  says what is believed of it. `src/text.rs` adds two more for `String`.
- `tests/` runs the library.
- `app/` is the server around it: sockets, SQLite, templates, the HTTP client.

## The library

| Module | What it holds |
|---|---|
| `config`, `state` | settings of the environment and the database, the bot |
| `auth` | session tokens and cookies, where a login may lead |
| `middleware` | CSRF and access, rate limits, security headers |
| `routes` | uploads, login, settings, pages |
| `telegram` | the Bot API, manifests, deletion, following the channel |
| `database` | short identifiers, the index, stored settings, expiry |
| `filename`, `sizes`, `decimal`, `text` | names, sizes, numbers, text |

Proof functions that are public state what holds across functions: no byte of
an upload is lost, a manifest reads back, a redacted text does not show the
token (for a token that clashes with the mark `<redacted>`, as every token of
Telegram does: it begins with a digit and holds no `<`), writes from other
sites are refused, a session belongs to a login that passed every check.

Some of these speak of tables that the server keeps in SQLite, such as that a
file in the index is found again, that a login is good once and that visits
keep a session alive. They rest on spec functions that describe what the tables
do.
