# Alma OneBot Bridge

A bridge between QQ, reached over a OneBot v11 reverse WebSocket, and the Alma desktop agent.
A private message, or one that mentions the bot in a group, is brought to a thread of Alma, and
what Alma writes is sent back; what Alma writes by itself in such a thread is sent to the chat
too.

## Layout

- `src/` is the library, written in Verus. It holds everything that the bridge decides or
  computes, with its contracts and proofs, and does no input or output.
  - `text/` – strings as sequences of characters: searching, splitting, numbers, tables
  - `json`, `id_table`, `clock` – plain values that the rest is built on
  - `onebot/` – events, message segments and calls of OneBot
  - `face_map` – the names of QQ faces
  - `people/` – the people profiles: frontmatter, group cards, notes
  - `group_log` – the logs of the groups and the README beside them
  - `state/` – sessions, histories, group titles, sent replies, connections
  - `alma_ws/` – the client of Alma: visible text, generations, events, reconnecting
  - `pipeline/` – from a message to the reply, as a run of actions and outcomes
  - `handlers/`, `server`, `auth`, `alma`, `config`, `bridge` – what is answered over HTTP and
    WebSocket, who may ask for it, and how the bridge is set up
  - `windows/` – the texts, settings and commands of the Windows shell
- `tests/` runs the library on concrete values.
- `app/` is the program around it: sockets, files, the database, the clock, and on Windows, with
  `--desktop`, the tray icon and the settings window.

What the bridge does over time is written as steps: `MessageRun`, `ForwardRun`, `SendRun` and
`AlmaWsClient` say what is to be done next, the program does it, and hands back how it went. The
files whose names end in `laws` hold what is proved of several functions at once.

## What is trusted

The contracts of the few calls into other crates are believed, not proved: `new_uuid`
(`uuid`), `clock::show` (`time`), `parse_url` and `parse_form` (`url`), `encode_base64`
(`base64`), and `String::push` of the standard library. Each says in its comment what it
claims.

## Settings of the program

The settings are read from `config.toml` and from the environment. `ALMA_FALLBACK_MODEL` names
the model of a new thread where neither the settings nor Alma name one. Without it the program
takes the model that the settings or Alma name when it starts, and does not start where there is
none.
