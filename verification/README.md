# yunxi

The verified core of the YunXi Next capability plugins.

Each plugin of the host is a process of its own. What such a process decides stands in `src/`
and is proved by Verus; what it reads, writes, runs and sends stands in `app/`.

## Layout of `src/`

| Module | What it decides |
| --- | --- |
| `storage` | sessions and their listing, replay and import of the legacy event log, migration of sessions, memory and user-home files and its undoing |
| `settings` | capability keys, defaults and environment overrides; the revisions of the settings document |
| `secret_broker` | one-shot references to secrets, the audit trail, the bounded store and its encrypted snapshot |
| `scheduler` | the proactive policy, its templates and the bounded tick |
| `files`, `shell`, `patch` | the tools that search and read files, run commands and apply patches, under grants |
| `mcp` | configuration, framing, redaction and responses of the bridge to one MCP server |
| `skills` | discovery of skills, their context, and the admission and conclusion of their actions |
| `plugin` | which message of the host is served, refused or ends the plugin |
| `replacement` | the order in which a file is replaced, so that an interruption loses nothing |
| `grants`, `paths`, `json`, `text`, `text_map`, `text_sort`, `fingerprint`, `big_endian`, `bounded_output` | what the others share |

Contracts speak of views: sequences of characters for texts, JSON values as trees, stores as
maps. The public functions whose names start with `lemma_` state what holds of several operations
together.

## What is taken on trust

Calls into other crates go through small wrappers, each with the contract that is assumed of it:
strings and sets of the standard library, `serde_json` for reading values and writing them as text,
`chacha20poly1305` for sealing and opening snapshots, `getrandom` for nonces, `zeroize` for
erasing, and the rules of `reqwest` for header names and values.

## `app/` and `tests/`

`app/` holds the processes around the library: files, threads, child processes, the HTTP transport
and the loops that serve a host. It converts to and from serialized forms and carries out what
the library has decided. `tests/` runs the library on concrete values.
