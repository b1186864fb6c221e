# aktags_cloud

AKCloud is a self-hosted file sync and tagging server. This crate is its
verified core, written in Verus: `src/` holds the logic with its contracts
and proofs, `app/` the program around it (HTTP API, SQLite index, file
system, command line).

## src/

- `text`, `paths` — character-level helpers and Unix path text (`join`,
  file name, extension) with the meaning `std::path` documents.
- `digest` — SHA-256 / MD5 digests and lowercase hex text.
- `tagger` — file-type classification and tag suggestion from a name,
  content hashes.
- `config`, `cli`, `sync` — configuration defaults, node id, directories,
  command-line choices, what the sync service starts with.
- `time` — UTC timestamps, RFC 3339 text, whole-day offsets.
- `graveyard` — content-addressed, compressed storage of replaced file
  versions, their index entries, and the reaping state machine;
  `reaping` — what a complete reaping run does to the index and the object
  files.
- `discovery` — the peer registry (one record per node id).
- `identity` — Ed25519 node identity.
- `db`, `server` — index records, tag-name normalisation, full-text query
  escaping, HTTP request parameters and reply texts.
- `ids`, `net` — random bytes and version-4 UUIDs, network addresses as
  plain values.

## app/

`main.rs` parses the command line, loads the configuration, opens the
index and runs the server, the watcher daemon or the sync service.
