# Knock Knock

A temporary chat room for every public GitHub repository: anyone may read an
active room, a GitHub account is needed to speak, and messages leave the room
fourteen days after they are posted.

The rules of the service are a library verified with Verus, in `src/`:

- `access`, `resolve`: who a user is to a repository (pills and management
  rights) and where the repository's description comes from.
- `validate`, `markdown`, `headers`: checks on what requests carry — paths,
  reasons, logins, message Markdown, cookies, bearer keys, origins.
- `messages`, `presence`, `ratelimit`, `polling`, `connection`: the
  fourteen-day window and room activation, who is present, the posting
  limits, the owner polling API, and the decisions of a live connection.
- `crypto`, `links`, `time`, `config`: tokens, hashes and sealed GitHub
  tokens; the addresses the service builds; timestamps; settings.
- `text`, `error`: character-level helpers and the failures a request can
  end in.

Calls into `sha2`, `base64`, `chacha20poly1305`, `url`, `pulldown-cmark` and
`chrono` sit behind small trusted functions whose contracts are stated next to
them. Laws that span several functions are public proof functions named
`law_*`.

`app/` is the web service around the library: the Axum routes, the SQLite
store, the GitHub HTTP calls and the WebSocket loop.
