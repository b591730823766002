# firefly

The core of the Firefly family chat client, written in Verus.

- `src/` is the verified library: tier routing (`router`), conversation-title
  cleanup (`naming`), the memory system prompt (`memory`), sync URLs, query
  encoding and error texts (`sync`), keychain token handling (`secrets`), the
  reply-stream state (`llm`), the decisions behind the app's commands
  (`commands`), and the store's row types, SQL fragments and contract
  timestamps (`store`). `text` holds the character-level string operations
  with their specifications and lemmas. Public functions state their results
  over these specifications; where the keychain, the clock or a JSON parse
  decides, the contract names what came back and states what the library
  does with it. The `law_*` proof functions state properties of the library
  as a whole (a private request never leaves the device, a kid profile never
  reaches the code or frontier models, a cleaned title is a short
  single-line label, encoded query values carry no reserved characters,
  timestamps sort as text in time order, ...).
- `app/` is the shell around it: the SQLite store, the HTTP clients for the
  model gateway and the sync service, and the async commands that the UI
  invokes.
- `tests/` exercises the library on concrete values.
