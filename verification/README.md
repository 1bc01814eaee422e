# Soul Lantern server

The ledger (balances, licence codes), user accounts and the AI proxy of the Soul Lantern
client, with the Minecraft command builders of its AI mode. The model's key lives only on
the server; clients send what they want generated and receive commands.

## Layout

- `src/` — the library, verified with Verus. Public functions state their results
  in `ensures`, over spec functions and views.
  - `text` — character-level string helpers (trim, prefixes, decimal text).
  - `crypto` — licence codes, phone numbers and the `ring`-backed primitives.
  - `store`, `ledger` — the keyed tables, balances and licence activation.
  - `auth` — sign-up by verification code, log-in, reset, sessions, input rules and rate
    limits.
  - `sms` — verification-code templates and the SMS service's request signature.
  - `ai_proxy` — model prices, the coins a call costs, the upstream messages.
  - `give` — commands from the AI mode's intents: `json` (the loose JSON of a form),
    `number` (exact decimals), `builder`/`item`/`form`/`component` (`/give`), `commands/*`
    (one builder per command), `catalog` (official id tables), `dispatch` (intent to
    command, with catalog checks) and `parse` (the model's reply).
- `app/` — the HTTPS server: routes, TLS, files, the SMS and model services, JSON parsing.
- `tests/` — the library's tests.

## Environment

`AUTH_PEPPER`, `LEDGER_PATH`, `TLS_CERT`, `TLS_KEY`, `BIND_ADDR`, `SMS_DAILY_CAP`,
`SMS_MIN_INTERVAL_SECS`, the model settings read by `app/upstream.rs`, the SMS settings read
by `app/sms_io.rs`, and `GIVE_CATALOGS`: a JSON file
with the official catalogs (`items`, `blocks`, `entities`, `bedrockItems`, `bedrockBlocks`,
`bedrockEntities`, `enchants`, `effects`, `attributes`, `particles`, each a list of
`[id, name]`).
