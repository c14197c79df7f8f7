# cs_mail

Mail among verified people, with senders who pay for attention: the rules, each with a contract that
Verus proves.

- `src/primitives`, `src/ledger.rs`, `src/finance`, `src/billing`: amounts, calendars, a conserved
  ledger, request payments, the members' program, and prepaid years of service.
- `src/capabilities`, `src/adapters`: express lanes, legacy mail and federation.
- `src/content`, `src/correspondence`, `src/consent.rs`: encrypted content, documents with their
  sources, and consent to decryption.
- `src/accounts`, `src/application`: accounts, and what a command does to what is stored.
- `src/client.rs`, `src/custody.rs`: the endpoint and the local custodian of recovery keys.
- `src/bytes.rs`, `src/json.rs`, `src/lines.rs`, `src/maps.rs`, `src/crypto.rs`: what signed
  statements are made of. The `statements` modules show that a statement determines what it states.

Calls into cryptographic, JSON and randomness crates stand behind small functions whose contracts say
what is relied on. `app/` holds the programs, storage locks, HTTP and serialization around the
library; `tests/` holds the tests.
