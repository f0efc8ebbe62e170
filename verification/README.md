# whatsapp_rust_server

An HTTP gateway that drives WhatsApp sessions, sends message campaigns read
from Oracle tables, checks the lexical similarity of campaign messages and
keeps Google Contacts in step with the recipients.

## Layout

- `src/` — the verified library (Verus). Every function there carries a
  contract that Verus proves:
  - `auth` — session tokens: generation (bcrypt), URL-safe form, and the
    check of session-scoped requests; the shared-secret check of the
    contacts endpoints.
  - `session`, `session_table` — session status, how connection events move
    it and what they record, the table of live sessions, the session
    replies and the QR rendering.
  - `messages`, `phone`, `oracle` — recipient rows, message rotation,
    phone normalisation to E.164 and WhatsApp ids, delivery status,
    retries and pauses.
  - `similarity` — the repair of Spanish decimal commas, the prompts and
    replies of the completion service, the XML answers.
  - `google` — OAuth2 token handling and contact matching; `contacts` — the
    batch upsert.
  - `config`, `text`, `requests` — configuration from the environment,
    character helpers, request bodies.
- `tests/` — tests of the library on concrete values.
- `app/` — the server itself: Axum routes, Oracle and HTTP I/O, the
  WhatsApp client, and the similarity scores (floating point).
