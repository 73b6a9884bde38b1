# hemdaimail

The verified core of a webmail platform (an HTTP API, a mail worker and a
search worker), written in Verus.

`src/` is the library, every function of it proved against its contract:

- `text`, `json`, `ids`: character handling (trimming, splitting, case-free
  comparison), JSON string and number framing, UUID display.
- `mime`, `mime_laws`: processing a raw message into the stored fields
  (headers, recipients, first plain and HTML bodies, attachments, sanitised
  HTML), and the laws of that walk over the MIME tree.
- `auth`, `audit`: bearer-token extraction and validation, access and
  refresh tokens with their lifetimes from a clock reading, password hashing
  and the decisions of registration, login and refresh.
- `mail`: paging, mailbox roles, and preparing and filing sent messages.
- `threading`: the search for the conversation a new message joins.
- `tasks`, `sync`, `realtime`: queue and event formats, the worker loops'
  decisions, incremental IMAP sync bookkeeping (a fetched message, its
  attachments and its UID are stored in one transaction, all or nothing),
  connection backoff, and storage layout.

Calls into outside crates (mailparse, ammonia, argon2, jsonwebtoken, lettre,
rand, uuid, chrono) stand behind small trusted wrappers whose contracts say
what those crates document.

`app/` holds the services themselves: routing, database, Redis, IMAP, SMTP
and file input and output around the library.
