# evervault-rs

A small client for the Evervault REST API that encrypts one sensitive field
and decrypts the token back, written as a verified library and a thin
command-line program.

- `src/` — the library, verified with Verus. It builds the Basic credentials
  header, normalizes the base URL, frames the `POST /encrypt` and
  `POST /decrypt` requests, and decides what an HTTP outcome means: the
  string member of the JSON response, or an error whose text says what went
  wrong (wrong credentials, missing `decrypt` permission, other statuses,
  unreadable or non-JSON bodies, missing fields).
- `app/` — the program: arguments, environment, the HTTP exchange with
  `reqwest`, and printing the round trip as text or JSON.
- `tests/` — tests of the library on concrete values.
