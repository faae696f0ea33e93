# ra_common

Foundational types for the Resolving Architecture ecosystem, written in Verus:
the message envelope and its routing slip, identities, messages, services and
their lifecycle, configuration parsing, hashing helpers, multihashes, hashcash
proof-of-work tokens, typed content, and small utilities. Every function in
`src/` carries a contract that Verus proves; calls into outside crates (hash
functions, encodings, random numbers, dates, UUIDs) go through small trusted
wrappers whose contracts state what those crates document.

Layout:

- `src/` — the verified library.
- `tests/` — tests of the library on concrete values.
- `app/` — the parts that cannot be verified: reading the environment and
  files, creating directories, the threaded task runner (which asks the library
  for every scheduling decision), and JSON (de)serialization through serde
  copies of the library's types.
