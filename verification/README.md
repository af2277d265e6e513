# filebox

A personal file store: users log in, upload files in parts to an S3-compatible
object storage, browse them in a directory tree, move, delete and download
them (with byte ranges and thumbnails).

- `src/` is the library, verified with Verus: sessions and their expiry,
  upload sessions and their part bookkeeping, content classification, the
  directory tree's paths, download ranges and headers, object keys (ULIDs),
  decimal and text encodings, and the checks around the database rows.
  Calls into outside crates (hashing, Argon2, ULID generation, Base64,
  percent-encoding, MIME sniffing, URI parsing, the clock and randomness)
  stand behind small trusted wrappers whose contracts say what is assumed.
- `app/` is the server around it: the HTTP routes, the database and object
  storage access, the command line, and image previews.
- `tests/` runs the library on concrete values.
