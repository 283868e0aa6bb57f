# envbro

A command-line tool that keeps encrypted environment files per project and
environment, and can share them with peers.

- `src/` is the verified library (Verus):
  - `security.rs`: AES-256-GCM encryption of data under a project key, the
    project key wrapped under an Argon2-derived master key, and a
    passphrase-sealed blob combining both. Each encryption is proved to decrypt
    back to its input.
  - `manifest.rs` (with `keyed.rs`): the registry project -> environment ->
    (file name, blob hash), with the decisions of storing and deleting,
    including which blob becomes unreferenced.
  - `commands.rs`: the decisions of the commands (name checks, what to do
    before overwriting or removing, listing and sharing text, diff lines).
  The registry keeps its projects and environments in vectors of named
  entries whose names are distinct (a type invariant), read as finite maps.
  A `HashMap<String, ..>` was not tried: Verus models `HashMap` contents only
  for keys whose hashing and equality it knows, which `String` keys are not,
  so nothing about lookups by name could have been proved over it.
- `app/` is the program around it: argument parsing, prompts, the file
  system, the blob store and the peer-to-peer network.
  The `iroh`, `iroh-blobs` and `iroh-io` crates that the blob store and the
  network use are not listed in `Cargo.toml`: their dependency tree (several
  hundred packages) was too large to bring in, so `app/` does not build as it
  stands.
- `tests/` exercises the library.
