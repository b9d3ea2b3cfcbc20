# swiss_knife

A small desktop tool that encrypts files with `ncrypt-me` and hashes text
with SHA-3, written as a verified core and a thin user interface.

- `src/` is the library, checked by Verus:
  - `gui/hashing.rs`: the SHA-3 variants, hashing text over several rounds
    (each round hashes the hexadecimal text of the previous one), and the
    state of the hashing window.
  - `gui/text.rs`: decimal text of round counts, read and written the way
    `u64` parsing and formatting do.
  - `gui/file_encrypt.rs`: the names of encrypted and decrypted files, the
    label of a chosen path, the messages a file job ends with, and the calls
    into `ncrypt-me` that encrypt and decrypt file contents.
  - `gui/argon2.rs`, `gui/modals.rs`, `gui/mod.rs`, `gui/panels/`,
    `gui/app.rs`: the state of the settings dialog, the message and loading
    windows, the side panel and the close sequence of the application.
- `app/` is the `eframe` program: drawing, file reading and writing, and the
  worker threads. It holds no rule of its own and calls the library for each
  decision.
- `tests/` runs the library on concrete values.
