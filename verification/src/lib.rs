//! Core of the Swiss Knife desktop tool: SHA-3 text hashing over several
//! rounds, the naming of encrypted and decrypted files, and the state of the
//! windows that the user interface draws.
pub mod gui;
