//! Managing encrypted per-project environment files.
//!
//! The library holds the verified core: the encryption envelope
//! (`security`), the registry of stored environments (`manifest`) and the
//! decisions that the command-line front end takes (`commands`).

pub mod keyed;
pub mod commands;
pub mod manifest;
pub mod security;
