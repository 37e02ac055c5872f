//! Content-addressed organisation of a directory: every file is renamed to the
//! lowercase hexadecimal MD5 digest of its contents, keeping its extension, and
//! files whose contents are already present under that name are removed.
//!
//! The library holds the decisions; reading, listing and changing the file
//! system is left to the caller, which hands the results in as plain values.
pub mod naming;
pub mod fingerprint;
pub mod discovery;
pub mod organiser;
pub mod run;
