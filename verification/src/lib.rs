//! Typed accessors over operating-system identity and directory databases.
//!
//! The library turns the raw material of OS directory lookups (C-string
//! bytes, errno values, null-terminated member arrays) into owned, checked
//! records: extended user attributes, password entries, and group entries.
//! The actual system calls live outside the library; everything the library
//! does is a pure function of the bytes and codes handed to it.

pub mod attrs;
pub mod error;
pub mod host;
pub mod lookup;
pub mod records;
pub mod text;
