//! A password-protected note store: the encrypted container format, key
//! derivation and authenticated encryption, the ordered note collection,
//! and the store manager that ties them together.
//!
//! The library never touches the file system. Callers read and write the
//! store file and hand its bytes across.

pub mod error;
pub mod container;
pub mod secret;
pub mod crypto;
pub mod timestamp;
pub mod data;
pub mod collection;
pub mod codec;
pub mod manager;
