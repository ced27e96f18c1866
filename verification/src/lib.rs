//! Retrieval of a single subdirectory, or of a whole repository, from a remote
//! Git host into a local directory: the decisions, verified.
//!
//! The library touches neither the network nor the disk. It turns what the
//! user typed into a request (`request`), the request's locator into a clone
//! URL (`locator`), judges the destination (`guard`), says step by step what
//! is to be done in the temporary workspace (`staging`), walks the staged tree
//! and says what is copied out of it (`materialize`), and what the
//! ignore-file is to hold (`ignore`). `pipeline` strings these together: the caller asks for the next
//! action, performs it, and reports what happened. `text` holds the character
//! sequences that every contract is stated over, `error` the ways to fail.

pub mod error;
pub mod guard;
pub mod ignore;
pub mod locator;
pub mod materialize;
pub mod pipeline;
pub mod request;
pub mod staging;
pub mod text;
