//! Glue code for bridge modules.
//!
//! A bridge module names types and functions and says, of each, which of two runtimes
//! implements it: the native one, compiled here, or the foreign one, reached through the
//! linker. From that description this crate emits the code that lets the two call each
//! other: exported wrappers for what is native; proxy types, forwarding functions and linked
//! declarations for what is foreign. Every emitting function states the exact tokens it emits, and the laws of the
//! glue (one release path per type, no release through a borrow, one method block per proxy,
//! no empty linkage block) are proved of those tokens.

pub mod assembler;
pub mod census;
pub mod claims;
pub mod foreign;
pub mod ir;
pub mod laws;
pub mod naming;
pub mod native;
pub mod ownership;
pub mod signature;
pub mod syntax;
pub mod tokens;
pub mod validate;
