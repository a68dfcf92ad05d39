//! Runtime core for a hot-reloadable, ahead-of-time compiled scripting
//! language.
//!
//! The runtime holds what a compiled artifact declares and lets a host work
//! with it by name:
//!
//! - [`types`] and [`names`]: struct layouts, their invariant, and the
//!   registry that keeps them;
//! - [`memory`]: host values, the collector's objects, and the byte
//!   encoding that arguments, results and fields share;
//! - [`struct_ref`]: typed reading and writing of struct fields;
//! - [`dispatch`], [`marshal`] and [`invoke`]: resolving a function by name,
//!   checking and converting arguments and results;
//! - [`artifact`] and [`link`]: the checks an artifact must pass, and how it
//!   is put into the registry;
//! - [`reload`], [`migrate`] and [`poll`]: replacing the loaded artifact
//!   while live objects stay valid;
//! - [`runtime`]: the owner of all of it;
//! - [`laws`]: what holds of the whole.
//!
//! Floats are carried as the bit patterns of their 64-bit representation;
//! the runtime moves them and never computes with them.

pub mod artifact;
pub mod dispatch;
pub mod error;
pub mod invoke;
pub mod laws;
pub mod link;
pub mod marshal;
pub mod memory;
pub mod migrate;
pub mod names;
pub mod poll;
pub mod reload;
pub mod runtime;
pub mod struct_ref;
pub mod types;
