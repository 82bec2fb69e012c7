// A content and social graph store for a blogging platform: blogs, posts,
// comments, reactions, follows and profiles, with denormalised counters,
// uniqueness indexes, edit histories and an idempotent scoring ledger, all
// kept consistent by every operation.

pub mod config;
pub mod content;
pub mod entities;
pub mod ledger;
pub mod profiles;
pub mod reactions;
pub mod social;
pub mod store;
pub mod types;
