//! Persistence core for canvas nodes: payload validation, identifier and
//! type normalization, batch statement preparation, row decoding and
//! additive schema migration for the `nodes` table.

pub mod text;
pub mod node;
pub mod normalize;
pub mod validate;
pub mod store;
pub mod schema;
pub mod rows;
