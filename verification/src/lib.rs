//! Multi-tenant Cedar policy service core: the policy data model, its
//! JSON codec, the per-node decision state with its parent closure and
//! event interpretation, and the project-scoped store with its cascading
//! removal.
pub mod json;
pub mod ast;
pub mod util;
pub mod schema;
pub mod jcodec_entity;
pub mod jcodec_schema;
pub mod jcodec_policy;
pub mod closure;
pub mod engine;
pub mod authz;
pub mod model;
pub mod store;
pub mod bridge;
