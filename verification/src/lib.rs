//! An event-planning service core: people, organizations, events, planners,
//! and the association records that tie them together, kept in a relational
//! store with generated integer keys and enforced foreign keys.
//!
//! [`store::Store`] is the relational state with its schema invariant; each
//! function in [`query`] performs exactly one insert, update, select or
//! delete against it, and each function in [`handlers`] maps one HTTP route
//! onto one or two such operations and decides the response. [`statements`]
//! holds the parameterized SQL text a relational backend executes for each
//! operation, [`errors`] the error taxonomy and its status mapping, and
//! [`laws`] the proved properties of the whole model.

pub mod errors;
pub mod handlers;
pub mod laws;
pub mod models;
pub mod query;
pub mod statements;
pub mod store;
