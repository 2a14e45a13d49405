//! A CRUD service-layer generator: given a description of a data entity
//! (its name, an ordered field list, and a small declarative configuration
//! block), it synthesizes the definition of a service API for that entity —
//! insertion, identity lookup, filtered/sorted/paginated search, and
//! per-field getters and updaters — together with an executable model of
//! the query composition those operations perform.
//!
//! - [`config`] parses the configuration block tolerantly;
//! - [`entity`] extracts the ordered field descriptors, recognizing the
//!   identity field by the naming convention;
//! - [`naming`] converts snake_case field names to PascalCase columns;
//! - [`artifact`] synthesizes the option model, the filter chain, the
//!   per-field operations, and the fixed service surface;
//! - [`query`] executes the composed search, lookup, insert and partial
//!   update against an in-memory row store;
//! - [`laws`] states and proves the properties that hold of all of it.

pub mod artifact;
pub mod config;
pub mod entity;
pub mod laws;
pub mod naming;
pub mod query;
