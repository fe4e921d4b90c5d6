//! Static HTML documentation for GraphQL APIs: the schema model, the
//! cross-reference index, the search index and the page rendering plan.
pub mod date;
pub mod error;
pub mod order;
pub mod pipeline;
pub mod render;
pub mod schema;
pub mod runtime;
pub mod search_index;
pub mod uses;
