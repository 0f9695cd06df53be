//! Verified core of the `shapes` context-graph tool: the node model,
//! store-version parsing, DAG queries, graph validation, and scaffold
//! generation.

pub mod ids;
pub mod text;
pub mod version;
pub mod model;
pub mod sorting;
pub mod store;
pub mod walk;
pub mod issues;
pub mod dag_node;
pub mod graph_checks;
pub mod profile_checks;
pub mod binding_checks;
pub mod cycles;
pub mod validate;
pub mod scaffold;
pub mod templates;
pub mod error;
pub mod create;
pub mod queries;
pub mod tree;
pub mod migrate;
pub mod same;
pub mod ci;
pub mod slug;
pub mod preflight;
