//! A graph state manager that keeps one logical graph in two forms: a display
//! graph, directed or undirected, that an interaction surface reads and edits,
//! and an always-directed simulation graph that a force-directed solver moves.
//! Labels are the only key that both forms share.

pub mod values;
pub mod labels;
pub mod store;
pub mod directed;
pub mod undirected;
pub mod app_graph;
pub mod model;
pub mod events;
pub mod random;
pub mod app;
pub mod laws;
pub mod settings;
