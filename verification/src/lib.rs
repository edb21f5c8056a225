//! A verified builder of node/edge diagram models for layered
//! constituent-structure descriptions: an ordered sequence of terminal
//! units, each optionally annotated with a syntactic category and a set
//! of grammatical operators, becomes a graph with a fixed projection
//! backbone, per-unit attachments and rank-alignment groups.

pub mod builder;
pub mod decode;
pub mod model;
pub mod record;
