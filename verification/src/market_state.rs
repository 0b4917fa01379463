//! Deterministic structural market state derived from canonical bars.
//!
//! This module owns market geometry. Renderers receive immutable projections
//! and never calculate levels, nodes, corridors or market location.

pub mod contracts;
pub mod engine;
pub mod fingerprint;
pub mod graph;

pub mod id_table;
pub mod inline_lists;
pub mod level_book;
pub mod location;
pub mod ordering;
pub mod producers;
pub mod projection;
