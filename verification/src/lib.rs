//! A small declarative grammar language for procedural 2-D vector art.
//!
//! An author writes named rules that invoke geometric primitives or other
//! rules with relative transform properties (position, scale, rotation,
//! color, alpha, recursion depth).  The library parses such a document,
//! validates it, and expands a bounded generative tree from it into a
//! hierarchy of absolute geometric and color properties, ready to be
//! serialized as image markup by a thin rendering shell.
//!
//! All quantities are fixed-point numbers: an `i64` counts ten-thousandths,
//! so `10_000` stands for `1.0`.  Randomness comes from an explicit,
//! deterministic generator state that is threaded through every call, so an
//! expansion is fully reproducible from (grammar, settings, seed).

pub mod binary_operator;
pub mod error;
pub mod examples;
pub mod expand_settings;
pub mod expression;
pub mod fixed;
pub mod grammar;
pub mod invocation;
pub mod node;
pub mod node_properties;
pub mod parser;
pub mod primitive;
pub mod properties;
pub mod render;
pub mod rng;
pub mod text;
pub mod unary_operator;
pub mod user_rules;
pub mod value_or_range;
