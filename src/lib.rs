//! A vehicle inventory: records, their lookup rules, approximate search by
//! model name, per-column suggestions, and scannable link artifacts.
pub mod column;
pub mod error;
pub mod levenshtein;
pub mod qr_builder;
pub mod repository;
pub mod search;
pub mod store;
pub mod text;
pub mod vehicle;
