//! Verified core of a JSON-LD knowledge base: record validation, index
//! maintenance and graph queries over typed links between records.

pub mod json;
pub mod text;
pub mod datetime;
pub mod vocabulary;
pub mod validation;
pub mod model;
pub mod search;
pub mod order;
pub mod reach;
pub mod graph;
pub mod index;
pub mod records;
pub mod commands;
pub mod stamp;
pub mod form;
pub mod guide;
pub mod inference;
pub mod screen;
pub mod laws;
pub mod messages;
pub mod wizard;
