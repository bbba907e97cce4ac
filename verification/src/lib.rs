//! Builds the page models of an ontology documentation site: one model per
//! declared entity and one for the ontology itself.

pub mod config;
pub mod models;
pub mod text;
pub mod vocab;
pub mod ontology;
pub mod prefix;
pub mod labels;
pub mod render_html;
pub mod unpack;
pub mod relations;
pub mod page;
pub mod catalog;
pub mod metadata;
pub mod site;
pub mod output;
pub mod laws;
