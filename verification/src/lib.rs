//! Search logic of a Phabricator/Meilisearch workflow: query parsing, filter
//! building, status ranking, command routing, and request shaping.

pub mod text;
pub mod types;
pub mod config;
pub mod meili;
pub mod query;
pub mod command;
pub mod entry;
pub mod phab;

