//! Gathers the issues assigned to one user from a JIRA-style tracker and from a
//! GitHub-style tracker, brings them into one shape, orders them and renders them
//! as a wiki-markup table.

pub mod credentials;
pub mod error;
pub mod github;
pub mod issue;
pub mod jira;
pub mod json;
pub mod key;
pub mod order;
pub mod project;
pub mod report;
pub mod text;
