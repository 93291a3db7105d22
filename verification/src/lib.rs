//! A small engine for resolving HTTP request templates: named environments
//! of variables, placeholder substitution, layered header merging, and an
//! append-only history of resolved requests.

pub mod strutil;
pub mod errors;
pub mod template;
pub mod headers;
pub mod subst;
pub mod environment;
pub mod history;
pub mod file_util;
pub mod resolver;
pub mod doc;
pub mod yaml;
