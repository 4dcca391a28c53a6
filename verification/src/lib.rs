//! A small line-search library: resolve a search configuration from
//! positional arguments and an environment flag, then report every line of a
//! text that contains a query, case-sensitively or case-insensitively.
pub mod config;
pub mod laws;
pub mod lines;
pub mod search;
pub mod text;

pub use config::Config;
pub use config::ConfigError;
pub use search::run;
pub use search::search;
pub use search::search_case_insensitive;
