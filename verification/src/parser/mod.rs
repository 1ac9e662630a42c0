pub mod extractors;
pub mod log_parser;
pub mod files;
