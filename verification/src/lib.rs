pub mod document;
pub mod error;
pub mod executor;
pub mod kv;
pub mod parser;
pub mod planner;
pub mod text;
pub mod value;
