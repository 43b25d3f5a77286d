pub mod doc_engine;
pub mod doc_laws;
pub mod json;
pub mod json_path;
pub mod json_text;
