pub mod kv_engine;
pub mod kv_laws;
