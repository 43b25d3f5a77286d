pub mod aggregate;
pub mod aggregate_laws;
pub mod batch;
pub mod batch_laws;
pub mod cache;
pub mod cast_laws;
pub mod charges;
pub mod constraint_laws;
pub mod constraints;
pub mod context;
pub mod ddl;
pub mod delete;
pub mod dml;
pub mod engine;
pub mod eval;
pub mod expr_laws;
pub mod filter_laws;
pub mod footprint;
pub mod function_laws;
pub mod functions;
pub mod group_laws;
pub mod grouping;
pub mod history;
pub mod insert_laws;
pub mod integrity;
pub mod join;
pub mod join_laws;
pub mod keys;
pub mod like;
pub mod marks;
pub mod meter;
pub mod plan_laws;
pub mod query_laws;
pub mod relation;
pub mod rollback;
pub mod rows;
pub mod scalar;
pub mod scope;
pub mod select;
pub mod select_laws;
pub mod set_laws;
pub mod show;
pub mod sort;
pub mod spending;
pub mod statement_laws;
pub mod stats;
pub mod store;
pub mod strings;
pub mod table;
pub mod time_laws;
pub mod top_laws;
pub mod unit;
pub mod update_laws;
pub mod vector_scan;
pub mod window;
pub mod window_laws;
