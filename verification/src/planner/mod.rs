pub mod logical_plan;
pub mod optimizer;
pub mod physical_plan;
pub mod plan;
pub mod planner_laws;
