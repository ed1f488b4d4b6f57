pub mod lang;
pub mod text;
pub mod tools;
pub mod git;
pub mod analyze;
pub mod taxonomy;
pub mod store;
pub mod ui;
pub mod hooks;
pub mod plan;
pub mod surface;
pub mod daemon;
pub mod hook;
pub mod report;
pub mod guarantees;
pub mod install;
