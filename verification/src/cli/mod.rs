//! Logic of the command-line tool: naming, SQL scripts, argument handling,
//! file watching decisions, process bookkeeping and code generation.
pub mod sql_script;
pub mod templates;
pub mod scaffold;
pub mod naming;
pub mod args;
pub mod dev;
pub mod process;
pub mod runner;
pub mod output;
pub mod generate;
pub mod project;
pub mod scanner;
pub mod maintenance;
