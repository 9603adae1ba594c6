//! Pure core of a command-line speed test: it names the workspace, builds the
//! command that runs the measurement tool, drives the run step by step and
//! turns the tool's JSON result into the lines of the report.

pub mod binary64;
pub mod cli;
pub mod command;
pub mod decimal;
pub mod json;
pub mod pipeline;
pub mod report;
pub mod workspace;
