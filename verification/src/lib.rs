// DevEnv Manager's logic, verified: scan rules and risk levels, size walks,
// cleanup and quarantine decisions, the audit log, command resolution,
// install sources and plans, environment check reports, updates, and the
// HTML report.

pub mod text;
pub mod seqs;
pub mod sorting;
pub mod model;
pub mod update;
pub mod catalog;
pub mod sources;
pub mod checks;
pub mod paths;
pub mod locations;
pub mod scan;
pub mod records;
pub mod shell;
pub mod detail;
pub mod managers;
pub mod environment;
pub mod report;
