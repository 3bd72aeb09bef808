//! Verified core of `x8616-cycles`, a cycle ticker for flat x86_16 programs.
//!
//! The ticker loads a flat binary into a CPU core, runs it until it executes
//! HLT, and prints how many cycles that took. Executing instructions is the
//! business of the core; everything that is decided around it stands here:
//!
//! - `args` and `number` read the command line, `options` says what each option
//!   does, and `settings` what the order of its parts does;
//! - `boot` places the program and sets the registers;
//! - `ticker` says what to ask of the core next, and when the run is over;
//! - `timing286` holds the 80286 clock counts, over the `instruction`s that the
//!   core decodes, and `datasheet` gives them operation by operation;
//! - `report` and `fields` write the result line and the memory dump, and read
//!   a field of the line back;
//! - `tasks`, `smoke`, `smoke_run` and `paths` are the local checks of the
//!   project;
//! - `text` is what these need from strings.
pub mod args;
pub mod boot;
pub mod datasheet;
pub mod fields;
pub mod instruction;
pub mod number;
pub mod options;
pub mod paths;
pub mod report;
pub mod settings;
pub mod smoke;
pub mod smoke_run;
pub mod tasks;
pub mod text;
pub mod ticker;
pub mod timing286;
