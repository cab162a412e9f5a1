//! A small interpreter for a line-oriented build-description language.
//!
//! A task file is read in one pass, line by line ([`scan`], over the line
//! shapes of [`shapes`]); its variables and struct literals are gathered
//! into a symbol table ([`symbols`]); the placeholders of every command are
//! replaced from that table ([`substitute`]); the tasks asked for are
//! expanded by one level of dependency ([`resolve`]); and the records that
//! result are turned into effects, one at a time, for a host to perform
//! ([`run`]). [`plan`] puts the steps before the run together.
//!
//! The library reads no file and starts no process: the host hands it
//! text and exit codes, and performs the effects it is handed.

pub mod names;
pub mod number;
pub mod plan;
pub mod report;
pub mod resolve;
pub mod rstruct;
pub mod run;
pub mod scan;
pub mod shapes;
pub mod substitute;
pub mod symbols;
pub mod task;
pub mod text;
pub mod variable;
