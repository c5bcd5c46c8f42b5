//! Search configuration, dataset layout and the text front end of a
//! symbolic-regression engine, with their contracts proved by Verus.
pub mod options;
pub mod text;
pub mod json_out;
pub mod config;
pub mod loss_functions;
pub mod random;
pub mod dataset;
pub mod pop_member;
pub mod cli;
pub mod table;
