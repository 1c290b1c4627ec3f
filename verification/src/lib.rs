//! Laptop hardware control: the decisions, parsers and configuration
//! generators behind the `lapctl` command line tool and its daemon.
pub mod cli;
pub mod utils;
pub mod commands;
pub mod hardware;
