//! Decision logic of a daemon that coordinates intermittent CPU, memory and
//! network load and backs off when people use the machine.
pub mod text;
pub mod config;
pub mod sensor;
pub mod clock;
pub mod policy;
pub mod cli;
pub mod error;
pub mod install;
pub mod runtime;
pub mod daemon;
pub mod workers;
pub mod reread;
