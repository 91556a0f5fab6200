//! The decisions of the three load generators; the threads, sockets and
//! atomics that carry them out stay with the program.
pub mod cpu;
pub mod memory;
pub mod network;
