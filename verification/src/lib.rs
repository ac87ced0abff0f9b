//! Converting pictures to WebP: which files are converted, how they are scaled and encoded, where
//! the results go and what is reported of them.
//!
//! What reads and writes files, runs programs or shows a window is not here. It hands in what it
//! has found out as plain values, and is told what to do next.
pub mod atomic;
pub mod cli;
pub mod collect;
pub mod command;
pub mod encode;
pub mod job;
pub mod menu;
pub mod naming;
pub mod paths;
pub mod render;
pub mod request;
pub mod resize;
pub mod state;
pub mod text;
pub mod thumbnail;
pub mod tools;
