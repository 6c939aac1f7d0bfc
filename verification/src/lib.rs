//! Permute: random chains of audio processors over a set of input files.
//!
//! This crate holds the verified core of the library: the processor
//! catalogue and its display names, the random processor plans, output file
//! naming, sample-buffer layout helpers, the caches' eviction logic, the
//! state of the desktop and Node front ends, and the command line tools'
//! choices and reports.
pub mod text;
pub mod process;
pub mod display_node;
pub mod rng;
pub mod random_process;
pub mod files;
pub mod random_processors;
pub mod audio_info;
pub mod output_table;
pub mod state;
pub mod state_dto;
pub mod node_state;
pub mod node_view;
pub mod processors;
pub mod processing;
pub mod cache;
pub mod permute_files;
pub mod cli;
pub mod prototype;
