pub mod backend;
pub mod bisect;
pub mod checks;
pub mod cli;
pub mod color;
pub mod config;
pub mod diagnostics;
pub mod edit;
pub mod errors;
pub mod events;
pub mod export;
pub mod find;
pub mod generations;
pub mod graph;
pub mod git;
pub mod hm;
pub mod impact;
pub mod inputs;
pub mod json;
pub mod lifecycle;
pub mod lint;
pub mod lock;
pub mod open;
pub mod process;
pub mod publish;
pub mod prompts;
pub mod share;
pub mod snapshot;
pub mod state;
pub mod text;
pub mod tree;
pub mod ui;
