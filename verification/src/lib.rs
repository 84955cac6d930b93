//! The state and the decisions behind a Kubernetes console.

pub mod app;
pub mod catalog;
pub mod clock;
pub mod columns;
pub mod connections;
pub mod console;
pub mod deeds;
pub mod events;
pub mod fields;
pub mod filter;
pub mod keyed;
pub mod keys;
pub mod laws;
pub mod logs;
pub mod logview;
pub mod model;
pub mod mutation;
pub mod news;
pub mod objects;
pub mod palette;
pub mod panes;
pub mod perf;
pub mod permissions;
pub mod pods;
pub mod proposal;
pub mod remembered;
pub mod rows;
pub mod sayings;
pub mod seqs;
pub mod sessions;
pub mod sorting;
pub mod stamps;
pub mod table;
pub mod text;
pub mod times;
pub mod value;
pub mod views;
pub mod wording;
pub mod workspace;
