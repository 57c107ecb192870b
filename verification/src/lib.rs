use vstd::prelude::*;

pub mod text;
pub mod graph;
pub mod reach;
pub mod validation;
pub mod v4a_patch;
pub mod style;
pub mod paths;
pub mod doctor;
pub mod keys;
pub mod runs;
pub mod cp;
pub mod context;
pub mod preamble;
pub mod transform;
pub mod codergen;
pub mod event;
pub mod workflow_event;
pub mod hook;
pub mod sandbox;
pub mod retro;
pub mod backend;
pub mod durations;
pub mod artifact;
pub mod report;


verus! {
}
