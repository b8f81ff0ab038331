//! Core of a Minecraft launcher: version lookup, the rules that select
//! libraries and arguments, placeholder substitution, and the launch plan
//! that the program around it carries out.
use vstd::prelude::*;

pub mod launch;
pub mod laws;
pub mod options;
pub mod plan;
pub mod runtime;
pub mod text;
pub mod version;

pub use launch::{LaunchError, LaunchHandle};
pub use options::{LaunchOptions, ModLoader};

verus! {

} // verus!
