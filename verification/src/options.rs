//! Launch options and modloader types.

use vstd::prelude::*;

verus! {

/// Modloader type and optional loader version.
#[derive(Debug, Clone, PartialEq, Eq)]
pub enum ModLoader {
    /// Vanilla Minecraft (no modloader).
    Vanilla,
    /// Fabric with the given loader version.
    Fabric(String),
    /// Forge with the given installer version.
    Forge(String),
    /// Quilt with the given loader version.
    Quilt(String),
}

/// Options for launching a Minecraft instance. Paths are held as text.
#[derive(Debug, Clone, PartialEq, Eq)]
pub struct LaunchOptions {
    /// Game version (e.g. "1.20.1").
    pub game_version: String,
    /// Modloader and its version.
    pub modloader: ModLoader,
    /// Optional instance directory (game dir, mods, config, etc.).
    pub instance_dir: Option<String>,
    /// Optional path to the Java executable or to a Java installation.
    pub java_path: Option<String>,
    /// Optional memory limit in megabytes.
    pub memory_mb: Option<u32>,
}

} // verus!
