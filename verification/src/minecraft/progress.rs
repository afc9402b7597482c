//! The phases of an install.
use vstd::prelude::*;

verus! {

#[derive(Debug, PartialEq, Eq, Structural, Clone, Copy)]
pub enum InstallPhase {
    Preparing,
    MinecraftManifest,
    JavaRuntime,
    MinecraftClient,
    MinecraftLibraries,
    MinecraftAssets,
    MinecraftNatives,
    NeoForge,
    ModpackFiles,
    Finalizing,
    Done,
}

/// A receiver of install progress that ignores it.
#[derive(Debug)]
pub struct NoopProgressSink;

} // verus!
