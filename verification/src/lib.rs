//! Core logic for runtime binary instrumentation: wildcard byte-signature
//! scanning over module memory, an inline-hook registry that maps every
//! detour back to a callable trampoline, a registry of loaded modules, and
//! a cache of resolved interface pointers.
//!
//! Everything here works on plain values (addresses as `usize`, memory as
//! byte slices). The platform-specific parts — opening shared libraries,
//! patching prologue bytes, calling interface factories — live outside this
//! crate and consume these data structures through their public contracts.

use vstd::prelude::*;

pub mod common;
pub mod hook_system;
pub mod hooks;
pub mod interfaces;
pub mod modules;
pub mod pattern;
pub mod window;

verus! {

/// Everything that can go wrong inside the instrumentation core.
#[derive(Clone, Copy, Debug, PartialEq, Eq, Structural)]
pub enum Error {
    /// The module registry was asked to initialize a second time.
    ModuleAlreadyInitialized,
    /// A module lookup named a module the registry never opened.
    ModuleNotFound,
    /// A textual byte signature does not follow the pattern grammar.
    PatternMalformed,
    /// A well-formed pattern matched nowhere in the scanned region.
    PatternNotFound,
    /// A module does not export the symbol that was asked for.
    SymbolNotFound,
    /// A hook was requested for a target address that is already patched.
    HookTargetAlreadyPatched,
    /// The platform patching primitive could not redirect the target.
    HookInstallFailed,
    /// The lock guarding a shared registry could not be acquired.
    RegistryLockFailed,
}

} // verus!
