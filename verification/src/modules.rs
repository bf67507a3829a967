//! The registry of loaded modules.
//!
//! A module is a shared library already resident in the host process,
//! identified by a short logical name mapped to a platform file name. The
//! registry is populated exactly once, from names fixed at build time; a
//! second initialization attempt is rejected, and afterwards the set of
//! modules never changes. Opening the libraries and querying their memory
//! bounds is the platform's work, done outside this crate; the registry
//! records the plain values that came back.

use vstd::prelude::*;
use vstd::string::StringSliceAdditionalSpecFns;

use crate::common::Handle;
use crate::Error;

verus! {

/// One loaded module: its file name (as bytes), its base handle, and the
/// bounds of its executable memory region.
pub struct Module {
    /// The platform file name the module was opened under.
    pub name: Vec<u8>,
    /// The module's base address.
    pub base: usize,
    /// The length in bytes of the module's executable region.
    pub size: usize,
}

/// A module as the contracts see it: name bytes, base, size.
pub open spec fn module_model(m: &Module) -> (Seq<u8>, usize, usize) {
    (m.name@, m.base, m.size)
}

/// Whether a list of module models holds a module of the given name.
pub open spec fn has_module(mods: Seq<(Seq<u8>, usize, usize)>, name: Seq<u8>) -> bool {
    exists|i: int| 0 <= i < mods.len() && mods[i].0 == name
}

/// The registry invariant: no two modules share a name.
pub open spec fn unique_names(mods: Seq<(Seq<u8>, usize, usize)>) -> bool {
    forall|i: int, j: int| 0 <= i < j < mods.len() ==> mods[i].0 != mods[j].0
}

/// The registry of loaded modules: empty until it is initialized, then
/// fixed for the life of the process.
pub struct ModuleRegistry {
    modules: Option<Vec<Module>>,
}

impl View for ModuleRegistry {
    type V = Option<Seq<(Seq<u8>, usize, usize)>>;

    closed spec fn view(&self) -> Option<Seq<(Seq<u8>, usize, usize)>> {
        match self.modules {
            Some(ms) => Some(ms@.map_values(|m: Module| module_model(&m))),
            None => None,
        }
    }
}

impl ModuleRegistry {
    /// A registry that was not initialized yet.
    pub fn new() -> (r: ModuleRegistry)
        ensures
            r@ is None,
    {
        ModuleRegistry { modules: None }
    }

    /// Whether the registry was already populated.
    pub fn is_initialized(&self) -> (r: bool)
        ensures
            r == (self@ is Some),
    {
        self.modules.is_some()
    }

    /// Populates the registry with the modules the platform opened, exactly
    /// once: a second attempt is rejected with `ModuleAlreadyInitialized`
    /// and changes nothing. The names must be distinct — they are fixed at
    /// build time, so a duplicate is a build defect, not a runtime
    /// condition.
    pub fn initialize(&mut self, modules: Vec<Module>) -> (r: Result<(), Error>)
        requires
            unique_names(modules@.map_values(|m: Module| module_model(&m))),
        ensures
            match r {
                Ok(()) => old(self)@ is None && final(self)@ == Some(
                    modules@.map_values(|m: Module| module_model(&m)),
                ),
                Err(e) => e == Error::ModuleAlreadyInitialized && old(self)@ is Some
                    && final(self)@ == old(self)@,
            },
    {
        if self.modules.is_some() {
            return Err(Error::ModuleAlreadyInitialized);
        }
        self.modules = Some(modules);
        Ok(())
    }

    /// Looks a module up by its file name. `None` means the name was never
    /// opened — for the fixed, build-time names this signals a deployment
    /// defect and the caller treats it as fatal.
    pub fn lookup(&self, name: &[u8]) -> (r: Option<&Module>)
        ensures
            match r {
                Some(m) => self@ is Some && has_module(self@->Some_0, name@) && m.name@ == name@
                    && has_module(self@->Some_0, m.name@) && self@->Some_0.contains(
                    module_model(m),
                ),
                None => self@ is None || !has_module(self@->Some_0, name@),
            },
    {
        match &self.modules {
            None => None,
            Some(ms) => {
                let n = ms.len();
                let mut i: usize = 0;
                while i < n
                    invariant
                        self@ == Some(ms@.map_values(|m: Module| module_model(&m))),
                        n == ms@.len(),
                        i <= n,
                        forall|k: int| 0 <= k < i ==> ms@[k].name@ != name@,
                    decreases n - i,
                {
                    let m = &ms[i];
                    if crate::common::bytes_eq(m.name.as_slice(), name) {
                        proof {
                            assert(self@->Some_0[i as int] == module_model(m));
                        }
                        return Some(m);
                    }
                    i = i + 1;
                }
                proof {
                    assert forall|k: int|
                        0 <= k < self@->Some_0.len() implies self@->Some_0[k].0 != name@ by {
                        assert(self@->Some_0[k] == module_model(&ms@[k]));
                    }
                }
                None
            },
        }
    }
}

impl Module {
    /// The handle the module was opened under, as carried by callers.
    pub fn handle(&self) -> (r: Handle)
        ensures
            r.0 == self.base,
    {
        Handle(self.base)
    }

    /// Scans this module's executable memory — handed in by the platform as
    /// a byte slice of exactly the module's recorded size — for a textual
    /// wildcard signature, and returns the absolute address of the first
    /// match. Fails with `PatternMalformed` when the signature does not
    /// follow the grammar and with `PatternNotFound` when a well-formed
    /// pattern matches nowhere in the region.
    pub fn find_seq_of_bytes(&self, memory: &[u8], signature: &str) -> (r: Result<usize, Error>)
        requires
            memory@.len() == self.size,
            self.base + self.size <= usize::MAX,
        ensures
            match r {
                Ok(addr) => {
                    &&& crate::pattern::spec_parse(signature.spec_bytes()) matches Some(pat)
                    &&& self.base <= addr
                    &&& crate::pattern::matches_at(memory@, pat, addr - self.base)
                    &&& forall|k: int|
                        0 <= k < addr - self.base ==> !crate::pattern::matches_at(memory@, pat, k)
                },
                Err(Error::PatternMalformed) => crate::pattern::spec_parse(
                    signature.spec_bytes(),
                ) is None,
                Err(Error::PatternNotFound) => {
                    &&& crate::pattern::spec_parse(signature.spec_bytes()) matches Some(pat)
                    &&& forall|k: int| !crate::pattern::matches_at(memory@, pat, k)
                },
                Err(_) => false,
            },
    {
        let pattern = match crate::pattern::Pattern::parse(signature) {
            Ok(p) => p,
            Err(e) => {
                return Err(e);
            },
        };
        match crate::pattern::scan(memory, &pattern) {
            Some(offset) => Ok(self.base + offset),
            None => Err(Error::PatternNotFound),
        }
    }
}

/// What a module's users ask of it: a named interface, resolved through the
/// module's exported factory. Implemented outside this crate by the platform
/// module type; the interface cache consumes the plain pointer it returns.
pub trait DLExt {
    /// Resolves `interface_name` through the module's factory export and
    /// returns the interface pointer, or `None` when the factory symbol is
    /// absent.
    fn get_interface(&self, interface_name: &[u8]) -> Option<Handle>;
}

} // verus!
