//! Behaviour of the module registry, signature location inside a module,
//! and the interface cache's resolve-once protocol.

use hookcore::common::Handle;
use hookcore::hooks::initialize_hooks;
use hookcore::interfaces::InterfaceCache;
use hookcore::modules::{Module, ModuleRegistry};
use hookcore::Error;

fn sample_modules() -> Vec<Module> {
    vec![
        Module { name: b"client.dll".to_vec(), base: 0x7FF0_0000, size: 0x1000 },
        Module { name: b"engine2.dll".to_vec(), base: 0x7FF8_0000, size: 0x2000 },
    ]
}

#[test]
fn initialize_exactly_once() {
    let mut reg = ModuleRegistry::new();
    assert!(!reg.is_initialized());
    reg.initialize(sample_modules()).expect("first initialization succeeds");
    assert!(reg.is_initialized());
    let err = reg.initialize(sample_modules()).unwrap_err();
    assert_eq!(err, Error::ModuleAlreadyInitialized);
    // The rejected attempt must leave the first population in place.
    assert!(reg.lookup(b"client.dll").is_some());
}

#[test]
fn lookup_finds_each_module_by_name() {
    let mut reg = ModuleRegistry::new();
    reg.initialize(sample_modules()).unwrap();
    let client = reg.lookup(b"client.dll").expect("client.dll was opened");
    assert_eq!(client.base, 0x7FF0_0000);
    assert_eq!(client.size, 0x1000);
    assert_eq!(client.handle(), Handle(0x7FF0_0000));
    let engine = reg.lookup(b"engine2.dll").expect("engine2.dll was opened");
    assert_eq!(engine.base, 0x7FF8_0000);
}

#[test]
fn lookup_of_unknown_name_fails() {
    let mut reg = ModuleRegistry::new();
    assert!(reg.lookup(b"client.dll").is_none());
    reg.initialize(sample_modules()).unwrap();
    assert!(reg.lookup(b"gameoverlayrenderer64.dll").is_none());
}

#[test]
fn find_seq_of_bytes_returns_absolute_address() {
    let mut memory = vec![0u8; 256];
    memory[40..44].copy_from_slice(&[0x48, 0x8B, 0x00, 0x55]);
    let module = Module { name: b"client.dll".to_vec(), base: 0x1_0000, size: memory.len() };
    let addr = module.find_seq_of_bytes(&memory, "48 8B ?? 55").expect("pattern is present");
    assert_eq!(addr, 0x1_0000 + 40);
}

#[test]
fn find_seq_of_bytes_reports_missing_pattern() {
    let memory = vec![0u8; 64];
    let module = Module { name: b"client.dll".to_vec(), base: 0x1_0000, size: memory.len() };
    let err = module.find_seq_of_bytes(&memory, "DE AD BE EF").unwrap_err();
    assert_eq!(err, Error::PatternNotFound);
}

#[test]
fn find_seq_of_bytes_reports_malformed_signature() {
    let memory = vec![0u8; 64];
    let module = Module { name: b"client.dll".to_vec(), base: 0x1_0000, size: memory.len() };
    let err = module.find_seq_of_bytes(&memory, "48 8").unwrap_err();
    assert_eq!(err, Error::PatternMalformed);
}

#[test]
fn initialize_hooks_plans_the_create_move_hook() {
    // Lay the create-move prologue (48 8B C4 4C 89 48 20 55) down at a known
    // offset of a synthetic client image.
    let mut memory = vec![0u8; 512];
    let prologue = [0x48, 0x8B, 0xC4, 0x4C, 0x89, 0x48, 0x20, 0x55];
    memory[300..308].copy_from_slice(&prologue);
    let request = initialize_hooks(&memory, 0x2_0000, 0xDE70).expect("prologue is present");
    assert_eq!(request.target, 0x2_0000 + 300);
    assert_eq!(request.detour, 0xDE70);
}

#[test]
fn initialize_hooks_reports_missing_prologue() {
    let memory = vec![0u8; 512];
    let err = initialize_hooks(&memory, 0x2_0000, 0xDE70).unwrap_err();
    assert_eq!(err, Error::PatternNotFound);
}

#[test]
fn initialize_hooks_finds_the_first_occurrence() {
    let mut memory = vec![0u8; 512];
    let prologue = [0x48, 0x8B, 0xC4, 0x4C, 0x89, 0x48, 0x20, 0x55];
    memory[100..108].copy_from_slice(&prologue);
    memory[400..408].copy_from_slice(&prologue);
    let request = initialize_hooks(&memory, 0, 0xDE70).unwrap();
    assert_eq!(request.target, 100);
}

/// Resolves an interface through the cache the way the process does: read
/// the cache first, invoke the factory only on a miss, store what came back.
fn resolve_with<F: FnMut() -> Handle>(
    cache: &mut InterfaceCache,
    name: &[u8],
    mut factory: F,
) -> Handle {
    match cache.get(name) {
        Some(ptr) => ptr,
        None => {
            let ptr = factory();
            cache.insert(name.to_vec(), ptr);
            ptr
        }
    }
}

#[test]
fn factory_is_invoked_exactly_once_per_name() {
    let mut cache = InterfaceCache::new();
    let mut calls = 0u32;
    let name = b"Source2EngineToClient001";
    let first = resolve_with(&mut cache, name, || {
        calls += 1;
        Handle(0xBEEF)
    });
    let second = resolve_with(&mut cache, name, || {
        calls += 1;
        Handle(0xBEEF)
    });
    // The counting stub factory ran once; both resolutions observe the same
    // pointer.
    assert_eq!(calls, 1);
    assert_eq!(first, Handle(0xBEEF));
    assert_eq!(second, first);
}

#[test]
fn distinct_names_resolve_independently() {
    let mut cache = InterfaceCache::new();
    let mut calls = 0u32;
    let a = resolve_with(&mut cache, b"Source2EngineToClient001", || {
        calls += 1;
        Handle(0x100)
    });
    let b = resolve_with(&mut cache, b"Source2Client002", || {
        calls += 1;
        Handle(0x200)
    });
    assert_eq!(calls, 2);
    assert_eq!(a, Handle(0x100));
    assert_eq!(b, Handle(0x200));
    assert_eq!(cache.get(b"Source2EngineToClient001"), Some(Handle(0x100)));
    assert_eq!(cache.get(b"Source2Client002"), Some(Handle(0x200)));
}

#[test]
fn unresolved_name_reads_as_a_miss() {
    let cache = InterfaceCache::new();
    assert_eq!(cache.get(b"Source2EngineToClient001"), None);
}
