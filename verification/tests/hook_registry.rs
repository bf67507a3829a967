//! Behaviour of the hook registry: duplicate-target rejection and the
//! detour-to-trampoline call-through lookup.

use hookcore::hook_system::HookRegistry;
use hookcore::Error;

#[test]
fn install_then_get_original() {
    let mut reg = HookRegistry::new();
    assert_eq!(reg.len(), 0);
    reg.install(0x1000, 0x2000, 0x3000).expect("first install succeeds");
    assert_eq!(reg.len(), 1);
    assert_eq!(reg.get_original(0x2000), Some(0x3000));
}

#[test]
fn get_original_of_uninstalled_detour_is_none() {
    let mut reg = HookRegistry::new();
    assert_eq!(reg.get_original(0x2000), None);
    reg.install(0x1000, 0x2000, 0x3000).unwrap();
    assert_eq!(reg.get_original(0x2222), None);
}

#[test]
fn duplicate_target_is_rejected_and_first_hook_survives() {
    let mut reg = HookRegistry::new();
    reg.install(0x1000, 0x2000, 0x3000).unwrap();
    // A second installation at the same target must fail ...
    let err = reg.install(0x1000, 0x4000, 0x5000).unwrap_err();
    assert_eq!(err, Error::HookTargetAlreadyPatched);
    // ... and must not corrupt the first hook's trampoline.
    assert_eq!(reg.len(), 1);
    assert_eq!(reg.get_original(0x2000), Some(0x3000));
    assert_eq!(reg.get_original(0x4000), None);
}

#[test]
fn distinct_targets_coexist() {
    let mut reg = HookRegistry::new();
    reg.install(0x1000, 0x2000, 0x3000).unwrap();
    reg.install(0x1100, 0x2100, 0x3100).unwrap();
    assert_eq!(reg.len(), 2);
    assert_eq!(reg.get_original(0x2000), Some(0x3000));
    assert_eq!(reg.get_original(0x2100), Some(0x3100));
}

#[test]
fn is_hooked_tracks_targets() {
    let mut reg = HookRegistry::new();
    assert!(!reg.is_hooked(0x1000));
    reg.install(0x1000, 0x2000, 0x3000).unwrap();
    assert!(reg.is_hooked(0x1000));
    assert!(!reg.is_hooked(0x2000));
}

#[test]
fn hooks_keep_insertion_order() {
    let mut reg = HookRegistry::new();
    reg.install(0x1000, 0x2000, 0x3000).unwrap();
    reg.install(0x1100, 0x2100, 0x3100).unwrap();
    let first = reg.hook_at(0);
    let second = reg.hook_at(1);
    assert_eq!((first.target, first.detour, first.original), (0x1000, 0x2000, 0x3000));
    assert_eq!((second.target, second.detour, second.original), (0x1100, 0x2100, 0x3100));
}

#[test]
fn lookup_returns_first_hook_of_a_detour() {
    // Two hooks may share a detour; the call-through resolves to the first.
    let mut reg = HookRegistry::new();
    reg.install(0x1000, 0x2000, 0x3000).unwrap();
    reg.install(0x1100, 0x2000, 0x3100).unwrap();
    assert_eq!(reg.get_original(0x2000), Some(0x3000));
}
