//! The cache of resolved interface pointers.
//!
//! An interface is an opaque object a module exports through a named
//! factory lookup. Resolution is lazy and happens at most once per name:
//! the first caller invokes the factory and stores the returned pointer;
//! every later caller — and every concurrent first caller, once the lock
//! outside this crate has serialized them — reads the stored pointer and
//! never re-invokes the factory. This module holds the cache itself: the
//! lock and the factory call live outside.

use vstd::prelude::*;

use crate::common::Handle;

verus! {

/// One resolved interface: the name it was requested under and the pointer
/// the module's factory returned for it.
pub struct InterfaceEntry {
    /// The interface name, as the NUL-free ASCII bytes handed to the factory.
    pub name: Vec<u8>,
    /// The pointer the factory yielded, kept for the process's lifetime.
    pub ptr: Handle,
}

/// An entry as the contracts see it: name bytes and pointer.
pub open spec fn entry_model(e: &InterfaceEntry) -> (Seq<u8>, Handle) {
    (e.name@, e.ptr)
}

/// The pointer stored for `name`, if that name was resolved already.
pub open spec fn cached_ptr(entries: Seq<(Seq<u8>, Handle)>, name: Seq<u8>) -> Option<Handle>
    decreases entries.len(),
{
    if entries.len() == 0 {
        None
    } else if entries[0].0 == name {
        Some(entries[0].1)
    } else {
        cached_ptr(entries.skip(1), name)
    }
}

/// Whether `name` was resolved already.
pub open spec fn is_resolved(entries: Seq<(Seq<u8>, Handle)>, name: Seq<u8>) -> bool {
    exists|i: int| 0 <= i < entries.len() && entries[i].0 == name
}

/// The cache invariant: each name is resolved at most once.
pub open spec fn unique_interface_names(entries: Seq<(Seq<u8>, Handle)>) -> bool {
    forall|i: int, j: int| 0 <= i < j < entries.len() ==> entries[i].0 != entries[j].0
}

/// The process-wide store of resolved interfaces.
pub struct InterfaceCache {
    entries: Vec<InterfaceEntry>,
}

impl View for InterfaceCache {
    type V = Seq<(Seq<u8>, Handle)>;

    closed spec fn view(&self) -> Seq<(Seq<u8>, Handle)> {
        self.entries@.map_values(|e: InterfaceEntry| entry_model(&e))
    }
}

impl InterfaceCache {
    /// An empty cache: nothing was resolved yet.
    pub fn new() -> (r: InterfaceCache)
        ensures
            r@ == Seq::<(Seq<u8>, Handle)>::empty(),
    {
        InterfaceCache { entries: Vec::new() }
    }

    /// The pointer stored for `name`, or `None` when this name was never
    /// resolved — only then may a caller invoke the factory.
    pub fn get(&self, name: &[u8]) -> (r: Option<Handle>)
        ensures
            r == cached_ptr(self@, name@),
    {
        let n = self.entries.len();
        let mut i: usize = 0;
        proof {
            assert(self@.skip(0) =~= self@);
        }
        while i < n
            invariant
                n == self@.len(),
                n == self.entries@.len(),
                i <= n,
                cached_ptr(self@, name@) == cached_ptr(self@.skip(i as int), name@),
            decreases n - i,
        {
            proof {
                assert(self@.skip(i as int)[0] == self@[i as int]);
                assert(self@[i as int] == entry_model(&self.entries@[i as int]));
            }
            if crate::common::bytes_eq(self.entries[i].name.as_slice(), name) {
                return Some(self.entries[i].ptr);
            }
            proof {
                assert(self@.skip(i as int).skip(1) =~= self@.skip(i + 1));
            }
            i = i + 1;
        }
        proof {
            assert(self@.skip(n as int) =~= Seq::<(Seq<u8>, Handle)>::empty());
        }
        None
    }

    /// Stores the pointer the factory returned for `name`. A name is
    /// resolved at most once, so the caller must have seen `get` return
    /// `None` — under the lock that serializes first-time resolution.
    pub fn insert(&mut self, name: Vec<u8>, ptr: Handle)
        requires
            !is_resolved(old(self)@, name@),
        ensures
            final(self)@ == old(self)@.push((name@, ptr)),
    {
        let ghost pre = self.entries@;
        self.entries.push(InterfaceEntry { name, ptr });
        proof {
            assert(self@ =~= pre.map_values(|e: InterfaceEntry| entry_model(&e)).push(
                entry_model(&self.entries@[pre.len() as int]),
            ));
        }
    }
}

/// How a lookup reads a cache that one more entry was appended to: every
/// name that was already resolved keeps its pointer, and the new name now
/// resolves to the stored pointer.
pub proof fn lemma_cached_ptr_after_push(
    entries: Seq<(Seq<u8>, Handle)>,
    e: (Seq<u8>, Handle),
    name: Seq<u8>,
)
    ensures
        cached_ptr(entries.push(e), name) == (if cached_ptr(entries, name) is Some {
            cached_ptr(entries, name)
        } else if e.0 == name {
            Some(e.1)
        } else {
            None::<Handle>
        }),
    decreases entries.len(),
{
    if entries.len() == 0 {
        assert(entries.push(e)[0] == e);
        assert(entries.push(e).skip(1) =~= Seq::<(Seq<u8>, Handle)>::empty());
        assert(cached_ptr(entries, name) is None);
        assert(cached_ptr(Seq::<(Seq<u8>, Handle)>::empty(), name) is None);
        if e.0 == name {
            assert(cached_ptr(entries.push(e), name) == Some(e.1));
        } else {
            assert(cached_ptr(entries.push(e), name) == cached_ptr(
                entries.push(e).skip(1),
                name,
            ));
        }
    } else {
        let rest = entries.skip(1);
        assert(entries.push(e)[0] == entries[0]);
        assert(entries.push(e).skip(1) =~= rest.push(e));
        lemma_cached_ptr_after_push(rest, e, name);
        if entries[0].0 == name {
            assert(cached_ptr(entries, name) == Some(entries[0].1));
            assert(cached_ptr(entries.push(e), name) == Some(entries[0].1));
        } else {
            assert(cached_ptr(entries, name) == cached_ptr(rest, name));
            assert(cached_ptr(entries.push(e), name) == cached_ptr(rest.push(e), name));
        }
    }
}

/// Law: resolving a name caches it — after the factory's pointer is stored,
/// that very pointer is what every later lookup of the name returns, so the
/// factory is never invoked for the name again and all callers observe one
/// identical pointer.
pub proof fn lemma_resolution_is_cached(
    entries: Seq<(Seq<u8>, Handle)>,
    name: Seq<u8>,
    ptr: Handle,
)
    requires
        !is_resolved(entries, name),
    ensures
        cached_ptr(entries.push((name, ptr)), name) == Some(ptr),
{
    lemma_cached_ptr_is_resolved(entries, name);
    lemma_cached_ptr_after_push(entries, (name, ptr), name);
}

/// A name is resolved exactly when a lookup finds a pointer for it.
pub proof fn lemma_cached_ptr_is_resolved(entries: Seq<(Seq<u8>, Handle)>, name: Seq<u8>)
    ensures
        is_resolved(entries, name) <==> cached_ptr(entries, name) is Some,
    decreases entries.len(),
{
    if entries.len() > 0 {
        lemma_cached_ptr_is_resolved(entries.skip(1), name);
        if entries[0].0 != name {
            assert(is_resolved(entries, name) <==> is_resolved(entries.skip(1), name)) by {
                if is_resolved(entries, name) {
                    let i = choose|i: int|
                        0 <= i < entries.len() && entries[i].0 == name;
                    assert(entries.skip(1)[i - 1] == entries[i]);
                }
                if is_resolved(entries.skip(1), name) {
                    let i = choose|i: int|
                        0 <= i < entries.skip(1).len() && entries.skip(1)[i].0 == name;
                    assert(entries[i + 1] == entries.skip(1)[i]);
                }
            }
        }
    }
}

/// Law: storing a new name keeps every name resolved at most once, so the
/// cache invariant survives every first-time resolution.
pub proof fn lemma_insert_preserves_unique_names(
    entries: Seq<(Seq<u8>, Handle)>,
    e: (Seq<u8>, Handle),
)
    requires
        unique_interface_names(entries),
        !is_resolved(entries, e.0),
    ensures
        unique_interface_names(entries.push(e)),
{
    let pushed = entries.push(e);
    assert forall|i: int, j: int|
        0 <= i < j < pushed.len() implies pushed[i].0 != pushed[j].0 by {
        if j == entries.len() {
            assert(!(entries[i].0 == e.0)) by {
                assert(!is_resolved(entries, e.0));
            }
        }
    }
}

} // verus!
