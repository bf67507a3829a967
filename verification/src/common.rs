//! Plain-value stand-ins for the raw OS values that the surrounding program
//! hands the core: an address-sized handle, and the byte-string comparison
//! the registries key their lookups on.

use vstd::prelude::*;

verus! {

/// Compares two byte strings for equality.
pub fn bytes_eq(a: &[u8], b: &[u8]) -> (r: bool)
    ensures
        r == (a@ == b@),
{
    let n = a.len();
    if n != b.len() {
        return false;
    }
    let mut i: usize = 0;
    while i < n
        invariant
            n == a@.len(),
            n == b@.len(),
            i <= n,
            forall|k: int| 0 <= k < i ==> a@[k] == b@[k],
        decreases n - i,
    {
        if *vstd::slice::slice_index_get(a, i) != *vstd::slice::slice_index_get(b, i) {
            return false;
        }
        i = i + 1;
    }
    proof {
        assert(a@ =~= b@);
    }
    true
}

/// An opaque OS handle (a window, a module base, an interface pointer),
/// carried through the core as a plain address-sized value. The core never
/// dereferences a handle; it only stores, compares and returns them.
#[derive(Clone, Copy, Debug, PartialEq, Eq, Structural)]
pub struct Handle(pub usize);

impl Handle {
    /// The null handle, reported by OS enumerations that found nothing.
    pub fn null() -> (r: Handle)
        ensures
            r.0 == 0,
    {
        Handle(0)
    }

    /// Whether this handle is the null handle.
    pub fn is_null(&self) -> (r: bool)
        ensures
            r == (self.0 == 0),
    {
        self.0 == 0
    }
}

} // verus!
