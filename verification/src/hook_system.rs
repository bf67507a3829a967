//! The registry of installed inline hooks.
//!
//! A hook redirects a target function to a detour and keeps a trampoline —
//! a generated stub with the original function's behaviour — callable. The
//! registry records every installed hook in insertion order, rejects a
//! second installation at an already-patched target, and answers the hot
//! call-through query: which trampoline belongs to a given detour. The
//! platform patching primitive that produces the trampoline, and the
//! mutual-exclusion gate that serializes access, live outside this crate.

use vstd::prelude::*;

use crate::Error;

verus! {

/// One installed hook: the patched target function, the detour that now
/// receives its calls, and the trampoline (`original`) through which the
/// original behaviour stays callable. All three are code addresses.
#[derive(Clone, Copy, Debug, PartialEq, Eq, Structural)]
pub struct Hook {
    /// Entry point of the function that was patched.
    pub target: usize,
    /// The replacement function that now receives the calls.
    pub detour: usize,
    /// The trampoline that reproduces the original function's behaviour.
    pub original: usize,
}

/// Whether some registered hook already patches `target`.
pub open spec fn has_target(hooks: Seq<Hook>, target: usize) -> bool {
    exists|i: int| 0 <= i < hooks.len() && hooks[i].target == target
}

/// The trampoline of the first hook registered with `detour`, if any.
pub open spec fn lookup_detour(hooks: Seq<Hook>, detour: usize) -> Option<usize>
    decreases hooks.len(),
{
    if hooks.len() == 0 {
        None
    } else if hooks[0].detour == detour {
        Some(hooks[0].original)
    } else {
        lookup_detour(hooks.skip(1), detour)
    }
}

/// The registry invariant: no two live hooks patch the same target.
pub open spec fn unique_targets(hooks: Seq<Hook>) -> bool {
    forall|i: int, j: int|
        0 <= i < j < hooks.len() ==> hooks[i].target != hooks[j].target
}

/// The insertion-ordered collection of installed hooks.
pub struct HookRegistry {
    hooks: Vec<Hook>,
}

impl View for HookRegistry {
    type V = Seq<Hook>;

    closed spec fn view(&self) -> Seq<Hook> {
        self.hooks@
    }
}

impl HookRegistry {
    /// An empty registry: nothing is hooked yet.
    pub fn new() -> (r: HookRegistry)
        ensures
            r@ == Seq::<Hook>::empty(),
    {
        HookRegistry { hooks: Vec::new() }
    }

    /// How many hooks are installed.
    pub fn len(&self) -> (r: usize)
        ensures
            r == self@.len(),
    {
        self.hooks.len()
    }

    /// The hook at a given position, in installation order.
    pub fn hook_at(&self, i: usize) -> (r: Hook)
        requires
            i < self@.len(),
        ensures
            r == self@[i as int],
    {
        self.hooks[i]
    }

    /// Whether `target` is already patched by a registered hook.
    pub fn is_hooked(&self, target: usize) -> (r: bool)
        ensures
            r == has_target(self@, target),
    {
        let n = self.hooks.len();
        let mut i: usize = 0;
        while i < n
            invariant
                n == self@.len(),
                i <= n,
                forall|k: int| 0 <= k < i ==> self@[k].target != target,
            decreases n - i,
        {
            if self.hooks[i].target == target {
                return true;
            }
            i = i + 1;
        }
        false
    }

    /// Registers a hook. Succeeds exactly when `target` is not patched yet;
    /// a duplicate target is rejected and the registry — every hook already
    /// in it, trampolines included — is left unchanged.
    pub fn install(&mut self, target: usize, detour: usize, original: usize) -> (r: Result<
        (),
        Error,
    >)
        ensures
            match r {
                Ok(()) => !has_target(old(self)@, target) && final(self)@ == old(self)@.push(
                    Hook { target, detour, original },
                ),
                Err(e) => e == Error::HookTargetAlreadyPatched && has_target(old(self)@, target)
                    && final(self)@ == old(self)@,
            },
    {
        if self.is_hooked(target) {
            return Err(Error::HookTargetAlreadyPatched);
        }
        self.hooks.push(Hook { target, detour, original });
        Ok(())
    }

    /// The call-through primitive: the trampoline registered against the
    /// first hook whose detour is `detour`, or `None` when no such hook was
    /// ever installed.
    pub fn get_original(&self, detour: usize) -> (r: Option<usize>)
        ensures
            r == lookup_detour(self@, detour),
    {
        let n = self.hooks.len();
        let mut i: usize = 0;
        proof {
            assert(self@.skip(0) =~= self@);
        }
        while i < n
            invariant
                n == self@.len(),
                i <= n,
                lookup_detour(self@, detour) == lookup_detour(self@.skip(i as int), detour),
            decreases n - i,
        {
            proof {
                assert(self@.skip(i as int)[0] == self@[i as int]);
            }
            if self.hooks[i].detour == detour {
                return Some(self.hooks[i].original);
            }
            proof {
                assert(self@.skip(i as int).skip(1) =~= self@.skip(i + 1));
            }
            i = i + 1;
        }
        proof {
            assert(self@.skip(n as int) =~= Seq::<Hook>::empty());
        }
        None
    }
}

/// How a lookup reads a registry that one more hook was appended to: every
/// detour that already resolved keeps its trampoline, and a detour that did
/// not resolve before now reaches the new hook, if it is its.
pub proof fn lemma_lookup_after_push(hooks: Seq<Hook>, h: Hook, detour: usize)
    ensures
        lookup_detour(hooks.push(h), detour) == (if lookup_detour(hooks, detour) is Some {
            lookup_detour(hooks, detour)
        } else if h.detour == detour {
            Some(h.original)
        } else {
            None::<usize>
        }),
    decreases hooks.len(),
{
    if hooks.len() == 0 {
        assert(hooks.push(h)[0] == h);
        assert(hooks.push(h).skip(1) =~= Seq::<Hook>::empty());
        assert(lookup_detour(hooks, detour) is None);
        assert(lookup_detour(Seq::<Hook>::empty(), detour) is None);
        if h.detour == detour {
            assert(lookup_detour(hooks.push(h), detour) == Some(h.original));
        } else {
            assert(lookup_detour(hooks.push(h), detour) == lookup_detour(
                hooks.push(h).skip(1),
                detour,
            ));
        }
    } else {
        let rest = hooks.skip(1);
        assert(hooks.push(h)[0] == hooks[0]);
        assert(hooks.push(h).skip(1) =~= rest.push(h));
        lemma_lookup_after_push(rest, h, detour);
        if hooks[0].detour == detour {
            assert(lookup_detour(hooks, detour) == Some(hooks[0].original));
            assert(lookup_detour(hooks.push(h), detour) == Some(hooks[0].original));
        } else {
            assert(lookup_detour(hooks, detour) == lookup_detour(rest, detour));
            assert(lookup_detour(hooks.push(h), detour) == lookup_detour(rest.push(h), detour));
        }
    }
}

/// Law: after a successful installation, the detour resolves to exactly the
/// trampoline that was registered with it, provided no earlier hook had
/// claimed that detour.
pub proof fn lemma_get_original_after_install(hooks: Seq<Hook>, h: Hook)
    requires
        lookup_detour(hooks, h.detour) is None,
    ensures
        lookup_detour(hooks.push(h), h.detour) == Some(h.original),
{
    lemma_lookup_after_push(hooks, h, h.detour);
}

/// Law: installing a hook occupies its target, so a second installation at
/// the same target is rejected — and, being rejected, leaves the registry
/// and every registered trampoline unchanged.
pub proof fn lemma_second_install_rejected(hooks: Seq<Hook>, h: Hook)
    ensures
        has_target(hooks.push(h), h.target),
{
    assert(hooks.push(h)[hooks.len() as int].target == h.target);
}

/// Law: adding a further hook never disturbs the trampoline an installed
/// detour already resolves to.
pub proof fn lemma_install_preserves_lookups(hooks: Seq<Hook>, h: Hook, detour: usize)
    requires
        lookup_detour(hooks, detour) is Some,
    ensures
        lookup_detour(hooks.push(h), detour) == lookup_detour(hooks, detour),
{
    lemma_lookup_after_push(hooks, h, detour);
}

/// Law: a registry whose targets are all distinct keeps that invariant
/// across any installation the registry accepts.
pub proof fn lemma_install_preserves_unique_targets(hooks: Seq<Hook>, h: Hook)
    requires
        unique_targets(hooks),
        !has_target(hooks, h.target),
    ensures
        unique_targets(hooks.push(h)),
{
    let pushed = hooks.push(h);
    assert forall|i: int, j: int|
        0 <= i < j < pushed.len() implies pushed[i].target != pushed[j].target by {
        if j == hooks.len() {
            assert(!(hooks[i].target == h.target)) by {
                assert(!has_target(hooks, h.target));
            }
        }
    }
}

} // verus!
