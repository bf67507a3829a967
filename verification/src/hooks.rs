//! Bootstrap planning of the game-function hooks.
//!
//! At startup the instrumentation locates each function it wants to
//! intercept by scanning the owning module's executable memory for that
//! function's prologue signature, and only then patches it. This module
//! computes the plan — which address to patch and with which detour — from
//! the module's memory; performing the patch is the platform's work.

use vstd::prelude::*;
use vstd::string::StringSliceAdditionalSpecFns;

use crate::pattern::{matches_at, scan, spec_parse, Pattern};
use crate::Error;

verus! {

/// One hook the bootstrap wants installed: the located target address and
/// the detour that is to receive its calls.
#[derive(Clone, Copy, Debug, PartialEq, Eq, Structural)]
pub struct HookRequest {
    /// The absolute address of the function to patch.
    pub target: usize,
    /// The address of the replacement function.
    pub detour: usize,
}

/// The prologue signature of the client module's create-move function, as
/// the contracts see it.
pub open spec fn spec_create_move_signature() -> Seq<u8> {
    "48 8B C4 4C 89 48 20 55".spec_bytes()
}

/// The prologue signature of the client module's create-move function.
pub fn create_move_signature() -> (r: &'static str)
    ensures
        r.spec_bytes() == spec_create_move_signature(),
{
    "48 8B C4 4C 89 48 20 55"
}

/// Locates the create-move function inside the client module's executable
/// memory and plans its hook: the returned request targets the first match
/// of the create-move signature, made absolute against the module's base,
/// and names the given detour. Fails exactly when the signature matches
/// nowhere in the memory — the fixed signature always parses, so no other
/// error can come out.
pub fn initialize_hooks(
    client_memory: &[u8],
    client_base: usize,
    create_move_detour: usize,
) -> (r: Result<HookRequest, Error>)
    requires
        client_base + client_memory@.len() <= usize::MAX,
    ensures
        match r {
            Ok(req) => {
                &&& spec_parse(spec_create_move_signature()) matches Some(pat)
                &&& client_base <= req.target
                &&& matches_at(client_memory@, pat, req.target - client_base)
                &&& forall|k: int|
                    0 <= k < req.target - client_base ==> !matches_at(client_memory@, pat, k)
                &&& req.detour == create_move_detour
            },
            Err(e) => {
                &&& e == Error::PatternNotFound
                &&& spec_parse(spec_create_move_signature()) matches Some(pat)
                &&& forall|k: int| !matches_at(client_memory@, pat, k)
            },
        },
{
    let signature = create_move_signature();
    let pattern = match Pattern::parse(signature) {
        Ok(p) => p,
        Err(e) => {
            proof {
                lemma_create_move_signature_parses();
            }
            return Err(e);
        },
    };
    match scan(client_memory, &pattern) {
        Some(offset) => Ok(HookRequest { target: client_base + offset, detour: create_move_detour }),
        None => Err(Error::PatternNotFound),
    }
}

/// The fixed create-move signature follows the pattern grammar, so planning
/// can only fail for want of a match, never with a parse error.
pub proof fn lemma_create_move_signature_parses()
    ensures
        spec_parse(spec_create_move_signature()) is Some,
{
    let s = "48 8B C4 4C 89 48 20 55";
    reveal_strlit("48 8B C4 4C 89 48 20 55");
    broadcast use vstd::string::is_ascii_spec_bytes;
    assert(vstd::string::is_ascii(s));
    let bytes = s.spec_bytes();
    assert(bytes =~= seq![
        52u8, 56, 32, 56, 66, 32, 67, 52, 32, 52, 67, 32, 56, 57, 32, 52, 56, 32, 50, 48, 32, 53,
        53,
    ]);
    reveal_with_fuel(spec_parse, 25);
    assert(spec_parse(bytes) is Some);
}

} // verus!
