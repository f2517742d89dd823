//! The inline-hook installer: validates a hook site, lays out the trampoline
//! block, and computes the redirect image written over the site.
//!
//! The installer itself never touches a foreign address space. It computes
//! every byte of the trampoline and of the patched site; the surrounding
//! application changes page protection, allocates the executable block, and
//! performs the raw writes, handing the outcomes back in as plain values.

use vstd::prelude::*;

use crate::asmb;
use crate::bytes;
use crate::patch;
use crate::patch::MIN_REDIRECT_LEN;

verus! {

/// Why installing one hook failed. Each failure is fatal to that hook only
/// and leaves the target memory untouched.
#[derive(Clone, Copy, Debug, PartialEq, Eq, Structural)]
pub enum HookError {
    /// The site's relocatable byte range is shorter than the 14-byte redirect.
    InsufficientRedirectSpace,
    /// The executable block for the trampoline could not be reserved.
    AllocationFailure,
    /// The page protection at the site could not be changed.
    ProtectionChangeFailure,
    /// The target image's base address could not be resolved; fatal to the
    /// whole engine, since every hook address is relative to it.
    ModuleBaseUnavailable,
}

/// An address in the target's code whose instructions are to be replaced by
/// a redirect, together with the exact bytes expected to be present there.
/// Those bytes double as the instructions relocated into the trampoline.
pub struct HookSite {
    pub address: u64,
    pub original_bytes: Vec<u8>,
}

/// Everything needed to install one hook: the site, the caller-supplied
/// machine-code fragments run before and after the callback, and the
/// callback's absolute address.
pub struct HookDescriptor {
    pub site: HookSite,
    pub preamble: Vec<u8>,
    pub callback_address: u64,
    pub postamble: Vec<u8>,
}

/// An owned executable block: its base address in the target, and the code
/// placed there.
pub struct Trampoline {
    pub base_address: u64,
    pub code: Vec<u8>,
}

/// The exact content of a trampoline: preamble, 14-byte call sequence to the
/// callback, postamble, the relocated original bytes, and a 14-byte absolute
/// jump back to the first unpatched instruction.
pub open spec fn spec_trampoline(
    preamble: Seq<u8>,
    callback: u64,
    postamble: Seq<u8>,
    original: Seq<u8>,
    return_address: u64,
) -> Seq<u8> {
    preamble + asmb::call_opcode() + bytes::u64_le_bytes(callback) + postamble + original
        + asmb::jmp_opcode() + bytes::u64_le_bytes(return_address)
}

/// Total trampoline length for the given fragments.
pub open spec fn spec_trampoline_len(preamble: Seq<u8>, postamble: Seq<u8>, original: Seq<u8>) -> int {
    preamble.len() + MIN_REDIRECT_LEN + postamble.len() + original.len() + MIN_REDIRECT_LEN
}

/// The address execution resumes at after the trampoline: the first byte
/// past the displaced range.
pub open spec fn spec_return_address(site: HookSite) -> int {
    site.address + site.original_bytes@.len()
}

/// Computes the size of the executable block one hook needs, or `None` when
/// the fragment lengths cannot even be summed on this machine.
pub fn trampoline_size(desc: &HookDescriptor) -> (r: Option<usize>)
    ensures
        r matches Some(s) ==> s == spec_trampoline_len(
            desc.preamble@,
            desc.postamble@,
            desc.site.original_bytes@,
        ),
        r is None <==> spec_trampoline_len(desc.preamble@, desc.postamble@, desc.site.original_bytes@)
            > usize::MAX,
{
    let fixed: usize = MIN_REDIRECT_LEN + MIN_REDIRECT_LEN;
    let a = desc.preamble.len();
    let b = desc.postamble.len();
    let c = desc.site.original_bytes.len();
    if a > usize::MAX - fixed {
        return None;
    }
    let t1 = fixed + a;
    if b > usize::MAX - t1 {
        return None;
    }
    let t2 = t1 + b;
    if c > usize::MAX - t2 {
        return None;
    }
    Some(t2 + c)
}

/// Assembles the trampoline code block for `desc`, laid out exactly as
/// `spec_trampoline` describes.
pub fn build_trampoline(desc: &HookDescriptor) -> (r: Vec<u8>)
    requires
        spec_return_address(desc.site) <= u64::MAX,
        spec_trampoline_len(desc.preamble@, desc.postamble@, desc.site.original_bytes@)
            <= usize::MAX,
    ensures
        r@ == spec_trampoline(
            desc.preamble@,
            desc.callback_address,
            desc.postamble@,
            desc.site.original_bytes@,
            (desc.site.address + desc.site.original_bytes@.len()) as u64,
        ),
        r@.len() == spec_trampoline_len(desc.preamble@, desc.postamble@, desc.site.original_bytes@),
{
    let return_address: u64 = desc.site.address + (desc.site.original_bytes.len() as u64);
    let mut code: Vec<u8> = Vec::new();
    bytes::push_all(&mut code, &desc.preamble);
    let call = asmb::call_opcode_bytes();
    bytes::push_all(&mut code, &call);
    bytes::push_u64_le(&mut code, desc.callback_address);
    bytes::push_all(&mut code, &desc.postamble);
    bytes::push_all(&mut code, &desc.site.original_bytes);
    let jmp = asmb::jmp_opcode_bytes();
    bytes::push_all(&mut code, &jmp);
    bytes::push_u64_le(&mut code, return_address);
    assert(code@ =~= spec_trampoline(
        desc.preamble@,
        desc.callback_address,
        desc.postamble@,
        desc.site.original_bytes@,
        return_address,
    ));
    code
}

/// Installs one hook, given the outcome of the executable-block allocation.
///
/// `site_bytes` is the byte image of the site's relocatable range, read by
/// the caller; on success it becomes the redirect image to write back, and on
/// any failure it is left byte-for-byte unchanged. `allocation` is the base
/// of the read-write-execute block the caller reserved (of the size
/// `trampoline_size` reported), or `None` when the reservation failed.
pub fn install_hook(
    desc: &HookDescriptor,
    site_bytes: &mut Vec<u8>,
    allocation: Option<u64>,
) -> (r: Result<Trampoline, HookError>)
    requires
        old(site_bytes)@ == desc.site.original_bytes@,
        spec_return_address(desc.site) <= u64::MAX,
        spec_trampoline_len(desc.preamble@, desc.postamble@, desc.site.original_bytes@)
            <= usize::MAX,
    ensures
        desc.site.original_bytes@.len() < MIN_REDIRECT_LEN ==> r == Err::<
            Trampoline,
            HookError,
        >(HookError::InsufficientRedirectSpace) && final(site_bytes)@ == old(site_bytes)@,
        desc.site.original_bytes@.len() >= MIN_REDIRECT_LEN && allocation is None ==> r == Err::<
            Trampoline,
            HookError,
        >(HookError::AllocationFailure) && final(site_bytes)@ == old(site_bytes)@,
        allocation matches Some(base) ==> desc.site.original_bytes@.len() < MIN_REDIRECT_LEN
            || (r matches Ok(t) && t.base_address == base && t.code@ == spec_trampoline(
            desc.preamble@,
            desc.callback_address,
            desc.postamble@,
            desc.site.original_bytes@,
            (desc.site.address + desc.site.original_bytes@.len()) as u64,
        ) && final(site_bytes)@ == patch::spec_redirect(
            base,
            desc.site.original_bytes@.len() as int,
        )),
{
    let site_len = desc.site.original_bytes.len();
    if site_len < MIN_REDIRECT_LEN {
        return Err(HookError::InsufficientRedirectSpace);
    }
    match allocation {
        None => Err(HookError::AllocationFailure),
        Some(base) => {
            let code = build_trampoline(desc);
            let redirect = patch::redirect_bytes(base, site_len);
            *site_bytes = redirect;
            Ok(Trampoline { base_address: base, code })
        },
    }
}

/// The per-site installation state machine. Success and failure are both
/// terminal: this engine has no uninstall path.
#[derive(Clone, Copy, Debug, PartialEq, Eq, Structural)]
pub enum HookState {
    Unpatched,
    Installing,
    Installed,
    Failed(HookError),
}

/// What happened to an installation attempt.
#[derive(Clone, Copy, Debug, PartialEq, Eq, Structural)]
pub enum HookEvent {
    Begin,
    Complete,
    Fail(HookError),
}

/// The transition table: `Unpatched` begins installing; `Installing` either
/// completes or fails with the reported reason; every other pairing leaves
/// the state where it was.
pub open spec fn spec_hook_transition(state: HookState, event: HookEvent) -> HookState {
    match (state, event) {
        (HookState::Unpatched, HookEvent::Begin) => HookState::Installing,
        (HookState::Installing, HookEvent::Complete) => HookState::Installed,
        (HookState::Installing, HookEvent::Fail(e)) => HookState::Failed(e),
        _ => state,
    }
}

/// Advances a site's installation state by one event.
pub fn hook_transition(state: HookState, event: HookEvent) -> (r: HookState)
    ensures
        r == spec_hook_transition(state, event),
{
    match (state, event) {
        (HookState::Unpatched, HookEvent::Begin) => HookState::Installing,
        (HookState::Installing, HookEvent::Complete) => HookState::Installed,
        (HookState::Installing, HookEvent::Fail(e)) => HookState::Failed(e),
        _ => state,
    }
}

/// The engine's explicit state, created at attach time and passed to every
/// operation: the target image's base address and the sites already hooked.
pub struct EngineContext {
    pub module_base: u64,
    pub installed_sites: Vec<u64>,
}

impl EngineContext {
    /// Creates the engine state from the resolved image base, or reports
    /// `ModuleBaseUnavailable` when the host image could not be located.
    pub fn attach(module_base: Option<u64>) -> (r: Result<EngineContext, HookError>)
        ensures
            module_base matches Some(b) ==> r matches Ok(c) && c.module_base == b
                && c.installed_sites@ == Seq::<u64>::empty(),
            module_base is None ==> r == Err::<EngineContext, HookError>(
                HookError::ModuleBaseUnavailable,
            ),
    {
        match module_base {
            Some(b) => Ok(EngineContext { module_base: b, installed_sites: Vec::new() }),
            None => Err(HookError::ModuleBaseUnavailable),
        }
    }

    /// Resolves a fixed image-relative offset to an absolute address.
    pub fn site_address(&self, offset: u64) -> (r: Option<u64>)
        ensures
            self.module_base + offset <= u64::MAX ==> r == Some(
                (self.module_base + offset) as u64,
            ),
            self.module_base + offset > u64::MAX ==> r is None,
    {
        if offset <= u64::MAX - self.module_base {
            Some(self.module_base + offset)
        } else {
            None
        }
    }

    /// Records that installation begins at `site_address`, or refuses it.
    ///
    /// Installing the same site twice is rejected: the first install wins and
    /// the second attempt returns `false`, leaving the engine state and the
    /// site untouched. (The alternative, stacking hooks, would rewrite a
    /// redirect this engine itself wrote, not original instructions.)
    pub fn begin_install(&mut self, site_address: u64) -> (r: bool)
        ensures
            r <==> !old(self).installed_sites@.contains(site_address),
            r ==> final(self).installed_sites@ == old(self).installed_sites@.push(site_address),
            !r ==> final(self).installed_sites@ == old(self).installed_sites@,
            final(self).module_base == old(self).module_base,
    {
        let n = self.installed_sites.len();
        let mut i: usize = 0;
        while i < n
            invariant
                i <= n,
                n == self.installed_sites@.len(),
                *self == *old(self),
                forall|j: int| 0 <= j < i ==> self.installed_sites@[j] != site_address,
            decreases n - i,
        {
            if self.installed_sites[i] == site_address {
                return false;
            }
            i = i + 1;
        }
        assert(!self.installed_sites@.contains(site_address));
        self.installed_sites.push(site_address);
        true
    }
}

} // verus!
