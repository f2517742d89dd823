//! Patch-size calculation for a hook site.
//!
//! A redirect occupies a fixed 14 bytes: a 6-byte indirect-jump opcode
//! followed by an 8-byte absolute address operand. A hook site whose
//! relocatable byte range is shorter than that cannot be patched; a longer
//! one is padded with single-byte no-ops behind the redirect.

use vstd::prelude::*;

verus! {

/// Length in bytes of the fixed redirect written at a hook site:
/// a 6-byte jump-through-absolute-pointer opcode plus its 8-byte operand.
pub const MIN_REDIRECT_LEN: usize = 14;

/// Number of single-byte no-ops needed behind a redirect at a site whose
/// relocatable range is `original_len` bytes long, or `None` when the range
/// is too short to hold the redirect at all.
pub open spec fn spec_padding_len(original_len: nat) -> Option<nat> {
    if original_len < MIN_REDIRECT_LEN {
        None
    } else {
        Some((original_len - MIN_REDIRECT_LEN) as nat)
    }
}

/// Validates that a hook site's relocatable range can hold the redirect and
/// computes how many padding no-ops follow it.
pub fn padding_len(original_len: usize) -> (r: Option<usize>)
    ensures
        r matches Some(p) ==> spec_padding_len(original_len as nat) == Some(p as nat),
        r is None <==> spec_padding_len(original_len as nat) is None,
{
    if original_len < MIN_REDIRECT_LEN {
        None
    } else {
        Some(original_len - MIN_REDIRECT_LEN)
    }
}

/// The full byte image written over a hook site of `site_len` bytes:
/// the jump opcode, the trampoline's absolute address, and no-op padding
/// out to `site_len`.
pub open spec fn spec_redirect(trampoline_base: u64, site_len: int) -> Seq<u8>
    recommends
        site_len >= MIN_REDIRECT_LEN,
{
    crate::asmb::jmp_opcode() + crate::bytes::u64_le_bytes(trampoline_base) + Seq::new(
        (site_len - MIN_REDIRECT_LEN) as nat,
        |i: int| crate::asmb::NOP_OPCODE,
    )
}

/// Assembles the redirect image for a site of `site_len` bytes: a 14-byte
/// absolute indirect jump to `trampoline_base` followed by
/// `site_len - 14` single-byte no-ops.
pub fn redirect_bytes(trampoline_base: u64, site_len: usize) -> (r: Vec<u8>)
    requires
        site_len >= MIN_REDIRECT_LEN,
    ensures
        r@ == spec_redirect(trampoline_base, site_len as int),
        r@.len() == site_len,
{
    let mut v = crate::asmb::jmp_opcode_bytes();
    crate::bytes::push_u64_le(&mut v, trampoline_base);
    crate::bytes::push_repeated(&mut v, crate::asmb::NOP_OPCODE, site_len - MIN_REDIRECT_LEN);
    assert(v@ =~= spec_redirect(trampoline_base, site_len as int));
    v
}

} // verus!
