//! The fixed x64 instruction fragments the patcher emits.
//!
//! Every redirect and every trampoline is assembled from these pieces: a
//! 6-byte jump-through-absolute-pointer opcode whose 8-byte operand follows
//! it, the matching 6-byte call form, the single-byte no-op used as padding,
//! and the push/pop sequences that save and restore the general-purpose
//! registers around a callback.

use vstd::prelude::*;

verus! {

/// The single-byte no-op instruction used to pad a hook site behind the
/// redirect so no stale instruction fragment remains decodable.
pub const NOP_OPCODE: u8 = 0x90;

/// The 6-byte jump-through-absolute-pointer opcode. The 8 bytes that follow
/// it in memory hold the absolute target address.
pub open spec fn jmp_opcode() -> Seq<u8> {
    seq![0xffu8, 0x25u8, 0x00u8, 0x00u8, 0x00u8, 0x00u8]
}

/// The 6-byte call-through-absolute-pointer opcode. The 8 bytes that follow
/// it in the trampoline hold the callback's absolute address.
pub open spec fn call_opcode() -> Seq<u8> {
    seq![0xffu8, 0x15u8, 0x02u8, 0x00u8, 0x00u8, 0x00u8]
}

/// The push sequence that saves RAX, RCX, RDX, RBX, RBP, RSI, RDI and
/// R8 through R15 before a callback runs.
pub open spec fn save_registers() -> Seq<u8> {
    seq![
        0x50u8, 0x51u8, 0x52u8, 0x53u8, 0x55u8, 0x56u8, 0x57u8, 0x41u8, 0x50u8,
        0x41u8, 0x51u8, 0x41u8, 0x52u8, 0x41u8, 0x53u8, 0x41u8, 0x54u8, 0x41u8,
        0x55u8, 0x41u8, 0x56u8, 0x41u8, 0x57u8,
    ]
}

/// The pop sequence that restores what `save_registers` saved, in reverse.
pub open spec fn restore_registers() -> Seq<u8> {
    seq![
        0x41u8, 0x5fu8, 0x41u8, 0x5eu8, 0x41u8, 0x5du8, 0x41u8, 0x5cu8, 0x41u8,
        0x5bu8, 0x41u8, 0x5au8, 0x41u8, 0x59u8, 0x41u8, 0x58u8, 0x5fu8, 0x5eu8,
        0x5du8, 0x5bu8, 0x5au8, 0x59u8, 0x58u8,
    ]
}

/// The jump opcode as a fresh vector.
pub fn jmp_opcode_bytes() -> (r: Vec<u8>)
    ensures
        r@ == jmp_opcode(),
{
    let mut v: Vec<u8> = Vec::new();
    v.push(0xff);
    v.push(0x25);
    v.push(0x00);
    v.push(0x00);
    v.push(0x00);
    v.push(0x00);
    assert(v@ =~= jmp_opcode());
    v
}

/// The call opcode as a fresh vector.
pub fn call_opcode_bytes() -> (r: Vec<u8>)
    ensures
        r@ == call_opcode(),
{
    let mut v: Vec<u8> = Vec::new();
    v.push(0xff);
    v.push(0x15);
    v.push(0x02);
    v.push(0x00);
    v.push(0x00);
    v.push(0x00);
    assert(v@ =~= call_opcode());
    v
}

/// The register-saving push sequence as a fresh vector.
pub fn save_registers_bytes() -> (r: Vec<u8>)
    ensures
        r@ == save_registers(),
{
    let mut v: Vec<u8> = Vec::new();
    v.push(0x50);
    v.push(0x51);
    v.push(0x52);
    v.push(0x53);
    v.push(0x55);
    v.push(0x56);
    v.push(0x57);
    v.push(0x41);
    v.push(0x50);
    v.push(0x41);
    v.push(0x51);
    v.push(0x41);
    v.push(0x52);
    v.push(0x41);
    v.push(0x53);
    v.push(0x41);
    v.push(0x54);
    v.push(0x41);
    v.push(0x55);
    v.push(0x41);
    v.push(0x56);
    v.push(0x41);
    v.push(0x57);
    assert(v@ =~= save_registers());
    v
}

/// The register-restoring pop sequence as a fresh vector.
pub fn restore_registers_bytes() -> (r: Vec<u8>)
    ensures
        r@ == restore_registers(),
{
    let mut v: Vec<u8> = Vec::new();
    v.push(0x41);
    v.push(0x5f);
    v.push(0x41);
    v.push(0x5e);
    v.push(0x41);
    v.push(0x5d);
    v.push(0x41);
    v.push(0x5c);
    v.push(0x41);
    v.push(0x5b);
    v.push(0x41);
    v.push(0x5a);
    v.push(0x41);
    v.push(0x59);
    v.push(0x41);
    v.push(0x58);
    v.push(0x5f);
    v.push(0x5e);
    v.push(0x5d);
    v.push(0x5b);
    v.push(0x5a);
    v.push(0x59);
    v.push(0x58);
    assert(v@ =~= restore_registers());
    v
}

} // verus!
