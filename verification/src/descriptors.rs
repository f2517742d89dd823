//! The engine's standard hook descriptor table: for each of the four hooks,
//! the exact bytes expected at the site, the caller-supplied preamble and
//! postamble fragments, and the site's image-relative offset.
//!
//! Callback addresses are plain values here; the application passes the
//! addresses of its callback routines in.

use vstd::prelude::*;

use crate::asmb;
use crate::hook::{HookDescriptor, HookSite};
use crate::offsets;

verus! {

/// The displaced instructions at the character-update site: loading the
/// character pointer, then storing a status byte.
pub open spec fn char_update_original() -> Seq<u8> {
    seq![
        0x48u8, 0x8bu8, 0x8bu8, 0x20u8, 0x03u8, 0x00u8, 0x00u8,
        0x40u8, 0x88u8, 0xb3u8, 0x7cu8, 0x03u8, 0x00u8, 0x00u8,
    ]
}

/// The instruction replayed in the character-update preamble so the callback
/// receives the character pointer the displaced code would have loaded.
pub open spec fn char_update_load() -> Seq<u8> {
    seq![0x48u8, 0x8bu8, 0x8bu8, 0x20u8, 0x03u8, 0x00u8, 0x00u8]
}

/// The displaced instructions at the building-update site.
pub open spec fn building_update_original() -> Seq<u8> {
    seq![
        0x48u8, 0x8bu8, 0x43u8, 0x60u8,
        0x4cu8, 0x8bu8, 0x24u8, 0x28u8,
        0x49u8, 0x8bu8, 0xccu8,
        0x49u8, 0x8bu8, 0x04u8, 0x24u8,
        0xffu8, 0x90u8, 0xd8u8, 0x00u8, 0x00u8, 0x00u8,
    ]
}

/// The instruction chain replayed in the building-update preamble so the
/// callback receives the building pointer.
pub open spec fn building_update_load() -> Seq<u8> {
    seq![
        0x48u8, 0x8bu8, 0x43u8, 0x60u8,
        0x4cu8, 0x8bu8, 0x24u8, 0x28u8,
        0x49u8, 0x8bu8, 0xccu8,
    ]
}

/// The displaced instructions at the squad-spawning-check site: the
/// routine's frame setup.
pub open spec fn spawn_squad_bypass_original() -> Seq<u8> {
    seq![
        0x48u8, 0x8du8, 0xacu8, 0x24u8, 0x30u8, 0xffu8, 0xffu8, 0xffu8,
        0x48u8, 0x81u8, 0xecu8, 0xd0u8, 0x01u8, 0x00u8, 0x00u8,
    ]
}

/// The displaced instructions at the squad-spawning injection site: a run
/// of no-ops reserved for exactly this patch.
pub open spec fn spawn_squad_injection_original() -> Seq<u8> {
    seq![
        0x90u8, 0x90u8, 0x90u8, 0x90u8, 0x90u8, 0x90u8, 0x90u8, 0x90u8,
        0x90u8, 0x90u8, 0x90u8, 0x90u8, 0x90u8, 0x90u8, 0x90u8,
    ]
}

/// The injection preamble: saving the two volatile registers the callback's
/// return path reads back.
pub open spec fn spawn_squad_injection_preamble() -> Seq<u8> {
    seq![0x52u8, 0x41u8, 0x52u8]
}

/// The injection postamble: restoring the saved registers, then consuming
/// the callback's returned record — testing it, loading the spawn arguments
/// from it, and branching past the unused path.
pub open spec fn spawn_squad_injection_postamble() -> Seq<u8> {
    seq![
        0x41u8, 0x5au8, 0x5au8,
        0x48u8, 0x8bu8, 0x48u8, 0x18u8,
        0x48u8, 0x8bu8, 0x09u8,
        0x48u8, 0x83u8, 0xf8u8, 0x00u8,
        0x0fu8, 0x84u8, 0x15u8, 0x00u8, 0x00u8, 0x00u8,
        0x4cu8, 0x8bu8, 0x08u8,
        0x4cu8, 0x89u8, 0x4cu8, 0x24u8, 0x30u8,
        0x4cu8, 0x8du8, 0x40u8, 0x08u8,
        0x4cu8, 0x8bu8, 0x4eu8, 0x30u8,
        0xe9u8, 0x08u8, 0x00u8, 0x00u8, 0x00u8,
        0x4cu8, 0x8bu8, 0x4eu8, 0x30u8,
        0x4cu8, 0x8du8, 0x45u8, 0xa0u8,
    ]
}

fn push_byte(v: &mut Vec<u8>, b: u8)
    ensures
        final(v)@ == old(v)@.push(b),
{
    v.push(b);
}

/// The character-update descriptor: registers saved, the character pointer
/// reloaded, and every register restored after the callback.
pub fn char_update_descriptor(module_base: u64, callback_address: u64) -> (d: HookDescriptor)
    requires
        module_base + offsets::CHAR_UPDATE_HOOK <= u64::MAX,
    ensures
        d.site.address == module_base + offsets::CHAR_UPDATE_HOOK,
        d.site.original_bytes@ == char_update_original(),
        d.preamble@ == asmb::save_registers() + char_update_load(),
        d.callback_address == callback_address,
        d.postamble@ == asmb::restore_registers(),
{
    let mut original: Vec<u8> = Vec::new();
    push_byte(&mut original, 0x48);
    push_byte(&mut original, 0x8b);
    push_byte(&mut original, 0x8b);
    push_byte(&mut original, 0x20);
    push_byte(&mut original, 0x03);
    push_byte(&mut original, 0x00);
    push_byte(&mut original, 0x00);
    push_byte(&mut original, 0x40);
    push_byte(&mut original, 0x88);
    push_byte(&mut original, 0xb3);
    push_byte(&mut original, 0x7c);
    push_byte(&mut original, 0x03);
    push_byte(&mut original, 0x00);
    push_byte(&mut original, 0x00);
    assert(original@ =~= char_update_original());
    let mut preamble = asmb::save_registers_bytes();
    push_byte(&mut preamble, 0x48);
    push_byte(&mut preamble, 0x8b);
    push_byte(&mut preamble, 0x8b);
    push_byte(&mut preamble, 0x20);
    push_byte(&mut preamble, 0x03);
    push_byte(&mut preamble, 0x00);
    push_byte(&mut preamble, 0x00);
    assert(preamble@ =~= asmb::save_registers() + char_update_load());
    HookDescriptor {
        site: HookSite {
            address: module_base + offsets::CHAR_UPDATE_HOOK,
            original_bytes: original,
        },
        preamble,
        callback_address,
        postamble: asmb::restore_registers_bytes(),
    }
}

/// The building-update descriptor: registers saved, the building pointer
/// recomputed through its load chain, and every register restored.
pub fn building_update_descriptor(module_base: u64, callback_address: u64) -> (d: HookDescriptor)
    requires
        module_base + offsets::BUILDING_UPDATE_HOOK <= u64::MAX,
    ensures
        d.site.address == module_base + offsets::BUILDING_UPDATE_HOOK,
        d.site.original_bytes@ == building_update_original(),
        d.preamble@ == asmb::save_registers() + building_update_load(),
        d.callback_address == callback_address,
        d.postamble@ == asmb::restore_registers(),
{
    let mut original: Vec<u8> = Vec::new();
    push_byte(&mut original, 0x48);
    push_byte(&mut original, 0x8b);
    push_byte(&mut original, 0x43);
    push_byte(&mut original, 0x60);
    push_byte(&mut original, 0x4c);
    push_byte(&mut original, 0x8b);
    push_byte(&mut original, 0x24);
    push_byte(&mut original, 0x28);
    push_byte(&mut original, 0x49);
    push_byte(&mut original, 0x8b);
    push_byte(&mut original, 0xcc);
    push_byte(&mut original, 0x49);
    push_byte(&mut original, 0x8b);
    push_byte(&mut original, 0x04);
    push_byte(&mut original, 0x24);
    push_byte(&mut original, 0xff);
    push_byte(&mut original, 0x90);
    push_byte(&mut original, 0xd8);
    push_byte(&mut original, 0x00);
    push_byte(&mut original, 0x00);
    push_byte(&mut original, 0x00);
    assert(original@ =~= building_update_original());
    let mut preamble = asmb::save_registers_bytes();
    push_byte(&mut preamble, 0x48);
    push_byte(&mut preamble, 0x8b);
    push_byte(&mut preamble, 0x43);
    push_byte(&mut preamble, 0x60);
    push_byte(&mut preamble, 0x4c);
    push_byte(&mut preamble, 0x8b);
    push_byte(&mut preamble, 0x24);
    push_byte(&mut preamble, 0x28);
    push_byte(&mut preamble, 0x49);
    push_byte(&mut preamble, 0x8b);
    push_byte(&mut preamble, 0xcc);
    assert(preamble@ =~= asmb::save_registers() + building_update_load());
    HookDescriptor {
        site: HookSite {
            address: module_base + offsets::BUILDING_UPDATE_HOOK,
            original_bytes: original,
        },
        preamble,
        callback_address,
        postamble: asmb::restore_registers_bytes(),
    }
}

/// The squad-spawning-check descriptor: every register saved around the
/// callback, nothing recomputed.
pub fn spawn_squad_bypass_descriptor(module_base: u64, callback_address: u64) -> (d:
    HookDescriptor)
    requires
        module_base + offsets::SPAWN_SQUAD_BYPASS <= u64::MAX,
    ensures
        d.site.address == module_base + offsets::SPAWN_SQUAD_BYPASS,
        d.site.original_bytes@ == spawn_squad_bypass_original(),
        d.preamble@ == asmb::save_registers(),
        d.callback_address == callback_address,
        d.postamble@ == asmb::restore_registers(),
{
    let mut original: Vec<u8> = Vec::new();
    push_byte(&mut original, 0x48);
    push_byte(&mut original, 0x8d);
    push_byte(&mut original, 0xac);
    push_byte(&mut original, 0x24);
    push_byte(&mut original, 0x30);
    push_byte(&mut original, 0xff);
    push_byte(&mut original, 0xff);
    push_byte(&mut original, 0xff);
    push_byte(&mut original, 0x48);
    push_byte(&mut original, 0x81);
    push_byte(&mut original, 0xec);
    push_byte(&mut original, 0xd0);
    push_byte(&mut original, 0x01);
    push_byte(&mut original, 0x00);
    push_byte(&mut original, 0x00);
    assert(original@ =~= spawn_squad_bypass_original());
    HookDescriptor {
        site: HookSite {
            address: module_base + offsets::SPAWN_SQUAD_BYPASS,
            original_bytes: original,
        },
        preamble: asmb::save_registers_bytes(),
        callback_address,
        postamble: asmb::restore_registers_bytes(),
    }
}

/// The squad-spawning injection descriptor. The callback returns a value,
/// so the generic register save/restore cannot wrap it; the preamble and
/// postamble are the hand-written fragments that keep exactly the registers
/// the return path needs.
#[verifier::rlimit(50)]
pub fn spawn_squad_injection_descriptor(module_base: u64, callback_address: u64) -> (d:
    HookDescriptor)
    requires
        module_base + offsets::SPAWN_SQUAD_FUNC_CALL <= u64::MAX,
    ensures
        d.site.address == module_base + offsets::SPAWN_SQUAD_FUNC_CALL,
        d.site.original_bytes@ == spawn_squad_injection_original(),
        d.preamble@ == spawn_squad_injection_preamble(),
        d.callback_address == callback_address,
        d.postamble@ == spawn_squad_injection_postamble(),
{
    let mut original: Vec<u8> = Vec::new();
    let mut i: usize = 0;
    while i < 15
        invariant
            i <= 15,
            original@.len() == i,
            forall|j: int| 0 <= j < i ==> original@[j] == 0x90u8,
        decreases 15 - i,
    {
        push_byte(&mut original, 0x90);
        i = i + 1;
    }
    assert(original@ =~= spawn_squad_injection_original());
    let mut preamble: Vec<u8> = Vec::new();
    push_byte(&mut preamble, 0x52);
    push_byte(&mut preamble, 0x41);
    push_byte(&mut preamble, 0x52);
    assert(preamble@ =~= spawn_squad_injection_preamble());
    let mut postamble: Vec<u8> = Vec::new();
    push_byte(&mut postamble, 0x41);
    push_byte(&mut postamble, 0x5a);
    push_byte(&mut postamble, 0x5a);
    push_byte(&mut postamble, 0x48);
    push_byte(&mut postamble, 0x8b);
    push_byte(&mut postamble, 0x48);
    push_byte(&mut postamble, 0x18);
    push_byte(&mut postamble, 0x48);
    push_byte(&mut postamble, 0x8b);
    push_byte(&mut postamble, 0x09);
    push_byte(&mut postamble, 0x48);
    push_byte(&mut postamble, 0x83);
    push_byte(&mut postamble, 0xf8);
    push_byte(&mut postamble, 0x00);
    push_byte(&mut postamble, 0x0f);
    push_byte(&mut postamble, 0x84);
    push_byte(&mut postamble, 0x15);
    push_byte(&mut postamble, 0x00);
    push_byte(&mut postamble, 0x00);
    push_byte(&mut postamble, 0x00);
    push_byte(&mut postamble, 0x4c);
    push_byte(&mut postamble, 0x8b);
    push_byte(&mut postamble, 0x08);
    push_byte(&mut postamble, 0x4c);
    push_byte(&mut postamble, 0x89);
    push_byte(&mut postamble, 0x4c);
    push_byte(&mut postamble, 0x24);
    push_byte(&mut postamble, 0x30);
    push_byte(&mut postamble, 0x4c);
    push_byte(&mut postamble, 0x8d);
    push_byte(&mut postamble, 0x40);
    push_byte(&mut postamble, 0x08);
    push_byte(&mut postamble, 0x4c);
    push_byte(&mut postamble, 0x8b);
    push_byte(&mut postamble, 0x4e);
    push_byte(&mut postamble, 0x30);
    push_byte(&mut postamble, 0xe9);
    push_byte(&mut postamble, 0x08);
    push_byte(&mut postamble, 0x00);
    push_byte(&mut postamble, 0x00);
    push_byte(&mut postamble, 0x00);
    push_byte(&mut postamble, 0x4c);
    push_byte(&mut postamble, 0x8b);
    push_byte(&mut postamble, 0x4e);
    push_byte(&mut postamble, 0x30);
    push_byte(&mut postamble, 0x4c);
    push_byte(&mut postamble, 0x8d);
    push_byte(&mut postamble, 0x45);
    push_byte(&mut postamble, 0xa0);
    assert(postamble@ =~= spawn_squad_injection_postamble());
    HookDescriptor {
        site: HookSite {
            address: module_base + offsets::SPAWN_SQUAD_FUNC_CALL,
            original_bytes: original,
        },
        preamble,
        callback_address,
        postamble,
    }
}

} // verus!
