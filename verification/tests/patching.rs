use hookscan::hook::{
    install_hook, trampoline_size, hook_transition, EngineContext, HookDescriptor, HookError,
    HookEvent, HookSite, HookState,
};
use hookscan::patch::{padding_len, redirect_bytes, MIN_REDIRECT_LEN};

fn descriptor(site_addr: u64, original: Vec<u8>) -> HookDescriptor {
    HookDescriptor {
        site: HookSite { address: site_addr, original_bytes: original },
        preamble: vec![0x50, 0x51],
        callback_address: 0x1122_3344_5566_7788,
        postamble: vec![0x59, 0x58],
    }
}

#[test]
fn min_redirect_len_is_fixed() {
    assert_eq!(MIN_REDIRECT_LEN, 14);
}

#[test]
fn padding_len_computes_slack() {
    assert_eq!(padding_len(14), Some(0));
    assert_eq!(padding_len(20), Some(6));
    assert_eq!(padding_len(13), None);
    assert_eq!(padding_len(0), None);
}

#[test]
fn short_site_is_rejected_and_untouched() {
    let desc = descriptor(0x1000, vec![1, 2, 3, 4, 5, 6, 7]);
    let mut site_bytes = vec![1, 2, 3, 4, 5, 6, 7];
    let r = install_hook(&desc, &mut site_bytes, Some(0x2000));
    assert!(matches!(r, Err(HookError::InsufficientRedirectSpace)));
    assert_eq!(site_bytes, vec![1, 2, 3, 4, 5, 6, 7]);
}

#[test]
fn failed_allocation_is_reported_and_site_untouched() {
    let original: Vec<u8> = (0u8..14).collect();
    let desc = descriptor(0x1000, original.clone());
    let mut site_bytes = original.clone();
    let r = install_hook(&desc, &mut site_bytes, None);
    assert!(matches!(r, Err(HookError::AllocationFailure)));
    assert_eq!(site_bytes, original);
}

#[test]
fn padding_is_exact_for_twenty_byte_site() {
    let original: Vec<u8> = (10u8..30).collect();
    assert_eq!(original.len(), 20);
    let desc = descriptor(0x1000, original.clone());
    let mut site_bytes = original.clone();
    let tramp_base: u64 = 0x7fff_0000_1234_5678;
    let r = install_hook(&desc, &mut site_bytes, Some(tramp_base));
    let t = r.expect("install succeeds");
    assert_eq!(t.base_address, tramp_base);
    // redirect opcode
    assert_eq!(&site_bytes[0..6], &[0xff, 0x25, 0x00, 0x00, 0x00, 0x00]);
    // operand: the trampoline base, little endian
    assert_eq!(&site_bytes[6..14], &tramp_base.to_le_bytes());
    // bytes [14..20) are the single-byte no-op repeated 6 times
    assert_eq!(&site_bytes[14..20], &[0x90; 6]);
    assert_eq!(site_bytes.len(), 20);
}

#[test]
fn trampoline_layout_is_exact() {
    let original: Vec<u8> = (0u8..16).collect();
    let site_addr: u64 = 0x14000_1000;
    let desc = descriptor(site_addr, original.clone());
    let mut site_bytes = original.clone();
    let size = trampoline_size(&desc).expect("size fits");
    assert_eq!(size, desc.preamble.len() + 14 + desc.postamble.len() + original.len() + 14);
    let t = install_hook(&desc, &mut site_bytes, Some(0x2000)).expect("install succeeds");
    let code = &t.code;
    assert_eq!(code.len(), size);
    let p = desc.preamble.len();
    let q = desc.postamble.len();
    // preamble
    assert_eq!(&code[0..p], &desc.preamble[..]);
    // call sequence: 6-byte opcode plus the callback address
    assert_eq!(&code[p..p + 6], &[0xff, 0x15, 0x02, 0x00, 0x00, 0x00]);
    assert_eq!(&code[p + 6..p + 14], &desc.callback_address.to_le_bytes());
    // postamble
    assert_eq!(&code[p + 14..p + 14 + q], &desc.postamble[..]);
    // the relocated original bytes, byte-identical to the pre-patch site
    assert_eq!(&code[p + 14 + q..p + 14 + q + 16], &original[..]);
    // jump back
    assert_eq!(&code[p + 30 + q..p + 36 + q], &[0xff, 0x25, 0x00, 0x00, 0x00, 0x00]);
    // final 8 bytes: the address right past the displaced range
    let back = site_addr + original.len() as u64;
    assert_eq!(&code[size - 8..], &back.to_le_bytes());
}

#[test]
fn state_machine_follows_transition_table() {
    let s = HookState::Unpatched;
    let s = hook_transition(s, HookEvent::Begin);
    assert_eq!(s, HookState::Installing);
    assert_eq!(hook_transition(s, HookEvent::Complete), HookState::Installed);
    assert_eq!(
        hook_transition(s, HookEvent::Fail(HookError::ProtectionChangeFailure)),
        HookState::Failed(HookError::ProtectionChangeFailure)
    );
    // terminal states absorb further events
    assert_eq!(hook_transition(HookState::Installed, HookEvent::Begin), HookState::Installed);
    assert_eq!(
        hook_transition(HookState::Failed(HookError::AllocationFailure), HookEvent::Complete),
        HookState::Failed(HookError::AllocationFailure)
    );
    // completion is only reachable from the installing state
    assert_eq!(hook_transition(HookState::Unpatched, HookEvent::Complete), HookState::Unpatched);
}

#[test]
fn missing_module_base_is_fatal_to_attach() {
    let r = EngineContext::attach(None);
    assert!(matches!(r, Err(HookError::ModuleBaseUnavailable)));
}

#[test]
fn second_install_of_same_site_is_rejected() {
    let mut ctx = EngineContext::attach(Some(0x1400_0000)).expect("attach succeeds");
    let site = ctx.site_address(hookscan::offsets::CHAR_UPDATE_HOOK).expect("address fits");
    assert!(ctx.begin_install(site));
    // the chosen idempotence policy: the first install wins
    assert!(!ctx.begin_install(site));
    // another site is still accepted
    let other = ctx.site_address(hookscan::offsets::BUILDING_UPDATE_HOOK).expect("address fits");
    assert!(ctx.begin_install(other));
}

#[test]
fn site_address_is_base_plus_offset() {
    let ctx = EngineContext::attach(Some(0x1400_0000)).expect("attach succeeds");
    assert_eq!(ctx.site_address(0x65F6C7), Some(0x1465F6C7));
    assert_eq!(ctx.site_address(u64::MAX), None);
}

#[test]
fn redirect_bytes_for_minimal_site_have_no_padding() {
    let r = redirect_bytes(0xAABB_CCDD_EEFF_0011, 14);
    assert_eq!(r.len(), 14);
    assert_eq!(&r[0..6], &[0xff, 0x25, 0x00, 0x00, 0x00, 0x00]);
    assert_eq!(&r[6..14], &0xAABB_CCDD_EEFF_0011u64.to_le_bytes());
}
