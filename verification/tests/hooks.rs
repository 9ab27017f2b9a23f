use gbfr_logs::hooks::{
    is_endless_mode, is_unused_slot, offsets_resolved, quest_type, OnEndlessBuffInstallHook,
    OnEndlessMgrDtorHook, OnLoadPlayerHook, OnLoadPlayerIdentityHook, OnReceptionFlowDispatchHook,
};

#[test]
fn quest_type_is_bits_20_to_24() {
    assert_eq!(quest_type(0x0080_0000), 8);
    assert_eq!(quest_type(0x0030_0000), 3);
    assert_eq!(quest_type(0xFFFF_FFFF), 15);
    assert_eq!(quest_type(0x000F_FFFF), 0);
    assert!(is_endless_mode(0x1280_0001));
    assert!(!is_endless_mode(0x0030_0000));
}

#[test]
fn diagnostic_hooks_set_up_without_installing() {
    let process = ();
    assert!(OnReceptionFlowDispatchHook::new().setup(&process).is_ok());
    assert!(OnEndlessBuffInstallHook::new().setup(&process).is_ok());
    assert!(OnEndlessMgrDtorHook::new().setup(&process).is_ok());
}

#[test]
fn player_hooks_keep_their_sender() {
    assert_eq!(OnLoadPlayerHook::new(5u8).tx, 5);
    assert_eq!(OnLoadPlayerIdentityHook::new("tx").tx, "tx");
}

#[test]
fn unresolved_offsets_skip_the_load() {
    assert!(offsets_resolved(1, 2, 3, 4));
    assert!(!offsets_resolved(0, 2, 3, 4));
    assert!(!offsets_resolved(1, 2, 3, 0));
}

#[test]
fn unused_party_slots_are_recognised() {
    assert!(is_unused_slot(0xFF, 0));
    assert!(is_unused_slot(0x1FF, 0));
    assert!(!is_unused_slot(0xFF, 1));
    assert!(!is_unused_slot(2, 0));
}
