use gbfr_logs::identity::{
    c_string_field, identity_from_snapshot, should_cache_identity, validate_actor_key,
    ActorLookup, IdentityStore, IdentityTracker, StoredPlayerIdentity, INVALID_PLAYER_KEY,
};

fn identity(name: &str, party: u8, online: bool) -> StoredPlayerIdentity {
    StoredPlayerIdentity {
        character_name: b"Pl0100".to_vec(),
        display_name: name.as_bytes().to_vec(),
        party_index: party,
        is_online: online,
    }
}

#[test]
fn a_recorded_identity_is_found_again() {
    let mut store = IdentityStore::new();
    assert!(store.insert(0x11, identity("Gran", 0, false)));
    assert_eq!(store.by_key[&0x11].display_name, b"Gran");
    // Refreshing the same owner does not move the slot.
    assert!(!store.insert(0x11, identity("Gran", 0, false)));
}

#[test]
fn a_new_slot_owner_displaces_the_old_one() {
    let mut store = IdentityStore::new();
    store.insert(0x11, identity("placeholder", 2, true));
    assert!(store.insert(0x22, identity("Remote", 2, true)));
    assert!(!store.by_key.contains_key(&0x11));
    assert_eq!(store.by_key[&0x22].display_name, b"Remote");
    assert_eq!(store.active_key_by_party[&2], 0x22);
}

#[test]
fn other_slots_are_untouched() {
    let mut store = IdentityStore::new();
    store.insert(0x11, identity("Local", 0, false));
    store.insert(0x22, identity("Remote", 1, true));
    assert_eq!(store.by_key.len(), 2);
    assert_eq!(store.by_key[&0x11].display_name, b"Local");
}

#[test]
fn offline_placeholders_are_not_cached() {
    assert!(should_cache_identity(&identity("Local", 0, false)));
    assert!(should_cache_identity(&identity("Remote", 3, true)));
    assert!(!should_cache_identity(&identity("Placeholder", 1, false)));
    let mut tracker = IdentityTracker::new();
    assert!(!tracker.record_identity(0x33, identity("Placeholder", 1, false)));
    assert!(tracker.identities.by_key.is_empty());
}

#[test]
fn invalid_player_keys_are_ignored() {
    let mut tracker = IdentityTracker::new();
    assert!(!tracker.record_identity(0, identity("Local", 0, false)));
    assert!(!tracker.record_identity(INVALID_PLAYER_KEY, identity("Local", 0, false)));
    assert!(tracker.identities.by_key.is_empty());
}

#[test]
fn a_slot_change_forgets_actor_keys() {
    let mut tracker = IdentityTracker::new();
    assert!(tracker.record_identity(0x11, identity("Local", 0, false)));
    tracker.remember_actor_key(0x1000, 0x11);
    // Same owner again: the actor cache stays.
    assert!(tracker.record_identity(0x11, identity("Local", 0, false)));
    assert_eq!(tracker.lookup_actor(0x1000), ActorLookup::Cached(0x11));
    // A new owner for slot 0: the actor cache is dropped.
    assert!(tracker.record_identity(0x44, identity("Other", 0, false)));
    assert_eq!(tracker.lookup_actor(0x1000), ActorLookup::NeedsRead);
}

#[test]
fn actors_resolve_to_identity_events() {
    let mut tracker = IdentityTracker::new();
    tracker.record_identity(0x11, identity("Gran", 0, false));
    assert_eq!(tracker.lookup_actor(0), ActorLookup::NoActor);
    assert_eq!(tracker.lookup_actor(0x2000), ActorLookup::NeedsRead);
    let key = validate_actor_key(true, 4, 0x11).unwrap();
    tracker.remember_actor_key(0x2000, key);
    let ev = tracker.event_for_key(key, 0x9498_420D, 7).unwrap();
    assert_eq!(ev.display_name, b"Gran");
    assert_eq!(ev.character_name, b"Pl0100");
    assert_eq!(ev.party_index, 0);
    assert_eq!(ev.actor_index, 7);
    assert_eq!(ev.character_type, 0x9498_420D);
    assert!(tracker.event_for_key(0x99, 0, 0).is_none());
}

#[test]
fn actor_key_reads_are_validated() {
    assert_eq!(validate_actor_key(false, 4, 0x11), None);
    assert_eq!(validate_actor_key(true, 2, 0x11), None);
    assert_eq!(validate_actor_key(true, 4, 0), None);
    assert_eq!(validate_actor_key(true, 4, INVALID_PLAYER_KEY), None);
    assert_eq!(validate_actor_key(true, 4, 0x11), Some(0x11));
}

#[test]
fn snapshots_are_checked_before_caching() {
    let name = *b"Pl0100\0garbage\0\0";
    let ok = identity_from_snapshot(1, 2, &name, Some(b"Remote".to_vec())).unwrap();
    assert_eq!(ok.character_name, b"Pl0100");
    assert_eq!(ok.party_index, 2);
    assert!(ok.is_online);
    assert!(identity_from_snapshot(2, 0, &name, Some(b"x".to_vec())).is_none());
    assert!(identity_from_snapshot(0, 4, &name, Some(b"x".to_vec())).is_none());
    assert!(identity_from_snapshot(0, 0, &name, Some(Vec::new())).is_none());
    assert!(identity_from_snapshot(0, 0, &name, None).is_none());
}

#[test]
fn c_string_fields_stop_at_the_first_nul() {
    assert_eq!(c_string_field(b"abc\0def"), b"abc");
    assert_eq!(c_string_field(b"\0abc"), b"");
    assert_eq!(c_string_field(b"no terminator"), b"");
    assert_eq!(c_string_field(b""), b"");
}

#[test]
fn a_read_key_is_remembered_even_without_identity() {
    let mut tracker = IdentityTracker::new();
    assert!(tracker.resolve_after_read(0x3000, Some(0x55), 1, 2).is_none());
    assert_eq!(tracker.lookup_actor(0x3000), ActorLookup::Cached(0x55));
    tracker.record_identity(0x55, identity("Late", 0, false));
    let ev = tracker.resolve_after_read(0x4000, Some(0x55), 1, 2).unwrap();
    assert_eq!(ev.display_name, b"Late");
    assert!(tracker.resolve_after_read(0x5000, None, 1, 2).is_none());
    assert_eq!(tracker.lookup_actor(0x5000), ActorLookup::NeedsRead);
}

#[test]
fn at_most_one_identity_per_slot() {
    let mut store = IdentityStore::new();
    store.insert(0x11, identity("A", 0, false));
    store.insert(0x22, identity("B", 1, true));
    store.insert(0x33, identity("C", 1, true));
    store.insert(0x11, identity("A", 2, true));
    assert!(store.by_key.len() <= store.active_key_by_party.len());
    for (key, id) in &store.by_key {
        assert_eq!(store.active_key_by_party[&id.party_index], *key);
    }
}
