use gbfr_logs::backfill::{
    character_key, derive_skill_key, from_hash, ActionType, Actor, CharacterEntry, CharacterTable,
    DamageEvent,
};

// Character hashes as the game's character table has them.
const KATALINA_PL0100: u32 = 0x9498_420D;
const SEOFON_PL2200: u32 = 0x59DB_0CD9;

fn table() -> CharacterTable {
    CharacterTable {
        entries: vec![
            CharacterEntry { hash: KATALINA_PL0100, number: 100 },
            CharacterEntry { hash: SEOFON_PL2200, number: 2200 },
        ],
    }
}

fn event(parent_hash: u32, actor_hash: u32, action: ActionType) -> DamageEvent {
    DamageEvent {
        source: Actor {
            index: 0,
            actor_type: actor_hash,
            parent_actor_type: parent_hash,
            parent_index: 0,
        },
        target: Actor {
            index: 1,
            actor_type: 0,
            parent_actor_type: 0,
            parent_index: 1,
        },
        action_id: action,
        damage: 100,
        flags: 0,
    }
}

#[test]
fn normal_skill_yields_child_parent_id() {
    let key = derive_skill_key(
        &event(KATALINA_PL0100, KATALINA_PL0100, ActionType::Normal(200)),
        &table(),
    )
    .unwrap();
    assert_eq!(key.child_key, "Pl0100");
    assert_eq!(key.parent_key, "Pl0100");
    assert_eq!(key.id, 200);
}

#[test]
fn seofon_avatar_collapses_child_to_parent() {
    // parent = Seofon (Pl2200), child actor = something else -> child collapses to Pl2200.
    let key = derive_skill_key(
        &event(SEOFON_PL2200, KATALINA_PL0100, ActionType::Normal(1)),
        &table(),
    )
    .unwrap();
    assert_eq!(key.child_key, "Pl2200");
    assert_eq!(key.parent_key, "Pl2200");
}

#[test]
fn link_and_sba_and_supplementary_have_no_key() {
    let k = KATALINA_PL0100;
    let t = table();
    assert!(derive_skill_key(&event(k, k, ActionType::LinkAttack), &t).is_none());
    assert!(derive_skill_key(&event(k, k, ActionType::SBA), &t).is_none());
    assert!(derive_skill_key(&event(k, k, ActionType::SupplementaryDamage(5)), &t).is_none());
}

#[test]
fn dot_yields_a_key() {
    let k = KATALINA_PL0100;
    let key = derive_skill_key(&event(k, k, ActionType::DamageOverTime(9)), &table()).unwrap();
    assert_eq!(key.id, 9);
}

#[test]
fn unknown_character_has_no_key() {
    // 0xDEADBEEF is not a known character hash -> Unknown -> skip.
    assert!(derive_skill_key(
        &event(0xDEAD_BEEF, 0xDEAD_BEEF, ActionType::Normal(1)),
        &table()
    )
    .is_none());
}

#[test]
fn unknown_child_of_known_parent_has_no_key() {
    assert!(derive_skill_key(
        &event(KATALINA_PL0100, 0xDEAD_BEEF, ActionType::Normal(1)),
        &table()
    )
    .is_none());
}

#[test]
fn known_child_of_other_parent_keeps_its_own_block() {
    let key = derive_skill_key(
        &event(KATALINA_PL0100, SEOFON_PL2200, ActionType::Normal(3)),
        &table(),
    )
    .unwrap();
    assert_eq!(key.child_key, "Pl2200");
    assert_eq!(key.parent_key, "Pl0100");
}

#[test]
fn character_keys_have_four_digits() {
    assert_eq!(character_key(Some(7)).unwrap(), "Pl0007");
    assert_eq!(character_key(Some(9999)).unwrap(), "Pl9999");
    assert_eq!(character_key(None), None);
    assert_eq!(from_hash(&table(), SEOFON_PL2200), Some(2200));
    assert_eq!(from_hash(&table(), 1), None);
}
