//! Offline skill-name backfill logic.
//!
//! `derive_skill_key` reproduces the frontend's character derivation, so that
//! for each damage event it is known under which `skills.<char>.<id>` key a
//! skill name would be looked up: the child character first, its parent as
//! the fallback.

use crate::text::push_char;
use vstd::prelude::*;

verus! {

/// Character number of Seofon (`Pl2200`), whose avatar collapses into him.
pub const SEOFON: u16 = 2200;

/// What a damage event was dealt by.
#[derive(Debug, Clone, Copy, PartialEq, Eq, Structural)]
pub enum ActionType {
    Normal(u32),
    DamageOverTime(u32),
    LinkAttack,
    SBA,
    SupplementaryDamage(u32),
}

/// One actor of a damage event.
#[derive(Debug, Clone, Copy, PartialEq, Eq, Structural)]
pub struct Actor {
    pub index: u32,
    pub actor_type: u32,
    pub parent_actor_type: u32,
    pub parent_index: u32,
}

/// The fields of a damage event that the backfill reads.
#[derive(Debug, Clone, Copy, PartialEq, Eq, Structural)]
pub struct DamageEvent {
    pub source: Actor,
    pub target: Actor,
    pub action_id: ActionType,
    pub damage: i32,
    pub flags: u64,
}

/// One known character: the actor-type hash the game uses for it and its
/// number, as in `Pl0100`.
#[derive(Debug, Clone, Copy, PartialEq, Eq, Structural)]
pub struct CharacterEntry {
    pub hash: u32,
    pub number: u16,
}

/// The characters the game knows, by actor-type hash.
#[derive(Debug)]
pub struct CharacterTable {
    pub entries: Vec<CharacterEntry>,
}

impl CharacterTable {
    /// Every character number has four digits, as the `PlXXXX` names do.
    pub open spec fn wf(&self) -> bool {
        forall|i: int| 0 <= i < self.entries@.len() ==> #[trigger] self.entries@[i].number < 10000
    }
}

/// The character number of `hash`: the first entry with that hash, or
/// `None` for a hash no entry names (an unknown character).
pub open spec fn spec_from_hash(entries: Seq<CharacterEntry>, hash: u32) -> Option<u16>
    decreases entries.len(),
{
    if entries.len() == 0 {
        None
    } else if entries[0].hash == hash {
        Some(entries[0].number)
    } else {
        spec_from_hash(entries.drop_first(), hash)
    }
}

proof fn lemma_from_hash_at(entries: Seq<CharacterEntry>, hash: u32, i: int)
    requires
        0 <= i <= entries.len(),
        forall|k: int| 0 <= k < i ==> #[trigger] entries[k].hash != hash,
    ensures
        i < entries.len() && entries[i].hash == hash ==> spec_from_hash(entries, hash) == Some(entries[i].number),
        i == entries.len() ==> spec_from_hash(entries, hash) is None,
    decreases entries.len(),
{
    if entries.len() > 0 {
        let rest = entries.drop_first();
        if i > 0 {
            assert forall|k: int| 0 <= k < i - 1 implies #[trigger] rest[k].hash != hash by {
                assert(rest[k] == entries[k + 1]);
            }
            lemma_from_hash_at(rest, hash, i - 1);
        }
    }
}

/// A resolved character number is the number of one of the table's entries.
proof fn lemma_from_hash_in_table(entries: Seq<CharacterEntry>, hash: u32)
    ensures
        spec_from_hash(entries, hash) is Some ==> exists|k: int|
            0 <= k < entries.len() && #[trigger] entries[k].number == spec_from_hash(entries, hash)->0,
    decreases entries.len(),
{
    if entries.len() > 0 && entries[0].hash != hash {
        let rest = entries.drop_first();
        lemma_from_hash_in_table(rest, hash);
        if spec_from_hash(rest, hash) is Some {
            let k = choose|k: int| 0 <= k < rest.len() && #[trigger] rest[k].number == spec_from_hash(rest, hash)->0;
            assert(entries[k + 1].number == spec_from_hash(entries, hash)->0);
        }
    }
}

/// Resolves an actor-type hash to a character number.
pub fn from_hash(table: &CharacterTable, hash: u32) -> (r: Option<u16>)
    ensures
        r == spec_from_hash(table.entries@, hash),
{
    let mut i: usize = 0;
    while i < table.entries.len()
        invariant
            i <= table.entries.len(),
            forall|k: int| 0 <= k < i ==> #[trigger] table.entries@[k].hash != hash,
        decreases table.entries.len() - i,
    {
        if table.entries[i].hash == hash {
            proof {
                lemma_from_hash_at(table.entries@, hash, i as int);
            }
            return Some(table.entries[i].number);
        }
        i = i + 1;
    }
    proof {
        lemma_from_hash_at(table.entries@, hash, i as int);
    }
    None
}

/// The decimal digit `d` as a character.
pub open spec fn digit_char(d: int) -> char {
    if d == 0 {
        '0'
    } else if d == 1 {
        '1'
    } else if d == 2 {
        '2'
    } else if d == 3 {
        '3'
    } else if d == 4 {
        '4'
    } else if d == 5 {
        '5'
    } else if d == 6 {
        '6'
    } else if d == 7 {
        '7'
    } else if d == 8 {
        '8'
    } else {
        '9'
    }
}

/// `PlXXXX`: the character's key, its number in four digits.
pub open spec fn spec_character_key(number: u16) -> Seq<char> {
    seq![
        'P',
        'l',
        digit_char((number as int / 1000) % 10),
        digit_char((number as int / 100) % 10),
        digit_char((number as int / 10) % 10),
        digit_char(number as int % 10),
    ]
}

fn digit(d: u16) -> (c: char)
    requires
        d < 10,
    ensures
        c == digit_char(d as int),
{
    if d == 0 {
        '0'
    } else if d == 1 {
        '1'
    } else if d == 2 {
        '2'
    } else if d == 3 {
        '3'
    } else if d == 4 {
        '4'
    } else if d == 5 {
        '5'
    } else if d == 6 {
        '6'
    } else if d == 7 {
        '7'
    } else if d == 8 {
        '8'
    } else {
        '9'
    }
}

/// A `PlXXXX` key string for a known character, or `None` for an unknown
/// one, which has no `Pl` key.
pub fn character_key(character: Option<u16>) -> (r: Option<String>)
    requires
        character is Some ==> character->0 < 10000,
    ensures
        character is None ==> r is None,
        character is Some ==> r is Some && r->0@ == spec_character_key(character->0),
{
    let number = match character {
        Some(n) => n,
        None => return None,
    };
    let mut key = String::new();
    push_char(&mut key, 'P');
    push_char(&mut key, 'l');
    push_char(&mut key, digit((number / 1000) % 10));
    push_char(&mut key, digit((number / 100) % 10));
    push_char(&mut key, digit((number / 10) % 10));
    push_char(&mut key, digit(number % 10));
    assert(key@ =~= spec_character_key(number));
    Some(key)
}

/// The decimal value of a digit character.
pub open spec fn digit_value(c: char) -> int {
    c as int - '0' as int
}

proof fn lemma_digit_char(d: int)
    requires
        0 <= d < 10,
    ensures
        digit_value(digit_char(d)) == d,
        '0' <= digit_char(d) <= '9',
{
}

/// A character's key is `Pl` followed by four decimal digits that read back
/// as the character's number, so each number has its own key.
pub proof fn lemma_character_key_reads_back(n: u16)
    requires
        n < 10000,
    ensures
        spec_character_key(n).len() == 6,
        spec_character_key(n)[0] == 'P',
        spec_character_key(n)[1] == 'l',
        forall|k: int| 2 <= k < 6 ==> '0' <= #[trigger] spec_character_key(n)[k] <= '9',
        digit_value(spec_character_key(n)[2]) * 1000 + digit_value(spec_character_key(n)[3]) * 100
            + digit_value(spec_character_key(n)[4]) * 10 + digit_value(spec_character_key(n)[5]) == n,
{
    let v = n as int;
    lemma_digit_char((v / 1000) % 10);
    lemma_digit_char((v / 100) % 10);
    lemma_digit_char((v / 10) % 10);
    lemma_digit_char(v % 10);
    assert((v / 1000) % 10 * 1000 + (v / 100) % 10 * 100 + (v / 10) % 10 * 10 + v % 10 == v) by (nonlinear_arith)
        requires
            0 <= v < 10000,
    ;
}

/// Distinct characters get distinct keys.
pub proof fn lemma_character_keys_distinct(n1: u16, n2: u16)
    requires
        n1 < 10000,
        n2 < 10000,
        n1 != n2,
    ensures
        spec_character_key(n1) != spec_character_key(n2),
{
    lemma_character_key_reads_back(n1);
    lemma_character_key_reads_back(n2);
}

/// The lookup coordinates for one skill occurrence: the character block a
/// name would live under (child, then parent as fallback) and the skill id.
#[derive(Debug, Clone, PartialEq, Eq, Hash, PartialOrd, Ord)]
pub struct SkillKey {
    pub child_key: String,
    pub parent_key: String,
    pub id: u32,
}

/// The skill id of a per-character named skill; link attacks, skybound arts
/// and supplementary damage have none.
pub open spec fn named_skill_id(action: ActionType) -> Option<u32> {
    match action {
        ActionType::Normal(id) => Some(id),
        ActionType::DamageOverTime(id) => Some(id),
        _ => None,
    }
}

/// The character whose block is looked up first: Seofon's avatar collapses
/// into Seofon; otherwise the concrete source actor.
pub open spec fn spec_child(entries: Seq<CharacterEntry>, source: Actor) -> Option<u16> {
    let parent = spec_from_hash(entries, source.parent_actor_type);
    if parent == Some(SEOFON) {
        parent
    } else {
        spec_from_hash(entries, source.actor_type)
    }
}

/// Returns the `SkillKey` for a damage event, or `None` when the event is
/// not a per-character named skill or a character is unknown.
pub fn derive_skill_key(event: &DamageEvent, table: &CharacterTable) -> (r: Option<SkillKey>)
    requires
        table.wf(),
    ensures
        r is Some <==> (named_skill_id(event.action_id) is Some && spec_child(table.entries@, event.source) is Some
            && spec_from_hash(table.entries@, event.source.parent_actor_type) is Some),
        r is Some ==> {
            &&& r->0.id == named_skill_id(event.action_id)->0
            &&& r->0.child_key@ == spec_character_key(spec_child(table.entries@, event.source)->0)
            &&& r->0.parent_key@ == spec_character_key(
                spec_from_hash(table.entries@, event.source.parent_actor_type)->0,
            )
        },
{
    let id = match event.action_id {
        ActionType::Normal(id) => id,
        ActionType::DamageOverTime(id) => id,
        _ => return None,
    };
    let parent = from_hash(table, event.source.parent_actor_type);
    let child = if parent == Some(SEOFON) {
        parent
    } else {
        from_hash(table, event.source.actor_type)
    };
    proof {
        lemma_from_hash_in_table(table.entries@, event.source.parent_actor_type);
        lemma_from_hash_in_table(table.entries@, event.source.actor_type);
    }
    let child_key = match character_key(child) {
        Some(k) => k,
        None => return None,
    };
    let parent_key = match character_key(parent) {
        Some(k) => k,
        None => return None,
    };
    Some(SkillKey { child_key, parent_key, id })
}

/// Seofon's avatar collapses into Seofon: whenever the parent character is
/// Seofon, the child block looked up first is Seofon's too, whatever the
/// concrete source actor is.
pub proof fn lemma_seofon_avatar_collapses(entries: Seq<CharacterEntry>, source: Actor)
    requires
        spec_from_hash(entries, source.parent_actor_type) == Some(SEOFON),
    ensures
        spec_child(entries, source) == Some(SEOFON),
{
}

} // verus!
