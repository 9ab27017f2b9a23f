//! Player identity bookkeeping for the injected hook.
//!
//! The game rebuilds a player's identity snapshot (display name, party slot)
//! whenever it refreshes the player; the hook caches those identities by the
//! player's key and, when a damage event names a concrete combat actor,
//! resolves that actor to its player key and the key to the cached identity.
//! Reading game memory stays with the hook; this module holds every decision
//! taken on what was read.

use std::collections::HashMap;
use vstd::prelude::*;

verus! {

broadcast use vstd::std_specs::hash::group_hash_axioms;

/// Sentinel the game uses for an unset player key.
pub const INVALID_PLAYER_KEY: u32 = 0x887A_E0B0;

/// Cached identity fields for one player. Names are the raw bytes of the
/// game's strings, without the terminating NUL.
#[derive(Debug)]
pub struct StoredPlayerIdentity {
    pub character_name: Vec<u8>,
    pub display_name: Vec<u8>,
    pub party_index: u8,
    pub is_online: bool,
}

/// The identity of the player behind one combat actor, as the damage meter
/// receives it.
#[derive(Debug)]
pub struct PlayerIdentityEvent {
    pub character_name: Vec<u8>,
    pub display_name: Vec<u8>,
    pub character_type: u32,
    pub party_index: u8,
    pub actor_index: u32,
    pub is_online: bool,
}

fn copy_bytes(b: &Vec<u8>) -> (r: Vec<u8>)
    ensures
        r@ == b@,
{
    let mut r: Vec<u8> = Vec::new();
    let mut i: usize = 0;
    while i < b.len()
        invariant
            i <= b.len(),
            r@ =~= b@.take(i as int),
        decreases b.len() - i,
    {
        r.push(b[i]);
        i = i + 1;
    }
    assert(b@.take(b.len() as int) =~= b@);
    r
}

impl StoredPlayerIdentity {
    /// A field-by-field copy.
    pub fn duplicate(&self) -> (r: StoredPlayerIdentity)
        ensures
            r.character_name@ == self.character_name@,
            r.display_name@ == self.display_name@,
            r.party_index == self.party_index,
            r.is_online == self.is_online,
    {
        StoredPlayerIdentity {
            character_name: copy_bytes(&self.character_name),
            display_name: copy_bytes(&self.display_name),
            party_index: self.party_index,
            is_online: self.is_online,
        }
    }
}

/// Slot 0 is always the local player and is always kept. Any other slot is
/// only a real player if it is flagged online: before an online party fills
/// in, the game creates offline placeholders for slots 1-3 under the local
/// profile name, which must not shadow real players.
pub fn should_cache_identity(identity: &StoredPlayerIdentity) -> (r: bool)
    ensures
        r == (identity.party_index == 0 || identity.is_online),
{
    identity.party_index == 0 || identity.is_online
}

/// Index of the first NUL byte of `b`, or -1 when there is none.
pub open spec fn nul_position(b: Seq<u8>) -> int
    decreases b.len(),
{
    if b.len() == 0 {
        -1
    } else if b[0] == 0 {
        0
    } else {
        let rest = nul_position(b.drop_first());
        if rest < 0 {
            -1
        } else {
            rest + 1
        }
    }
}

/// The C string held in a fixed byte field: the bytes before the first NUL,
/// or nothing when the field holds no NUL at all.
pub open spec fn c_string_in(b: Seq<u8>) -> Seq<u8> {
    if nul_position(b) < 0 {
        Seq::empty()
    } else {
        b.take(nul_position(b))
    }
}

proof fn lemma_nul_position(b: Seq<u8>, i: int)
    requires
        0 <= i <= b.len(),
        forall|k: int| 0 <= k < i ==> b[k] != 0,
    ensures
        i < b.len() && b[i] == 0 ==> nul_position(b) == i,
        i == b.len() ==> nul_position(b) == -1,
    decreases b.len(),
{
    if b.len() > 0 && i > 0 {
        assert forall|k: int| 0 <= k < i - 1 implies b.drop_first()[k] != 0 by {
            assert(b.drop_first()[k] == b[k + 1]);
        }
        lemma_nul_position(b.drop_first(), i - 1);
    }
}

/// Reads the C string stored in a fixed byte field.
pub fn c_string_field(field: &[u8]) -> (r: Vec<u8>)
    ensures
        r@ == c_string_in(field@),
{
    let mut i: usize = 0;
    while i < field.len()
        invariant
            i <= field.len(),
            forall|k: int| 0 <= k < i ==> field@[k] != 0,
        decreases field.len() - i,
    {
        if field[i] == 0 {
            proof {
                lemma_nul_position(field@, i as int);
            }
            let mut r: Vec<u8> = Vec::new();
            let mut j: usize = 0;
            while j < i
                invariant
                    j <= i,
                    i < field.len(),
                    r@ =~= field@.take(j as int),
                decreases i - j,
            {
                r.push(field[j]);
                j = j + 1;
            }
            return r;
        }
        i = i + 1;
    }
    proof {
        lemma_nul_position(field@, i as int);
    }
    Vec::new()
}

/// The identity a snapshot describes, or `None` when the snapshot cannot be
/// one: an online flag above 1 or a party slot above 3 marks a garbage
/// pointer or a wrong structure, and a real player always has a display name.
/// `display_name` is the snapshot's display name as read, `None` when it
/// could not be read.
pub fn identity_from_snapshot(
    is_online: u32,
    party_index: u32,
    character_name: &[u8],
    display_name: Option<Vec<u8>>,
) -> (r: Option<StoredPlayerIdentity>)
    ensures
        r is Some <==> (is_online <= 1 && party_index <= 3 && display_name is Some
            && display_name->0@.len() > 0),
        r is Some ==> {
            &&& r->0.character_name@ == c_string_in(character_name@)
            &&& r->0.display_name@ == display_name->0@
            &&& r->0.party_index == party_index
            &&& r->0.is_online == (is_online != 0)
        },
{
    if is_online > 1 || party_index > 3 {
        return None;
    }
    let display_name = match display_name {
        Some(name) => name,
        None => return None,
    };
    if display_name.len() == 0 {
        return None;
    }
    Some(StoredPlayerIdentity {
        character_name: c_string_field(character_name),
        display_name,
        party_index: party_index as u8,
        is_online: is_online != 0,
    })
}

/// A key that can name a player: neither zero nor the unset sentinel.
pub open spec fn is_player_key(key: u32) -> bool {
    key != 0 && key != INVALID_PLAYER_KEY
}

/// The player key read from a combat actor, if the read succeeded in full
/// and produced a key that can name a player.
pub fn validate_actor_key(read_ok: bool, bytes_read: usize, key: u32) -> (r: Option<u32>)
    ensures
        r == (if read_ok && bytes_read == 4 && is_player_key(key) { Some(key) } else { None }),
{
    if !read_ok || bytes_read != 4 || key == 0 || key == INVALID_PLAYER_KEY {
        return None;
    }
    Some(key)
}

/// Player identities keyed by their game player key, plus a party-slot
/// index so a slot's owner can be replaced (an offline placeholder giving
/// way to the real remote player as an online lobby fills in).
#[derive(Debug)]
pub struct IdentityStore {
    pub by_key: HashMap<u32, StoredPlayerIdentity>,
    pub active_key_by_party: HashMap<u8, u32>,
}

/// What the identity table maps a key to after recording `identity` for
/// `player_key` over `by_key`, when `previous` owned the identity's slot.
pub open spec fn identities_after_insert(
    by_key: Map<u32, StoredPlayerIdentity>,
    previous: Option<u32>,
    player_key: u32,
    identity: StoredPlayerIdentity,
) -> Map<u32, StoredPlayerIdentity> {
    match previous {
        Some(prev) => if prev != player_key {
            by_key.remove(prev).insert(player_key, identity)
        } else {
            by_key.insert(player_key, identity)
        },
        None => by_key.insert(player_key, identity),
    }
}

/// The key that owns party slot `party` in `active`, if any.
pub open spec fn owner_in(active: Map<u8, u32>, party: u8) -> Option<u32> {
    if active.contains_key(party) {
        Some(active[party])
    } else {
        None
    }
}

/// Every cached identity belongs to the key that owns its party slot.
pub open spec fn slots_own_identities(by_key: Map<u32, StoredPlayerIdentity>, active: Map<u8, u32>) -> bool {
    forall|k: u32| #[trigger]
        by_key.contains_key(k) ==> owner_in(active, by_key[k].party_index) == Some(k)
}

/// Recording an identity keeps every cached identity owned by its slot: the
/// recorded key now owns the slot, a displaced owner's identity is gone, and
/// no other cached key's slot changes hands.
pub proof fn lemma_insert_keeps_slots_owned(
    by_key: Map<u32, StoredPlayerIdentity>,
    active: Map<u8, u32>,
    player_key: u32,
    identity: StoredPlayerIdentity,
)
    requires
        slots_own_identities(by_key, active),
    ensures
        slots_own_identities(
            identities_after_insert(by_key, owner_in(active, identity.party_index), player_key, identity),
            active.insert(identity.party_index, player_key),
        ),
{
    let p = identity.party_index;
    let after = identities_after_insert(by_key, owner_in(active, p), player_key, identity);
    let active2 = active.insert(p, player_key);
    assert forall|k: u32| #[trigger] after.contains_key(k) implies owner_in(active2, after[k].party_index) == Some(k) by {
        if k != player_key {
            assert(by_key.contains_key(k));
            assert(owner_in(active, by_key[k].party_index) == Some(k));
            if by_key[k].party_index == p {
                assert(owner_in(active, p) == Some(k));
            }
        }
    }
}

/// At most one identity is cached per party slot: a store whose identities
/// are owned by their slots caches no more identities than it has slots.
pub proof fn lemma_one_identity_per_slot(by_key: Map<u32, StoredPlayerIdentity>, active: Map<u8, u32>)
    requires
        slots_own_identities(by_key, active),
        by_key.dom().finite(),
        active.dom().finite(),
    ensures
        by_key.len() <= active.len(),
{
    let slot = |k: u32| by_key[k].party_index;
    let x = by_key.dom();
    let y = x.map(slot);
    assert(vstd::relations::injective_on(slot, x)) by {
        assert forall|k1: u32, k2: u32| x.contains(k1) && x.contains(k2) && #[trigger] slot(k1) == #[trigger] slot(k2)
            implies k1 == k2 by {
            assert(owner_in(active, by_key[k1].party_index) == Some(k1));
            assert(owner_in(active, by_key[k2].party_index) == Some(k2));
        }
    }
    vstd::set_lib::lemma_map_size(x, y, slot);
    assert(y.subset_of(active.dom())) by {
        assert forall|p: u8| y.contains(p) implies active.dom().contains(p) by {
            let k = choose|k: u32| x.contains(k) && slot(k) == p;
            assert(owner_in(active, by_key[k].party_index) == Some(k));
        }
    }
    vstd::set_lib::lemma_len_subset(y, active.dom());
}

/// A store whose identities are owned by their slots caches at most one
/// identity per party slot.
pub proof fn lemma_store_caches_one_identity_per_slot(store: IdentityStore)
    requires
        store.inv(),
    ensures
        store.by_key@.len() <= store.active_key_by_party@.len(),
{
    lemma_one_identity_per_slot(store.by_key@, store.active_key_by_party@);
}

impl IdentityStore {
    /// Every cached identity is owned by its party slot.
    pub open spec fn inv(&self) -> bool {
        slots_own_identities(self.by_key@, self.active_key_by_party@)
    }

    /// An empty store.
    pub fn new() -> (r: IdentityStore)
        ensures
            r.by_key@ == Map::<u32, StoredPlayerIdentity>::empty(),
            r.active_key_by_party@ == Map::<u8, u32>::empty(),
            r.inv(),
    {
        IdentityStore { by_key: HashMap::new(), active_key_by_party: HashMap::new() }
    }

    /// The key that owns party slot `party`, if any.
    pub open spec fn slot_owner(&self, party: u8) -> Option<u32> {
        owner_in(self.active_key_by_party@, party)
    }

    /// Records an identity for `player_key`: the key now owns the identity's
    /// party slot, and a different key that owned that slot before loses its
    /// identity. Returns true if this changed which key owns the slot (so
    /// cached actor-to-key mappings must be invalidated).
    pub fn insert(&mut self, player_key: u32, identity: StoredPlayerIdentity) -> (changed: bool)
        ensures
            final(self).active_key_by_party@ == old(self).active_key_by_party@.insert(
                identity.party_index,
                player_key,
            ),
            final(self).by_key@ == identities_after_insert(
                old(self).by_key@,
                old(self).slot_owner(identity.party_index),
                player_key,
                identity,
            ),
            changed == (old(self).slot_owner(identity.party_index) != Some(player_key)),
            old(self).inv() ==> final(self).inv(),
    {
        proof {
            if old(self).inv() {
                lemma_insert_keeps_slots_owned(
                    old(self).by_key@,
                    old(self).active_key_by_party@,
                    player_key,
                    identity,
                );
            }
        }
        let party_index = identity.party_index;
        let previous_key = self.active_key_by_party.insert(party_index, player_key);
        match previous_key {
            Some(prev) => {
                if prev != player_key {
                    self.by_key.remove(&prev);
                }
            },
            None => {},
        }
        self.by_key.insert(player_key, identity);
        match previous_key {
            Some(prev) => prev != player_key,
            None => true,
        }
    }
}

/// What recording an identity promises: a lookup of the key gives back the
/// identity just recorded; a different key that owned the identity's slot no
/// longer resolves; every other key resolves as before.
pub proof fn lemma_record_then_lookup(
    by_key: Map<u32, StoredPlayerIdentity>,
    previous: Option<u32>,
    player_key: u32,
    identity: StoredPlayerIdentity,
    other: u32,
)
    ensures
        identities_after_insert(by_key, previous, player_key, identity).contains_key(player_key),
        identities_after_insert(by_key, previous, player_key, identity)[player_key] == identity,
        previous is Some && previous->0 != player_key ==> !identities_after_insert(
            by_key,
            previous,
            player_key,
            identity,
        ).contains_key(previous->0),
        other != player_key && previous != Some(other) ==> (identities_after_insert(
            by_key,
            previous,
            player_key,
            identity,
        ).contains_key(other) == by_key.contains_key(other) && (by_key.contains_key(other)
            ==> identities_after_insert(by_key, previous, player_key, identity)[other]
            == by_key[other])),
{
}

/// Identities plus the actor-to-key cache that the damage path consults.
#[derive(Debug)]
pub struct IdentityTracker {
    pub identities: IdentityStore,
    /// Combat actor address -> the player key read from it.
    pub actor_keys: HashMap<usize, u32>,
}

/// What resolving a combat actor needs next.
#[derive(Debug, Clone, Copy, PartialEq, Eq, Structural)]
pub enum ActorLookup {
    /// A null actor names no player.
    NoActor,
    /// The actor's player key is cached.
    Cached(u32),
    /// The actor's player key must be read from the actor first.
    NeedsRead,
}

impl IdentityTracker {
    /// A tracker that knows no identity and no actor.
    pub fn new() -> (r: IdentityTracker)
        ensures
            r.identities.by_key@ == Map::<u32, StoredPlayerIdentity>::empty(),
            r.identities.active_key_by_party@ == Map::<u8, u32>::empty(),
            r.actor_keys@ == Map::<usize, u32>::empty(),
            r.identities.inv(),
    {
        IdentityTracker { identities: IdentityStore::new(), actor_keys: HashMap::new() }
    }

    /// Handles a refreshed identity snapshot: keys that cannot name a player
    /// and offline placeholders are ignored; anything else is recorded, and
    /// when that moves a party slot to another key every cached actor-to-key
    /// mapping is dropped, since actor allocations get reused as a lobby
    /// swaps placeholders for the real party. Returns whether the identity
    /// was recorded.
    pub fn record_identity(&mut self, player_key: u32, identity: StoredPlayerIdentity) -> (recorded: bool)
        ensures
            recorded == (is_player_key(player_key) && (identity.party_index == 0 || identity.is_online)),
            old(self).identities.inv() ==> final(self).identities.inv(),
            !recorded ==> final(self).identities.by_key@ == old(self).identities.by_key@
                && final(self).identities.active_key_by_party@ == old(self).identities.active_key_by_party@
                && final(self).actor_keys@ == old(self).actor_keys@,
            recorded ==> {
                &&& final(self).identities.active_key_by_party@ == old(
                    self,
                ).identities.active_key_by_party@.insert(identity.party_index, player_key)
                &&& final(self).identities.by_key@ == identities_after_insert(
                    old(self).identities.by_key@,
                    old(self).identities.slot_owner(identity.party_index),
                    player_key,
                    identity,
                )
                &&& final(self).actor_keys@ == (if old(self).identities.slot_owner(
                    identity.party_index,
                ) != Some(player_key) {
                    Map::<usize, u32>::empty()
                } else {
                    old(self).actor_keys@
                })
            },
    {
        if player_key == 0 || player_key == INVALID_PLAYER_KEY {
            return false;
        }
        if !should_cache_identity(&identity) {
            return false;
        }
        let changed = self.identities.insert(player_key, identity);
        if changed {
            self.actor_keys.clear();
        }
        true
    }

    /// The first step of resolving a combat actor: a null actor names no
    /// player, a cached actor gives its key, any other must be read.
    pub fn lookup_actor(&self, actor: usize) -> (r: ActorLookup)
        ensures
            actor == 0 ==> r == ActorLookup::NoActor,
            actor != 0 && self.actor_keys@.contains_key(actor) ==> r == ActorLookup::Cached(
                self.actor_keys@[actor],
            ),
            actor != 0 && !self.actor_keys@.contains_key(actor) ==> r == ActorLookup::NeedsRead,
    {
        if actor == 0 {
            return ActorLookup::NoActor;
        }
        match self.actor_keys.get(&actor) {
            Some(key) => ActorLookup::Cached(*key),
            None => ActorLookup::NeedsRead,
        }
    }

    /// Remembers the key read from `actor`, so later hits skip the read.
    pub fn remember_actor_key(&mut self, actor: usize, key: u32)
        ensures
            final(self).actor_keys@ == old(self).actor_keys@.insert(actor, key),
            final(self).identities.by_key@ == old(self).identities.by_key@,
            final(self).identities.active_key_by_party@ == old(self).identities.active_key_by_party@,
    {
        self.actor_keys.insert(actor, key);
    }

    /// The identity event for a resolved player key, or `None` when no
    /// identity has been cached for that key yet.
    pub fn event_for_key(&self, player_key: u32, character_type: u32, actor_index: u32) -> (r: Option<
        PlayerIdentityEvent,
    >)
        ensures
            r is Some <==> self.identities.by_key@.contains_key(player_key),
            r is Some ==> {
                let id = self.identities.by_key@[player_key];
                &&& r->0.character_name@ == id.character_name@
                &&& r->0.display_name@ == id.display_name@
                &&& r->0.party_index == id.party_index
                &&& r->0.is_online == id.is_online
                &&& r->0.character_type == character_type
                &&& r->0.actor_index == actor_index
            },
    {
        match self.identities.by_key.get(&player_key) {
            Some(identity) => Some(PlayerIdentityEvent {
                character_name: copy_bytes(&identity.character_name),
                display_name: copy_bytes(&identity.display_name),
                character_type,
                party_index: identity.party_index,
                actor_index,
                is_online: identity.is_online,
            }),
            None => None,
        }
    }

    /// Completes resolving an actor whose key had to be read: `read_key` is
    /// the validated result of that read. A key that was read is remembered
    /// for the actor even when no identity is cached for it yet; the answer
    /// is the identity event for that key, if any. A failed read changes
    /// nothing and resolves to no event.
    pub fn resolve_after_read(
        &mut self,
        actor: usize,
        read_key: Option<u32>,
        character_type: u32,
        actor_index: u32,
    ) -> (r: Option<PlayerIdentityEvent>)
        ensures
            final(self).identities.by_key@ == old(self).identities.by_key@,
            final(self).identities.active_key_by_party@ == old(self).identities.active_key_by_party@,
            read_key is None ==> r is None && final(self).actor_keys@ == old(self).actor_keys@,
            read_key is Some ==> {
                let key = read_key->0;
                &&& final(self).actor_keys@ == old(self).actor_keys@.insert(actor, key)
                &&& r is Some <==> old(self).identities.by_key@.contains_key(key)
                &&& r is Some ==> {
                    let id = old(self).identities.by_key@[key];
                    &&& r->0.character_name@ == id.character_name@
                    &&& r->0.display_name@ == id.display_name@
                    &&& r->0.party_index == id.party_index
                    &&& r->0.is_online == id.is_online
                    &&& r->0.character_type == character_type
                    &&& r->0.actor_index == actor_index
                }
            },
    {
        let key = match read_key {
            Some(k) => k,
            None => return None,
        };
        self.remember_actor_key(actor, key);
        self.event_for_key(key, character_type, actor_index)
    }
}

} // verus!
