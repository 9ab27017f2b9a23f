//! Sigil synthesis prediction engine.
//!
//! The game's synthesis algorithm is deterministic once the RNG state, the
//! seed counter, the per-pair counters and the level weights are known; this
//! module states that algorithm as spec functions and proves the executable
//! predictor equal to them.

use std::collections::HashMap;
use vstd::multiset::Multiset;
use vstd::prelude::*;

verus! {

broadcast use vstd::std_specs::hash::group_hash_axioms;

/// The game's "no trait in this slot" sentinel.
pub const EMPTY_TRAIT: u32 = 0x887a_e0b0;

/// One step of the game's per-slot xorshift32 generator.
pub open spec fn xorshift32_step(s: u32) -> u32 {
    let a = s ^ (s << 13u32);
    let b = a ^ (a >> 17u32);
    b ^ (b << 15u32)
}

/// One step of the game's per-slot RNG. Returns the new state, which is also
/// the drawn value.
pub fn xorshift32(s: u32) -> (r: u32)
    ensures
        r == xorshift32_step(s),
{
    let mut s = s;
    s = s ^ (s << 13u32);
    s = s ^ (s >> 17u32);
    s = s ^ (s << 15u32);
    s
}

/// Zero is the generator's only fixed point of note: a zero state stays zero
/// forever, and any other state never reaches zero in one step.
pub proof fn lemma_xorshift32_zero_iff(s: u32)
    ensures
        (xorshift32_step(s) == 0) <==> (s == 0),
{
    assert((xorshift32_step(s) == 0) <==> (s == 0)) by (bit_vector);
}

/// `2^32`, the modulus of the game's 32-bit wrapping arithmetic.
pub open spec fn two_pow_32() -> int {
    0x1_0000_0000
}

/// The state after `n` draws from `s`.
pub open spec fn xorshift32_iter(s: u32, n: nat) -> u32
    decreases n,
{
    if n == 0 {
        s
    } else {
        xorshift32_step(xorshift32_iter(s, (n - 1) as nat))
    }
}

/// One sigil as the synthesis algorithm sees it.
#[derive(Debug, Clone)]
pub struct SynthesisSigil {
    /// Per-copy instance uid (map key in the sigil manager).
    pub uid: u32,
    /// The sigil's item id, translatable through the sigil name table.
    pub sigil_id: u32,
    pub trait1: u32,
    pub trait1_level: u32,
    pub trait2: u32,
    pub trait2_level: u32,
    /// Level field of the sigil's item-config record; feeds the warm-up count.
    pub record_level: i32,
}

/// Everything the prediction needs, read out of the game at one instant.
#[derive(Debug)]
pub struct SynthesisSnapshot {
    /// xorshift32 state of the synthesis RNG slot at snapshot time.
    pub rng_state: u32,
    /// Manager counter that is part of the warm-up count.
    pub seed_counter: u32,
    /// pair key -> times this pair shape has been synthesized.
    pub pair_counters: HashMap<u64, u32>,
    /// rank(A) + rank(B) -> (lo, hi) level-roll weights.
    pub level_weights: HashMap<u32, (u32, u32)>,
    /// first result trait -> result sigil item id.
    pub trait_to_item: HashMap<u32, u32>,
    pub sigils: Vec<SynthesisSigil>,
}

impl Default for SynthesisSnapshot {
    fn default() -> (r: Self)
        ensures
            r.rng_state == 0,
            r.seed_counter == 0,
            r.pair_counters@ == Map::<u64, u32>::empty(),
            r.level_weights@ == Map::<u32, (u32, u32)>::empty(),
            r.trait_to_item@ == Map::<u32, u32>::empty(),
            r.sigils@ == Seq::<SynthesisSigil>::empty(),
    {
        SynthesisSnapshot {
            rng_state: 0,
            seed_counter: 0,
            pair_counters: HashMap::new(),
            level_weights: HashMap::new(),
            trait_to_item: HashMap::new(),
            sigils: Vec::new(),
        }
    }
}

/// The outcome of synthesizing two sigils.
#[derive(Debug, Clone, Copy, PartialEq, Eq, Structural)]
pub struct Prediction {
    pub trait1: u32,
    pub trait2: Option<u32>,
    /// true = the weighted roll hit the upgraded (level-15) outcome.
    pub lucky: bool,
}

/// A trait id's contribution to the pair key: its id, or 0 for an empty slot.
pub open spec fn trait_value(t: u32) -> nat {
    if t == EMPTY_TRAIT {
        0
    } else {
        t as nat
    }
}

/// A slot's level, or 0 for an empty slot.
pub open spec fn trait_level(t: u32, level: u32) -> nat {
    if t == EMPTY_TRAIT {
        0
    } else {
        level as nat
    }
}

/// Sum of a sigil's non-empty trait ids.
pub open spec fn spec_trait_sum(s: SynthesisSigil) -> nat {
    trait_value(s.trait1) + trait_value(s.trait2)
}

/// A sigil's rank: the sum of its non-empty trait levels, wrapped to 32 bits.
pub open spec fn spec_rank(s: SynthesisSigil) -> u32 {
    ((trait_level(s.trait1, s.trait1_level) + trait_level(s.trait2, s.trait2_level)) as int % two_pow_32()) as u32
}

/// The key under which the game counts syntheses of this pair shape.
pub open spec fn spec_pair_key(a: SynthesisSigil, b: SynthesisSigil) -> u64 {
    (spec_trait_sum(a) + spec_trait_sum(b) + (a.record_level + b.record_level) % two_pow_32()) as u64
}

/// How often this pair shape was synthesized before.
pub open spec fn spec_pair_count(snap: SynthesisSnapshot, key: u64) -> u32 {
    if snap.pair_counters@.contains_key(key) {
        snap.pair_counters@[key]
    } else {
        0
    }
}

/// Number of RNG draws discarded before the level roll.
pub open spec fn spec_warm_up(snap: SynthesisSnapshot, a: SynthesisSigil, b: SynthesisSigil) -> nat {
    let key = spec_pair_key(a, b);
    let n = (spec_pair_count(snap, key) + 1) % two_pow_32();
    (((n * 9) % two_pow_32() + key + snap.seed_counter) % 1000) as nat
}

/// Key of the level-roll weights: rank(A) + rank(B), wrapped to 32 bits.
pub open spec fn spec_weight_key(a: SynthesisSigil, b: SynthesisSigil) -> u32 {
    ((spec_rank(a) + spec_rank(b)) % two_pow_32()) as u32
}

/// The (lo, hi) weights of the level roll; (0, 0) when the table has none.
pub open spec fn spec_weights(snap: SynthesisSnapshot, a: SynthesisSigil, b: SynthesisSigil) -> (u32, u32) {
    let key = spec_weight_key(a, b);
    if snap.level_weights@.contains_key(key) {
        snap.level_weights@[key]
    } else {
        (0, 0)
    }
}

/// The RNG state right after the level roll's draw.
pub open spec fn spec_level_draw(snap: SynthesisSnapshot, a: SynthesisSigil, b: SynthesisSigil) -> u32 {
    xorshift32_step(xorshift32_iter(snap.rng_state, spec_warm_up(snap, a, b)))
}

/// Whether the weighted level roll lands on the upgraded outcome.
pub open spec fn spec_lucky(snap: SynthesisSnapshot, a: SynthesisSigil, b: SynthesisSigil) -> bool {
    let (lo, hi) = spec_weights(snap, a, b);
    lo + hi > 0 && spec_level_draw(snap, a, b) % ((lo + hi) as u32) >= lo
}

/// `s` with `x` inserted before the first element not smaller than it.
pub open spec fn insert_sorted(s: Seq<u32>, x: u32) -> Seq<u32>
    decreases s.len(),
{
    if s.len() == 0 {
        seq![x]
    } else if x <= s[0] {
        seq![x] + s
    } else {
        seq![s[0]] + insert_sorted(s.drop_first(), x)
    }
}

/// Adds a trait to the candidate list unless the slot is empty.
pub open spec fn add_candidate(s: Seq<u32>, t: u32) -> Seq<u32> {
    if t == EMPTY_TRAIT {
        s
    } else {
        insert_sorted(s, t)
    }
}

/// The non-empty traits of both sigils in ascending order.
pub open spec fn spec_candidates(a: SynthesisSigil, b: SynthesisSigil) -> Seq<u32> {
    add_candidate(
        add_candidate(add_candidate(add_candidate(Seq::empty(), a.trait1), a.trait2), b.trait1),
        b.trait2,
    )
}

/// `c` with the elements at `i` and `j` exchanged.
pub open spec fn swap_at(c: Seq<u32>, i: int, j: int) -> Seq<u32> {
    c.update(i, c[j]).update(j, c[i])
}

/// The game's shuffle from position `i` on, drawing from state `s`: each
/// position swaps with one at or after it chosen by the next draw.
pub open spec fn shuffle_from(c: Seq<u32>, s: u32, i: nat) -> Seq<u32>
    decreases c.len() - i,
{
    if i >= c.len() {
        c
    } else {
        let s2 = xorshift32_step(s);
        let j = i + (s2 as int) % (c.len() - i);
        shuffle_from(swap_at(c, i as int, j), s2, i + 1)
    }
}

/// The candidate traits in the order the shuffle leaves them.
pub open spec fn spec_shuffled(snap: SynthesisSnapshot, a: SynthesisSigil, b: SynthesisSigil) -> Seq<u32> {
    shuffle_from(spec_candidates(a, b), spec_level_draw(snap, a, b), 0)
}

/// The full outcome of synthesizing `a` with `b`.
pub open spec fn spec_predict(snap: SynthesisSnapshot, a: SynthesisSigil, b: SynthesisSigil) -> Prediction {
    let shuffled = spec_shuffled(snap, a, b);
    Prediction {
        trait1: shuffled[0],
        trait2: if shuffled.len() > 1 { Some(shuffled[1]) } else { None },
        lucky: spec_lucky(snap, a, b),
    }
}

/// At least one of the four trait slots is filled.
pub open spec fn has_candidates(a: SynthesisSigil, b: SynthesisSigil) -> bool {
    !(a.trait1 == EMPTY_TRAIT && a.trait2 == EMPTY_TRAIT && b.trait1 == EMPTY_TRAIT
        && b.trait2 == EMPTY_TRAIT)
}

/// The level weights that the pair looks up sum to a 32-bit value.
pub open spec fn weights_fit(snap: SynthesisSnapshot, a: SynthesisSigil, b: SynthesisSigil) -> bool {
    spec_weights(snap, a, b).0 + spec_weights(snap, a, b).1 <= u32::MAX
}

fn trait_sum(s: &SynthesisSigil) -> (r: u64)
    ensures
        r == spec_trait_sum(*s),
{
    let t1: u64 = if s.trait1 == EMPTY_TRAIT { 0 } else { s.trait1 as u64 };
    let t2: u64 = if s.trait2 == EMPTY_TRAIT { 0 } else { s.trait2 as u64 };
    t1 + t2
}

fn rank(s: &SynthesisSigil) -> (r: u32)
    ensures
        r == spec_rank(*s),
{
    let l1: u32 = if s.trait1 == EMPTY_TRAIT { 0 } else { s.trait1_level };
    let l2: u32 = if s.trait2 == EMPTY_TRAIT { 0 } else { s.trait2_level };
    l1.wrapping_add(l2)
}

/// The two record levels added with 32-bit wraparound, read as unsigned.
fn record_sum(a: &SynthesisSigil, b: &SynthesisSigil) -> (r: u64)
    ensures
        r == (a.record_level + b.record_level) % two_pow_32(),
{
    let sum: i64 = a.record_level as i64 + b.record_level as i64;
    if sum < 0 {
        (sum + 0x1_0000_0000) as u64
    } else {
        sum as u64
    }
}

proof fn lemma_insert_sorted_at(s: Seq<u32>, x: u32, p: int)
    requires
        0 <= p <= s.len(),
        forall|k: int| 0 <= k < p ==> s[k] < x,
        p < s.len() ==> x <= s[p],
    ensures
        insert_sorted(s, x) == s.insert(p, x),
    decreases s.len(),
{
    if s.len() == 0 {
        assert(insert_sorted(s, x) =~= s.insert(p, x));
    } else if p == 0 {
        assert(insert_sorted(s, x) =~= s.insert(p, x));
    } else {
        let t = s.drop_first();
        assert forall|k: int| 0 <= k < p - 1 implies t[k] < x by {
            assert(t[k] == s[k + 1]);
        }
        lemma_insert_sorted_at(t, x, p - 1);
        assert(insert_sorted(s, x) =~= s.insert(p, x));
    }
}

fn add_candidate_vec(v: &mut Vec<u32>, t: u32)
    requires
        old(v).len() < 4,
    ensures
        final(v)@ == add_candidate(old(v)@, t),
        final(v).len() <= old(v).len() + 1,
{
    if t != EMPTY_TRAIT {
        let mut p: usize = 0;
        while p < v.len()
            invariant
                p <= v.len(),
                forall|k: int| 0 <= k < p ==> v@[k] < t,
            ensures
                p <= v.len(),
                forall|k: int| 0 <= k < p ==> v@[k] < t,
                p < v.len() ==> t <= v@[p as int],
            decreases v.len() - p,
        {
            if t <= v[p] {
                break;
            }
            p = p + 1;
        }
        proof {
            lemma_insert_sorted_at(v@, t, p as int);
        }
        v.insert(p, t);
    }
}

fn candidates(a: &SynthesisSigil, b: &SynthesisSigil) -> (v: Vec<u32>)
    ensures
        v@ == spec_candidates(*a, *b),
        v.len() <= 4,
{
    let mut v: Vec<u32> = Vec::new();
    add_candidate_vec(&mut v, a.trait1);
    add_candidate_vec(&mut v, a.trait2);
    add_candidate_vec(&mut v, b.trait1);
    add_candidate_vec(&mut v, b.trait2);
    v
}

/// Predicts the outcome of synthesizing `a` with `b` from the snapshot: the
/// warm-up draws, the weighted level roll and the shuffle of the candidate
/// traits, exactly as the game performs them.
pub fn predict(snap: &SynthesisSnapshot, a: &SynthesisSigil, b: &SynthesisSigil) -> (p: Prediction)
    requires
        has_candidates(*a, *b),
        weights_fit(*snap, *a, *b),
    ensures
        p == spec_predict(*snap, *a, *b),
{
    let pair_key: u64 = trait_sum(a) + trait_sum(b) + record_sum(a, b);
    assert(pair_key == spec_pair_key(*a, *b));
    let count: u32 = match snap.pair_counters.get(&pair_key) {
        Some(c) => *c,
        None => 0,
    };
    assert(count == spec_pair_count(*snap, pair_key));
    let n: u32 = count.wrapping_add(1);
    let nine_n: u32 = n.wrapping_mul(9);
    let warm: u64 = (nine_n as u64 + pair_key + snap.seed_counter as u64) % 1000;
    assert(warm == spec_warm_up(*snap, *a, *b));

    let mut s: u32 = snap.rng_state;
    let mut i: u64 = 0;
    while i < warm
        invariant
            i <= warm,
            s == xorshift32_iter(snap.rng_state, i as nat),
        decreases warm - i,
    {
        s = xorshift32(s);
        i = i + 1;
    }

    let key: u32 = rank(a).wrapping_add(rank(b));
    assert(key == spec_weight_key(*a, *b));
    let weights: (u32, u32) = match snap.level_weights.get(&key) {
        Some(w) => *w,
        None => (0, 0),
    };
    let lo = weights.0;
    let hi = weights.1;
    assert((lo, hi) == spec_weights(*snap, *a, *b));
    // The level roll always draws, even with no weights.
    s = xorshift32(s);
    assert(s == spec_level_draw(*snap, *a, *b));
    let total: u32 = lo + hi;
    let lucky = total > 0 && s % total >= lo;

    let mut cand = candidates(a, b);
    let len = cand.len();
    let ghost target = shuffle_from(cand@, s, 0);
    let mut i: usize = 0;
    while i < len
        invariant
            len == cand.len(),
            len <= 4,
            i <= len,
            shuffle_from(cand@, s, i as nat) == target,
        decreases len - i,
    {
        s = xorshift32(s);
        let rem: u32 = (len - i) as u32;
        let mut r: u32 = s;
        if r >= rem {
            r = r % rem;
        }
        assert(r as int == (s as int) % (cand@.len() - i)) by {
            if s < rem {
                vstd::arithmetic::div_mod::lemma_small_mod(s as nat, rem as nat);
            }
        }
        let j: usize = i + r as usize;
        let ci = cand[i];
        let cj = cand[j];
        proof {
            assert(swap_at(cand@, i as int, j as int) =~= cand@.update(i as int, cj).update(j as int, ci));
        }
        cand.set(i, cj);
        cand.set(j, ci);
        i = i + 1;
    }
    assert(cand@ == spec_shuffled(*snap, *a, *b));
    let trait2 = if cand.len() > 1 {
        Some(cand[1])
    } else {
        None
    };
    Prediction { trait1: cand[0], trait2, lucky }
}

proof fn lemma_insert_sorted_commutes(s: Seq<u32>, x: u32, y: u32)
    ensures
        insert_sorted(insert_sorted(s, x), y) == insert_sorted(insert_sorted(s, y), x),
    decreases s.len(),
{
    if s.len() == 0 {
        assert(seq![x].drop_first() =~= s);
        assert(seq![y].drop_first() =~= s);
        assert(insert_sorted(s, x) == seq![x]);
        assert(insert_sorted(s, y) == seq![y]);
        assert(insert_sorted(insert_sorted(s, x), y) =~= insert_sorted(insert_sorted(s, y), x));
    } else {
        let h = s[0];
        let t = s.drop_first();
        if x <= h && y <= h {
            assert((seq![x] + s).drop_first() =~= s);
            assert((seq![y] + s).drop_first() =~= s);
            assert(insert_sorted(insert_sorted(s, x), y) =~= insert_sorted(insert_sorted(s, y), x));
        } else if x <= h {
            assert((seq![x] + s).drop_first() =~= s);
            assert((seq![h] + insert_sorted(t, y)).drop_first() =~= insert_sorted(t, y));
            assert(insert_sorted(insert_sorted(s, x), y) =~= insert_sorted(insert_sorted(s, y), x));
        } else if y <= h {
            assert((seq![y] + s).drop_first() =~= s);
            assert((seq![h] + insert_sorted(t, x)).drop_first() =~= insert_sorted(t, x));
            assert(insert_sorted(insert_sorted(s, x), y) =~= insert_sorted(insert_sorted(s, y), x));
        } else {
            lemma_insert_sorted_commutes(t, x, y);
            assert((seq![h] + insert_sorted(t, x)).drop_first() =~= insert_sorted(t, x));
            assert((seq![h] + insert_sorted(t, y)).drop_first() =~= insert_sorted(t, y));
            assert(insert_sorted(insert_sorted(s, x), y) =~= insert_sorted(insert_sorted(s, y), x));
        }
    }
}

proof fn lemma_add_candidate_commutes(s: Seq<u32>, x: u32, y: u32)
    ensures
        add_candidate(add_candidate(s, x), y) == add_candidate(add_candidate(s, y), x),
{
    if x != EMPTY_TRAIT && y != EMPTY_TRAIT {
        lemma_insert_sorted_commutes(s, x, y);
    }
}

/// The candidate list does not depend on which sigil is named first.
proof fn lemma_candidates_symmetric(a: SynthesisSigil, b: SynthesisSigil)
    ensures
        spec_candidates(a, b) == spec_candidates(b, a),
{
    let e = Seq::<u32>::empty();
    // a1 a2 b1 b2 -> a1 b1 a2 b2
    lemma_add_candidate_commutes(add_candidate(e, a.trait1), a.trait2, b.trait1);
    // a1 b1 a2 b2 -> b1 a1 a2 b2
    lemma_add_candidate_commutes(e, a.trait1, b.trait1);
    let p = add_candidate(add_candidate(e, b.trait1), a.trait1);
    // b1 a1 a2 b2 -> b1 a1 b2 a2
    lemma_add_candidate_commutes(p, a.trait2, b.trait2);
    // b1 a1 b2 a2 -> b1 b2 a1 a2
    lemma_add_candidate_commutes(add_candidate(e, b.trait1), a.trait1, b.trait2);
}

/// Synthesis is symmetric: naming the two sigils in the other order gives
/// the same prediction, because the algorithm only sums and sorts the two
/// sigils' contributions.
pub proof fn lemma_predict_symmetric(snap: SynthesisSnapshot, a: SynthesisSigil, b: SynthesisSigil)
    ensures
        spec_predict(snap, a, b) == spec_predict(snap, b, a),
{
    lemma_candidates_symmetric(a, b);
    assert(spec_pair_key(a, b) == spec_pair_key(b, a));
    assert(spec_weight_key(a, b) == spec_weight_key(b, a));
}

/// A pair whose level-roll weights are missing, or sum to zero, is never
/// lucky; the level draw still happens, so the shuffle is unaffected.
pub proof fn lemma_no_weights_never_lucky(snap: SynthesisSnapshot, a: SynthesisSigil, b: SynthesisSigil)
    requires
        !snap.level_weights@.contains_key(spec_weight_key(a, b))
            || snap.level_weights@[spec_weight_key(a, b)].0 + snap.level_weights@[spec_weight_key(a, b)].1 == 0,
    ensures
        !spec_predict(snap, a, b).lucky,
{
}

/// The traits of the result depend only on the RNG state, the seed counter,
/// the pair counters and the two sigils, never on the level weights.
pub proof fn lemma_traits_ignore_weights(
    snap1: SynthesisSnapshot,
    snap2: SynthesisSnapshot,
    a: SynthesisSigil,
    b: SynthesisSigil,
)
    requires
        snap1.rng_state == snap2.rng_state,
        snap1.seed_counter == snap2.seed_counter,
        snap1.pair_counters@ == snap2.pair_counters@,
    ensures
        spec_predict(snap1, a, b).trait1 == spec_predict(snap2, a, b).trait1,
        spec_predict(snap1, a, b).trait2 == spec_predict(snap2, a, b).trait2,
{
    assert(spec_warm_up(snap1, a, b) == spec_warm_up(snap2, a, b));
}

/// The non-empty trait ids of both sigils, as a multiset.
pub open spec fn pair_traits(a: SynthesisSigil, b: SynthesisSigil) -> Multiset<u32> {
    let slots = seq![a.trait1, a.trait2, b.trait1, b.trait2];
    slots.filter(|t: u32| t != EMPTY_TRAIT).to_multiset()
}

proof fn lemma_insert_sorted_multiset(s: Seq<u32>, x: u32)
    ensures
        insert_sorted(s, x).to_multiset() == s.to_multiset().insert(x),
    decreases s.len(),
{
    broadcast use vstd::seq_lib::to_multiset_insert;
    if s.len() == 0 {
        assert(insert_sorted(s, x) =~= s.insert(0, x));
    } else if x <= s[0] {
        assert(insert_sorted(s, x) =~= s.insert(0, x));
    } else {
        let t = s.drop_first();
        lemma_insert_sorted_multiset(t, x);
        assert(insert_sorted(s, x) =~= insert_sorted(t, x).insert(0, s[0]));
        assert(s =~= t.insert(0, s[0]));
        assert(insert_sorted(s, x).to_multiset() =~= s.to_multiset().insert(x));
    }
}

proof fn lemma_swap_multiset(c: Seq<u32>, i: int, j: int)
    requires
        0 <= i < c.len(),
        0 <= j < c.len(),
    ensures
        swap_at(c, i, j).to_multiset() == c.to_multiset(),
{
    broadcast use vstd::seq_lib::to_multiset_insert, vstd::seq_lib::to_multiset_remove;
    broadcast use vstd::multiset::group_multiset_axioms;
    if i == j {
        assert(swap_at(c, i, j) =~= c);
    } else {
        let c1 = c.update(i, c[j]);
        assert(c1 =~= c.remove(i).insert(i, c[j]));
        let c2 = c1.update(j, c[i]);
        assert(c2 =~= c1.remove(j).insert(j, c[i]));
        assert(c1[j] == c[j]);
        assert(c.to_multiset().count(c[i]) > 0) by {
            assert(c.contains(c[i]));
            c.to_multiset_ensures();
        }
        assert(c2.to_multiset() =~= c.to_multiset());
    }
}

proof fn lemma_shuffle_multiset(c: Seq<u32>, s: u32, i: nat)
    ensures
        shuffle_from(c, s, i).to_multiset() == c.to_multiset(),
        shuffle_from(c, s, i).len() == c.len(),
    decreases c.len() - i,
{
    if i < c.len() {
        let s2 = xorshift32_step(s);
        let j = i + (s2 as int) % (c.len() - i);
        lemma_swap_multiset(c, i as int, j);
        lemma_shuffle_multiset(swap_at(c, i as int, j), s2, i + 1);
    }
}

proof fn lemma_candidates_multiset(a: SynthesisSigil, b: SynthesisSigil)
    ensures
        spec_candidates(a, b).to_multiset() == pair_traits(a, b),
{
    broadcast use vstd::seq_lib::to_multiset_build;
    let e = Seq::<u32>::empty();
    let slots = seq![a.trait1, a.trait2, b.trait1, b.trait2];
    let pred = |t: u32| t != EMPTY_TRAIT;
    reveal_with_fuel(Seq::filter, 5);
    let c1 = add_candidate(e, a.trait1);
    let c2 = add_candidate(c1, a.trait2);
    let c3 = add_candidate(c2, b.trait1);
    let c4 = add_candidate(c3, b.trait2);
    if a.trait1 != EMPTY_TRAIT { lemma_insert_sorted_multiset(e, a.trait1); }
    if a.trait2 != EMPTY_TRAIT { lemma_insert_sorted_multiset(c1, a.trait2); }
    if b.trait1 != EMPTY_TRAIT { lemma_insert_sorted_multiset(c2, b.trait1); }
    if b.trait2 != EMPTY_TRAIT { lemma_insert_sorted_multiset(c3, b.trait2); }
    assert(slots.drop_last() =~= seq![a.trait1, a.trait2, b.trait1]);
    assert(slots.drop_last().drop_last() =~= seq![a.trait1, a.trait2]);
    assert(slots.drop_last().drop_last().drop_last() =~= seq![a.trait1]);
    assert(slots.drop_last().drop_last().drop_last().drop_last() =~= e);
    assert(c4.to_multiset() =~= pair_traits(a, b));
}

/// The predicted traits are a rearrangement of the non-empty traits of the
/// two sigils: nothing is invented, dropped or duplicated.
pub proof fn lemma_outcome_is_rearrangement(snap: SynthesisSnapshot, a: SynthesisSigil, b: SynthesisSigil)
    ensures
        spec_shuffled(snap, a, b).to_multiset() == pair_traits(a, b),
        spec_shuffled(snap, a, b).len() == pair_traits(a, b).len(),
{
    lemma_shuffle_multiset(spec_candidates(a, b), spec_level_draw(snap, a, b), 0);
    lemma_candidates_multiset(a, b);
    spec_shuffled(snap, a, b).to_multiset_ensures();
}

/// The number of filled trait slots among the two sigils.
pub open spec fn filled_slots(a: SynthesisSigil, b: SynthesisSigil) -> nat {
    (if a.trait1 != EMPTY_TRAIT { 1nat } else { 0nat }) + (if a.trait2 != EMPTY_TRAIT { 1nat } else { 0nat })
        + (if b.trait1 != EMPTY_TRAIT { 1nat } else { 0nat }) + (if b.trait2 != EMPTY_TRAIT { 1nat } else { 0nat })
}

proof fn lemma_insert_sorted_len(s: Seq<u32>, x: u32)
    ensures
        insert_sorted(s, x).len() == s.len() + 1,
    decreases s.len(),
{
    if s.len() > 0 && !(x <= s[0]) {
        lemma_insert_sorted_len(s.drop_first(), x);
    }
}

/// Every filled slot is a candidate, equal trait ids included.
proof fn lemma_candidates_len(a: SynthesisSigil, b: SynthesisSigil)
    ensures
        spec_candidates(a, b).len() == filled_slots(a, b),
{
    let e = Seq::<u32>::empty();
    let c1 = add_candidate(e, a.trait1);
    let c2 = add_candidate(c1, a.trait2);
    let c3 = add_candidate(c2, b.trait1);
    lemma_insert_sorted_len(e, a.trait1);
    lemma_insert_sorted_len(c1, a.trait2);
    lemma_insert_sorted_len(c2, b.trait1);
    lemma_insert_sorted_len(c3, b.trait2);
}

/// A synthesis yields a second trait exactly when the two sigils have at
/// least two filled trait slots between them, whatever the trait ids are:
/// two slots holding the same trait still give two traits.
pub proof fn lemma_second_trait_iff_two_slots(snap: SynthesisSnapshot, a: SynthesisSigil, b: SynthesisSigil)
    ensures
        spec_predict(snap, a, b).trait2 is Some <==> filled_slots(a, b) >= 2,
        spec_predict(snap, a, b).trait2 is Some ==> spec_predict(snap, a, b).trait2->0 == spec_shuffled(
            snap,
            a,
            b,
        )[1],
        spec_shuffled(snap, a, b).len() == filled_slots(a, b),
{
    lemma_candidates_len(a, b);
    lemma_shuffle_multiset(spec_candidates(a, b), spec_level_draw(snap, a, b), 0);
}

/// `t` is the trait of one of the four slots, and that slot is filled.
pub open spec fn is_filled_slot_trait(a: SynthesisSigil, b: SynthesisSigil, t: u32) -> bool {
    t != EMPTY_TRAIT && (t == a.trait1 || t == a.trait2 || t == b.trait1 || t == b.trait2)
}

/// The predicted traits are traits of filled slots of the two sigils: the
/// empty-slot sentinel and foreign ids never come out.
pub proof fn lemma_predicted_traits_come_from_slots(snap: SynthesisSnapshot, a: SynthesisSigil, b: SynthesisSigil)
    requires
        has_candidates(a, b),
    ensures
        is_filled_slot_trait(a, b, spec_predict(snap, a, b).trait1),
        spec_predict(snap, a, b).trait2 is Some ==> is_filled_slot_trait(a, b, spec_predict(snap, a, b).trait2->0),
{
    let sh = spec_shuffled(snap, a, b);
    lemma_outcome_is_rearrangement(snap, a, b);
    lemma_second_trait_iff_two_slots(snap, a, b);
    let slots = seq![a.trait1, a.trait2, b.trait1, b.trait2];
    let pred = |t: u32| t != EMPTY_TRAIT;
    let f = slots.filter(pred);
    sh.to_multiset_ensures();
    f.to_multiset_ensures();
    assert forall|i: int| 0 <= i < sh.len() implies is_filled_slot_trait(a, b, #[trigger] sh[i]) by {
        assert(sh.contains(sh[i]));
        assert(sh.to_multiset().count(sh[i]) > 0);
        assert(f.to_multiset() == pair_traits(a, b));
        assert(f.to_multiset().count(sh[i]) > 0);
        assert(f.contains(sh[i]));
        let j = choose|j: int| 0 <= j < f.len() && f[j] == sh[i];
        slots.lemma_filter_pred(pred, j);
        slots.lemma_filter_contains_rev(pred, sh[i]);
        let k = choose|k: int| 0 <= k < slots.len() && slots[k] == sh[i];
        assert(k == 0 || k == 1 || k == 2 || k == 3);
    }
    assert(sh.len() > 0);
}

/// Every earlier synthesis of the same pair shape moves the warm-up on by
/// nine draws (modulo the thousand-draw window), as long as the counter does
/// not wrap.
pub proof fn lemma_pair_counter_shifts_warm_up(
    snap1: SynthesisSnapshot,
    snap2: SynthesisSnapshot,
    a: SynthesisSigil,
    b: SynthesisSigil,
)
    requires
        snap1.seed_counter == snap2.seed_counter,
        spec_pair_count(snap2, spec_pair_key(a, b)) == spec_pair_count(snap1, spec_pair_key(a, b)) + 1,
        (spec_pair_count(snap2, spec_pair_key(a, b)) + 1) * 9 < two_pow_32(),
    ensures
        spec_warm_up(snap2, a, b) == (spec_warm_up(snap1, a, b) + 9) % 1000,
{
    let c = spec_pair_count(snap1, spec_pair_key(a, b)) as int;
    assert((c + 1) % two_pow_32() == c + 1);
    assert((c + 2) % two_pow_32() == c + 2);
    assert(((c + 1) * 9) % two_pow_32() == (c + 1) * 9);
    assert(((c + 2) * 9) % two_pow_32() == (c + 2) * 9);
    let k = spec_pair_key(a, b) + snap1.seed_counter;
    assert(((c + 2) * 9 + k) % 1000 == (((c + 1) * 9 + k) % 1000 + 9) % 1000) by {
        vstd::arithmetic::div_mod::lemma_add_mod_noop((c + 1) * 9 + k, 9, 1000);
    }
}

} // verus!
