//! Pseudo-random piece generation: a 7-bag shuffle that deals every kind
//! once per bag, and an NES-style generator that suppresses immediate
//! repeats with a single redraw.  Both own a PRNG seeded from 32 bytes.

use vstd::multiset::Multiset;
use vstd::prelude::*;

use crate::tetrimino::TileType;

verus! {

broadcast use vstd::seq_lib::group_to_multiset_ensures, vstd::multiset::group_multiset_axioms;

/// The outside PRNG the generators own (rand's standard generator).
#[verifier::external_type_specification]
#[verifier::external_body]
pub struct ExStdRng(rand::rngs::StdRng);

/// Relies on rand's `SeedableRng::from_seed` for `StdRng`: builds the
/// generator state from a 32-byte seed.
#[verifier::external_body]
fn rng_from_seed(seed: [u8; 32]) -> rand::rngs::StdRng {
    <rand::rngs::StdRng as rand::SeedableRng>::from_seed(seed)
}

/// Relies on rand's `Rng::next_u32` for `StdRng`: draws one pseudo-random
/// word; any `u32` value may come back.
#[verifier::external_body]
fn rng_next_u32(rng: &mut rand::rngs::StdRng) -> u32 {
    rand::Rng::next_u32(rng)
}

/// A stream of piece kinds: the interface both generator policies share,
/// and the extension point for further policies.
pub trait RandomGenerator {
    /// The state the generator keeps well-formed between draws.
    spec fn wf(&self) -> bool;

    /// Draws the next piece kind; never `Empty`.
    fn next(&mut self) -> (r: TileType)
        requires
            old(self).wf(),
        ensures
            final(self).wf(),
            r != TileType::Empty,
    ;
}

/// Which generator policy a round is built with.
#[derive(Copy, Clone, PartialEq, Eq, Structural, Debug)]
pub enum RandomGeneratorType {
    RandomBag,
    RandomNES,
}

/// One of each of the seven piece kinds.
pub open spec fn bag_all() -> Multiset<TileType> {
    Multiset::empty().insert(TileType::I).insert(TileType::O).insert(TileType::T).insert(
        TileType::S,
    ).insert(TileType::Z).insert(TileType::J).insert(TileType::L)
}

/// How often each kind sits in the full bag: once, and `Empty` not at all.
pub proof fn lemma_bag_all_counts(k: TileType)
    ensures
        bag_all().count(k) == if k == TileType::Empty {
            0int
        } else {
            1int
        },
{
}

/// One draw of the 7-bag: the drawn kind comes out of the pending set, and
/// the pending set loses that one kind, refilling to all seven the moment
/// it empties.
pub open spec fn bag_step(
    pre: Multiset<TileType>,
    k: TileType,
    post: Multiset<TileType>,
) -> bool {
    &&& pre.count(k) > 0
    &&& post == if pre.remove(k).len() == 0 {
        bag_all()
    } else {
        pre.remove(k)
    }
}

/// The empty sequence carries the empty multiset.
proof fn lemma_empty_to_multiset()
    ensures
        Seq::<TileType>::empty().to_multiset() =~= Multiset::<TileType>::empty(),
{
    assert forall|k: TileType| Seq::<TileType>::empty().to_multiset().count(k) == 0 by {
        assert(!Seq::<TileType>::empty().contains(k));
    }
}

/// The 7-bag generator: deals from a working set without replacement and
/// refills it with all seven kinds when it runs out.
pub struct RandomBag {
    rng: rand::rngs::StdRng,
    types: Vec<TileType>,
}

impl RandomBag {
    /// The kinds the bag still owes before its next refill; a just-emptied
    /// or fresh bag owes all seven.
    pub closed spec fn pending(self) -> Multiset<TileType> {
        if self.types@.len() == 0 {
            bag_all()
        } else {
            self.types@.to_multiset()
        }
    }

    /// A fresh bag over the given seed, owing all seven kinds.
    pub fn new(seed: [u8; 32]) -> (r: RandomBag)
        ensures
            r.wf(),
            r.pending() == bag_all(),
    {
        let r = RandomBag { rng: rng_from_seed(seed), types: Vec::new() };
        proof {
            assert forall|k: TileType| r.types@.to_multiset().count(k) <= bag_all().count(k) by {
                assert(!r.types@.contains(k));
                lemma_bag_all_counts(k);
            }
        }
        r
    }

    /// Draws one kind: refills the working set when it is empty, then takes
    /// a pseudo-randomly chosen entry out (the last entry of a bag leaves
    /// without consuming a random word).
    pub fn next(&mut self) -> (r: TileType)
        requires
            old(self).wf(),
        ensures
            final(self).wf(),
            r != TileType::Empty,
            bag_step(old(self).pending(), r, final(self).pending()),
    {
        let ghost pre = self.pending();
        let mut len = self.types.len();
        if len == 0 {
            self.types.push(TileType::I);
            self.types.push(TileType::O);
            self.types.push(TileType::T);
            self.types.push(TileType::S);
            self.types.push(TileType::Z);
            self.types.push(TileType::J);
            self.types.push(TileType::L);
            len = 7;
            proof {
                lemma_empty_to_multiset();
                assert(self.types@.to_multiset() =~= bag_all());
            }
        }
        let ghost snap = self.types@;
        proof {
            assert(snap.to_multiset() == pre);
            assert forall|k: TileType| pre.count(k) <= bag_all().count(k) by {
                if old(self).types@.len() == 0 {
                } else {
                    assert(old(self).types@.to_multiset().count(k) <= bag_all().count(k));
                }
            }
        }
        let value = if len == 1 {
            0
        } else {
            (rng_next_u32(&mut self.rng) as usize) % len
        };
        let r = self.types.remove(value);
        proof {
            assert(snap.contains(r));
            assert(pre.count(r) > 0);
            assert(self.types@ == snap.remove(value as int));
            assert(self.types@.to_multiset() == pre.remove(r));
            vstd::seq_lib::to_multiset_len(self.types@);
            assert(pre.remove(r).len() == self.types@.len());
            assert(r != TileType::Empty) by {
                lemma_bag_all_counts(r);
            }
            assert forall|k: TileType| self.types@.to_multiset().count(k) <= bag_all().count(
                k,
            ) by {
                lemma_bag_all_counts(k);
            }
        }
        r
    }
}

impl RandomGenerator for RandomBag {
    /// The working set never holds `Empty` and holds each kind at most once.
    closed spec fn wf(&self) -> bool {
        forall|k: TileType| self.types@.to_multiset().count(k) <= bag_all().count(k)
    }

    fn next(&mut self) -> (r: TileType) {
        RandomBag::next(self)
    }
}

/// One NES-style draw as a pure function of the previous kind and up to two
/// uniformly drawn words: the first word selects one of eight buckets
/// (seven kinds and one invalid slot); the invalid slot, or a repeat of the
/// previous kind, forces a single redraw over the seven real kinds.
pub open spec fn spec_nes_pick(last: TileType, v1: u32, v2: u32) -> TileType {
    let first = TileType::spec_from_usize((v1 as int) % 8);
    if first == TileType::Empty || first == last {
        TileType::spec_from_usize((v2 as int) % 7)
    } else {
        first
    }
}

/// The bucket the first NES draw selects, or `None` when the invalid slot
/// comes up or the kind would repeat the previous one, so a redraw is owed.
pub fn nes_first(last: TileType, v1: u32) -> (r: Option<TileType>)
    ensures
        ({
            let first = TileType::spec_from_usize((v1 as int) % 8);
            if first == TileType::Empty || first == last {
                r is None
            } else {
                r == Some(first)
            }
        }),
{
    let next = TileType::from_usize((v1 as usize) % 8);
    if next == TileType::Empty || next == last {
        None
    } else {
        Some(next)
    }
}

/// The redraw over the seven real kinds; never `Empty`.
pub fn nes_reroll(v2: u32) -> (r: TileType)
    ensures
        r == TileType::spec_from_usize((v2 as int) % 7),
        r != TileType::Empty,
{
    TileType::from_usize((v2 as usize) % 7)
}

/// The NES-style generator: remembers the kind it last dealt so the draw
/// can suppress an immediate repeat once.
pub struct RandomNES {
    rng: rand::rngs::StdRng,
    last: TileType,
}

impl RandomNES {
    /// The kind the generator dealt last, `Empty` before the first draw.
    pub closed spec fn last_kind(self) -> TileType {
        self.last
    }

    /// A fresh generator over the given seed.
    pub fn new(seed: [u8; 32]) -> (r: RandomNES)
        ensures
            r.last_kind() == TileType::Empty,
    {
        RandomNES { rng: rng_from_seed(seed), last: TileType::Empty }
    }

    /// Draws one kind through the two-step bucket scheme and remembers it.
    /// The value-level behaviour of the two steps lives in `nes_first` and
    /// `nes_reroll`; of the random words themselves nothing can be said.
    pub fn next(&mut self) -> (r: TileType)
        ensures
            r != TileType::Empty,
            final(self).last_kind() == r,
    {
        let v1 = rng_next_u32(&mut self.rng);
        match nes_first(self.last, v1) {
            Some(k) => {
                self.last = k;
                k
            },
            None => {
                let v2 = rng_next_u32(&mut self.rng);
                let k = nes_reroll(v2);
                self.last = k;
                k
            },
        }
    }
}

impl RandomGenerator for RandomNES {
    /// The NES generator needs no invariant beyond its fields.
    open spec fn wf(&self) -> bool {
        true
    }

    fn next(&mut self) -> (r: TileType) {
        RandomNES::next(self)
    }
}

/// A generator of either policy; the set of policies is closed, so the two
/// live behind one enum.
pub enum PieceGen {
    Bag(RandomBag),
    Nes(RandomNES),
}

/// One draw of whichever policy the generator runs: a bag draw follows the
/// bag discipline; an NES draw is remembered as the new last kind.
pub open spec fn gen_step(pre: PieceGen, post: PieceGen, r: TileType) -> bool {
    match pre {
        PieceGen::Bag(b) => match post {
            PieceGen::Bag(b2) => bag_step(b.pending(), r, b2.pending()),
            PieceGen::Nes(_) => false,
        },
        PieceGen::Nes(_) => match post {
            PieceGen::Nes(n2) => n2.last_kind() == r,
            PieceGen::Bag(_) => false,
        },
    }
}

impl PieceGen {
    /// Draws the next piece kind; never `Empty`.
    pub fn next(&mut self) -> (r: TileType)
        requires
            old(self).wf(),
        ensures
            final(self).wf(),
            r != TileType::Empty,
            gen_step(*old(self), *final(self), r),
    {
        match self {
            PieceGen::Bag(b) => RandomBag::next(b),
            PieceGen::Nes(n) => RandomNES::next(n),
        }
    }
}

impl RandomGenerator for PieceGen {
    /// Whichever policy runs is kept well-formed.
    open spec fn wf(&self) -> bool {
        match self {
            PieceGen::Bag(b) => b.wf(),
            PieceGen::Nes(_) => true,
        }
    }

    fn next(&mut self) -> (r: TileType) {
        PieceGen::next(self)
    }
}

/// Builds the generator the configuration asks for, over the given seed.
pub fn create(seed: [u8; 32], t: RandomGeneratorType) -> (r: PieceGen)
    ensures
        r.wf(),
        match r {
            PieceGen::Bag(b) => t == RandomGeneratorType::RandomBag && b.pending() == bag_all(),
            PieceGen::Nes(n) => t == RandomGeneratorType::RandomNES && n.last_kind()
                == TileType::Empty,
        },
{
    match t {
        RandomGeneratorType::RandomBag => PieceGen::Bag(RandomBag::new(seed)),
        RandomGeneratorType::RandomNES => PieceGen::Nes(RandomNES::new(seed)),
    }
}

/// After `j` draws of one bag cycle the drawn kinds plus the pending ones
/// still make up the whole bag.
proof fn lemma_bag_cycle_inv(states: Seq<Multiset<TileType>>, draws: Seq<TileType>, j: int)
    requires
        states.len() >= 8,
        draws.len() >= 7,
        states[0] == bag_all(),
        forall|i: int| 0 <= i < 7 ==> bag_step(states[i], #[trigger] draws[i], states[i + 1]),
        0 <= j <= 6,
    ensures
        draws.take(j).to_multiset().add(states[j]) =~= bag_all(),
        states[j].len() == 7 - j,
    decreases j,
{
    if j == 0 {
        assert(draws.take(0) =~= Seq::<TileType>::empty());
        lemma_empty_to_multiset();
    } else {
        lemma_bag_cycle_inv(states, draws, j - 1);
        let k = draws[j - 1];
        let pre = states[j - 1];
        assert(bag_step(pre, k, states[j]));
        assert(pre.remove(k).insert(k) =~= pre);
        vstd::multiset::lemma_insert_len(pre.remove(k), k);
        assert(pre.remove(k).len() == pre.len() - 1);
        assert(states[j] == pre.remove(k));
        assert(draws.take(j) =~= draws.take(j - 1).push(k));
        assert(draws.take(j).to_multiset() =~= draws.take(j - 1).to_multiset().insert(k));
        assert(draws.take(j).to_multiset().add(states[j]) =~= bag_all());
    }
}

/// One full cycle of seven draws deals each kind exactly once and leaves a
/// freshly filled bag behind.
proof fn lemma_bag_cycle(states: Seq<Multiset<TileType>>, draws: Seq<TileType>)
    requires
        states.len() >= 8,
        draws.len() >= 7,
        states[0] == bag_all(),
        forall|i: int| 0 <= i < 7 ==> bag_step(states[i], #[trigger] draws[i], states[i + 1]),
    ensures
        draws.take(7).to_multiset() =~= bag_all(),
        states[7] == bag_all(),
{
    lemma_bag_cycle_inv(states, draws, 6);
    let pre = states[6];
    let k = draws[6];
    assert(bag_step(pre, k, states[7]));
    assert(pre.remove(k).insert(k) =~= pre);
    vstd::multiset::lemma_insert_len(pre.remove(k), k);
    assert(pre.remove(k).len() == 0);
    assert(states[7] == bag_all());
    vstd::multiset::lemma_multiset_empty_len(pre.remove(k));
    assert(pre =~= Multiset::<TileType>::empty().insert(k));
    assert(draws.take(7) =~= draws.take(6).push(k));
    assert(draws.take(7).to_multiset() =~= draws.take(6).to_multiset().insert(k));
    assert(draws.take(7).to_multiset() =~= bag_all());
}

/// Bag fairness: over fourteen consecutive draws started from a freshly
/// filled bag, every one of the seven kinds appears exactly twice, and
/// `Empty` never appears.
pub proof fn lemma_bag_fairness(states: Seq<Multiset<TileType>>, draws: Seq<TileType>)
    requires
        states.len() == 15,
        draws.len() == 14,
        states[0] == bag_all(),
        forall|i: int| 0 <= i < 14 ==> bag_step(states[i], #[trigger] draws[i], states[i + 1]),
    ensures
        forall|k: TileType| k != TileType::Empty ==> draws.to_multiset().count(k) == 2,
        draws.to_multiset().count(TileType::Empty) == 0,
{
    lemma_bag_cycle(states, draws);
    let states2 = states.skip(7);
    let draws2 = draws.skip(7);
    assert(states2[0] == bag_all());
    assert forall|i: int| 0 <= i < 7 implies bag_step(
        states2[i],
        #[trigger] draws2[i],
        states2[i + 1],
    ) by {
        assert(bag_step(states[i + 7], draws[i + 7], states[i + 8]));
    }
    lemma_bag_cycle(states2, draws2);
    assert(draws =~= draws.take(7) + draws2.take(7));
    vstd::seq_lib::lemma_multiset_commutative(draws.take(7), draws2.take(7));
    assert forall|k: TileType| k != TileType::Empty implies draws.to_multiset().count(k) == 2 by {
        lemma_bag_all_counts(k);
    }
    assert(draws.to_multiset().count(TileType::Empty) == 0) by {
        lemma_bag_all_counts(TileType::Empty);
    }
}

/// NES suppression: whenever the first draw selects a valid bucket other
/// than the previous kind, or the owed redraw lands on another kind, the
/// dealt kind differs from the previous one (and is never `Empty`).  The
/// one unguarded case is a redraw that happens to repeat the previous kind:
/// the scheme retries only once.
pub proof fn lemma_nes_suppression(last: TileType, v1: u32, v2: u32)
    requires
        ({
            let first = TileType::spec_from_usize((v1 as int) % 8);
            (first == TileType::Empty || first == last) ==> TileType::spec_from_usize(
                (v2 as int) % 7,
            ) != last
        }),
    ensures
        spec_nes_pick(last, v1, v2) != last,
        spec_nes_pick(last, v1, v2) != TileType::Empty,
{
}

} // verus!
