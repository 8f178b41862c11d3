//! The validator registry, the phase clock and stake-weighted leader selection.
use crate::crypto::{chacha20_first_u64, chacha_first_u64, fresh_seed, sha256, sha256_of};
use crate::lunar_module::{append_bytes, phase_at, LunarPhase, Validator};
use crate::transaction_pool::same_id;
use vstd::bytes::{spec_u64_to_le_bytes, u64_to_le_bytes};
use vstd::prelude::*;

verus! {

#[derive(Clone, Copy, Debug, PartialEq, Eq, Structural)]
pub enum ConsensusError {
    /// The validator's stake is below the registry's minimum.
    InsufficientStake,
    /// Reserved for checks on a validator's record.
    InvalidValidator,
    /// Reserved for a round that cannot be completed.
    ConsensusFailure,
}

/// Byte-wise lexicographic order on keys, compared from position `i` on.
pub open spec fn key_lt_from(a: Seq<u8>, b: Seq<u8>, i: int) -> bool
    decreases a.len() - i,
{
    if i < 0 || i >= a.len() || i >= b.len() {
        false
    } else if a[i] != b[i] {
        a[i] < b[i]
    } else {
        key_lt_from(a, b, i + 1)
    }
}

/// Key `a` sorts strictly before key `b`.
pub open spec fn key_lt(a: Seq<u8>, b: Seq<u8>) -> bool {
    key_lt_from(a, b, 0)
}

pub proof fn lemma_key_lt_irreflexive(a: Seq<u8>, i: int)
    requires
        0 <= i,
    ensures
        !key_lt_from(a, a, i),
    decreases a.len() - i,
{
    if i < a.len() {
        lemma_key_lt_irreflexive(a, i + 1);
    }
}

pub proof fn lemma_key_lt_transitive(a: Seq<u8>, b: Seq<u8>, c: Seq<u8>, i: int)
    requires
        0 <= i,
        key_lt_from(a, b, i),
        key_lt_from(b, c, i),
    ensures
        key_lt_from(a, c, i),
    decreases a.len() - i,
{
    if a[i] == b[i] && b[i] == c[i] {
        lemma_key_lt_transitive(a, b, c, i + 1);
    }
}

/// Two keys of one length that neither sorts before the other are equal.
pub proof fn lemma_key_lt_total(a: Seq<u8>, b: Seq<u8>, i: int)
    requires
        0 <= i <= a.len(),
        a.len() == b.len(),
        !key_lt_from(a, b, i),
        !key_lt_from(b, a, i),
    ensures
        a.subrange(i, a.len() as int) == b.subrange(i, b.len() as int),
    decreases a.len() - i,
{
    if i < a.len() {
        lemma_key_lt_total(a, b, i + 1);
        assert(a.subrange(i, a.len() as int) =~= seq![a[i]] + a.subrange(i + 1, a.len() as int));
        assert(b.subrange(i, b.len() as int) =~= seq![b[i]] + b.subrange(i + 1, b.len() as int));
    } else {
        assert(a.subrange(i, a.len() as int) =~= b.subrange(i, b.len() as int));
    }
}

/// Whether key `a` sorts strictly before key `b`.
fn key_less(a: &[u8; 32], b: &[u8; 32]) -> (r: bool)
    ensures
        r == key_lt(a@, b@),
{
    let mut i: usize = 0;
    while i < 32
        invariant
            i <= 32,
            a@.len() == 32,
            b@.len() == 32,
            key_lt(a@, b@) == key_lt_from(a@, b@, i as int),
        decreases 32 - i,
    {
        if a[i] < b[i] {
            return true;
        }
        if a[i] > b[i] {
            return false;
        }
        i = i + 1;
    }
    false
}

/// Validators in strictly ascending order of public key.
pub open spec fn keys_ascending(vals: Seq<Validator>) -> bool {
    forall|i: int, j: int| 0 <= i < j < vals.len() ==> key_lt(#[trigger] vals[i].public_key@, #[trigger] vals[j].public_key@)
}

/// A validator's weighted stake under a phase weight of `halves` / 2. A stake
/// below twice the minimum is multiplied by the weight, any other is divided
/// by it; the result is rounded down and capped at `u64::MAX`.
pub open spec fn weighted_stake(stake: u64, minimum_stake: u64, halves: u64) -> int {
    let w = if (stake as int) < 2 * minimum_stake {
        stake * halves / 2
    } else {
        stake * 2 / (halves as int)
    };
    if w > u64::MAX {
        u64::MAX as int
    } else {
        w
    }
}

/// The weighted stake of the first `n` validators together.
pub open spec fn prefix_weight(vals: Seq<Validator>, minimum_stake: u64, halves: u64, n: int) -> int
    decreases n,
{
    if n <= 0 || n > vals.len() {
        0
    } else {
        prefix_weight(vals, minimum_stake, halves, n - 1) + weighted_stake(vals[n - 1].stake, minimum_stake, halves)
    }
}

/// Walking the validators from position `i` on, the first whose running
/// weighted-stake total exceeds `draw`.
pub open spec fn leader_from(vals: Seq<Validator>, minimum_stake: u64, halves: u64, draw: int, i: int) -> Option<Validator>
    decreases vals.len() - i,
{
    if i < 0 || i >= vals.len() {
        None
    } else if draw < prefix_weight(vals, minimum_stake, halves, i + 1) {
        Some(vals[i])
    } else {
        leader_from(vals, minimum_stake, halves, draw, i + 1)
    }
}

/// The leader that `draw` picks: the first validator whose running
/// weighted-stake total exceeds it, or none.
pub open spec fn leader(vals: Seq<Validator>, minimum_stake: u64, halves: u64, draw: int) -> Option<Validator> {
    leader_from(vals, minimum_stake, halves, draw, 0)
}

/// The draw of block `block_number` under `seed`: the first ChaCha20 word
/// keyed by the SHA-256 digest of the seed followed by the block number in
/// little-endian bytes.
pub open spec fn draw_for(seed: Seq<u8>, block_number: u64) -> u64 {
    chacha20_first_u64(sha256_of(seed + spec_u64_to_le_bytes(block_number)))
}

pub struct LunarConsensus {
    validators: Vec<Validator>,
    current_phase: LunarPhase,
    vrf_seed: [u8; 32],
    minimum_stake: u64,
}

impl LunarConsensus {
    /// The registered validators, in ascending order of public key.
    pub closed spec fn spec_validators(&self) -> Seq<Validator> {
        self.validators@
    }

    pub closed spec fn spec_phase(&self) -> LunarPhase {
        self.current_phase
    }

    pub closed spec fn spec_seed(&self) -> Seq<u8> {
        self.vrf_seed@
    }

    pub closed spec fn spec_minimum_stake(&self) -> u64 {
        self.minimum_stake
    }

    /// The registry's invariant: one record per key, in ascending key order.
    pub open spec fn wf(&self) -> bool {
        keys_ascending(self.spec_validators())
    }

    /// The leader that `draw` picks in the current phase.
    pub open spec fn spec_leader(&self, draw: int) -> Option<Validator> {
        leader(self.spec_validators(), self.spec_minimum_stake(), self.spec_phase().spec_weight_halves(), draw)
    }

    pub fn new(minimum_stake: u64) -> (r: Self)
        ensures
            r.wf(),
            r.spec_validators().len() == 0,
            r.spec_phase() == LunarPhase::NewMoon,
            r.spec_seed() == Seq::new(32, |i: int| 0u8),
            r.spec_minimum_stake() == minimum_stake,
    {
        let r = LunarConsensus {
            validators: Vec::new(),
            current_phase: LunarPhase::NewMoon,
            vrf_seed: [0u8; 32],
            minimum_stake,
        };
        assert(r.spec_seed() =~= Seq::new(32, |i: int| 0u8));
        r
    }

    pub fn validators(&self) -> (r: &Vec<Validator>)
        ensures
            r@ == self.spec_validators(),
    {
        &self.validators
    }

    pub fn current_phase(&self) -> (r: LunarPhase)
        ensures
            r == self.spec_phase(),
    {
        self.current_phase
    }

    pub fn vrf_seed(&self) -> (r: [u8; 32])
        ensures
            r@ == self.spec_seed(),
    {
        self.vrf_seed
    }

    pub fn minimum_stake(&self) -> (r: u64)
        ensures
            r == self.spec_minimum_stake(),
    {
        self.minimum_stake
    }

    /// Admits `validator` when its stake reaches the minimum, replacing any
    /// record with the same public key; refuses it otherwise.
    pub fn register_validator(&mut self, validator: Validator) -> (r: Result<(), ConsensusError>)
        requires
            old(self).wf(),
        ensures
            final(self).wf(),
            final(self).spec_phase() == old(self).spec_phase(),
            final(self).spec_seed() == old(self).spec_seed(),
            final(self).spec_minimum_stake() == old(self).spec_minimum_stake(),
            r is Err <==> validator.stake < old(self).spec_minimum_stake(),
            r is Err ==> r == Err::<(), ConsensusError>(ConsensusError::InsufficientStake)
                && final(self).spec_validators() == old(self).spec_validators(),
            r is Ok ==> final(self).spec_validators().contains(validator),
            r is Ok ==> forall|w: Validator|
                old(self).spec_validators().contains(w) && w.public_key@ != validator.public_key@
                    ==> final(self).spec_validators().contains(w),
            r is Ok ==> forall|w: Validator|
                #[trigger] final(self).spec_validators().contains(w) ==> w == validator || (
                old(self).spec_validators().contains(w) && w.public_key@ != validator.public_key@),
    {
        if validator.stake < self.minimum_stake {
            return Err(ConsensusError::InsufficientStake);
        }
        let ghost old_vals = self.validators@;
        let ghost key = validator.public_key@;
        let n = self.validators.len();
        let mut i: usize = 0;
        while i < n
            invariant
                n == self.validators@.len(),
                self.validators@ == old_vals,
                key == validator.public_key@,
                i <= n,
                forall|k: int| 0 <= k < i ==> key_lt(#[trigger] old_vals[k].public_key@, key),
            ensures
                i <= n,
                forall|k: int| 0 <= k < i ==> key_lt(#[trigger] old_vals[k].public_key@, key),
                i < n ==> !key_lt(old_vals[i as int].public_key@, key),
            decreases n - i,
        {
            let current: [u8; 32] = self.validators[i].public_key;
            assert(current == old_vals[i as int].public_key);
            if !key_less(&current, &validator.public_key) {
                break;
            }
            i = i + 1;
        }
        proof {
            assert forall|a: int, b: int| 0 <= a < b < old_vals.len() implies old_vals[a].public_key@ != old_vals[b].public_key@ by {
                assert(key_lt(old_vals[a].public_key@, old_vals[b].public_key@));
                lemma_key_lt_irreflexive(old_vals[a].public_key@, 0);
            }
            assert forall|k: int| 0 <= k < i implies old_vals[k].public_key@ != key by {
                lemma_key_lt_irreflexive(key, 0);
            }
        }
        if i < n && same_id(&self.validators[i].public_key, &validator.public_key) {
            self.validators.set(i, validator);
            assert forall|a: int, b: int| 0 <= a < b < self.validators@.len() implies key_lt(
                #[trigger] self.validators@[a].public_key@,
                #[trigger] self.validators@[b].public_key@,
            ) by {
                assert(key_lt(old_vals[a].public_key@, old_vals[b].public_key@));
            }
            assert(self.validators@[i as int] == validator);
            assert forall|w: Validator| old_vals.contains(w) && w.public_key@ != key implies self.validators@.contains(w) by {
                let k = choose|k: int| 0 <= k < old_vals.len() && old_vals[k] == w;
                assert(self.validators@[k] == w);
            }
            assert forall|w: Validator| #[trigger] self.validators@.contains(w) implies w == validator || (
            old_vals.contains(w) && w.public_key@ != key) by {
                let k = choose|k: int| 0 <= k < self.validators@.len() && self.validators@[k] == w;
                if k != i {
                    assert(old_vals[k] == w);
                }
            }
        } else {
            proof {
                if i < n {
                    assert(old_vals[i as int].public_key@.len() == 32 && key.len() == 32);
                    if !key_lt(key, old_vals[i as int].public_key@) {
                        lemma_key_lt_total(old_vals[i as int].public_key@, key, 0);
                        assert(old_vals[i as int].public_key@ =~= old_vals[i as int].public_key@.subrange(0, 32));
                        assert(key =~= key.subrange(0, 32));
                    }
                }
                assert forall|k: int| i <= k < n implies key_lt(key, #[trigger] old_vals[k].public_key@) by {
                    if k > i {
                        lemma_key_lt_transitive(key, old_vals[i as int].public_key@, old_vals[k].public_key@, 0);
                    }
                }
                assert forall|k: int| 0 <= k < n implies #[trigger] old_vals[k].public_key@ != key by {
                    lemma_key_lt_irreflexive(key, 0);
                }
            }
            self.validators.insert(i, validator);
            assert forall|a: int, b: int| 0 <= a < b < self.validators@.len() implies key_lt(
                #[trigger] self.validators@[a].public_key@,
                #[trigger] self.validators@[b].public_key@,
            ) by {
                if b < i {
                    assert(key_lt(old_vals[a].public_key@, old_vals[b].public_key@));
                } else if b == i {
                    assert(key_lt(old_vals[a].public_key@, key));
                } else if a < i {
                    assert(key_lt(old_vals[a].public_key@, old_vals[b - 1].public_key@));
                } else if a == i {
                    assert(key_lt(key, old_vals[b - 1].public_key@));
                } else {
                    assert(key_lt(old_vals[a - 1].public_key@, old_vals[b - 1].public_key@));
                }
            }
            assert(self.validators@[i as int] == validator);
            assert forall|w: Validator| old_vals.contains(w) && w.public_key@ != key implies self.validators@.contains(w) by {
                let k = choose|k: int| 0 <= k < old_vals.len() && old_vals[k] == w;
                if k < i {
                    assert(self.validators@[k] == w);
                } else {
                    assert(self.validators@[k + 1] == w);
                }
            }
            assert forall|w: Validator| #[trigger] self.validators@.contains(w) implies w == validator || (
            old_vals.contains(w) && w.public_key@ != key) by {
                let k = choose|k: int| 0 <= k < self.validators@.len() && self.validators@[k] == w;
                if k < i {
                    assert(old_vals[k] == w);
                } else if k > i {
                    assert(old_vals[k - 1] == w);
                }
            }
        }
        Ok(())
    }

    /// The current phase's weight, in halves.
    fn calculate_phase_weight(&self) -> (r: u64)
        ensures
            r == self.spec_phase().spec_weight_halves(),
            2 <= r <= 4,
    {
        self.current_phase.weight_halves()
    }

    /// `validator`'s stake weighted by a phase weight of `phase_weight` halves.
    fn calculate_weighted_stake(&self, validator: &Validator, phase_weight: u64) -> (r: u64)
        requires
            2 <= phase_weight <= 4,
        ensures
            r == weighted_stake(validator.stake, self.spec_minimum_stake(), phase_weight),
    {
        let base = validator.stake as u128;
        let halves = phase_weight as u128;
        proof {
            assert(base * halves <= 0xffff_ffff_ffff_ffffu128 * 4) by (nonlinear_arith)
                requires
                    base <= 0xffff_ffff_ffff_ffffu128,
                    halves <= 4,
            ;
        }
        let w: u128 = if base < 2 * (self.minimum_stake as u128) {
            base * halves / 2
        } else {
            base * 2 / halves
        };
        if w > u64::MAX as u128 {
            u64::MAX
        } else {
            w as u64
        }
    }

    /// The draw of block `block_number` under the current seed.
    fn generate_random_value(&self, block_number: u64) -> (r: u64)
        ensures
            r == draw_for(self.spec_seed(), block_number),
    {
        let mut data: Vec<u8> = Vec::new();
        append_bytes(&mut data, self.vrf_seed.as_slice());
        let bn = u64_to_le_bytes(block_number);
        append_bytes(&mut data, bn.as_slice());
        let digest = sha256(&data);
        chacha_first_u64(digest)
    }

    /// The leader that `draw` picks in the current phase: walking the
    /// validators in key order and summing their weighted stakes, the first at
    /// which the running total exceeds `draw`; none if the total never does.
    pub fn select_with_draw(&self, draw: u64) -> (r: Option<&Validator>)
        ensures
            match r {
                Some(v) => self.spec_leader(draw as int) == Some(*v),
                None => self.spec_leader(draw as int) is None,
            },
            self.spec_validators().len() == 0 ==> r is None,
    {
        let phase_weight = self.calculate_phase_weight();
        let ghost vals = self.validators@;
        let ghost halves = phase_weight;
        let ghost min = self.minimum_stake;
        let n = self.validators.len();
        let mut accumulator: u128 = 0;
        let mut i: usize = 0;
        while i < n
            invariant
                n == vals.len(),
                vals == self.validators@,
                min == self.spec_minimum_stake(),
                halves == phase_weight,
                halves == self.spec_phase().spec_weight_halves(),
                2 <= phase_weight <= 4,
                i <= n,
                accumulator == prefix_weight(vals, min, halves, i as int),
                accumulator <= draw,
                leader(vals, min, halves, draw as int) == leader_from(vals, min, halves, draw as int, i as int),
            decreases n - i,
        {
            let w = self.calculate_weighted_stake(&self.validators[i], phase_weight);
            accumulator = accumulator + w as u128;
            if (draw as u128) < accumulator {
                return Some(&self.validators[i]);
            }
            i = i + 1;
        }
        None
    }

    /// The leader of block `block_number`: the pick of that block's draw
    /// under the current seed and phase.
    pub fn select_validator(&self, block_number: u64) -> (r: Option<&Validator>)
        ensures
            match r {
                Some(v) => self.spec_leader(draw_for(self.spec_seed(), block_number) as int) == Some(*v),
                None => self.spec_leader(draw_for(self.spec_seed(), block_number) as int) is None,
            },
            self.spec_validators().len() == 0 ==> r is None,
    {
        let random_value = self.generate_random_value(block_number);
        self.select_with_draw(random_value)
    }

    /// Moves the clock to block `block_number`: its phase becomes current, and
    /// on the first block of a cycle (`block_number % 8 == 0`) `fresh_seed`
    /// replaces the seed, which otherwise stays.
    pub fn advance_phase(&mut self, block_number: u64, fresh_seed: [u8; 32])
        ensures
            final(self).spec_phase() == phase_at(block_number as int),
            block_number % 8 == 0 ==> final(self).spec_seed() == fresh_seed@,
            block_number % 8 != 0 ==> final(self).spec_seed() == old(self).spec_seed(),
            final(self).spec_validators() == old(self).spec_validators(),
            final(self).spec_minimum_stake() == old(self).spec_minimum_stake(),
    {
        self.current_phase = LunarPhase::from_block_number(block_number);
        if block_number % 8 == 0 {
            self.vrf_seed = fresh_seed;
        }
    }

    /// Moves the clock to block `block_number`, drawing a fresh seed from the
    /// operating system's entropy on the first block of a cycle.
    pub fn update_phase(&mut self, block_number: u64)
        ensures
            final(self).spec_phase() == phase_at(block_number as int),
            block_number % 8 != 0 ==> final(self).spec_seed() == old(self).spec_seed(),
            final(self).spec_validators() == old(self).spec_validators(),
            final(self).spec_minimum_stake() == old(self).spec_minimum_stake(),
    {
        if block_number % 8 == 0 {
            let seed = fresh_seed();
            self.advance_phase(block_number, seed);
        } else {
            let seed = self.vrf_seed;
            self.advance_phase(block_number, seed);
        }
    }
}

/// Running weighted-stake totals never decrease along the validators.
pub proof fn lemma_prefix_weight_monotone(vals: Seq<Validator>, minimum_stake: u64, halves: u64, a: int, b: int)
    requires
        halves > 0,
        0 <= a <= b <= vals.len(),
    ensures
        0 <= prefix_weight(vals, minimum_stake, halves, a) <= prefix_weight(vals, minimum_stake, halves, b),
    decreases b,
{
    if b > 0 {
        let a0 = if a < b { a } else { b - 1 };
        lemma_prefix_weight_monotone(vals, minimum_stake, halves, a0, b - 1);
        assert(vals[b - 1].stake * halves >= 0) by (nonlinear_arith)
            requires
                halves > 0,
        ;
    }
}

proof fn lemma_leader_from_reaches(vals: Seq<Validator>, minimum_stake: u64, halves: u64, i: int, k: int)
    requires
        halves > 0,
        0 <= k <= i < vals.len(),
        weighted_stake(vals[i].stake, minimum_stake, halves) > 0,
    ensures
        leader_from(vals, minimum_stake, halves, prefix_weight(vals, minimum_stake, halves, i), k) == Some(vals[i]),
    decreases i - k,
{
    if k < i {
        lemma_prefix_weight_monotone(vals, minimum_stake, halves, k + 1, i);
        lemma_leader_from_reaches(vals, minimum_stake, halves, i, k + 1);
    }
}

/// A validator whose weighted stake is positive is the leader of the draw
/// equal to the combined weighted stake of the validators before it.
pub proof fn lemma_positive_weight_is_selectable(vals: Seq<Validator>, minimum_stake: u64, halves: u64, i: int)
    requires
        halves > 0,
        0 <= i < vals.len(),
        weighted_stake(vals[i].stake, minimum_stake, halves) > 0,
    ensures
        0 <= prefix_weight(vals, minimum_stake, halves, i),
        leader(vals, minimum_stake, halves, prefix_weight(vals, minimum_stake, halves, i)) == Some(vals[i]),
{
    lemma_prefix_weight_monotone(vals, minimum_stake, halves, 0, i);
    lemma_leader_from_reaches(vals, minimum_stake, halves, i, 0);
}

/// A registered validator with positive weighted stake in the current phase
/// is the leader of some 64-bit draw, provided the registry's total weighted
/// stake fits in 64 bits.
pub proof fn lemma_registered_validator_selectable(c: &LunarConsensus, v: Validator)
    requires
        c.spec_validators().contains(v),
        weighted_stake(v.stake, c.spec_minimum_stake(), c.spec_phase().spec_weight_halves()) > 0,
        prefix_weight(
            c.spec_validators(),
            c.spec_minimum_stake(),
            c.spec_phase().spec_weight_halves(),
            c.spec_validators().len() as int,
        ) <= u64::MAX,
    ensures
        exists|draw: u64| c.spec_leader(draw as int) == Some(v),
{
    let vals = c.spec_validators();
    let min = c.spec_minimum_stake();
    let halves = c.spec_phase().spec_weight_halves();
    let i = choose|i: int| 0 <= i < vals.len() && vals[i] == v;
    lemma_positive_weight_is_selectable(vals, min, halves, i);
    lemma_prefix_weight_monotone(vals, min, halves, i, vals.len() as int);
    let draw = prefix_weight(vals, min, halves, i) as u64;
    assert(c.spec_leader(draw as int) == Some(v));
}

} // verus!