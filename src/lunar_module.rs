//! Validators, the eight-phase lunar cycle, and block assembly.
use crate::crypto::{sha256, sha256_of};
use vstd::bytes::{spec_u64_to_le_bytes, u64_to_le_bytes};
use vstd::prelude::*;
use vstd::utf8::encode_utf8;

verus! {

/// The eight phases of the cycle, in the order in which block numbers walk them.
#[derive(Clone, Copy, Debug, PartialEq, Eq, Structural)]
pub enum LunarPhase {
    NewMoon,
    WaxingCrescent,
    FirstQuarter,
    WaxingGibbous,
    FullMoon,
    WaningGibbous,
    LastQuarter,
    WaningCrescent,
}

/// The phase that sits at position `i` (taken modulo 8) of the cycle.
pub open spec fn phase_at(i: int) -> LunarPhase {
    let k = i % 8;
    if k == 0 {
        LunarPhase::NewMoon
    } else if k == 1 {
        LunarPhase::WaxingCrescent
    } else if k == 2 {
        LunarPhase::FirstQuarter
    } else if k == 3 {
        LunarPhase::WaxingGibbous
    } else if k == 4 {
        LunarPhase::FullMoon
    } else if k == 5 {
        LunarPhase::WaningGibbous
    } else if k == 6 {
        LunarPhase::LastQuarter
    } else {
        LunarPhase::WaningCrescent
    }
}

impl LunarPhase {
    /// The phase weight, counted in halves: the new moon weighs 2 (4 halves),
    /// the full moon 1 (2 halves), every other phase 1.5 (3 halves).
    pub open spec fn spec_weight_halves(self) -> u64 {
        match self {
            LunarPhase::NewMoon => 4,
            LunarPhase::FullMoon => 2,
            _ => 3,
        }
    }

    /// The phase of block `block_number`: its position in the cycle is
    /// `block_number % 8`.
    pub fn from_block_number(block_number: u64) -> (r: Self)
        ensures
            r == phase_at(block_number as int),
    {
        let k: u64 = block_number % 8;
        if k == 0 {
            LunarPhase::NewMoon
        } else if k == 1 {
            LunarPhase::WaxingCrescent
        } else if k == 2 {
            LunarPhase::FirstQuarter
        } else if k == 3 {
            LunarPhase::WaxingGibbous
        } else if k == 4 {
            LunarPhase::FullMoon
        } else if k == 5 {
            LunarPhase::WaningGibbous
        } else if k == 6 {
            LunarPhase::LastQuarter
        } else {
            LunarPhase::WaningCrescent
        }
    }

    /// The phase weight in halves (see `spec_weight_halves`).
    pub fn weight_halves(&self) -> (r: u64)
        ensures
            r == self.spec_weight_halves(),
            2 <= r <= 4,
    {
        match self {
            LunarPhase::NewMoon => 4,
            LunarPhase::FullMoon => 2,
            _ => 3,
        }
    }
}

/// A staked validator, identified by its public key.
#[derive(Clone, Copy, Debug)]
pub struct Validator {
    pub public_key: [u8; 32],
    pub stake: u64,
}

impl Validator {
    pub fn new(stake: u64, public_key: [u8; 32]) -> (r: Validator)
        ensures
            r.stake == stake,
            r.public_key == public_key,
    {
        Validator { stake, public_key }
    }

    pub fn get_stake(&self) -> (r: u64)
        ensures
            r == self.stake,
    {
        self.stake
    }

    pub fn get_public_key(&self) -> (r: [u8; 32])
        ensures
            r == self.public_key,
    {
        self.public_key
    }
}

/// Appends `src` to `dst`.
pub(crate) fn append_bytes(dst: &mut Vec<u8>, src: &[u8])
    ensures
        final(dst)@ == old(dst)@ + src@,
{
    let mut i: usize = 0;
    while i < src.len()
        invariant
            i <= src@.len(),
            dst@ == old(dst)@ + src@.subrange(0, i as int),
        decreases src@.len() - i,
    {
        dst.push(src[i]);
        i = i + 1;
        assert(src@.subrange(0, i as int) == src@.subrange(0, i - 1 as int).push(src@[i - 1]));
    }
    assert(src@.subrange(0, src@.len() as int) == src@);
}

pub struct Header {
    block_number: u64,
    timestamp: u64,
    previous_hash: [u8; 32],
    merkle_root: [u8; 32],
    validator_signature: [u8; 64],
    lunar_phase: LunarPhase,
}

pub struct Body {
    transactions: Vec<Transaction>,
}

pub struct ValidatorInfo {
    public_key: [u8; 32],
    stake_amount: u64,
    selection_proof: [u8; 32],
}

pub struct LunarModule {
    header: Header,
    body: Body,
    validator_info: ValidatorInfo,
    moondust: u64,
}

/// A transaction as a block carries it: so far only its identifier.
pub struct Transaction {
    pub id: String,
}

/// The bytes that a header's hash covers: block number and timestamp
/// (little-endian), then the previous hash and the merkle root.
pub open spec fn header_bytes(block_number: u64, timestamp: u64, previous_hash: Seq<u8>, merkle_root: Seq<u8>) -> Seq<u8> {
    spec_u64_to_le_bytes(block_number) + spec_u64_to_le_bytes(timestamp) + previous_hash + merkle_root
}

/// The UTF-8 bytes of the transaction identifiers, one after another.
pub open spec fn ids_bytes(txs: Seq<Transaction>) -> Seq<u8>
    decreases txs.len(),
{
    if txs.len() == 0 {
        Seq::empty()
    } else {
        ids_bytes(txs.drop_last()) + encode_utf8(txs.last().id@)
    }
}

impl LunarModule {
    pub closed spec fn spec_block_number(&self) -> u64 {
        self.header.block_number
    }

    pub closed spec fn spec_timestamp(&self) -> u64 {
        self.header.timestamp
    }

    pub closed spec fn spec_previous_hash(&self) -> Seq<u8> {
        self.header.previous_hash@
    }

    pub closed spec fn spec_merkle_root(&self) -> Seq<u8> {
        self.header.merkle_root@
    }

    pub closed spec fn spec_phase(&self) -> LunarPhase {
        self.header.lunar_phase
    }

    pub closed spec fn spec_signature(&self) -> Seq<u8> {
        self.header.validator_signature@
    }

    pub closed spec fn spec_transactions(&self) -> Seq<Transaction> {
        self.body.transactions@
    }

    pub closed spec fn spec_validator_key(&self) -> Seq<u8> {
        self.validator_info.public_key@
    }

    pub closed spec fn spec_validator_stake(&self) -> u64 {
        self.validator_info.stake_amount
    }

    pub closed spec fn spec_selection_proof(&self) -> Seq<u8> {
        self.validator_info.selection_proof@
    }

    pub closed spec fn spec_moondust(&self) -> u64 {
        self.moondust
    }

    /// The hash that a block following this one records as its previous hash.
    pub open spec fn spec_hash(&self) -> Seq<u8> {
        sha256_of(
            header_bytes(
                self.spec_block_number(),
                self.spec_timestamp(),
                self.spec_previous_hash(),
                self.spec_merkle_root(),
            ),
        )
    }

    /// Assembles the block that follows `prev_block`, produced by `validator`
    /// and carrying `transactions`, stamped with the current time.
    pub fn new(prev_block: &LunarModule, transactions: Vec<Transaction>, validator: &Validator) -> (r: Self)
        requires
            prev_block.spec_block_number() < u64::MAX,
        ensures
            r.spec_block_number() == prev_block.spec_block_number() + 1,
            r.spec_previous_hash() == prev_block.spec_hash(),
            r.spec_merkle_root() == sha256_of(ids_bytes(transactions@)),
            r.spec_phase() == phase_at(r.spec_block_number() as int),
            r.spec_signature() == Seq::new(64, |i: int| 0u8),
            r.spec_transactions() == transactions@,
            r.spec_validator_key() == validator.public_key@,
            r.spec_validator_stake() == validator.stake,
            r.spec_selection_proof() == Seq::new(32, |i: int| 0u8),
            r.spec_moondust() == 42,
    {
        let block_number = prev_block.header.block_number + 1;
        let header = Header {
            block_number,
            timestamp: now_secs(),
            previous_hash: Self::calculate_hash(&prev_block.header),
            merkle_root: Self::calculate_merkle_root(&transactions),
            validator_signature: [0u8; 64],
            lunar_phase: Self::calculate_lunar_phase(block_number),
        };
        let body = Body { transactions };
        let validator_info = ValidatorInfo {
            public_key: validator.public_key,
            stake_amount: validator.stake,
            selection_proof: [0u8; 32],
        };
        let r = LunarModule { header, body, validator_info, moondust: Self::generate_moondust() };
        assert(r.spec_signature() =~= Seq::new(64, |i: int| 0u8));
        assert(r.spec_selection_proof() =~= Seq::new(32, |i: int| 0u8));
        r
    }

    /// A first block, numbered 0, with no predecessor: zero hashes, no
    /// transactions, the new-moon phase and no producer.
    pub fn genesis() -> (r: Self)
        ensures
            r.spec_block_number() == 0,
            r.spec_previous_hash() == Seq::new(32, |i: int| 0u8),
            r.spec_transactions().len() == 0,
            r.spec_phase() == LunarPhase::NewMoon,
    {
        let r = LunarModule {
            header: Header {
                block_number: 0,
                timestamp: 0,
                previous_hash: [0u8; 32],
                merkle_root: [0u8; 32],
                validator_signature: [0u8; 64],
                lunar_phase: LunarPhase::NewMoon,
            },
            body: Body { transactions: Vec::new() },
            validator_info: ValidatorInfo {
                public_key: [0u8; 32],
                stake_amount: 0,
                selection_proof: [0u8; 32],
            },
            moondust: 0,
        };
        assert(r.spec_previous_hash() =~= Seq::new(32, |i: int| 0u8));
        r
    }

    pub fn block_number(&self) -> (r: u64)
        ensures
            r == self.spec_block_number(),
    {
        self.header.block_number
    }

    pub fn lunar_phase(&self) -> (r: LunarPhase)
        ensures
            r == self.spec_phase(),
    {
        self.header.lunar_phase
    }

    pub fn previous_hash(&self) -> (r: [u8; 32])
        ensures
            r@ == self.spec_previous_hash(),
    {
        self.header.previous_hash
    }

    pub fn merkle_root(&self) -> (r: [u8; 32])
        ensures
            r@ == self.spec_merkle_root(),
    {
        self.header.merkle_root
    }

    pub fn timestamp(&self) -> (r: u64)
        ensures
            r == self.spec_timestamp(),
    {
        self.header.timestamp
    }

    fn calculate_hash(header: &Header) -> (r: [u8; 32])
        ensures
            r@ == sha256_of(
                header_bytes(header.block_number, header.timestamp, header.previous_hash@, header.merkle_root@),
            ),
    {
        let mut data: Vec<u8> = Vec::new();
        let bn = u64_to_le_bytes(header.block_number);
        append_bytes(&mut data, bn.as_slice());
        let ts = u64_to_le_bytes(header.timestamp);
        append_bytes(&mut data, ts.as_slice());
        append_bytes(&mut data, header.previous_hash.as_slice());
        append_bytes(&mut data, header.merkle_root.as_slice());
        sha256(&data)
    }

    fn calculate_merkle_root(transactions: &Vec<Transaction>) -> (r: [u8; 32])
        ensures
            r@ == sha256_of(ids_bytes(transactions@)),
    {
        let mut data: Vec<u8> = Vec::new();
        let mut i: usize = 0;
        while i < transactions.len()
            invariant
                i <= transactions@.len(),
                data@ == ids_bytes(transactions@.subrange(0, i as int)),
            decreases transactions@.len() - i,
        {
            let id_bytes = transactions[i].id.as_str().as_bytes();
            append_bytes(&mut data, id_bytes);
            i = i + 1;
            assert(transactions@.subrange(0, i as int).drop_last() == transactions@.subrange(0, i - 1 as int));
        }
        assert(transactions@.subrange(0, transactions@.len() as int) == transactions@);
        sha256(&data)
    }

    fn calculate_lunar_phase(block_number: u64) -> (r: LunarPhase)
        ensures
            r == phase_at(block_number as int),
    {
        LunarPhase::from_block_number(block_number)
    }

    fn generate_moondust() -> (r: u64)
        ensures
            r == 42,
    {
        42
    }
}

/// Relies on `std::time::SystemTime::now` and `duration_since(UNIX_EPOCH)`:
/// whole seconds since the Unix epoch (0 for a clock set before it); nothing is
/// promised of the value.
#[verifier::external_body]
fn now_secs() -> (r: u64) {
    match std::time::SystemTime::now().duration_since(std::time::UNIX_EPOCH) {
        Ok(d) => d.as_secs(),
        Err(_) => 0,
    }
}

} // verus!
