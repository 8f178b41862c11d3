//! A bounded, fee-ordered transaction pool with eviction and replay protection.
use vstd::prelude::*;

verus! {

#[derive(Clone, Copy, Debug)]
pub struct Transaction {
    pub id: [u8; 32],
    pub sender: [u8; 32],
    pub receiver: [u8; 32],
    pub amount: u64,
    pub timestamp: u64,
    pub signature: [u8; 64],
    pub fee: u64,
}

#[derive(Clone, Copy, Debug, PartialEq, Eq, Structural)]
pub enum PoolError {
    /// The identifier was removed or evicted before, or is pending already.
    AlreadyProcessed,
    /// The pool is full and the transaction does not outbid its cheapest entry.
    PoolFull,
    /// Reserved for checks on a transaction's contents.
    InvalidTransaction,
}

/// Fees never decrease along `s`.
pub open spec fn fee_sorted(s: Seq<Transaction>) -> bool {
    forall|i: int, j: int| 0 <= i < j < s.len() ==> s[i].fee <= s[j].fee
}

/// No identifier occurs twice in `s`.
pub open spec fn ids_distinct(s: Seq<Transaction>) -> bool {
    forall|i: int, j: int| 0 <= i < j < s.len() ==> s[i].id@ != s[j].id@
}

/// Some transaction of `s` has identifier `id`.
pub open spec fn holds_id(s: Seq<Transaction>, id: Seq<u8>) -> bool {
    exists|i: int| 0 <= i < s.len() && s[i].id@ == id
}

/// Identifier `id` is one of `s`.
pub open spec fn lists_id(s: Seq<[u8; 32]>, id: Seq<u8>) -> bool {
    exists|i: int| 0 <= i < s.len() && s[i]@ == id
}

/// `out` is `base` with `tx` placed after every entry whose fee is at most
/// its own and before every entry whose fee is higher.
pub open spec fn inserted_by_fee(base: Seq<Transaction>, tx: Transaction, out: Seq<Transaction>) -> bool {
    exists|p: int|
        0 <= p <= base.len() && out == base.insert(p, tx) && (forall|i: int|
            0 <= i < p ==> #[trigger] base[i].fee <= tx.fee) && (forall|i: int|
            p <= i < base.len() ==> #[trigger] base[i].fee > tx.fee)
}

/// The `n` highest-fee transactions of the fee-ordered `s`, highest first.
pub open spec fn best_of(s: Seq<Transaction>, n: nat) -> Seq<Transaction> {
    let k = if n < s.len() { n as int } else { s.len() as int };
    Seq::new(k as nat, |i: int| s[s.len() - 1 - i])
}

/// A pool holding `pending` (in fee order) with room for `max` turns away a
/// transaction paying `fee`: it is full, and its cheapest entry, if any, pays
/// at least as much.
pub open spec fn full_rejects(pending: Seq<Transaction>, max: nat, fee: u64) -> bool {
    pending.len() >= max && (pending.len() == 0 || pending[0].fee >= fee)
}

/// Compares two identifiers byte by byte.
pub fn same_id(a: &[u8; 32], b: &[u8; 32]) -> (r: bool)
    ensures
        r == (a@ == b@),
{
    let mut i: usize = 0;
    while i < 32
        invariant
            i <= 32,
            a@.len() == 32,
            b@.len() == 32,
            forall|k: int| 0 <= k < i ==> a@[k] == b@[k],
        decreases 32 - i,
    {
        if a[i] != b[i] {
            return false;
        }
        i = i + 1;
    }
    assert(a@ =~= b@);
    true
}

pub struct TransactionPool {
    ordered_by_fee: Vec<Transaction>,
    processed: Vec<[u8; 32]>,
    max_pool_size: usize,
}

impl TransactionPool {
    /// The pending transactions, in ascending order of fee.
    pub closed spec fn spec_pending(&self) -> Seq<Transaction> {
        self.ordered_by_fee@
    }

    /// The identifiers that were removed or evicted, in the order they left.
    pub closed spec fn spec_processed(&self) -> Seq<[u8; 32]> {
        self.processed@
    }

    pub closed spec fn spec_max_size(&self) -> nat {
        self.max_pool_size as nat
    }

    /// Identifier `id` has left the pool, and can never enter it again.
    pub open spec fn spec_is_processed(&self, id: Seq<u8>) -> bool {
        lists_id(self.spec_processed(), id)
    }

    /// The pool's invariant: pending transactions sorted by fee, with
    /// distinct identifiers none of which was processed, and no more of them
    /// than the pool's capacity.
    pub open spec fn wf(&self) -> bool {
        &&& fee_sorted(self.spec_pending())
        &&& ids_distinct(self.spec_pending())
        &&& self.spec_pending().len() <= self.spec_max_size()
        &&& forall|i: int|
            0 <= i < self.spec_pending().len() ==> !#[trigger] self.spec_is_processed(
                self.spec_pending()[i].id@,
            )
    }

    pub fn new(max_pool_size: usize) -> (r: Self)
        ensures
            r.wf(),
            r.spec_pending().len() == 0,
            r.spec_processed().len() == 0,
            r.spec_max_size() == max_pool_size,
    {
        TransactionPool { ordered_by_fee: Vec::new(), processed: Vec::new(), max_pool_size }
    }

    pub fn max_pool_size(&self) -> (r: usize)
        ensures
            r == self.spec_max_size(),
    {
        self.max_pool_size
    }

    pub fn pending_count(&self) -> (r: usize)
        ensures
            r == self.spec_pending().len(),
    {
        self.ordered_by_fee.len()
    }

    pub fn is_processed(&self, id: &[u8; 32]) -> (r: bool)
        ensures
            r == self.spec_is_processed(id@),
    {
        let mut i: usize = 0;
        while i < self.processed.len()
            invariant
                i <= self.processed@.len(),
                forall|k: int| 0 <= k < i ==> self.processed@[k]@ != id@,
            decreases self.processed@.len() - i,
        {
            if same_id(&self.processed[i], id) {
                return true;
            }
            i = i + 1;
        }
        false
    }

    /// Where the pending transaction with identifier `id` stands, if any.
    fn position_of(&self, id: &[u8; 32]) -> (r: Option<usize>)
        ensures
            match r {
                Some(i) => i < self.spec_pending().len() && self.spec_pending()[i as int].id@ == id@,
                None => !holds_id(self.spec_pending(), id@),
            },
    {
        let mut i: usize = 0;
        while i < self.ordered_by_fee.len()
            invariant
                i <= self.ordered_by_fee@.len(),
                forall|k: int| 0 <= k < i ==> self.ordered_by_fee@[k].id@ != id@,
            decreases self.ordered_by_fee@.len() - i,
        {
            if same_id(&self.ordered_by_fee[i].id, id) {
                return Some(i);
            }
            i = i + 1;
        }
        None
    }

    /// The place where a transaction with this fee is inserted: after every
    /// pending fee at most `fee`, before every higher one.
    fn find_fee_position(&self, fee: u64) -> (r: usize)
        requires
            fee_sorted(self.spec_pending()),
        ensures
            r <= self.spec_pending().len(),
            forall|i: int| 0 <= i < r ==> #[trigger] self.spec_pending()[i].fee <= fee,
            forall|i: int| r <= i < self.spec_pending().len() ==> #[trigger] self.spec_pending()[i].fee > fee,
    {
        let mut lo: usize = 0;
        let mut hi: usize = self.ordered_by_fee.len();
        while lo < hi
            invariant
                lo <= hi <= self.ordered_by_fee@.len(),
                fee_sorted(self.ordered_by_fee@),
                forall|i: int| 0 <= i < lo ==> #[trigger] self.ordered_by_fee@[i].fee <= fee,
                forall|i: int| hi <= i < self.ordered_by_fee@.len() ==> #[trigger] self.ordered_by_fee@[i].fee > fee,
            decreases hi - lo,
        {
            let mid: usize = lo + (hi - lo) / 2;
            if self.ordered_by_fee[mid].fee <= fee {
                lo = mid + 1;
            } else {
                hi = mid;
            }
        }
        lo
    }

    /// The `max_count` highest-fee pending transactions, highest first.
    pub fn get_best_transactions(&self, max_count: usize) -> (r: Vec<Transaction>)
        ensures
            r@ == best_of(self.spec_pending(), max_count as nat),
    {
        let n = self.ordered_by_fee.len();
        let k: usize = if max_count < n { max_count } else { n };
        let mut r: Vec<Transaction> = Vec::new();
        let mut i: usize = 0;
        while i < k
            invariant
                k <= n == self.ordered_by_fee@.len(),
                k == (if max_count < n { max_count } else { n }),
                i <= k,
                r@.len() == i,
                forall|j: int| 0 <= j < i ==> r@[j] == self.ordered_by_fee@[n - 1 - j],
            decreases k - i,
        {
            r.push(self.ordered_by_fee[n - 1 - i]);
            i = i + 1;
        }
        assert(r@ =~= best_of(self.spec_pending(), max_count as nat));
        r
    }

    /// Drops the pending transaction with identifier `tx_id`, if there is one,
    /// and marks the identifier processed in any case.
    pub fn remove_transaction(&mut self, tx_id: &[u8; 32])
        requires
            old(self).wf(),
        ensures
            final(self).wf(),
            final(self).spec_max_size() == old(self).spec_max_size(),
            final(self).spec_pending().len() <= final(self).spec_max_size(),
            fee_sorted(final(self).spec_pending()),
            holds_id(old(self).spec_pending(), tx_id@) ==> exists|i: int|
                0 <= i < old(self).spec_pending().len() && old(self).spec_pending()[i].id@ == tx_id@
                    && final(self).spec_pending() == old(self).spec_pending().remove(i),
            !holds_id(old(self).spec_pending(), tx_id@) ==> final(self).spec_pending() == old(self).spec_pending(),
            old(self).spec_is_processed(tx_id@) ==> final(self).spec_processed() == old(self).spec_processed(),
            !old(self).spec_is_processed(tx_id@) ==> final(self).spec_processed() == old(self).spec_processed().push(*tx_id),
            forall|x: Seq<u8>| #[trigger] final(self).spec_is_processed(x) <==> (old(self).spec_is_processed(x) || x == tx_id@),
    {
        let ghost old_pending = self.ordered_by_fee@;
        let ghost old_processed = self.processed@;
        match self.position_of(tx_id) {
            Some(pos) => {
                self.ordered_by_fee.remove(pos);
                assert forall|a: int, b: int| 0 <= a < b < self.ordered_by_fee@.len() implies
                    self.ordered_by_fee@[a].fee <= self.ordered_by_fee@[b].fee && self.ordered_by_fee@[a].id@ != self.ordered_by_fee@[b].id@ by {
                    let a0 = if a < pos { a } else { a + 1 };
                    let b0 = if b < pos { b } else { b + 1 };
                    assert(self.ordered_by_fee@[a] == old_pending[a0]);
                    assert(self.ordered_by_fee@[b] == old_pending[b0]);
                }
            },
            None => {},
        }
        let ghost mid_pending = self.ordered_by_fee@;
        assert(forall|k: int| 0 <= k < mid_pending.len() ==> #[trigger] mid_pending[k].id@ != tx_id@ && exists|j: int| 0 <= j < old_pending.len() && old_pending[j] == mid_pending[k]) by {
            assert forall|k: int| 0 <= k < mid_pending.len() implies #[trigger] mid_pending[k].id@ != tx_id@ && exists|j: int| 0 <= j < old_pending.len() && old_pending[j] == mid_pending[k] by {
                if holds_id(old_pending, tx_id@) {
                    let p = choose|p: int| 0 <= p < old_pending.len() && old_pending[p].id@ == tx_id@ && mid_pending == old_pending.remove(p);
                    let j = if k < p { k } else { k + 1 };
                    assert(old_pending[j] == mid_pending[k]);
                } else {
                    assert(old_pending[k] == mid_pending[k]);
                }
            }
        }
        if !self.is_processed(tx_id) {
            self.processed.push(*tx_id);
            assert forall|x: Seq<u8>| #[trigger] lists_id(self.processed@, x) <==> (lists_id(old_processed, x) || x == tx_id@) by {
                if lists_id(old_processed, x) {
                    let i = choose|i: int| 0 <= i < old_processed.len() && old_processed[i]@ == x;
                    assert(self.processed@[i] == old_processed[i]);
                }
                if x == tx_id@ {
                    assert(self.processed@[old_processed.len() as int] == *tx_id);
                }
                if lists_id(self.processed@, x) {
                    let i = choose|i: int| 0 <= i < self.processed@.len() && self.processed@[i]@ == x;
                    if i < old_processed.len() {
                        assert(self.processed@[i] == old_processed[i]);
                    }
                }
            }
        }
        assert forall|k: int| 0 <= k < self.ordered_by_fee@.len() implies !#[trigger] lists_id(
            self.processed@,
            self.ordered_by_fee@[k].id@,
        ) by {
            let j = choose|j: int| 0 <= j < old_pending.len() && old_pending[j] == mid_pending[k];
            assert(!old(self).spec_is_processed(old(self).spec_pending()[j].id@));
        }
    }

    /// Admits `transaction`. A processed identifier is refused first; then a
    /// full pool refuses a transaction that does not pay strictly more than its
    /// cheapest entry; then an identifier that is pending already is refused.
    /// Otherwise a full pool evicts its cheapest entry (marking it processed),
    /// and the transaction goes after every pending entry whose fee is at most
    /// its own.
    pub fn add_transaction(&mut self, transaction: Transaction) -> (r: Result<(), PoolError>)
        requires
            old(self).wf(),
        ensures
            final(self).wf(),
            final(self).spec_max_size() == old(self).spec_max_size(),
            final(self).spec_pending().len() <= final(self).spec_max_size(),
            fee_sorted(final(self).spec_pending()),
            r == Err::<(), PoolError>(PoolError::AlreadyProcessed) <==> (old(self).spec_is_processed(
                transaction.id@,
            ) || (!full_rejects(old(self).spec_pending(), old(self).spec_max_size(), transaction.fee)
                && holds_id(old(self).spec_pending(), transaction.id@))),
            r == Err::<(), PoolError>(PoolError::PoolFull) <==> (!old(self).spec_is_processed(
                transaction.id@,
            ) && full_rejects(old(self).spec_pending(), old(self).spec_max_size(), transaction.fee)),
            r is Ok <==> (!old(self).spec_is_processed(transaction.id@) && !holds_id(
                old(self).spec_pending(),
                transaction.id@,
            ) && !full_rejects(old(self).spec_pending(), old(self).spec_max_size(), transaction.fee)),
            r is Err ==> final(self).spec_pending() == old(self).spec_pending()
                && final(self).spec_processed() == old(self).spec_processed(),
            r is Ok && old(self).spec_pending().len() < old(self).spec_max_size() ==> final(self).spec_processed()
                == old(self).spec_processed() && inserted_by_fee(
                old(self).spec_pending(),
                transaction,
                final(self).spec_pending(),
            ),
            r is Ok && old(self).spec_pending().len() >= old(self).spec_max_size() ==> final(self).spec_processed()
                == old(self).spec_processed().push(old(self).spec_pending()[0].id) && inserted_by_fee(
                old(self).spec_pending().drop_first(),
                transaction,
                final(self).spec_pending(),
            ),
            forall|x: Seq<u8>| #[trigger] old(self).spec_is_processed(x) ==> final(self).spec_is_processed(x),
    {
        if self.is_processed(&transaction.id) {
            return Err(PoolError::AlreadyProcessed);
        }
        let full = self.ordered_by_fee.len() >= self.max_pool_size;
        if full && (self.ordered_by_fee.len() == 0 || self.ordered_by_fee[0].fee >= transaction.fee) {
            return Err(PoolError::PoolFull);
        }
        match self.position_of(&transaction.id) {
            Some(_) => {
                return Err(PoolError::AlreadyProcessed);
            },
            None => {},
        }
        let ghost old_pending = self.ordered_by_fee@;
        let ghost old_processed = self.processed@;
        if full {
            let lowest = self.ordered_by_fee[0];
            assert(!self.spec_is_processed(self.ordered_by_fee@[0].id@));
            self.remove_transaction(&lowest.id);
            assert forall|x: Seq<u8>| lists_id(old_processed, x) implies lists_id(self.processed@, x) by {
                assert(self.spec_is_processed(x));
            }
            assert(self.ordered_by_fee@ =~= old_pending.drop_first()) by {
                let i = choose|i: int|
                    0 <= i < old_pending.len() && old_pending[i].id@ == lowest.id@
                        && self.ordered_by_fee@ == old_pending.remove(i);
                if i != 0 {
                    assert(old_pending[0].id@ != old_pending[i].id@);
                }
                assert(old_pending.remove(0) =~= old_pending.drop_first());
            }
            assert(transaction.id@ != lowest.id@) by {
                assert(old_pending[0] == lowest);
            }
            assert(!holds_id(self.ordered_by_fee@, transaction.id@)) by {
                if holds_id(self.ordered_by_fee@, transaction.id@) {
                    let k = choose|k: int| 0 <= k < self.ordered_by_fee@.len() && self.ordered_by_fee@[k].id@ == transaction.id@;
                    assert(old_pending[k + 1] == self.ordered_by_fee@[k]);
                }
            }
        }
        assert(!self.spec_is_processed(transaction.id@));
        let ghost mid = *self;
        let ghost base = self.ordered_by_fee@;
        let pos = self.find_fee_position(transaction.fee);
        self.ordered_by_fee.insert(pos, transaction);
        assert(inserted_by_fee(base, transaction, self.ordered_by_fee@));
        assert forall|a: int, b: int| 0 <= a < b < self.ordered_by_fee@.len() implies
            self.ordered_by_fee@[a].fee <= self.ordered_by_fee@[b].fee && self.ordered_by_fee@[a].id@ != self.ordered_by_fee@[b].id@ by {
            if a < pos && b < pos {
                assert(self.ordered_by_fee@[a] == base[a] && self.ordered_by_fee@[b] == base[b]);
            } else if a < pos && b == pos {
                assert(self.ordered_by_fee@[a] == base[a]);
                assert(base[a].fee <= transaction.fee);
            } else if a < pos {
                assert(self.ordered_by_fee@[a] == base[a] && self.ordered_by_fee@[b] == base[b - 1]);
            } else if a == pos {
                assert(self.ordered_by_fee@[b] == base[b - 1]);
                assert(base[b - 1].fee > transaction.fee);
            } else {
                assert(self.ordered_by_fee@[a] == base[a - 1] && self.ordered_by_fee@[b] == base[b - 1]);
            }
        }
        assert forall|k: int| 0 <= k < self.ordered_by_fee@.len() implies !#[trigger] self.spec_is_processed(
            self.ordered_by_fee@[k].id@,
        ) by {
            assert(self.spec_processed() == mid.spec_processed());
            if k < pos {
                assert(self.ordered_by_fee@[k] == base[k]);
                assert(!mid.spec_is_processed(mid.spec_pending()[k].id@));
            } else if k > pos {
                assert(self.ordered_by_fee@[k] == base[k - 1]);
                assert(!mid.spec_is_processed(mid.spec_pending()[k - 1].id@));
            }
        }
        Ok(())
    }
}

} // verus!