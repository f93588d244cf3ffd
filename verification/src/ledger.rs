//! The chain of blocks: a self-contained proof-of-work exercise, used
//! nowhere in the scoring pipeline.

use vstd::prelude::*;
use vstd::string::StringExecFns;
use crate::block::{block_hash, no_nonce_works, Block};
use crate::text::has_prefix;
use crate::transaction::Transaction;

verus! {

/// Every block after the genesis one carries a hash matching its contents
/// and links to its predecessor's hash.
pub open spec fn chain_valid(chain: Seq<Block>) -> bool {
    forall|i: int|
        1 <= i < chain.len() ==> (#[trigger] chain[i]).hash@ == block_hash(chain[i]) && chain[i]
            .previous_hash@ == chain[i - 1].hash@
}

/// The proof-of-work ledger: the chain, pending transactions, and the
/// difficulty prefix mined blocks must reach.
pub struct Ledger {
    pub chain: Vec<Block>,
    pub pending_transactions: Vec<Transaction>,
    pub difficulty: String,
}

impl Ledger {
    /// Creates a ledger with the stock difficulty and a mined genesis
    /// block holding the initialization transaction.
    pub fn new() -> (r: Self)
        ensures
            r.chain@.len() == 1,
            r.chain@[0].consistent(),
            r.chain@[0].id == 0,
            r.chain@[0].previous_hash@ == "0"@,
            r.chain@[0].transactions@.len() == 1,
            r.chain@[0].transactions@[0].content@
                == "Genesis Block: Axiom-Islam Consciousness Initialized."@,
            r.chain@[0].transactions@[0].sender@ == "System"@,
            r.chain@[0].transactions@[0].intact(),
            has_prefix(r.chain@[0].hash@, "0000"@) || no_nonce_works(r.chain@[0], "0000"@),
            r.pending_transactions@.len() == 0,
            r.difficulty@ == "0000"@,
            chain_valid(r.chain@),
    {
        let difficulty = String::from_str("0000");
        let mut genesis_transactions: Vec<Transaction> = Vec::new();
        genesis_transactions.push(
            Transaction::new(
                String::from_str("Genesis Block: Axiom-Islam Consciousness Initialized."),
                String::from_str("System"),
            ),
        );
        let genesis_block = Block::new(
            0,
            genesis_transactions,
            String::from_str("0"),
            difficulty.as_str(),
        );
        Ledger { chain: vec![genesis_block], pending_transactions: Vec::new(), difficulty }
    }

    /// Validates the integrity of the entire chain: every non-genesis
    /// block's hash matches its contents and links to its predecessor.
    pub fn is_chain_valid(&self) -> (r: bool)
        ensures
            r == chain_valid(self.chain@),
    {
        let n = self.chain.len();
        let mut i: usize = 1;
        while i < n
            invariant
                n == self.chain@.len(),
                1 <= i <= n || (i == 1 && n == 0),
                forall|k: int|
                    1 <= k < i ==> (#[trigger] self.chain@[k]).hash@ == block_hash(self.chain@[k])
                        && self.chain@[k].previous_hash@ == self.chain@[k - 1].hash@,
            decreases n - i,
        {
            let current_ok = self.chain[i].validate();
            if !current_ok {
                return false;
            }
            if !crate::text::eq_str(
                self.chain[i].previous_hash.as_str(),
                self.chain[i - 1].hash.as_str(),
            ) {
                return false;
            }
            i = i + 1;
        }
        true
    }

    /// Appends a transaction to the pending list.
    pub fn add_transaction(&mut self, transaction: Transaction)
        ensures
            final(self).pending_transactions@ == old(self).pending_transactions@.push(
                transaction,
            ),
            final(self).chain == old(self).chain,
            final(self).difficulty == old(self).difficulty,
    {
        self.pending_transactions.push(transaction);
    }

    /// Mines the pending transactions into a new block appended to the
    /// chain and clears the pending list; a ledger without pending
    /// transactions is left untouched.
    pub fn mine_pending_transactions(&mut self)
        ensures
            old(self).pending_transactions@.len() == 0 ==> *final(self) == *old(self),
            old(self).pending_transactions@.len() > 0 ==> {
                &&& final(self).pending_transactions@.len() == 0
                &&& final(self).chain@.len() == old(self).chain@.len() + 1
                &&& forall|k: int|
                    0 <= k < old(self).chain@.len() ==> #[trigger] final(self).chain@[k] == old(
                        self,
                    ).chain@[k]
                &&& final(self).chain@.last().consistent()
                &&& final(self).chain@.last().transactions@ == old(self).pending_transactions@
                &&& final(self).chain@.last().id == old(self).chain@.len()
                &&& final(self).chain@.last().previous_hash@ == (if old(self).chain@.len() > 0 {
                    old(self).chain@.last().hash@
                } else {
                    "0"@
                })
                &&& (has_prefix(final(self).chain@.last().hash@, old(self).difficulty@)
                    || no_nonce_works(final(self).chain@.last(), old(self).difficulty@))
                &&& final(self).difficulty == old(self).difficulty
            },
    {
        if self.pending_transactions.len() == 0 {
            return ;
        }
        let previous_hash: String = if self.chain.len() > 0 {
            self.chain[self.chain.len() - 1].hash.clone()
        } else {
            String::from_str("0")
        };
        let mut txs: Vec<Transaction> = Vec::new();
        core::mem::swap(&mut txs, &mut self.pending_transactions);
        let new_block = Block::new(
            self.chain.len() as u64,
            txs,
            previous_hash,
            self.difficulty.as_str(),
        );
        self.chain.push(new_block);
    }
}

} // verus!
