//! Blocks of the proof-of-work ledger.

use vstd::prelude::*;
use vstd::string::StringExecFns;
use crate::text::{dec_str, has_prefix, str_starts_with, u64_to_string};
use crate::transaction::Transaction;
use crate::trusted::{now_millis, rfc3339_of, rfc3339_of_millis};
use crate::utils::{calculate_sha256, sha256_hex};

verus! {

/// The concatenation of the transactions' hashes, in order.
pub open spec fn tx_hashes_concat(txs: Seq<Transaction>) -> Seq<char>
    decreases txs.len(),
{
    if txs.len() == 0 {
        Seq::empty()
    } else {
        tx_hashes_concat(txs.drop_last()) + txs.last().hash@
    }
}

/// What a block's hash is computed over: its number, the RFC 3339 form of
/// its timestamp, the previous hash, the nonce, and the transactions'
/// hashes.
pub open spec fn block_hash_input(
    id: int,
    timestamp: int,
    previous_hash: Seq<char>,
    nonce: int,
    txs: Seq<Transaction>,
) -> Seq<char> {
    dec_str(id) + rfc3339_of(timestamp) + previous_hash + dec_str(nonce) + tx_hashes_concat(txs)
}

/// The hash a block with these fields must carry.
pub open spec fn block_hash(b: Block) -> Seq<char> {
    sha256_hex(
        block_hash_input(
            b.id as int,
            b.timestamp as int,
            b.previous_hash@,
            b.nonce as int,
            b.transactions@,
        ),
    )
}

/// No nonce at all gives this block's contents a hash with the wanted
/// prefix.
pub open spec fn no_nonce_works(b: Block, difficulty: Seq<char>) -> bool {
    forall|nn: u64|
        !has_prefix(
            #[trigger] sha256_hex(
                block_hash_input(
                    b.id as int,
                    b.timestamp as int,
                    b.previous_hash@,
                    nn as int,
                    b.transactions@,
                ),
            ),
            difficulty,
        )
}

/// A block of the ledger: number, creation instant in milliseconds since
/// the Unix epoch, transactions, link to the previous block, own hash and
/// proof-of-work nonce.
pub struct Block {
    pub id: u64,
    pub timestamp: i64,
    pub transactions: Vec<Transaction>,
    pub previous_hash: String,
    pub hash: String,
    pub nonce: u64,
}

impl Block {
    /// The stored hash matches the block's contents.
    pub open spec fn consistent(&self) -> bool {
        self.hash@ == block_hash(*self)
    }

    /// Creates and mines a new block: the nonce is searched until the
    /// block's hash starts with the difficulty prefix (or, only where no
    /// nonce at all can give such a hash, the whole nonce space was
    /// tried).
    pub fn new(
        id: u64,
        transactions: Vec<Transaction>,
        previous_hash: String,
        difficulty: &str,
    ) -> (b: Self)
        ensures
            b.id == id,
            b.transactions == transactions,
            b.previous_hash@ == previous_hash@,
            b.consistent(),
            has_prefix(b.hash@, difficulty@) || no_nonce_works(b, difficulty@),
    {
        let timestamp = now_millis();
        let mut block = Block {
            id,
            timestamp,
            transactions,
            previous_hash,
            hash: String::new(),
            nonce: 0,
        };
        block.mine(difficulty);
        block
    }

    /// Calculates the SHA-256 hash of the block's contents.
    pub fn calculate_hash(&self) -> (r: String)
        ensures
            r@ == block_hash(*self),
    {
        let mut data = u64_to_string(self.id);
        let ts_text = rfc3339_of_millis(self.timestamp);
        data.append(ts_text.as_str());
        data.append(self.previous_hash.as_str());
        let nonce_text = u64_to_string(self.nonce);
        data.append(nonce_text.as_str());
        let n = self.transactions.len();
        let mut i: usize = 0;
        let ghost base = data@;
        proof {
            assert(self.transactions@.subrange(0, 0) =~= Seq::<Transaction>::empty());
            assert(data@ =~= base + tx_hashes_concat(self.transactions@.subrange(0, 0)));
        }
        while i < n
            invariant
                n == self.transactions@.len(),
                0 <= i <= n,
                data@ == base + tx_hashes_concat(self.transactions@.subrange(0, i as int)),
            decreases n - i,
        {
            data.append(self.transactions[i].hash.as_str());
            proof {
                let sub = self.transactions@.subrange(0, i + 1);
                assert(sub.drop_last() =~= self.transactions@.subrange(0, i as int));
                assert(sub.last() == self.transactions@[i as int]);
                assert(data@ =~= base + tx_hashes_concat(sub));
            }
            i = i + 1;
        }
        proof {
            assert(self.transactions@.subrange(0, n as int) =~= self.transactions@);
        }
        calculate_sha256(data.as_str())
    }

    /// Proof-of-work search: tries nonces in increasing order from the
    /// current one to the end of the range and then from zero up to it,
    /// and stores the first hash that starts with the difficulty prefix;
    /// where none of the possible nonces gives such a hash, the last tried
    /// hash is stored.
    pub fn mine(&mut self, difficulty: &str)
        ensures
            final(self).id == old(self).id,
            final(self).timestamp == old(self).timestamp,
            final(self).transactions == old(self).transactions,
            final(self).previous_hash == old(self).previous_hash,
            final(self).consistent(),
            has_prefix(final(self).hash@, difficulty@) || no_nonce_works(
                *final(self),
                difficulty@,
            ),
    {
        let start = self.nonce;
        let mut nn = start;
        while nn < u64::MAX
            invariant
                *self == (Block { hash: self.hash, nonce: self.nonce, ..*old(self) }),
                start <= nn <= u64::MAX,
                forall|a: u64|
                    start <= a < nn ==> !has_prefix(
                        #[trigger] sha256_hex(
                            block_hash_input(
                                old(self).id as int,
                                old(self).timestamp as int,
                                old(self).previous_hash@,
                                a as int,
                                old(self).transactions@,
                            ),
                        ),
                        difficulty@,
                    ),
            decreases u64::MAX - nn,
        {
            self.nonce = nn;
            let hash = self.calculate_hash();
            if str_starts_with(hash.as_str(), difficulty) {
                self.hash = hash;
                return ;
            }
            nn = nn + 1;
        }
        self.nonce = u64::MAX;
        let last_hash = self.calculate_hash();
        if str_starts_with(last_hash.as_str(), difficulty) {
            self.hash = last_hash;
            return ;
        }
        let mut nn2: u64 = 0;
        while nn2 < start
            invariant
                *self == (Block { hash: self.hash, nonce: self.nonce, ..*old(self) }),
                0 <= nn2 <= start,
                forall|a: u64|
                    start <= a <= u64::MAX ==> !has_prefix(
                        #[trigger] sha256_hex(
                            block_hash_input(
                                old(self).id as int,
                                old(self).timestamp as int,
                                old(self).previous_hash@,
                                a as int,
                                old(self).transactions@,
                            ),
                        ),
                        difficulty@,
                    ),
                forall|a: u64|
                    0 <= a < nn2 ==> !has_prefix(
                        #[trigger] sha256_hex(
                            block_hash_input(
                                old(self).id as int,
                                old(self).timestamp as int,
                                old(self).previous_hash@,
                                a as int,
                                old(self).transactions@,
                            ),
                        ),
                        difficulty@,
                    ),
            decreases start - nn2,
        {
            self.nonce = nn2;
            let hash = self.calculate_hash();
            if str_starts_with(hash.as_str(), difficulty) {
                self.hash = hash;
                return ;
            }
            nn2 = nn2 + 1;
        }
        // Every nonce failed; keep the last tried one and its hash, so
        // the block stays consistent with its contents.
        self.nonce = if start > 0 {
            start - 1
        } else {
            u64::MAX
        };
        let hash = self.calculate_hash();
        self.hash = hash;
    }

    /// Validates the block's hash against its contents.
    pub fn validate(&self) -> (r: bool)
        ensures
            r == self.consistent(),
    {
        let computed = self.calculate_hash();
        self.hash.eq(&computed)
    }
}

} // verus!
