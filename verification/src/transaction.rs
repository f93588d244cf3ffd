//! Transactions of the proof-of-work ledger.

use vstd::prelude::*;
use vstd::string::StringExecFns;
use crate::text::dec_str;
use crate::trusted::{fresh_uuid_string, now_millis, rfc3339_of, rfc3339_of_millis};
use crate::utils::{calculate_sha256, sha256_hex};

verus! {

/// What a transaction's hash is computed over: its identifier, the
/// RFC 3339 form of its timestamp, its content and its sender.
pub open spec fn tx_hash_input(
    id: Seq<char>,
    timestamp: int,
    content: Seq<char>,
    sender: Seq<char>,
) -> Seq<char> {
    id + rfc3339_of(timestamp) + content + sender
}

/// The hash a transaction with these fields must carry.
pub open spec fn tx_hash(
    id: Seq<char>,
    timestamp: int,
    content: Seq<char>,
    sender: Seq<char>,
) -> Seq<char> {
    sha256_hex(tx_hash_input(id, timestamp, content, sender))
}

/// A transaction: identifier, creation instant in milliseconds since the
/// Unix epoch, content, sender, and its integrity hash.
pub struct Transaction {
    pub id: String,
    pub timestamp: i64,
    pub content: String,
    pub sender: String,
    pub hash: String,
}

impl Transaction {
    /// A transaction is intact when its stored hash matches its fields.
    pub open spec fn intact(&self) -> bool {
        self.hash@ == tx_hash(self.id@, self.timestamp as int, self.content@, self.sender@)
    }

    /// Creates a new transaction with a fresh identifier, the current
    /// instant, and the hash over all four fields.
    pub fn new(content: String, sender: String) -> (t: Self)
        ensures
            t.content@ == content@,
            t.sender@ == sender@,
            t.id@.len() == 36,
            t.intact(),
    {
        let timestamp = now_millis();
        let id = fresh_uuid_string();
        let mut data_to_hash = String::new();
        data_to_hash.append(id.as_str());
        let ts_text = rfc3339_of_millis(timestamp);
        data_to_hash.append(ts_text.as_str());
        data_to_hash.append(content.as_str());
        data_to_hash.append(sender.as_str());
        let hash = calculate_sha256(data_to_hash.as_str());
        Transaction { id, timestamp, content, sender, hash }
    }

    /// Recomputes the hash from the transaction's fields and compares it
    /// with the stored one.
    pub fn verify_hash(&self) -> (r: bool)
        ensures
            r == self.intact(),
    {
        let mut data_to_hash = String::new();
        data_to_hash.append(self.id.as_str());
        let ts_text = rfc3339_of_millis(self.timestamp);
        data_to_hash.append(ts_text.as_str());
        data_to_hash.append(self.content.as_str());
        data_to_hash.append(self.sender.as_str());
        let calculated_hash = calculate_sha256(data_to_hash.as_str());
        self.hash.eq(&calculated_hash)
    }

    /// The transaction's hash.
    pub fn hash(&self) -> (r: &str)
        ensures
            r@ == self.hash@,
    {
        self.hash.as_str()
    }

    /// The transaction's identifier.
    pub fn id(&self) -> (r: &str)
        ensures
            r@ == self.id@,
    {
        self.id.as_str()
    }

    /// A one-line rendering of the transaction's metadata; the content
    /// itself appears only through its byte length.
    pub fn to_display_string(&self) -> (r: String)
        ensures
            r@ == "Transaction { id: "@ + self.id@ + ", timestamp: "@ + rfc3339_of(
                self.timestamp as int,
            ) + ", sender: "@ + self.sender@ + ", content_length: "@ + dec_str(
                crate::topical_bnn::content_byte_len(self.content@),
            ) + " }"@,
    {
        let mut r = String::from_str("Transaction { id: ");
        r.append(self.id.as_str());
        r.append(", timestamp: ");
        let ts_text = rfc3339_of_millis(self.timestamp);
        r.append(ts_text.as_str());
        r.append(", sender: ");
        r.append(self.sender.as_str());
        r.append(", content_length: ");
        let len_text = crate::text::usize_to_string(self.content.as_str().len());
        r.append(len_text.as_str());
        r.append(" }");
        r
    }
}

impl Clone for Transaction {
    /// A copy carries the same fields.
    fn clone(&self) -> (r: Self)
        ensures
            r.id@ == self.id@,
            r.timestamp == self.timestamp,
            r.content@ == self.content@,
            r.sender@ == self.sender@,
            r.hash@ == self.hash@,
    {
        Transaction {
            id: self.id.clone(),
            timestamp: self.timestamp,
            content: self.content.clone(),
            sender: self.sender.clone(),
            hash: self.hash.clone(),
        }
    }
}

} // verus!
