//! Value-transfer records, each carrying the digest of its own content.

use vstd::prelude::*;

use crate::common::{digest_of, is_digest, now, Hashing, DIGEST_LEN};
use crate::decimal::{decimal, signed_decimal, signed_text, unsigned_text};

verus! {

/// What a transaction is: the instant of its creation, who sends how much to
/// whom, and the digest of these four.
pub struct TransactionView {
    pub timestamp: int,
    pub sender: Seq<char>,
    pub receiver: Seq<char>,
    pub amount: nat,
    pub digest: Seq<char>,
}

/// The fields of a transaction that enter its digest, in order.
pub open spec fn transaction_fields(
    timestamp: int,
    sender: Seq<char>,
    receiver: Seq<char>,
    amount: nat,
) -> Seq<Seq<char>> {
    seq![signed_decimal(timestamp), sender, receiver, decimal(amount)]
}

/// The digest of a transaction with the given content.
pub open spec fn transaction_digest(
    timestamp: int,
    sender: Seq<char>,
    receiver: Seq<char>,
    amount: nat,
) -> Seq<char> {
    digest_of(transaction_fields(timestamp, sender, receiver, amount))
}

/// The transaction created at `timestamp` with the given content.
pub open spec fn transaction_at(
    timestamp: int,
    sender: Seq<char>,
    receiver: Seq<char>,
    amount: nat,
) -> TransactionView {
    TransactionView {
        timestamp,
        sender,
        receiver,
        amount,
        digest: transaction_digest(timestamp, sender, receiver, amount),
    }
}

impl TransactionView {
    /// The digest is that of the content, and has the shape of a digest.
    pub open spec fn wf(self) -> bool {
        &&& self.digest == transaction_digest(
            self.timestamp,
            self.sender,
            self.receiver,
            self.amount,
        )
        &&& is_digest(self.digest)
    }

    /// The digest is determined by the content: two transactions of the same
    /// instant, sender, receiver and amount carry the same digest, and are
    /// the same transaction.
    pub proof fn lemma_digest_determined(self, other: TransactionView)
        requires
            self.wf(),
            other.wf(),
            self.timestamp == other.timestamp,
            self.sender == other.sender,
            self.receiver == other.receiver,
            self.amount == other.amount,
        ensures
            self.digest == other.digest,
            self == other,
    {
    }
}

/// An immutable value-transfer record.
#[derive(Debug)]
pub struct Transaction {
    timestamp: i64,
    sender: &'static str,
    receiver: &'static str,
    amount: u32,
    hash: String,
}

impl View for Transaction {
    type V = TransactionView;

    closed spec fn view(&self) -> TransactionView {
        TransactionView {
            timestamp: self.timestamp as int,
            sender: self.sender@,
            receiver: self.receiver@,
            amount: self.amount as nat,
            digest: self.hash@,
        }
    }
}

impl Hashing for Transaction {
    open spec fn hashing_strings(&self) -> Seq<Seq<char>> {
        transaction_fields(self@.timestamp, self@.sender, self@.receiver, self@.amount)
    }

    fn get_hashing_strings(&self) -> (strings: Vec<String>) {
        content_strings(self.timestamp, self.sender, self.receiver, self.amount)
    }
}

/// The strings that enter the digest of a transaction with the given
/// content.
fn content_strings(timestamp: i64, sender: &str, receiver: &str, amount: u32) -> (strings: Vec<
    String,
>)
    ensures
        strings.deep_view() == transaction_fields(
            timestamp as int,
            sender@,
            receiver@,
            amount as nat,
        ),
{
    let strings = vec![
        signed_text(timestamp),
        sender.to_owned(),
        receiver.to_owned(),
        unsigned_text(amount as u64),
    ];
    assert(strings.deep_view() =~= transaction_fields(
        timestamp as int,
        sender@,
        receiver@,
        amount as nat,
    ));
    strings
}

impl Clone for Transaction {
    fn clone(&self) -> (copy: Self)
        ensures
            copy == *self,
    {
        proof {
            use_type_invariant(self);
        }
        Transaction {
            timestamp: self.timestamp,
            sender: self.sender,
            receiver: self.receiver,
            amount: self.amount,
            hash: self.hash.clone(),
        }
    }
}

impl Transaction {
    #[verifier::type_invariant]
    spec fn inv(&self) -> bool {
        self@.wf()
    }

    /// The transaction created at `timestamp`, with the digest of its
    /// content.
    pub fn at(timestamp: i64, sender: &'static str, receiver: &'static str, amount: u32) -> (made:
        Transaction)
        ensures
            made@ == transaction_at(timestamp as int, sender@, receiver@, amount as nat),
            made@.wf(),
    {
        let strings = content_strings(timestamp, sender, receiver, amount);
        let hash = crate::common::hash_strings(&strings);
        Transaction { timestamp, sender, receiver, amount, hash }
    }

    /// A transaction created now: its timestamp is the instant read from the
    /// clock, whatever that is, and its digest is that of its content.
    pub fn new(sender: &'static str, receiver: &'static str, amount: u32) -> (made: Transaction)
        ensures
            made@ == transaction_at(made@.timestamp, sender@, receiver@, amount as nat),
            made@.wf(),
    {
        Transaction::at(now(), sender, receiver, amount)
    }

    /// The instant of creation, in seconds since the Unix epoch.
    pub fn get_timestamp(&self) -> (timestamp: i64)
        ensures
            timestamp == self@.timestamp,
    {
        self.timestamp
    }

    /// The digest: that of the content, `DIGEST_LEN` hexadecimal digits.
    pub fn get_hash(&self) -> (digest: &str)
        ensures
            digest@ == self@.digest,
            digest@.len() == DIGEST_LEN,
            self@.wf(),
    {
        proof {
            use_type_invariant(self);
        }
        self.hash.as_str()
    }

    /// Who sends.
    pub fn get_sender(&self) -> (sender: &'static str)
        ensures
            sender@ == self@.sender,
    {
        self.sender
    }

    /// Who receives.
    pub fn get_receiver(&self) -> (receiver: &'static str)
        ensures
            receiver@ == self@.receiver,
    {
        self.receiver
    }

    /// How much is sent.
    pub fn get_amount(&self) -> (amount: u32)
        ensures
            amount == self@.amount,
    {
        self.amount
    }
}

} // verus!
