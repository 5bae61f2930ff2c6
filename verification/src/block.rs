//! Blocks: a batch of transactions, the digests that link a block to its
//! neighbours, and the search for a digest that meets a difficulty target.

use vstd::prelude::*;
use vstd::string::StrSliceExecFns;

use crate::common::{digest_of, hash_strings, is_digest, now, Hashing, DIGEST_LEN};
use crate::decimal::{decimal, signed_decimal, signed_text, unsigned_text};
use crate::transaction::{Transaction, TransactionView};

verus! {

/// The largest value that a nonce can take.
pub const NONCE_MAX: u32 = 0xffff_ffff;

/// What a block is: the instant of its creation, its transactions in order,
/// its own digest, the digests of its neighbours, and its nonce.
pub struct BlockView {
    pub timestamp: int,
    pub transactions: Seq<TransactionView>,
    pub digest: Seq<char>,
    pub prev_digest: Seq<char>,
    pub next_digest: Seq<char>,
    pub nonce: nat,
}

/// The views of a sequence of transactions, in order.
pub open spec fn transaction_views(transactions: Seq<Transaction>) -> Seq<TransactionView> {
    transactions.map_values(|t: Transaction| t@)
}

/// The first `count` characters of `digest` exist and are all `'0'`.
pub open spec fn has_leading_zeros(digest: Seq<char>, count: nat) -> bool {
    &&& count <= digest.len()
    &&& forall|i: int| 0 <= i < count ==> digest[i] == '0'
}

/// The block created at `timestamp` around `transactions`: no neighbours, a
/// nonce of zero, and the digest of these fields taken with an empty digest.
pub open spec fn block_at(timestamp: int, transactions: Seq<TransactionView>) -> BlockView {
    BlockView {
        timestamp,
        transactions,
        digest: Seq::empty(),
        prev_digest: Seq::empty(),
        next_digest: Seq::empty(),
        nonce: 0,
    }.rehashed()
}

impl BlockView {
    /// The fields of the block that enter its digest, in order. The digest
    /// that the block carries is one of them.
    pub open spec fn hashing_strings(self) -> Seq<Seq<char>> {
        seq![
            signed_decimal(self.timestamp),
            decimal(self.nonce),
            self.digest,
            self.prev_digest,
            self.next_digest,
        ]
    }

    /// The block with its digest computed anew from its fields as they
    /// stand.
    pub open spec fn rehashed(self) -> BlockView {
        BlockView { digest: digest_of(self.hashing_strings()), ..self }
    }

    /// The block after one attempt of the search: the digest is computed
    /// anew, then the nonce is counted up.
    pub open spec fn attempt(self) -> BlockView {
        BlockView { nonce: self.nonce + 1, ..self.rehashed() }
    }

    /// The block after `count` attempts in a row, each starting from the
    /// digest that the one before it left.
    pub open spec fn attempts(self, count: nat) -> BlockView
        decreases count,
    {
        if count == 0 {
            self
        } else {
            self.attempts((count - 1) as nat).attempt()
        }
    }

    /// The digest meets the target of `difficulty` leading zeros.
    pub open spec fn meets(self, difficulty: nat) -> bool {
        has_leading_zeros(self.digest, difficulty)
    }

    /// The search from this block at `difficulty` ends after `count`
    /// attempts: the nonce can be counted up that far, the digest then meets
    /// the target, and none before it did.
    pub open spec fn found_after(self, difficulty: nat, count: nat) -> bool {
        &&& self.nonce + count <= NONCE_MAX
        &&& self.attempts(count).meets(difficulty)
        &&& forall|earlier: nat|
            earlier < count ==> !(#[trigger] self.attempts(earlier)).meets(difficulty)
    }

    /// The search from this block at `difficulty` finds nothing: no digest
    /// meets the target for as long as the nonce can be counted up.
    pub open spec fn exhausted(self, difficulty: nat) -> bool {
        forall|count: nat|
            self.nonce + count <= NONCE_MAX ==> !(#[trigger] self.attempts(count)).meets(
                difficulty,
            )
    }

    /// The digest is the one that `nonce` attempts leave, starting from the
    /// block as it was created.
    pub open spec fn sealed(self) -> bool {
        self.digest == block_at(self.timestamp, self.transactions).attempts(self.nonce).digest
    }

    /// A search has one outcome: where it ends after some number of
    /// attempts, it is not exhausted, and it ends after no other number.
    pub proof fn lemma_search_outcome_unique(self, difficulty: nat, count: nat, other: nat)
        requires
            self.found_after(difficulty, count),
        ensures
            !self.exhausted(difficulty),
            self.found_after(difficulty, other) ==> other == count,
    {
        assert(self.attempts(count).meets(difficulty));
        if self.found_after(difficulty, other) {
            if other < count {
                assert(!self.attempts(other).meets(difficulty));
            }
            if count < other {
                assert(self.attempts(other).meets(difficulty));
            }
        }
    }

    /// A target of no leading zeros is met by every digest, so that a search
    /// for it ends before the first attempt.
    pub proof fn lemma_zero_difficulty(self)
        requires
            self.nonce <= NONCE_MAX,
        ensures
            self.meets(0),
            self.found_after(0, 0),
    {
        assert(self.attempts(0) == self);
    }

    /// Attempts change the digest and the nonce only, and each of them
    /// counts the nonce up by one.
    pub proof fn lemma_attempts_frame(self, count: nat)
        ensures
            self.attempts(count).timestamp == self.timestamp,
            self.attempts(count).transactions == self.transactions,
            self.attempts(count).prev_digest == self.prev_digest,
            self.attempts(count).next_digest == self.next_digest,
            self.attempts(count).nonce == self.nonce + count,
        decreases count,
    {
        if count > 0 {
            self.lemma_attempts_frame((count - 1) as nat);
        }
    }
}

/// A batch of transactions with its place in a chain.
#[derive(Debug)]
pub struct Block {
    timestamp: i64,
    transactions: Vec<Transaction>,
    hash: String,
    prev_hash: String,
    next_hash: String,
    nonce: u32,
}

impl View for Block {
    type V = BlockView;

    closed spec fn view(&self) -> BlockView {
        BlockView {
            timestamp: self.timestamp as int,
            transactions: transaction_views(self.transactions@),
            digest: self.hash@,
            prev_digest: self.prev_hash@,
            next_digest: self.next_hash@,
            nonce: self.nonce as nat,
        }
    }
}

/// The strings that enter the digest of a block with the given fields.
fn field_strings(timestamp: i64, nonce: u32, hash: &str, prev_hash: &str, next_hash: &str) -> (strings:
    Vec<String>)
    ensures
        strings.deep_view() == seq![
            signed_decimal(timestamp as int),
            decimal(nonce as nat),
            hash@,
            prev_hash@,
            next_hash@,
        ],
{
    let strings = vec![
        signed_text(timestamp),
        unsigned_text(nonce as u64),
        hash.to_owned(),
        prev_hash.to_owned(),
        next_hash.to_owned(),
    ];
    assert(strings.deep_view() =~= seq![
        signed_decimal(timestamp as int),
        decimal(nonce as nat),
        hash@,
        prev_hash@,
        next_hash@,
    ]);
    strings
}

/// Whether the first `count` characters of a digest are all `'0'`.
fn starts_with_zeros(digest: &str, count: usize) -> (yes: bool)
    requires
        is_digest(digest@),
    ensures
        yes == has_leading_zeros(digest@, count as nat),
{
    if count > DIGEST_LEN {
        return false;
    }
    assert(digest.is_ascii()) by {
        assert forall|i: int| 0 <= i < digest@.len() implies '\0' <= #[trigger] digest@[i]
            <= '\u{7f}' by {
            assert(crate::common::is_lower_hex(digest@[i]));
        }
    }
    let mut i: usize = 0;
    while i < count
        invariant
            i <= count <= DIGEST_LEN,
            is_digest(digest@),
            digest.is_ascii(),
            forall|j: int| 0 <= j < i ==> digest@[j] == '0',
        decreases count - i,
    {
        if digest.get_ascii(i) != 48u8 {
            assert(digest@[i as int] != '0');
            return false;
        }
        assert(crate::common::is_lower_hex(digest@[i as int]));
        assert(digest@[i as int] == '0');
        i += 1;
    }
    true
}

impl Hashing for Block {
    open spec fn hashing_strings(&self) -> Seq<Seq<char>> {
        self@.hashing_strings()
    }

    fn get_hashing_strings(&self) -> (strings: Vec<String>) {
        field_strings(
            self.timestamp,
            self.nonce,
            self.hash.as_str(),
            self.prev_hash.as_str(),
            self.next_hash.as_str(),
        )
    }
}

impl Clone for Block {
    fn clone(&self) -> (copy: Self)
        ensures
            copy@ == self@,
    {
        proof {
            use_type_invariant(self);
        }
        let transactions = self.transactions.clone();
        assert(transactions@ =~= self.transactions@);
        Block {
            timestamp: self.timestamp,
            transactions,
            hash: self.hash.clone(),
            prev_hash: self.prev_hash.clone(),
            next_hash: self.next_hash.clone(),
            nonce: self.nonce,
        }
    }
}

impl Block {
    #[verifier::type_invariant]
    spec fn inv(&self) -> bool {
        is_digest(self.hash@)
    }

    /// The block created at `timestamp` around `transactions`, kept in
    /// their order.
    pub fn at(timestamp: i64, transactions: Vec<Transaction>) -> (made: Block)
        ensures
            made@ == block_at(timestamp as int, transaction_views(transactions@)),
            is_digest(made@.digest),
    {
        let strings = field_strings(timestamp, 0, "", "", "");
        let hash = hash_strings(&strings);
        proof {
            reveal_strlit("");
            assert(""@ =~= Seq::<char>::empty());
        }
        Block {
            timestamp,
            transactions,
            hash,
            prev_hash: String::new(),
            next_hash: String::new(),
            nonce: 0,
        }
    }

    /// A block created now around `transactions`: its timestamp is the
    /// instant read from the clock, whatever that is.
    pub fn new(transactions: Vec<Transaction>) -> (made: Block)
        ensures
            made@ == block_at(made@.timestamp, transaction_views(transactions@)),
            is_digest(made@.digest),
    {
        Block::at(now(), transactions)
    }

    /// The instant of creation, in seconds since the Unix epoch.
    pub fn get_timestamp(&self) -> (timestamp: i64)
        ensures
            timestamp == self@.timestamp,
    {
        self.timestamp
    }

    /// The number of attempts that the search has made.
    pub fn get_nonce(&self) -> (nonce: u32)
        ensures
            nonce == self@.nonce,
    {
        self.nonce
    }

    /// A copy of the transactions, in their order.
    pub fn get_transactions(&self) -> (transactions: Vec<Transaction>)
        ensures
            transaction_views(transactions@) == self@.transactions,
    {
        let transactions = self.transactions.clone();
        assert(transactions@ =~= self.transactions@);
        transactions
    }

    /// The block's own digest: `DIGEST_LEN` hexadecimal digits.
    pub fn get_hash(&self) -> (digest: &str)
        ensures
            digest@ == self@.digest,
            is_digest(digest@),
    {
        proof {
            use_type_invariant(self);
        }
        self.hash.as_str()
    }

    /// The digest of the block before this one; empty where there is none.
    pub fn get_prev_hash(&self) -> (digest: &str)
        ensures
            digest@ == self@.prev_digest,
    {
        self.prev_hash.as_str()
    }

    /// The digest of the block after this one; empty where there is none.
    pub fn get_next_hash(&self) -> (digest: &str)
        ensures
            digest@ == self@.next_digest,
    {
        self.next_hash.as_str()
    }

    /// Names `hash` as the digest of the block before this one. Nothing else
    /// changes.
    pub fn set_prev_hash(&mut self, hash: &str)
        ensures
            final(self)@ == (BlockView { prev_digest: hash@, ..old(self)@ }),
    {
        proof {
            use_type_invariant(&*self);
        }
        self.prev_hash = hash.to_owned();
    }

    /// Names `hash` as the digest of the block after this one. Nothing else
    /// changes.
    pub fn set_next_hash(&mut self, hash: &str)
        ensures
            final(self)@ == (BlockView { next_digest: hash@, ..old(self)@ }),
    {
        proof {
            use_type_invariant(&*self);
        }
        self.next_hash = hash.to_owned();
    }

    /// Searches for a digest with `difficulty` leading zeros: while the
    /// digest does not meet the target and the nonce can still be counted
    /// up, makes one more attempt. Stops at the first digest that meets the
    /// target, and says whether the last one does. A target of more zeros
    /// than a digest has characters is met by none: the block is then left
    /// as it is.
    pub fn mine(&mut self, difficulty: usize) -> (found: bool)
        ensures
            final(self)@.nonce >= old(self)@.nonce,
            final(self)@ == old(self)@.attempts((final(self)@.nonce - old(self)@.nonce) as nat),
            found ==> old(self)@.found_after(
                difficulty as nat,
                (final(self)@.nonce - old(self)@.nonce) as nat,
            ),
            difficulty > DIGEST_LEN ==> !found && final(self)@ == old(self)@,
            difficulty <= DIGEST_LEN && !found ==> old(self)@.exhausted(difficulty as nat)
                && final(self)@.nonce == NONCE_MAX,
            found == final(self)@.meets(difficulty as nat),
            old(self)@.meets(difficulty as nat) ==> found && final(self)@ == old(self)@,
            difficulty == 0 ==> found && final(self)@ == old(self)@,
            final(self)@.timestamp == old(self)@.timestamp,
            final(self)@.transactions == old(self)@.transactions,
            final(self)@.prev_digest == old(self)@.prev_digest,
            final(self)@.next_digest == old(self)@.next_digest,
            is_digest(final(self)@.digest),
    {
        proof {
            use_type_invariant(&*self);
        }
        let ghost start = self@;
        if difficulty > DIGEST_LEN {
            assert(start.attempts(0) == start);
            return false;
        }
        let mut found = starts_with_zeros(self.hash.as_str(), difficulty);
        while !found && self.nonce < NONCE_MAX
            invariant
                is_digest(self.hash@),
                self@.nonce >= start.nonce,
                self@ == start.attempts((self@.nonce - start.nonce) as nat),
                forall|count: nat|
                    count < self@.nonce - start.nonce ==> !(#[trigger] start.attempts(
                        count,
                    )).meets(difficulty as nat),
                found == self@.meets(difficulty as nat),
            decreases NONCE_MAX - self.nonce,
        {
            let ghost before = self@;
            let hash = self.generate_hash();
            self.hash = hash;
            self.nonce += 1;
            found = starts_with_zeros(self.hash.as_str(), difficulty);
            proof {
                assert(self@ == before.attempt());
                assert(start.attempts((self@.nonce - start.nonce) as nat) == start.attempts(
                    (before.nonce - start.nonce) as nat,
                ).attempt());
            }
        }
        proof {
            assert(start.attempts(0) == start);
            start.lemma_attempts_frame((self@.nonce - start.nonce) as nat);
        }
        found
    }
}

} // verus!
