//! The chain: an append-only sequence of hash-linked blocks and the pool of
//! transactions that wait for the next one.

use vstd::prelude::*;

use crate::block::{block_at, transaction_views, Block, BlockView};
use crate::common::{now, DIGEST_LEN};
use crate::transaction::{transaction_at, Transaction, TransactionView};

verus! {

/// What a chain is: its settings, its blocks from the genesis block on, and
/// the transactions that wait for the next block.
pub struct ChainView {
    pub timestamp: int,
    pub name: Seq<char>,
    pub difficulty: nat,
    pub payout: nat,
    pub supply: nat,
    pub blocks: Seq<BlockView>,
    pub pending: Seq<TransactionView>,
}

/// Why a chain refused an operation.
#[derive(Debug, Clone, Copy, PartialEq, Eq, Structural)]
pub enum ChainError {
    /// The chain holds no block, so it has no tail to read or to append to.
    EmptyChain,
    /// The search for the new block's digest found none that meets the
    /// chain's difficulty.
    NoDigestFound,
}

/// The settings of a chain.
#[derive(Debug)]
pub struct BlockChainData {
    pub timestamp: i64,
    pub name: &'static str,
    pub difficulty: usize,
    pub payout: u32,
    pub supply: u32,
}

/// The views of a sequence of blocks, in order.
pub open spec fn block_views(blocks: Seq<Block>) -> Seq<BlockView> {
    blocks.map_values(|b: Block| b@)
}

/// The sentinel transaction of a genesis block: from and to
/// `"Genesis Block"`, of amount zero.
pub open spec fn is_genesis_transaction(transaction: TransactionView) -> bool {
    &&& transaction.sender == "Genesis Block"@
    &&& transaction.receiver == "Genesis Block"@
    &&& transaction.amount == 0
}

/// A genesis block: the sentinel transaction alone, no predecessor, and a
/// nonce of zero, since it is not mined.
pub open spec fn is_genesis(block: BlockView) -> bool {
    &&& block.transactions.len() == 1
    &&& is_genesis_transaction(block.transactions[0])
    &&& block.prev_digest.len() == 0
    &&& block.nonce == 0
}

/// Every block names the digest of the one after it, and the digest of the
/// one before it.
pub open spec fn linked(blocks: Seq<BlockView>) -> bool {
    forall|i: int|
        #![trigger blocks[i]]
        0 <= i < blocks.len() - 1 ==> blocks[i].next_digest == blocks[i + 1].digest && blocks[i
            + 1].prev_digest == blocks[i].digest
}

/// The chain created at `timestamp` around the genesis block `genesis`.
pub open spec fn chain_at(
    timestamp: int,
    name: Seq<char>,
    difficulty: nat,
    payout: nat,
    supply: nat,
    genesis: BlockView,
) -> ChainView {
    ChainView {
        timestamp,
        name,
        difficulty,
        payout,
        supply,
        blocks: seq![genesis],
        pending: Seq::empty(),
    }
}

/// The genesis block whose transaction was created at `transaction_time` and
/// which was itself created at `block_time`.
pub open spec fn genesis_at(transaction_time: int, block_time: int) -> BlockView {
    block_at(
        block_time,
        seq![transaction_at(transaction_time, "Genesis Block"@, "Genesis Block"@, 0)],
    )
}

impl ChainView {
    /// The chain starts with a genesis block, its blocks are linked, the last
    /// one names no successor, every digest is the one that its block's
    /// search left, and every block after the first meets the chain's
    /// difficulty.
    pub open spec fn wf(self) -> bool {
        &&& self.blocks.len() >= 1
        &&& is_genesis(self.blocks[0])
        &&& linked(self.blocks)
        &&& self.blocks.last().next_digest.len() == 0
        &&& forall|i: int| 0 <= i < self.blocks.len() ==> (#[trigger] self.blocks[i]).sealed()
        &&& forall|i: int|
            1 <= i < self.blocks.len() ==> (#[trigger] self.blocks[i]).meets(self.difficulty)
    }

    /// The block that an append at `block_time` starts its search from: the
    /// waiting transactions, in their order.
    pub open spec fn candidate(self, block_time: int) -> BlockView {
        block_at(block_time, self.pending)
    }

    /// The chain with `block` after its tail: the tail names the digest of
    /// `block`, and `block` names the tail's.
    pub open spec fn extended(self, block: BlockView) -> ChainView {
        let tail = self.blocks.last();
        ChainView {
            blocks: self.blocks.drop_last().push(BlockView { next_digest: block.digest, ..tail })
                .push(BlockView { prev_digest: tail.digest, ..block }),
            ..self
        }
    }

    /// The chain after an append: the block created at `block_time` and found
    /// after `count` attempts follows the tail, and the pool holds the payout
    /// created at `payout_time`, and nothing else.
    pub open spec fn appended(
        self,
        block_time: int,
        count: nat,
        payout_time: int,
        payout_address: Seq<char>,
    ) -> ChainView {
        ChainView {
            pending: seq![transaction_at(payout_time, self.name, payout_address, self.payout)],
            ..self.extended(self.candidate(block_time).attempts(count))
        }
    }

    /// A block that is sealed, meets the chain's difficulty and names no
    /// successor can follow the tail of a well-formed chain: the chain stays
    /// well formed, grows by one block, and its earlier blocks stay as they
    /// were but for the link from the old tail.
    pub proof fn lemma_extended_wf(self, block: BlockView)
        requires
            self.wf(),
            block.sealed(),
            block.meets(self.difficulty),
            block.next_digest.len() == 0,
        ensures
            self.extended(block).wf(),
            linked(self.extended(block).blocks),
            self.extended(block).blocks.len() == self.blocks.len() + 1,
            forall|i: int|
                0 <= i < self.blocks.len() - 1 ==> self.extended(block).blocks[i]
                    == #[trigger] self.blocks[i],
    {
        let after = self.extended(block).blocks;
        let kept = self.blocks.len() - 1;
        assert forall|j: int| 0 <= j < after.len() - 1 implies (#[trigger] after[j]).next_digest
            == after[j + 1].digest && after[j + 1].prev_digest == after[j].digest by {
            if j < kept - 1 {
                assert(after[j] == self.blocks[j]);
                assert(after[j + 1] == self.blocks[j + 1]);
            } else if j == kept - 1 {
                assert(after[j] == self.blocks[j]);
                assert(self.blocks[j + 1] == self.blocks.last());
            }
        }
        assert forall|j: int| 0 <= j < after.len() implies (#[trigger] after[j]).sealed() by {
            if j < kept {
                assert(after[j] == self.blocks[j]);
            } else if j == kept {
                assert(self.blocks[j].sealed());
            }
        }
        assert forall|j: int| 1 <= j < after.len() implies (#[trigger] after[j]).meets(
            self.difficulty,
        ) by {
            if j < kept {
                assert(after[j] == self.blocks[j]);
            } else if j == kept {
                assert(self.blocks[j].meets(self.difficulty));
            }
        }
        if kept > 0 {
            assert(after[0] == self.blocks[0]);
        }
    }

    /// An append keeps a chain well formed: every adjacent pair of blocks is
    /// linked, the chain grows by one block, and the pool holds one
    /// transaction, the payout to `payout_address` of the chain's payout.
    pub proof fn lemma_appended_wf(
        self,
        block_time: int,
        count: nat,
        payout_time: int,
        payout_address: Seq<char>,
    )
        requires
            self.wf(),
            self.candidate(block_time).found_after(self.difficulty, count),
        ensures
            self.appended(block_time, count, payout_time, payout_address).wf(),
            linked(self.appended(block_time, count, payout_time, payout_address).blocks),
            self.appended(block_time, count, payout_time, payout_address).blocks.len()
                == self.blocks.len() + 1,
            self.appended(block_time, count, payout_time, payout_address).pending.len() == 1,
            self.appended(block_time, count, payout_time, payout_address).pending[0].receiver
                == payout_address,
            self.appended(block_time, count, payout_time, payout_address).pending[0].amount
                == self.payout,
    {
        let fresh = self.candidate(block_time);
        fresh.lemma_attempts_frame(count);
        self.lemma_extended_wf(fresh.attempts(count));
    }
}

/// An append-only chain of blocks with its pool of waiting transactions.
pub struct BlockChain {
    timestamp: i64,
    chain: Vec<Block>,
    pending_transactions: Vec<Transaction>,
    name: &'static str,
    difficulty: usize,
    payout: u32,
    supply: u32,
}

impl View for BlockChain {
    type V = ChainView;

    closed spec fn view(&self) -> ChainView {
        ChainView {
            timestamp: self.timestamp as int,
            name: self.name@,
            difficulty: self.difficulty as nat,
            payout: self.payout as nat,
            supply: self.supply as nat,
            blocks: block_views(self.chain@),
            pending: transaction_views(self.pending_transactions@),
        }
    }
}

impl BlockChain {
    #[verifier::type_invariant]
    spec fn inv(&self) -> bool {
        self@.wf()
    }

    /// The chain made of the given settings and genesis block, with an empty
    /// pool.
    fn with_genesis(
        timestamp: i64,
        name: &'static str,
        difficulty: usize,
        payout: u32,
        supply: u32,
        genesis: Block,
    ) -> (made: BlockChain)
        requires
            is_genesis(genesis@),
            genesis@.sealed(),
            genesis@.next_digest.len() == 0,
        ensures
            made@ == chain_at(
                timestamp as int,
                name@,
                difficulty as nat,
                payout as nat,
                supply as nat,
                genesis@,
            ),
            made@.wf(),
    {
        let ghost first = genesis@;
        let chain = vec![genesis];
        let pending_transactions: Vec<Transaction> = Vec::new();
        assert(block_views(chain@) =~= seq![first]);
        assert(transaction_views(pending_transactions@) =~= Seq::<TransactionView>::empty());
        BlockChain { timestamp, chain, pending_transactions, name, difficulty, payout, supply }
    }

    /// The genesis block whose transaction was created at `transaction_time`
    /// and which was itself created at `block_time`. It is not mined.
    fn genesis_block_at(transaction_time: i64, block_time: i64) -> (genesis: Block)
        ensures
            genesis@ == genesis_at(transaction_time as int, block_time as int),
            is_genesis(genesis@),
            genesis@.sealed(),
            genesis@.next_digest.len() == 0,
    {
        let transaction = Transaction::at(transaction_time, "Genesis Block", "Genesis Block", 0);
        let ghost sentinel = transaction@;
        let transactions = vec![transaction];
        assert(transaction_views(transactions@) =~= seq![sentinel]);
        Block::at(block_time, transactions)
    }

    /// A genesis block created now: the sentinel transaction, wrapped in a
    /// block that is not mined.
    fn generate_genesis_block() -> (genesis: Block)
        ensures
            genesis@ == genesis_at(genesis@.transactions[0].timestamp, genesis@.timestamp),
            is_genesis(genesis@),
            genesis@.sealed(),
            genesis@.next_digest.len() == 0,
    {
        let transaction = Transaction::new("Genesis Block", "Genesis Block", 0);
        let ghost sentinel = transaction@;
        let transactions = vec![transaction];
        assert(transaction_views(transactions@) =~= seq![sentinel]);
        Block::new(transactions)
    }

    /// The chain created at `timestamp`, whose genesis block and sentinel
    /// transaction are created at that instant too.
    pub fn at(timestamp: i64, name: &'static str, difficulty: usize, payout: u32, supply: u32) -> (made:
        BlockChain)
        ensures
            made@ == chain_at(
                timestamp as int,
                name@,
                difficulty as nat,
                payout as nat,
                supply as nat,
                genesis_at(timestamp as int, timestamp as int),
            ),
            made@.wf(),
    {
        let genesis = BlockChain::genesis_block_at(timestamp, timestamp);
        BlockChain::with_genesis(timestamp, name, difficulty, payout, supply, genesis)
    }

    /// A chain created now. It holds exactly one block, the genesis block,
    /// and an empty pool; the three instants in it are those read from the
    /// clock, whatever they are.
    pub fn new(name: &'static str, difficulty: usize, payout: u32, supply: u32) -> (made:
        BlockChain)
        ensures
            made@ == chain_at(
                made@.timestamp,
                name@,
                difficulty as nat,
                payout as nat,
                supply as nat,
                genesis_at(made@.blocks[0].transactions[0].timestamp, made@.blocks[0].timestamp),
            ),
            made@.blocks.len() == 1,
            made@.blocks[0].transactions.len() == 1,
            is_genesis_transaction(made@.blocks[0].transactions[0]),
            made@.pending.len() == 0,
            made@.wf(),
    {
        let timestamp = now();
        let genesis = BlockChain::generate_genesis_block();
        BlockChain::with_genesis(timestamp, name, difficulty, payout, supply, genesis)
    }

    /// The settings of the chain.
    pub fn get_data(&self) -> (data: BlockChainData)
        ensures
            data.timestamp == self@.timestamp,
            data.name@ == self@.name,
            data.difficulty == self@.difficulty,
            data.payout == self@.payout,
            data.supply == self@.supply,
            self@.wf(),
    {
        proof {
            use_type_invariant(self);
        }
        BlockChainData {
            timestamp: self.timestamp,
            name: self.name,
            supply: self.supply,
            difficulty: self.difficulty,
            payout: self.payout,
        }
    }

    /// A copy of the blocks, from the genesis block on.
    pub fn get_chain(&self) -> (blocks: Vec<Block>)
        ensures
            block_views(blocks@) == self@.blocks,
            self@.wf(),
    {
        proof {
            use_type_invariant(self);
        }
        let blocks = self.chain.clone();
        assert(block_views(blocks@) =~= block_views(self.chain@));
        blocks
    }

    /// A copy of the transactions that wait for the next block, in the order
    /// in which they came.
    pub fn get_pending_transactions(&self) -> (pending: Vec<Transaction>)
        ensures
            transaction_views(pending@) == self@.pending,
            self@.wf(),
    {
        proof {
            use_type_invariant(self);
        }
        let pending = self.pending_transactions.clone();
        assert(pending@ =~= self.pending_transactions@);
        pending
    }

    /// A copy of the last block, or `EmptyChain` where there is none. A
    /// well-formed chain has one.
    pub fn get_last_block(&self) -> (tail: Result<Block, ChainError>)
        ensures
            match tail {
                Ok(block) => self@.blocks.len() > 0 && block@ == self@.blocks.last(),
                Err(error) => self@.blocks.len() == 0 && error == ChainError::EmptyChain,
            },
            self@.wf(),
    {
        proof {
            use_type_invariant(self);
        }
        let len = self.chain.len();
        if len == 0 {
            Err(ChainError::EmptyChain)
        } else {
            Ok(self.chain[len - 1].clone())
        }
    }

    /// A block created now around a copy of the waiting transactions.
    fn create_block(&self) -> (made: Block)
        ensures
            made@ == self@.candidate(made@.timestamp),
    {
        let pending = self.pending_transactions.clone();
        assert(pending@ =~= self.pending_transactions@);
        Block::new(pending)
    }

    /// Replaces the tail by `last_block` and lets `new_block` follow it.
    fn update_chain(&mut self, last_block: Block, new_block: Block)
        requires
            old(self)@.blocks.len() > 0,
            last_block@ == (BlockView {
                next_digest: new_block@.digest,
                ..old(self)@.blocks.last()
            }),
            new_block@.prev_digest == last_block@.digest,
            new_block@.next_digest.len() == 0,
            new_block@.sealed(),
            new_block@.meets(old(self)@.difficulty),
        ensures
            final(self)@ == old(self)@.extended(new_block@),
    {
        proof {
            use_type_invariant(&*self);
            self@.lemma_extended_wf(new_block@);
        }
        let kept = self.chain.len() - 1;
        let mut blocks: Vec<Block> = Vec::new();
        let mut i: usize = 0;
        while i < kept
            invariant
                i <= kept,
                kept == self.chain.len() - 1,
                blocks.len() == i,
                forall|j: int| 0 <= j < i ==> blocks@[j]@ == self.chain@[j]@,
            decreases kept - i,
        {
            blocks.push(self.chain[i].clone());
            i += 1;
        }
        blocks.push(last_block);
        blocks.push(new_block);
        assert(block_views(blocks@) =~= self@.extended(new_block@).blocks);
        self.chain = blocks;
    }

    /// Mines `new_block` at the chain's difficulty, links it to the tail
    /// `last_block`, lets it follow the tail and empties the pool. Where the
    /// search finds nothing, the chain stays as it is.
    fn append_block(&mut self, last_block: Block, new_block: Block) -> (result: Result<
        (),
        ChainError,
    >)
        requires
            old(self)@.blocks.len() > 0,
            last_block@ == old(self)@.blocks.last(),
            new_block@ == old(self)@.candidate(new_block@.timestamp),
        ensures
            match result {
                Ok(()) => {
                    let mined = final(self)@.blocks.last();
                    &&& old(self)@.difficulty <= DIGEST_LEN
                    &&& new_block@.found_after(old(self)@.difficulty, mined.nonce)
                    &&& final(self)@.blocks.len() == old(self)@.blocks.len() + 1
                    &&& final(self)@ == (ChainView {
                        pending: Seq::empty(),
                        ..old(self)@.extended(new_block@.attempts(mined.nonce))
                    })
                },
                Err(error) => {
                    &&& error == ChainError::NoDigestFound
                    &&& old(self)@.difficulty > 0
                    &&& old(self)@.difficulty > DIGEST_LEN || new_block@.exhausted(
                        old(self)@.difficulty,
                    )
                    &&& final(self)@ == old(self)@
                },
            },
    {
        proof {
            use_type_invariant(&*self);
        }
        let ghost fresh = new_block@;
        let ghost tail = last_block@;
        let mut last_block = last_block;
        let mut new_block = new_block;
        if !new_block.mine(self.difficulty) {
            return Err(ChainError::NoDigestFound);
        }
        last_block.set_next_hash(new_block.get_hash());
        new_block.set_prev_hash(last_block.get_hash());
        proof {
            let count = new_block@.nonce;
            fresh.lemma_attempts_frame(count);
            assert(new_block@ == (BlockView { prev_digest: tail.digest, ..fresh.attempts(count) }));
            assert(new_block@.transactions == fresh.transactions);
            assert(new_block@.sealed());
        }
        self.update_chain(last_block, new_block);
        self.reset_pending_transactions();
        Ok(())
    }

    /// Appends a block created at `block_time` around the waiting
    /// transactions, then pays the miner with a payout created at
    /// `payout_time`.
    ///
    /// The block is mined at the chain's difficulty and linked to the tail:
    /// the tail names its digest, and it names the tail's. The pool is then
    /// emptied, and the payout to `payout_address` is put into it. Fails with
    /// `EmptyChain` where the chain holds no block, and with
    /// `NoDigestFound` where the search finds no digest that meets the
    /// chain's difficulty; the chain then stays as it is.
    pub fn add_block_at(
        &mut self,
        payout_address: &'static str,
        block_time: i64,
        payout_time: i64,
    ) -> (result: Result<(), ChainError>)
        ensures
            match result {
                Ok(()) => {
                    let count = final(self)@.blocks.last().nonce;
                    &&& old(self)@.blocks.len() > 0
                    &&& old(self)@.difficulty <= DIGEST_LEN
                    &&& old(self)@.candidate(block_time as int).found_after(
                        old(self)@.difficulty,
                        count,
                    )
                    &&& final(self)@ == old(self)@.appended(
                        block_time as int,
                        count,
                        payout_time as int,
                        payout_address@,
                    )
                    &&& final(self)@.blocks.len() == old(self)@.blocks.len() + 1
                    &&& final(self)@.pending.len() == 1
                    &&& final(self)@.pending[0].receiver == payout_address@
                    &&& final(self)@.pending[0].amount == old(self)@.payout
                },
                Err(ChainError::EmptyChain) => {
                    &&& old(self)@.blocks.len() == 0
                    &&& final(self)@ == old(self)@
                },
                Err(ChainError::NoDigestFound) => {
                    &&& old(self)@.blocks.len() > 0
                    &&& old(self)@.difficulty > DIGEST_LEN || old(self)@.candidate(
                        block_time as int,
                    ).exhausted(old(self)@.difficulty)
                    &&& final(self)@ == old(self)@
                },
            },
            old(self)@.blocks.len() > 0 && old(self)@.difficulty == 0 ==> result is Ok,
            linked(final(self)@.blocks),
            final(self)@.wf(),
    {
        let last_block = match self.get_last_block() {
            Ok(block) => block,
            Err(error) => {
                proof {
                    use_type_invariant(&*self);
                }
                return Err(error);
            },
        };
        let pending = self.pending_transactions.clone();
        assert(pending@ =~= self.pending_transactions@);
        let new_block = Block::at(block_time, pending);
        let result = match self.append_block(last_block, new_block) {
            Ok(()) => {
                let payout = Transaction::at(payout_time, self.name, payout_address, self.payout);
                self.add_pending_transaction(payout);
                assert(final(self)@.pending =~= seq![payout@]) by {
                    assert(self@.pending =~= seq![payout@]);
                }
                Ok(())
            },
            Err(error) => Err(error),
        };
        proof {
            use_type_invariant(&*self);
        }
        result
    }

    /// Appends a block created now around the waiting transactions, then
    /// pays the miner with a payout created once the block is in place.
    ///
    /// The block is mined at the chain's difficulty and linked to the tail:
    /// the tail names its digest, and it names the tail's. The pool is then
    /// emptied, and the payout to `payout_address` is put into it. The two
    /// instants are those read from the clock, whatever they are. Fails with
    /// `EmptyChain` where the chain holds no block, and with
    /// `NoDigestFound` where the search finds no digest that meets the
    /// chain's difficulty; the chain then stays as it is. At difficulty zero the search always succeeds.
    pub fn add_block(&mut self, payout_address: &'static str) -> (result: Result<(), ChainError>)
        ensures
            match result {
                Ok(()) => {
                    let mined = final(self)@.blocks.last();
                    &&& old(self)@.blocks.len() > 0
                    &&& old(self)@.difficulty <= DIGEST_LEN
                    &&& final(self)@.pending.len() == 1
                    &&& old(self)@.candidate(mined.timestamp).found_after(
                        old(self)@.difficulty,
                        mined.nonce,
                    )
                    &&& final(self)@ == old(self)@.appended(
                        mined.timestamp,
                        mined.nonce,
                        final(self)@.pending[0].timestamp,
                        payout_address@,
                    )
                    &&& final(self)@.blocks.len() == old(self)@.blocks.len() + 1
                    &&& final(self)@.pending[0].receiver == payout_address@
                    &&& final(self)@.pending[0].amount == old(self)@.payout
                },
                Err(ChainError::EmptyChain) => {
                    &&& old(self)@.blocks.len() == 0
                    &&& final(self)@ == old(self)@
                },
                Err(ChainError::NoDigestFound) => {
                    &&& old(self)@.blocks.len() > 0
                    &&& old(self)@.difficulty > 0
                    &&& old(self)@.difficulty > DIGEST_LEN || exists|block_time: int| #[trigger]
                        old(self)@.candidate(block_time).exhausted(old(self)@.difficulty)
                    &&& final(self)@ == old(self)@
                },
            },
            old(self)@.blocks.len() > 0 && old(self)@.difficulty == 0 ==> result is Ok,
            linked(final(self)@.blocks),
            final(self)@.wf(),
    {
        let last_block = match self.get_last_block() {
            Ok(block) => block,
            Err(error) => {
                proof {
                    use_type_invariant(&*self);
                }
                return Err(error);
            },
        };
        let new_block = self.create_block();
        let ghost fresh = new_block@;
        let ghost before = self@;
        let result = match self.append_block(last_block, new_block) {
            Ok(()) => {
                self.pay_miner(payout_address);
                proof {
                    let count = self@.blocks.last().nonce;
                    fresh.lemma_attempts_frame(count);
                    assert(self@.pending =~= seq![self@.pending[0]]);
                }
                Ok(())
            },
            Err(error) => {
                assert(before.difficulty <= DIGEST_LEN ==> before.candidate(
                    fresh.timestamp,
                ).exhausted(before.difficulty));
                Err(error)
            },
        };
        proof {
            use_type_invariant(&*self);
        }
        result
    }

    /// Empties the pool.
    fn reset_pending_transactions(&mut self)
        ensures
            final(self)@ == (ChainView { pending: Seq::empty(), ..old(self)@ }),
    {
        proof {
            use_type_invariant(&*self);
        }
        let pending: Vec<Transaction> = Vec::new();
        assert(transaction_views(pending@) =~= Seq::<TransactionView>::empty());
        self.pending_transactions = pending;
    }

    /// A payout created now: from the chain to `payout_address`, of the
    /// chain's payout.
    fn create_payout_transaction(&self, payout_address: &'static str) -> (made: Transaction)
        ensures
            made@ == transaction_at(
                made@.timestamp,
                self@.name,
                payout_address@,
                self@.payout,
            ),
    {
        Transaction::new(self.name, payout_address, self.payout)
    }

    /// Adds a payout created now to the pool.
    fn pay_miner(&mut self, payout_address: &'static str)
        ensures
            final(self)@.pending.len() == old(self)@.pending.len() + 1,
            final(self)@ == (ChainView {
                pending: old(self)@.pending.push(
                    transaction_at(
                        final(self)@.pending.last().timestamp,
                        old(self)@.name,
                        payout_address@,
                        old(self)@.payout,
                    ),
                ),
                ..old(self)@
            }),
    {
        let payout_transaction = self.create_payout_transaction(payout_address);
        self.add_pending_transaction(payout_transaction);
    }

    /// Adds `transaction` to the end of the pool. Nothing is checked: every
    /// transaction is accepted.
    pub fn add_pending_transaction(&mut self, transaction: Transaction)
        ensures
            final(self)@ == (ChainView {
                pending: old(self)@.pending.push(transaction@),
                ..old(self)@
            }),
            final(self)@.wf(),
    {
        proof {
            use_type_invariant(&*self);
        }
        let mut pending = self.pending_transactions.clone();
        assert(pending@ =~= self.pending_transactions@);
        pending.push(transaction);
        assert(transaction_views(pending@) =~= transaction_views(self.pending_transactions@).push(
            transaction@,
        ));
        self.pending_transactions = pending;
    }
}

} // verus!
