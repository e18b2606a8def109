//! The policy calendar: pure functions that map block heights to epochs,
//! batches and block kinds, for a fixed chain configuration.

use vstd::prelude::*;

verus! {

/// The chain configuration from which the whole calendar is derived.
#[derive(Clone, Copy, Debug)]
pub struct Policy {
    /// Length of a batch including the macro block.
    pub blocks_per_batch: u32,
    /// How many batches constitute an epoch.
    pub batches_per_epoch: u16,
    /// Tendermint's initial timeout, in milliseconds.
    pub tendermint_timeout_init: u64,
    /// Tendermint's timeout delta, in milliseconds.
    pub tendermint_timeout_delta: u64,
    /// Maximum size of accounts trie chunks.
    pub state_chunks_max_size: u32,
    /// Number of blocks a transaction is valid with Albatross consensus.
    pub transaction_validity_window: u32,
    /// Genesis block number.
    pub genesis_block_number: u32,
}

impl Policy {
    /// Number of available validator slots.
    pub const SLOTS: u16 = 512;

    /// `ceil(2 * SLOTS / 3)`: the slots needed for a macro block or a skip block.
    pub const TWO_F_PLUS_ONE: u16 = (2 * 512 + 3 - 1) / 3;

    /// `ceil(SLOTS / 3)`: the slots that guarantee at least one honest slot.
    pub const F_PLUS_ONE: u16 = (512 + 3 - 1) / 3;

    /// The number of epochs a validator is put in jail for.
    pub const JAIL_EPOCHS: u32 = 8;

    /// Total supply in units.
    pub const TOTAL_SUPPLY: u64 = 2_100_000_000_000_000;

    /// A configuration the calendar can be computed with: non-empty batches and
    /// epochs, and an epoch length that fits a block number.
    pub open spec fn wf(self) -> bool {
        &&& self.blocks_per_batch >= 1
        &&& self.batches_per_epoch >= 1
        &&& self.blocks_per_batch * self.batches_per_epoch <= u32::MAX
    }

    /// Blocks per batch, `B`.
    pub open spec fn b(self) -> int {
        self.blocks_per_batch as int
    }

    /// Blocks per epoch, `B * E`.
    pub open spec fn be(self) -> int {
        self.blocks_per_batch * self.batches_per_epoch
    }

    /// Genesis height, `G`.
    pub open spec fn g(self) -> int {
        self.genesis_block_number as int
    }

    /// `ceil(h - G, len)` for heights after genesis, zero otherwise.
    pub open spec fn ceil_count(self, h: int, len: int) -> int {
        if h <= self.g() {
            0
        } else {
            (h - self.g() + len - 1) / len
        }
    }

    /// The position of a height inside its period of `len` blocks, where the
    /// period's closing block has position `len - 1`; heights before genesis
    /// are their own position.
    pub open spec fn index_in(self, h: int, len: int) -> int {
        if h < self.g() {
            h
        } else {
            (h - self.g() + len - 1) % len
        }
    }

    /// The epoch a height belongs to.
    pub open spec fn epoch_of(self, h: int) -> int {
        self.ceil_count(h, self.be())
    }

    /// The batch a height belongs to.
    pub open spec fn batch_of(self, h: int) -> int {
        self.ceil_count(h, self.b())
    }

    /// Whether a height holds a macro block: genesis and every `B`-th block after it.
    pub open spec fn is_macro(self, h: int) -> bool {
        h >= self.g() && (h - self.g()) % self.b() == 0
    }

    /// Whether a height holds an election block: genesis and every `B * E`-th block after it.
    pub open spec fn is_election(self, h: int) -> bool {
        h >= self.g() && (h - self.g()) % self.be() == 0
    }

    /// The first height after `h`, at or after genesis, that closes a period of `len` blocks.
    pub open spec fn closing_after(self, h: int, len: int) -> int {
        if h < self.g() {
            self.g()
        } else {
            ((h - self.g()) / len + 1) * len + self.g()
        }
    }

    /// The last height at or before `h` that closes a period of `len` blocks.
    pub open spec fn closing_at(self, h: int, len: int) -> int {
        (h - self.g()) / len * len + self.g()
    }

    /// The last height strictly before `h` that closes a period of `len` blocks.
    pub open spec fn closing_before(self, h: int, len: int) -> int {
        (h - self.g() - 1) / len * len + self.g()
    }

    #[inline]
    fn get_blocks_per_epoch(&self) -> (r: u32)
        requires
            self.wf(),
        ensures
            r == self.be(),
            r >= self.blocks_per_batch,
    {
        proof {
            assert(self.blocks_per_batch * self.batches_per_epoch >= self.blocks_per_batch * 1)
                by (nonlinear_arith)
                requires
                    self.batches_per_epoch >= 1,
                    self.blocks_per_batch >= 1,
            ;
        }
        self.blocks_per_batch * self.batches_per_epoch as u32
    }

    #[inline]
    fn get_genesis_block_number(&self) -> (r: u32)
        ensures
            r == self.genesis_block_number,
    {
        self.genesis_block_number
    }

    /// Returns the epoch number at a given block number (height).
    pub fn epoch_at(&self, block_number: u32) -> (r: u32)
        requires
            self.wf(),
        ensures
            r == self.epoch_of(block_number as int),
    {
        let genesis = self.get_genesis_block_number();
        if block_number <= genesis {
            0
        } else {
            let n = block_number - genesis;
            let blocks_per_epoch = self.get_blocks_per_epoch();
            proof {
                lemma_ceil_div_shift(n as int, blocks_per_epoch as int);
            }
            (n - 1) / blocks_per_epoch + 1
        }
    }

    /// Returns the epoch index at a given block number: the position of the block inside its
    /// epoch, where the first block of an epoch has index 0 and its election block `B * E - 1`.
    pub fn epoch_index_at(&self, block_number: u32) -> (r: u32)
        requires
            self.wf(),
        ensures
            r == self.index_in(block_number as int, self.be()),
    {
        let blocks_per_epoch = self.get_blocks_per_epoch();
        self.index_at(block_number, blocks_per_epoch)
    }

    /// Returns the batch number at a given block number (height).
    pub fn batch_at(&self, block_number: u32) -> (r: u32)
        requires
            self.wf(),
        ensures
            r == self.batch_of(block_number as int),
    {
        let genesis = self.get_genesis_block_number();
        if block_number <= genesis {
            0
        } else {
            let n = block_number - genesis;
            let blocks_per_batch = self.blocks_per_batch;
            proof {
                lemma_ceil_div_shift(n as int, blocks_per_batch as int);
            }
            (n - 1) / blocks_per_batch + 1
        }
    }

    /// Returns the batch index at a given block number: the position of the block inside its
    /// batch, where the first block of a batch has index 0 and its macro block `B - 1`.
    pub fn batch_index_at(&self, block_number: u32) -> (r: u32)
        requires
            self.wf(),
        ensures
            r == self.index_in(block_number as int, self.b()),
    {
        self.index_at(block_number, self.blocks_per_batch)
    }

    fn index_at(&self, block_number: u32, len: u32) -> (r: u32)
        requires
            len >= 1,
        ensures
            r == self.index_in(block_number as int, len as int),
    {
        let genesis = self.get_genesis_block_number();
        if block_number < genesis {
            block_number
        } else if block_number == genesis {
            proof {
                vstd::arithmetic::div_mod::lemma_small_mod((len - 1) as nat, len as nat);
            }
            len - 1
        } else {
            let n = block_number - genesis;
            proof {
                lemma_ceil_div_shift(n as int, len as int);
            }
            (n - 1) % len
        }
    }

    /// The first closing height of a period of `len` blocks after `block_number`.
    fn closing_block_after(&self, block_number: u32, len: u32) -> (r: u32)
        requires
            len >= 1,
            self.closing_after(block_number as int, len as int) <= u32::MAX,
        ensures
            r == self.closing_after(block_number as int, len as int),
    {
        let genesis = self.get_genesis_block_number();
        if block_number < genesis {
            genesis
        } else {
            let n = block_number - genesis;
            let q = n / len;
            proof {
                assert((q + 1) <= (q + 1) * len) by (nonlinear_arith)
                    requires
                        len >= 1,
                        q >= 0,
                ;
            }
            ((q + 1) * len) + genesis
        }
    }

    /// The last closing height of a period of `len` blocks at or before `block_number`.
    fn closing_block_at(&self, block_number: u32, len: u32) -> (r: u32)
        requires
            len >= 1,
            block_number >= self.genesis_block_number,
        ensures
            r == self.closing_at(block_number as int, len as int),
            r <= block_number,
    {
        let n = block_number - self.genesis_block_number;
        proof {
            lemma_round_down(n as int, len as int);
        }
        (n / len * len) + self.genesis_block_number
    }

    /// The last closing height of a period of `len` blocks strictly before `block_number`.
    fn closing_block_before(&self, block_number: u32, len: u32) -> (r: u32)
        requires
            len >= 1,
            block_number > self.genesis_block_number,
        ensures
            r == self.closing_before(block_number as int, len as int),
            r < block_number,
    {
        let n = block_number - self.genesis_block_number;
        proof {
            lemma_round_down(n - 1, len as int);
        }
        ((n - 1) / len * len) + self.genesis_block_number
    }

    /// Returns the number (height) of the next election macro block after a given block number.
    pub fn election_block_after(&self, block_number: u32) -> (r: u32)
        requires
            self.wf(),
            self.closing_after(block_number as int, self.be()) <= u32::MAX,
        ensures
            r == self.closing_after(block_number as int, self.be()),
    {
        let blocks_per_epoch = self.get_blocks_per_epoch();
        self.closing_block_after(block_number, blocks_per_epoch)
    }

    /// Returns the height of the election macro block before a given block number. If the
    /// given block number is an election macro block, it returns the one before it; genesis is
    /// its own predecessor.
    pub fn election_block_before(&self, block_number: u32) -> (r: u32)
        requires
            self.wf(),
            block_number >= self.genesis_block_number,
        ensures
            block_number == self.genesis_block_number ==> r == block_number,
            block_number > self.genesis_block_number ==> r == self.closing_before(
                block_number as int,
                self.be(),
            ),
    {
        let genesis = self.get_genesis_block_number();
        if block_number == genesis {
            genesis
        } else {
            let blocks_per_epoch = self.get_blocks_per_epoch();
            self.closing_block_before(block_number, blocks_per_epoch)
        }
    }

    /// Returns the height of the last election macro block at a given block number. If the given
    /// block number is an election macro block, then it returns that block number.
    pub fn last_election_block(&self, block_number: u32) -> (r: u32)
        requires
            self.wf(),
            block_number >= self.genesis_block_number,
        ensures
            r == self.closing_at(block_number as int, self.be()),
    {
        let blocks_per_epoch = self.get_blocks_per_epoch();
        self.closing_block_at(block_number, blocks_per_epoch)
    }

    /// Returns whether the block at a given block number is an election macro block; there is
    /// none before genesis.
    pub fn is_election_block_at(&self, block_number: u32) -> (r: bool)
        requires
            self.wf(),
        ensures
            r == self.is_election(block_number as int),
    {
        if block_number < self.get_genesis_block_number() {
            return false;
        }
        let blocks_per_epoch = self.get_blocks_per_epoch();
        proof {
            lemma_closing_index(block_number - self.genesis_block_number, self.be());
        }
        self.epoch_index_at(block_number) == blocks_per_epoch - 1
    }

    /// Returns the number (height) of the next macro block after a given block number.
    pub fn macro_block_after(&self, block_number: u32) -> (r: u32)
        requires
            self.wf(),
            self.closing_after(block_number as int, self.b()) <= u32::MAX,
        ensures
            r == self.closing_after(block_number as int, self.b()),
    {
        self.closing_block_after(block_number, self.blocks_per_batch)
    }

    /// Returns the height of the macro block before a given block number. If the given block
    /// number is a macro block, it returns the macro block before it.
    pub fn macro_block_before(&self, block_number: u32) -> (r: u32)
        requires
            self.wf(),
            block_number > self.genesis_block_number,
        ensures
            r == self.closing_before(block_number as int, self.b()),
    {
        self.closing_block_before(block_number, self.blocks_per_batch)
    }

    /// Returns the height of the last macro block at a given block number. If the given block
    /// number is a macro block, then it returns that block number.
    pub fn last_macro_block(&self, block_number: u32) -> (r: u32)
        requires
            self.wf(),
            block_number >= self.genesis_block_number,
        ensures
            r == self.closing_at(block_number as int, self.b()),
    {
        self.closing_block_at(block_number, self.blocks_per_batch)
    }

    /// Returns whether the block at a given block number is a macro block.
    pub fn is_macro_block_at(&self, block_number: u32) -> (r: bool)
        requires
            self.wf(),
        ensures
            r == self.is_macro(block_number as int),
    {
        if block_number < self.get_genesis_block_number() {
            false
        } else {
            proof {
                lemma_closing_index(block_number - self.genesis_block_number, self.b());
            }
            self.batch_index_at(block_number) == self.blocks_per_batch - 1
        }
    }

    /// Returns whether the block at a given block number is a micro block.
    pub fn is_micro_block_at(&self, block_number: u32) -> (r: bool)
        requires
            self.wf(),
        ensures
            r == (block_number >= self.genesis_block_number && !self.is_macro(
                block_number as int,
            )),
    {
        if block_number < self.get_genesis_block_number() {
            false
        } else {
            proof {
                lemma_closing_index(block_number - self.genesis_block_number, self.b());
            }
            self.batch_index_at(block_number) != self.blocks_per_batch - 1
        }
    }

    /// Returns the block number of the first block of the given epoch (always a micro
    /// block), or `None` when it does not fit a block number.
    pub fn first_block_of(&self, epoch: u32) -> (r: Option<u32>)
        requires
            self.wf(),
            epoch != 0,
        ensures
            ({
                let h = (epoch - 1) * self.be() + 1 + self.g();
                r == if h <= u32::MAX { Some(h as u32) } else { None::<u32> }
            }),
    {
        let blocks_per_epoch = self.get_blocks_per_epoch();
        self.first_block_of_period(epoch, blocks_per_epoch)
    }

    /// Returns the block number of the first block of the given batch (always a micro
    /// block), or `None` when it does not fit a block number.
    pub fn first_block_of_batch(&self, batch: u32) -> (r: Option<u32>)
        requires
            self.wf(),
            batch != 0,
        ensures
            ({
                let h = (batch - 1) * self.b() + 1 + self.g();
                r == if h <= u32::MAX { Some(h as u32) } else { None::<u32> }
            }),
    {
        self.first_block_of_period(batch, self.blocks_per_batch)
    }

    fn first_block_of_period(&self, period: u32, len: u32) -> (r: Option<u32>)
        requires
            period != 0,
        ensures
            ({
                let h = (period - 1) * len + 1 + self.g();
                r == if h <= u32::MAX { Some(h as u32) } else { None::<u32> }
            }),
    {
        match (period - 1).checked_mul(len) {
            None => None,
            Some(x) => match x.checked_add(1) {
                None => None,
                Some(y) => y.checked_add(self.genesis_block_number),
            },
        }
    }

    /// Returns the block number of the election macro block of the given epoch (its last
    /// block), or `None` when it does not fit a block number.
    pub fn election_block_of(&self, epoch: u32) -> (r: Option<u32>)
        requires
            self.wf(),
        ensures
            ({
                let h = epoch * self.be() + self.g();
                r == if h <= u32::MAX { Some(h as u32) } else { None::<u32> }
            }),
    {
        let blocks_per_epoch = self.get_blocks_per_epoch();
        self.last_block_of_period(epoch, blocks_per_epoch)
    }

    /// Returns the block number of the macro block (checkpoint or election) of the given
    /// batch (its last block), or `None` when it does not fit a block number.
    pub fn macro_block_of(&self, batch: u32) -> (r: Option<u32>)
        requires
            self.wf(),
        ensures
            ({
                let h = batch * self.b() + self.g();
                r == if h <= u32::MAX { Some(h as u32) } else { None::<u32> }
            }),
    {
        self.last_block_of_period(batch, self.blocks_per_batch)
    }

    fn last_block_of_period(&self, period: u32, len: u32) -> (r: Option<u32>)
        ensures
            ({
                let h = period * len + self.g();
                r == if h <= u32::MAX { Some(h as u32) } else { None::<u32> }
            }),
    {
        match period.checked_mul(len) {
            None => None,
            Some(x) => x.checked_add(self.genesis_block_number),
        }
    }

    /// Returns whether the block at a given block number lies in the first batch of its epoch;
    /// heights before genesis lie in no epoch.
    pub fn first_batch_of_epoch(&self, block_number: u32) -> (r: bool)
        requires
            self.wf(),
        ensures
            r == (block_number >= self.genesis_block_number && self.index_in(
                block_number as int,
                self.be(),
            ) < self.b()),
    {
        if block_number < self.get_genesis_block_number() {
            return false;
        }
        self.epoch_index_at(block_number) < self.blocks_per_batch
    }

    /// Returns the height of the last block of the reporting window of a given block number.
    pub fn last_block_of_reporting_window(&self, block_number: u32) -> (r: u32)
        requires
            self.wf(),
            block_number + self.be() <= u32::MAX,
        ensures
            r == block_number + self.be(),
    {
        block_number + self.get_blocks_per_epoch()
    }

    /// Returns the first block after the reporting window of a given block number has ended.
    pub fn block_after_reporting_window(&self, block_number: u32) -> (r: u32)
        requires
            self.wf(),
            block_number + self.be() + 1 <= u32::MAX,
        ensures
            r == block_number + self.be() + 1,
    {
        self.last_block_of_reporting_window(block_number) + 1
    }

    /// Returns the first block after the jail period of a given block number has ended.
    pub fn block_after_jail(&self, block_number: u32) -> (r: u32)
        requires
            self.wf(),
            block_number + self.be() * 8 + 1 <= u32::MAX,
        ensures
            r == block_number + self.be() * 8 + 1,
    {
        block_number + self.get_blocks_per_epoch() * Self::JAIL_EPOCHS + 1
    }

    /// Number of blocks a transaction stays valid.
    pub fn transaction_validity_window(&self) -> (r: u32)
        ensures
            r == self.transaction_validity_window,
    {
        self.transaction_validity_window
    }

    /// How many batches constitute an epoch.
    pub fn batches_per_epoch(&self) -> (r: u16)
        ensures
            r == self.batches_per_epoch,
    {
        self.batches_per_epoch
    }

    /// Length of a batch including the macro block.
    pub fn blocks_per_batch(&self) -> (r: u32)
        ensures
            r == self.blocks_per_batch,
    {
        self.blocks_per_batch
    }

    /// Length of an epoch including its election block.
    pub fn blocks_per_epoch(&self) -> (r: u32)
        requires
            self.wf(),
        ensures
            r == self.be(),
            r >= self.blocks_per_batch,
    {
        self.get_blocks_per_epoch()
    }

    /// Height of the genesis block.
    pub fn genesis_block_number(&self) -> (r: u32)
        ensures
            r == self.genesis_block_number,
    {
        self.get_genesis_block_number()
    }

    /// Tendermint's initial timeout, in milliseconds.
    pub fn tendermint_timeout_init(&self) -> (r: u64)
        ensures
            r == self.tendermint_timeout_init,
    {
        self.tendermint_timeout_init
    }

    /// Tendermint's timeout delta, in milliseconds.
    pub fn tendermint_timeout_delta(&self) -> (r: u64)
        ensures
            r == self.tendermint_timeout_delta,
    {
        self.tendermint_timeout_delta
    }

    /// Maximum size of accounts trie chunks.
    pub fn state_chunks_max_size(&self) -> (r: u32)
        ensures
            r == self.state_chunks_max_size,
    {
        self.state_chunks_max_size
    }

    /// Returns the policy held by `cell`; an empty cell is first set to `policy`. Once set, the
    /// cell never changes.
    pub fn get_or_init(cell: &mut Option<Policy>, policy: Policy) -> (r: Policy)
        ensures
            match *old(cell) {
                Some(p) => r == p && *final(cell) == *old(cell),
                None => r == policy && *final(cell) == Some(policy),
            },
    {
        match cell {
            Some(p) => *p,
            None => {
                *cell = Some(policy);
                policy
            },
        }
    }

    /// The configuration that unit tests use: batches of 32 blocks, epochs of 4 batches.
    pub fn test_policy() -> (r: Policy)
        ensures
            r == (Policy {
                blocks_per_batch: 32,
                batches_per_epoch: 4,
                tendermint_timeout_init: 1000,
                tendermint_timeout_delta: 1000,
                state_chunks_max_size: 2,
                transaction_validity_window: 64,
                genesis_block_number: 0,
            }),
            r.wf(),
    {
        Policy {
            blocks_per_batch: 32,
            batches_per_epoch: 4,
            tendermint_timeout_init: 1000,
            tendermint_timeout_delta: 1000,
            state_chunks_max_size: 2,
            transaction_validity_window: 64,
            genesis_block_number: 0,
        }
    }
}

impl Default for Policy {
    /// The main network's configuration: batches of 60 blocks, epochs of 360 batches.
    fn default() -> (r: Policy)
        ensures
            r == (Policy {
                blocks_per_batch: 60,
                batches_per_epoch: 360,
                tendermint_timeout_init: 1000,
                tendermint_timeout_delta: 1000,
                state_chunks_max_size: 200,
                transaction_validity_window: 7200,
                genesis_block_number: 0,
            }),
            r.wf(),
    {
        Policy {
            blocks_per_batch: 60,
            batches_per_epoch: 360,
            tendermint_timeout_init: 1000,
            tendermint_timeout_delta: 1000,
            state_chunks_max_size: 200,
            transaction_validity_window: 7200,
            genesis_block_number: 0,
        }
    }
}

/// From any height at or after genesis, the next macro block lies `B - ((h - G) mod B)` blocks
/// ahead; in particular the macro block after a macro block is again a macro block, `B` blocks
/// later.
pub proof fn lemma_macro_block_after(policy: Policy, h: int)
    requires
        policy.wf(),
        h >= policy.g(),
    ensures
        policy.is_macro(h) ==> policy.is_macro(policy.closing_after(h, policy.b())),
        policy.closing_after(h, policy.b()) - h == policy.b() - ((h - policy.g()) % policy.b()),
        policy.is_macro(policy.closing_after(h, policy.b())),
{
    let b = policy.b();
    let m = h - policy.g();
    let q = m / b;
    let r = m % b;
    vstd::arithmetic::div_mod::lemma_fundamental_div_mod(m, b);
    vstd::arithmetic::div_mod::lemma_div_pos_is_pos(m, b);
    assert((q + 1) * b - m == b - r) by (nonlinear_arith)
        requires
            m == b * q + r,
    ;
    vstd::arithmetic::div_mod::lemma_mod_multiples_basic(q + 1, b);
}

/// Every election block is a macro block.
pub proof fn lemma_election_is_macro(policy: Policy, h: int)
    requires
        policy.wf(),
    ensures
        policy.is_election(h) ==> policy.is_macro(h),
{
    if policy.is_election(h) {
        let m = h - policy.g();
        let k = m / policy.be();
        assert(policy.be() >= 1) by (nonlinear_arith)
            requires
                policy.blocks_per_batch >= 1,
                policy.batches_per_epoch >= 1,
                policy.be() == policy.blocks_per_batch * policy.batches_per_epoch,
        ;
        vstd::arithmetic::div_mod::lemma_fundamental_div_mod(m, policy.be());
        assert(m == (k * policy.batches_per_epoch) * policy.b()) by (nonlinear_arith)
            requires
                m == policy.be() * k + 0,
                policy.be() == policy.blocks_per_batch * policy.batches_per_epoch,
                policy.b() == policy.blocks_per_batch,
        ;
        vstd::arithmetic::div_mod::lemma_mod_multiples_basic(k * policy.batches_per_epoch, policy.b());
    }
}

/// `ceil(n / d)`, written `(n + d - 1) / d`, equals `(n - 1) / d + 1` for positive `n`.
proof fn lemma_ceil_div_shift(n: int, d: int)
    requires
        n >= 1,
        d >= 1,
    ensures
        (n + d - 1) / d == (n - 1) / d + 1,
        (n + d - 1) % d == (n - 1) % d,
{
    let q = (n - 1) / d;
    let r = (n - 1) % d;
    vstd::arithmetic::div_mod::lemma_fundamental_div_mod(n - 1, d);
    vstd::arithmetic::div_mod::lemma_mod_pos_bound(n - 1, d);
    assert(n + d - 1 == (q + 1) * d + r) by (nonlinear_arith)
        requires
            n - 1 == d * q + r,
    ;
    vstd::arithmetic::div_mod::lemma_fundamental_div_mod_converse(n + d - 1, d, q + 1, r);
}

/// Rounding down to a multiple of `d` stays within `[0, n]`.
proof fn lemma_round_down(n: int, d: int)
    requires
        n >= 0,
        d >= 1,
    ensures
        0 <= n / d * d <= n,
{
    vstd::arithmetic::div_mod::lemma_fundamental_div_mod(n, d);
    vstd::arithmetic::div_mod::lemma_mod_pos_bound(n, d);
    vstd::arithmetic::div_mod::lemma_div_pos_is_pos(n, d);
    vstd::arithmetic::mul::lemma_mul_nonnegative(n / d, d);
    vstd::arithmetic::mul::lemma_mul_is_commutative(n / d, d);
}

/// A height `m` blocks after genesis closes a period of `d` blocks exactly when its index in
/// the period is `d - 1`.
proof fn lemma_closing_index(m: int, d: int)
    requires
        m >= 0,
        d >= 1,
    ensures
        ((m + d - 1) % d == d - 1) == (m % d == 0),
{
    if m == 0 {
        vstd::arithmetic::div_mod::lemma_small_mod((d - 1) as nat, d as nat);
        vstd::arithmetic::div_mod::lemma_small_mod(0, d as nat);
    } else {
        lemma_ceil_div_shift(m, d);
        let q = (m - 1) / d;
        let r = (m - 1) % d;
        vstd::arithmetic::div_mod::lemma_fundamental_div_mod(m - 1, d);
        vstd::arithmetic::div_mod::lemma_mod_pos_bound(m - 1, d);
        if r == d - 1 {
            assert(m == (q + 1) * d + 0) by (nonlinear_arith)
                requires
                    m - 1 == d * q + r,
                    r == d - 1,
            ;
            vstd::arithmetic::div_mod::lemma_fundamental_div_mod_converse(m, d, q + 1, 0);
        } else {
            assert(m == q * d + (r + 1)) by (nonlinear_arith)
                requires
                    m - 1 == d * q + r,
            ;
            vstd::arithmetic::div_mod::lemma_fundamental_div_mod_converse(m, d, q, r + 1);
        }
    }
}

} // verus!
