//! Answers to bootstrap requests: a run of blocks along an account chain, what is known
//! of an account, or the frontiers of accounts from a starting account on.

use vstd::prelude::*;
use crate::numbers::{Account, BlockHash, Hash256, HashOrAccount};
use crate::bootstrap_lazy::{find_key, has_key, key_position, keys_distinct, map_insert, map_insert_exec};

verus! {

/// What the ledger knows of an account.
#[derive(Clone, Copy, Debug, PartialEq, Eq, Structural)]
pub struct AccountSummary {
    pub open_block: BlockHash,
    pub head: BlockHash,
    pub block_count: u64,
}

/// A block in the ledger: the account whose chain holds it, and the block after it.
#[derive(Clone, Copy, Debug, PartialEq, Eq)]
pub struct ChainLink {
    pub account: Account,
    pub successor: Option<BlockHash>,
}

/// The parts of the ledger the bootstrap server reads, as plain values.
pub struct ChainView {
    blocks: Vec<(BlockHash, ChainLink)>,
    /// Ordered by account.
    accounts: Vec<(Account, AccountSummary)>,
    /// The confirmed frontier and height of each account that has one.
    confirmed: Vec<(Account, (BlockHash, u64))>,
}

pub open spec fn accounts_ascending(s: Seq<(Account, AccountSummary)>) -> bool {
    forall|i: int, j: int| 0 <= i < j < s.len() ==> s[i].0.spec_lt(s[j].0)
}

impl ChainView {
    pub closed spec fn blocks(&self) -> Seq<(BlockHash, ChainLink)> { self.blocks@ }
    pub closed spec fn accounts(&self) -> Seq<(Account, AccountSummary)> { self.accounts@ }
    pub closed spec fn confirmed(&self) -> Seq<(Account, (BlockHash, u64))> { self.confirmed@ }

    pub closed spec fn wf(&self) -> bool {
        &&& keys_distinct(self.blocks@)
        &&& accounts_ascending(self.accounts@)
        &&& keys_distinct(self.confirmed@)
    }

    pub open spec fn spec_block(&self, h: BlockHash) -> Option<ChainLink> {
        if has_key(self.blocks(), h) { Some(self.blocks()[key_position(self.blocks(), h)].1) } else { None }
    }

    pub open spec fn spec_account(&self, a: Account) -> Option<AccountSummary> {
        if has_key(self.accounts(), a) { Some(self.accounts()[key_position(self.accounts(), a)].1) } else { None }
    }

    pub open spec fn spec_confirmed(&self, a: Account) -> Option<(BlockHash, u64)> {
        if has_key(self.confirmed(), a) { Some(self.confirmed()[key_position(self.confirmed(), a)].1) } else { None }
    }

    pub fn new() -> (r: Self)
        ensures
            r.wf(),
            r.blocks().len() == 0,
            r.accounts().len() == 0,
            r.confirmed().len() == 0,
    {
        ChainView { blocks: Vec::new(), accounts: Vec::new(), confirmed: Vec::new() }
    }

    /// Records a block, replacing an earlier record of it.
    pub fn insert_block(&mut self, hash: BlockHash, link: ChainLink)
        requires
            old(self).wf(),
        ensures
            final(self).wf(),
            final(self).blocks() == map_insert(old(self).blocks(), hash, link),
            final(self).accounts() == old(self).accounts(),
            final(self).confirmed() == old(self).confirmed(),
    {
        map_insert_exec(&mut self.blocks, hash, link);
    }

    /// Records what is confirmed of an account, replacing an earlier record.
    pub fn set_confirmed(&mut self, account: Account, frontier: BlockHash, height: u64)
        requires
            old(self).wf(),
        ensures
            final(self).wf(),
            final(self).confirmed() == map_insert(old(self).confirmed(), account, (frontier, height)),
            final(self).blocks() == old(self).blocks(),
            final(self).accounts() == old(self).accounts(),
    {
        map_insert_exec(&mut self.confirmed, account, (frontier, height));
    }

    /// Records an account in account order, replacing an earlier record of it.
    pub fn insert_account(&mut self, account: Account, info: AccountSummary)
        requires
            old(self).wf(),
        ensures
            final(self).wf(),
            final(self).spec_account(account) == Some(info),
            forall|a: Account| a != account ==> final(self).spec_account(a) == old(self).spec_account(a),
            final(self).blocks() == old(self).blocks(),
            final(self).confirmed() == old(self).confirmed(),
    {
        let ghost before = self.accounts@;
        let mut p: usize = 0;
        while p < self.accounts.len() && self.accounts[p].0.less_than(&account)
            invariant
                before == self.accounts@,
                p <= before.len(),
                forall|i: int| 0 <= i < p ==> (#[trigger] before[i]).0.spec_lt(account),
            decreases before.len() - p,
        {
            p = p + 1;
        }
        proof {
            lemma_ascending_distinct(before);
        }
        if p < self.accounts.len() && self.accounts[p].0.equals(&account) {
            self.accounts.set(p, (account, info));
            proof {
                let after = self.accounts@;
                assert forall|i: int, j: int| 0 <= i < j < after.len() implies after[i].0.spec_lt(after[j].0) by {
                    assert(after[i].0 == before[i].0 && after[j].0 == before[j].0);
                }
                lemma_ascending_distinct(after);
                crate::bootstrap_lazy::lemma_key_position(after, account, p as int);
                assert forall|a: Account| a != account implies self.spec_account(a) == old(self).spec_account(a) by {
                    if has_key(before, a) {
                        let k = key_position(before, a);
                        assert(after[k] == before[k]);
                        crate::bootstrap_lazy::lemma_key_position(after, a, k);
                    }
                    if has_key(after, a) {
                        let k = choose|k: int| 0 <= k < after.len() && after[k].0 == a;
                        assert(after[k] == before[k]);
                    }
                }
            }
        } else {
            proof {
                assert forall|i: int| p <= i < before.len() implies !(#[trigger] before[i]).0.spec_lt(account) && before[i].0 != account by {
                    if p < before.len() {
                        assert(!before[p as int].0.spec_lt(account));
                        if i > p { assert(before[p as int].0.spec_lt(before[i].0)); }
                    }
                }
            }
            self.accounts.insert(p, (account, info));
            proof {
                let after = self.accounts@;
                assert forall|i: int, j: int| 0 <= i < j < after.len() implies after[i].0.spec_lt(after[j].0) by {
                    if j < p {
                        assert(after[i] == before[i] && after[j] == before[j]);
                    } else if j == p {
                        assert(after[i] == before[i]);
                    } else if i < p {
                        assert(after[i] == before[i] && after[j] == before[j - 1]);
                    } else if i == p {
                        assert(after[j] == before[j - 1]);
                    } else {
                        assert(after[i] == before[i - 1] && after[j] == before[j - 1]);
                    }
                }
                lemma_ascending_distinct(after);
                crate::bootstrap_lazy::lemma_key_position(after, account, p as int);
                assert forall|a: Account| a != account implies self.spec_account(a) == old(self).spec_account(a) by {
                    if has_key(before, a) {
                        let k = key_position(before, a);
                        let k2 = if k < p { k } else { k + 1 };
                        assert(after[k2] == before[k]);
                        crate::bootstrap_lazy::lemma_key_position(after, a, k2);
                    }
                    if has_key(after, a) {
                        let k = choose|k: int| 0 <= k < after.len() && after[k].0 == a;
                        assert(k != p);
                        let k2 = if k < p { k } else { k - 1 };
                        assert(after[k] == before[k2]);
                    }
                }
            }
        }
    }

    pub fn block(&self, h: &BlockHash) -> (r: Option<ChainLink>)
        requires
            self.wf(),
        ensures
            r == self.spec_block(*h),
    {
        match find_key(&self.blocks, h) {
            Some(i) => Some(self.blocks[i].1),
            None => None,
        }
    }

    pub fn account_info(&self, a: &Account) -> (r: Option<AccountSummary>)
        requires
            self.wf(),
        ensures
            r == self.spec_account(*a),
    {
        proof { lemma_ascending_distinct(self.accounts@); }
        match find_key(&self.accounts, a) {
            Some(i) => Some(self.accounts[i].1),
            None => None,
        }
    }

    pub fn confirmation_height(&self, a: &Account) -> (r: Option<(BlockHash, u64)>)
        requires
            self.wf(),
        ensures
            r == self.spec_confirmed(*a),
    {
        match find_key(&self.confirmed, a) {
            Some(i) => Some(self.confirmed[i].1),
            None => None,
        }
    }
}

proof fn lemma_ascending_distinct(s: Seq<(Account, AccountSummary)>)
    requires
        accounts_ascending(s),
    ensures
        keys_distinct(s),
{
    assert forall|i: int, j: int| 0 <= i < j < s.len() implies s[i].0 != s[j].0 by {
        assert(s[i].0.spec_lt(s[j].0));
    }
}

/// The most blocks one response carries.
pub const MAX_BLOCKS: usize = 128;

/// The most frontiers one response carries.
pub const MAX_FRONTIERS: usize = 1000;

/// Whether a start names an account or a block.
#[derive(Clone, Copy, Debug, PartialEq, Eq, Structural)]
pub enum HashType {
    Account,
    Block,
}

#[derive(Clone, Copy, Debug, PartialEq, Eq)]
pub struct BlocksReqPayload {
    pub start_type: HashType,
    pub start: HashOrAccount,
    pub count: u8,
}

#[derive(Clone, Copy, Debug, PartialEq, Eq)]
pub struct AccountInfoReqPayload {
    pub target: HashOrAccount,
    pub target_type: HashType,
}

#[derive(Clone, Copy, Debug, PartialEq, Eq)]
pub struct FrontiersReqPayload {
    pub start: Account,
    pub count: u16,
}

#[derive(Clone, Copy, Debug, PartialEq, Eq)]
pub enum AscPullReqType {
    Blocks(BlocksReqPayload),
    AccountInfo(AccountInfoReqPayload),
    Frontiers(FrontiersReqPayload),
}

/// A bootstrap request.
#[derive(Clone, Copy, Debug, PartialEq, Eq)]
pub struct AscPullReq {
    pub id: u64,
    pub req_type: AscPullReqType,
}

/// What is known of an account; all zero but the account when it is unknown.
#[derive(Clone, Copy, Debug, PartialEq, Eq, Structural)]
pub struct AccountInfoAckPayload {
    pub account: Account,
    pub account_open: BlockHash,
    pub account_head: BlockHash,
    pub account_block_count: u64,
    pub account_conf_frontier: BlockHash,
    pub account_conf_height: u64,
}

pub enum AscPullAckType {
    /// The hashes of the blocks sent, in chain order.
    Blocks(Vec<BlockHash>),
    AccountInfo(AccountInfoAckPayload),
    /// (account, head) pairs in account order.
    Frontiers(Vec<(Account, BlockHash)>),
}

/// A bootstrap response.
pub struct AscPullAck {
    pub id: u64,
    pub pull_type: AscPullAckType,
}

/// Whether a request can be served: a positive count within the response capacity, or a
/// nonzero account target.
pub open spec fn spec_verify(req: AscPullReq) -> bool {
    match req.req_type {
        AscPullReqType::Blocks(b) => b.count > 0 && b.count <= MAX_BLOCKS,
        AscPullReqType::AccountInfo(a) => !(a.target.hi == 0 && a.target.lo == 0),
        AscPullReqType::Frontiers(f) => f.count > 0 && f.count <= MAX_FRONTIERS,
    }
}

pub fn verify(req: &AscPullReq) -> (r: bool)
    ensures
        r == spec_verify(*req),
{
    match req.req_type {
        AscPullReqType::Blocks(b) => b.count > 0 && (b.count as usize) <= MAX_BLOCKS,
        AscPullReqType::AccountInfo(a) => !a.target.is_zero(),
        AscPullReqType::Frontiers(f) => f.count > 0 && (f.count as usize) <= MAX_FRONTIERS,
    }
}

/// Up to `n` blocks along the chain from `h`, following successors (a missing successor
/// reads as the zero hash), until a block is missing.
pub open spec fn chain(view: ChainView, h: BlockHash, n: nat) -> Seq<BlockHash>
    decreases n,
{
    if n == 0 {
        Seq::empty()
    } else {
        match view.spec_block(h) {
            Some(l) => seq![h] + chain(view, match l.successor { Some(s) => s, None => Hash256 { hi: 0, lo: 0 } }, (n - 1) as nat),
            None => Seq::empty(),
        }
    }
}

/// The blocks sent from a start block: none from the zero hash.
pub open spec fn blocks_from(view: ChainView, start: BlockHash, count: nat) -> Seq<BlockHash> {
    if start.hi == 0 && start.lo == 0 { Seq::empty() } else { chain(view, start, count) }
}

proof fn lemma_chain_len(view: ChainView, h: BlockHash, n: nat)
    ensures
        chain(view, h, n).len() <= n,
    decreases n,
{
    if n > 0 {
        match view.spec_block(h) {
            Some(l) => lemma_chain_len(view, match l.successor { Some(s) => s, None => Hash256 { hi: 0, lo: 0 } }, (n - 1) as nat),
            None => {},
        }
    }
}

/// The blocks to send from a start block, at most `count` (which is positive).
pub fn prepare_blocks(view: &ChainView, start: &BlockHash, count: usize) -> (r: Vec<BlockHash>)
    requires
        view.wf(),
        count > 0,
    ensures
        r@ == blocks_from(*view, *start, count as nat),
{
    let mut out: Vec<BlockHash> = Vec::new();
    if start.is_zero() {
        return out;
    }
    let mut next = *start;
    while out.len() < count
        invariant
            view.wf(),
            !(start.hi == 0 && start.lo == 0),
            out@.len() <= count,
            out@ + chain(*view, next, (count - out@.len()) as nat) == chain(*view, *start, count as nat),
        decreases count - out@.len(),
    {
        match view.block(&next) {
            Some(l) => {
                let succ = match l.successor { Some(s) => s, None => Hash256::zero() };
                let ghost rest = chain(*view, succ, (count - out@.len() - 1) as nat);
                proof {
                    assert(chain(*view, next, (count - out@.len()) as nat) == seq![next] + rest);
                    assert(out@.push(next) + rest =~= out@ + (seq![next] + rest));
                }
                out.push(next);
                next = succ;
            },
            None => {
                proof {
                    assert(count - out@.len() > 0);
                    assert(view.spec_block(next) is None);
                    assert(chain(*view, next, (count - out@.len()) as nat) =~= Seq::<BlockHash>::empty());
                    assert(out@ + Seq::<BlockHash>::empty() =~= out@);
                }
                return out;
            },
        }
    }
    proof {
        assert(chain(*view, next, 0) =~= Seq::<BlockHash>::empty());
        assert(out@ + Seq::<BlockHash>::empty() =~= out@);
    }
    out
}

/// Answers a blocks request: from the account's first block when pulling by account,
/// from the block itself when pulling by block, else with no blocks.
pub fn process_blocks(view: &ChainView, id: u64, request: &BlocksReqPayload) -> (r: AscPullAck)
    requires
        view.wf(),
        request.count > 0,
    ensures
        r.id == id,
        ({
            let count: nat = if request.count <= MAX_BLOCKS { request.count as nat } else { MAX_BLOCKS as nat };
            let start = match request.start_type {
                HashType::Account => match view.spec_account(request.start) { Some(info) => Some(info.open_block), None => None },
                HashType::Block => if view.spec_block(request.start) is Some { Some(request.start) } else { None },
            };
            r.pull_type matches AscPullAckType::Blocks(b) && b@ == match start {
                Some(s) => blocks_from(*view, s, count),
                None => Seq::<BlockHash>::empty(),
            }
        }),
{
    let count: usize = if (request.count as usize) < MAX_BLOCKS { request.count as usize } else { MAX_BLOCKS };
    match request.start_type {
        HashType::Account => {
            match view.account_info(&request.start) {
                Some(info) => {
                    return AscPullAck { id, pull_type: AscPullAckType::Blocks(prepare_blocks(view, &info.open_block, count)) };
                },
                None => {},
            }
        },
        HashType::Block => {
            if view.block(&request.start).is_some() {
                return AscPullAck { id, pull_type: AscPullAckType::Blocks(prepare_blocks(view, &request.start, count)) };
            }
        },
    }
    AscPullAck { id, pull_type: AscPullAckType::Blocks(Vec::new()) }
}

/// The account a request targets: itself, or the account of the target block (zero when
/// the block is unknown).
pub open spec fn target_account(view: ChainView, request: AccountInfoReqPayload) -> Account {
    match request.target_type {
        HashType::Account => request.target,
        HashType::Block => match view.spec_block(request.target) {
            Some(l) => l.account,
            None => Hash256 { hi: 0, lo: 0 },
        },
    }
}

/// Answers an account request with what the ledger knows of the target account.
pub fn process_account(view: &ChainView, id: u64, request: &AccountInfoReqPayload) -> (r: AscPullAck)
    requires
        view.wf(),
    ensures
        r.id == id,
        ({
            let target = target_account(*view, *request);
            let zero = Hash256 { hi: 0, lo: 0 };
            let (open, head, count) = match view.spec_account(target) {
                Some(info) => (info.open_block, info.head, info.block_count),
                None => (zero, zero, 0u64),
            };
            let (frontier, height) = match view.spec_account(target) {
                Some(_) => match view.spec_confirmed(target) { Some(c) => c, None => (zero, 0u64) },
                None => (zero, 0u64),
            };
            r.pull_type == AscPullAckType::AccountInfo(AccountInfoAckPayload {
                account: target,
                account_open: open,
                account_head: head,
                account_block_count: count,
                account_conf_frontier: frontier,
                account_conf_height: height,
            })
        }),
{
    let target = match request.target_type {
        HashType::Account => request.target,
        HashType::Block => match view.block(&request.target) {
            Some(l) => l.account,
            None => Hash256::zero(),
        },
    };
    let mut payload = AccountInfoAckPayload {
        account: target,
        account_open: Hash256::zero(),
        account_head: Hash256::zero(),
        account_block_count: 0,
        account_conf_frontier: Hash256::zero(),
        account_conf_height: 0,
    };
    match view.account_info(&target) {
        Some(info) => {
            payload.account_open = info.open_block;
            payload.account_head = info.head;
            payload.account_block_count = info.block_count;
            match view.confirmation_height(&target) {
                Some((frontier, height)) => {
                    payload.account_conf_frontier = frontier;
                    payload.account_conf_height = height;
                },
                None => {},
            }
        },
        None => {},
    }
    AscPullAck { id, pull_type: AscPullAckType::AccountInfo(payload) }
}

/// `p` is the first account at or after `start`.
pub open spec fn is_range_start(accounts: Seq<(Account, AccountSummary)>, start: Account, p: int) -> bool {
    &&& 0 <= p <= accounts.len()
    &&& forall|i: int| 0 <= i < p ==> (#[trigger] accounts[i]).0.spec_lt(start)
    &&& (p == accounts.len() || !accounts[p].0.spec_lt(start))
}

pub open spec fn range_start(accounts: Seq<(Account, AccountSummary)>, start: Account) -> int {
    choose|p: int| is_range_start(accounts, start, p)
}

/// The frontiers sent: (account, head) of the first `count` accounts at or after `start`.
pub open spec fn frontiers_from(accounts: Seq<(Account, AccountSummary)>, start: Account, count: nat) -> Seq<(Account, BlockHash)> {
    let rest = accounts.skip(range_start(accounts, start));
    let taken = if count <= rest.len() { rest.take(count as int) } else { rest };
    taken.map_values(|e: (Account, AccountSummary)| (e.0, e.1.head))
}

/// Answers a frontiers request.
pub fn process_frontiers(view: &ChainView, id: u64, request: &FrontiersReqPayload) -> (r: AscPullAck)
    requires
        view.wf(),
    ensures
        r.id == id,
        r.pull_type matches AscPullAckType::Frontiers(f) && f@ == frontiers_from(view.accounts(), request.start, request.count as nat),
{
    let ghost accounts = view.accounts();
    let mut p: usize = 0;
    while p < view.accounts.len() && view.accounts[p].0.less_than(&request.start)
        invariant
            accounts == view.accounts@,
            p <= accounts.len(),
            forall|i: int| 0 <= i < p ==> (#[trigger] accounts[i]).0.spec_lt(request.start),
        decreases accounts.len() - p,
    {
        p = p + 1;
    }
    proof {
        let q = range_start(accounts, request.start);
        assert(is_range_start(accounts, request.start, p as int));
        assert(is_range_start(accounts, request.start, q));
        if q < p { assert(accounts[q].0.spec_lt(request.start)); }
        if p < q { assert(accounts[p as int].0.spec_lt(request.start)); }
    }
    let mut out: Vec<(Account, BlockHash)> = Vec::new();
    let mut i: usize = p;
    let count = request.count as usize;
    while i < view.accounts.len() && out.len() < count
        invariant
            accounts == view.accounts@,
            p <= i <= accounts.len(),
            out@.len() == i - p,
            out@.len() <= count,
            count == request.count,
            out@ == accounts.subrange(p as int, i as int).map_values(|e: (Account, AccountSummary)| (e.0, e.1.head)),
        decreases accounts.len() - i,
    {
        let (a, info) = view.accounts[i];
        out.push((a, info.head));
        proof {
            assert(out@ =~= accounts.subrange(p as int, i + 1).map_values(|e: (Account, AccountSummary)| (e.0, e.1.head)));
        }
        i = i + 1;
    }
    proof {
        let rest = accounts.skip(p as int);
        if count <= rest.len() {
            assert(i == p + count);
            assert(rest.take(count as int) =~= accounts.subrange(p as int, i as int));
        } else {
            assert(i == accounts.len());
            assert(rest =~= accounts.subrange(p as int, i as int));
        }
    }
    AscPullAck { id, pull_type: AscPullAckType::Frontiers(out) }
}

/// Answers a request that passed `verify`.
pub fn process(view: &ChainView, request: &AscPullReq) -> (r: AscPullAck)
    requires
        view.wf(),
        spec_verify(*request),
    ensures
        r.id == request.id,
        match request.req_type {
            AscPullReqType::Blocks(_) => r.pull_type is Blocks,
            AscPullReqType::AccountInfo(_) => r.pull_type is AccountInfo,
            AscPullReqType::Frontiers(_) => r.pull_type is Frontiers,
        },
{
    match request.req_type {
        AscPullReqType::Blocks(b) => process_blocks(view, request.id, &b),
        AscPullReqType::AccountInfo(a) => process_account(view, request.id, &a),
        AscPullReqType::Frontiers(f) => process_frontiers(view, request.id, &f),
    }
}

/// A blocks response carries at most the count asked for.
pub proof fn lemma_blocks_response_bounded(view: ChainView, start: BlockHash, count: nat)
    ensures
        blocks_from(view, start, count).len() <= count,
{
    lemma_chain_len(view, start, count);
}

/// A frontiers response carries at most the count asked for, and only accounts at or
/// after the start, in ascending order.
pub proof fn lemma_frontiers_in_range(accounts: Seq<(Account, AccountSummary)>, start: Account, count: nat)
    requires
        accounts_ascending(accounts),
    ensures
        frontiers_from(accounts, start, count).len() <= count,
        forall|i: int| 0 <= i < frontiers_from(accounts, start, count).len()
            ==> !(#[trigger] frontiers_from(accounts, start, count)[i]).0.spec_lt(start),
        forall|i: int, j: int| 0 <= i < j < frontiers_from(accounts, start, count).len()
            ==> frontiers_from(accounts, start, count)[i].0.spec_lt(frontiers_from(accounts, start, count)[j].0),
{
    lemma_range_start_exists(accounts, start, 0);
    let q = range_start(accounts, start);
    let f = frontiers_from(accounts, start, count);
    assert forall|i: int| 0 <= i < f.len() implies !(#[trigger] f[i]).0.spec_lt(start) by {
        assert(f[i].0 == accounts[q + i].0);
        if i > 0 {
            assert(accounts[q].0.spec_lt(accounts[q + i].0));
        }
    }
    assert forall|i: int, j: int| 0 <= i < j < f.len() implies f[i].0.spec_lt(f[j].0) by {
        assert(f[i].0 == accounts[q + i].0 && f[j].0 == accounts[q + j].0);
    }
}

proof fn lemma_range_start_exists(accounts: Seq<(Account, AccountSummary)>, start: Account, p: int)
    requires
        0 <= p <= accounts.len(),
        forall|i: int| 0 <= i < p ==> (#[trigger] accounts[i]).0.spec_lt(start),
    ensures
        is_range_start(accounts, start, range_start(accounts, start)),
    decreases accounts.len() - p,
{
    if p == accounts.len() || !accounts[p].0.spec_lt(start) {
        assert(is_range_start(accounts, start, p));
    } else {
        lemma_range_start_exists(accounts, start, p + 1);
    }
}

} // verus!
