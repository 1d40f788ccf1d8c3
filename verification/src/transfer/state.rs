//! The chain state tree: the root aggregate, the token network registry with
//! its lookup indices, token networks, channels and channel end states,
//! together with the mathematical view of each type and the well-formedness
//! conditions the reducer preserves.

use crate::alist::{
    alist_contains, alist_get, alist_map, alist_unique, lemma_alist_get_at, lemma_alist_push,
    lemma_alist_update,
};
use crate::enums::ChainID;
use crate::errors::ChannelError;
use crate::primitives::{Address, H256};
use vstd::prelude::*;

verus! {

/// The globally unique name of a channel: chain, token network contract and
/// on-chain channel identifier.
#[derive(Clone, Copy, PartialEq, Eq, Structural, Debug)]
pub struct CanonicalIdentifier {
    pub chain_identifier: u64,
    pub token_network_address: Address,
    pub channel_identifier: u64,
}

/// Whether an on-chain transaction succeeded or failed.
#[allow(non_camel_case_types)]
#[derive(Clone, Copy, PartialEq, Eq, Structural, Debug)]
pub enum TransactionResult {
    SUCCESS,
    FAILURE,
}

/// The on-chain confirmation provenance of a channel lifecycle transaction.
#[derive(Clone, Copy, PartialEq, Eq, Debug)]
pub struct TransactionExecutionStatus {
    pub started_block_number: Option<u64>,
    pub finished_block_number: Option<u64>,
    pub result: Option<TransactionResult>,
}

/// A withdraw a channel end has requested and not yet expired.
#[derive(Clone, Copy, PartialEq, Eq, Debug)]
pub struct PendingWithdrawState {
    pub total_withdraw: u64,
    pub expiration: u16,
    pub nonce: u64,
}

/// A withdraw whose expiration block has passed.
#[derive(Clone, Copy, PartialEq, Eq, Debug)]
pub struct ExpiredWithdrawState {
    pub total_withdraw: u64,
    pub expiration: u16,
    pub nonce: u64,
}

/// One conditional transfer lock: amount, expiration and secret hash.
#[derive(Clone, Copy, PartialEq, Eq, Debug)]
pub struct HashTimeLockState {
    pub amount: u64,
    pub expiration: u16,
    pub secrethash: H256,
    pub encoded: H256,
}

impl HashTimeLockState {
    pub fn new(amount: u64, expiration: u16, secrethash: H256, encoded: H256) -> (r:
        HashTimeLockState)
        ensures
            r == (HashTimeLockState { amount, expiration, secrethash, encoded }),
    {
        HashTimeLockState { amount, expiration, secrethash, encoded }
    }
}

/// A lock whose secret is known off-chain or on-chain but not yet settled.
#[derive(Clone, Copy, PartialEq, Eq, Debug)]
pub struct UnlockPartialProofState {
    pub lock: HashTimeLockState,
    pub secret: H256,
    pub amount: u64,
    pub expiration: u16,
    pub secrethash: H256,
    pub encoded: H256,
}

/// Our side's commitment to the channel balances at one nonce.
#[derive(Clone, Copy, PartialEq, Eq, Debug)]
pub struct BalanceProofUnsignedState {
    pub nonce: u64,
    pub transferred_amount: u64,
    pub locked_amount: u64,
    pub locksroot: H256,
    pub canonical_identifier: CanonicalIdentifier,
    pub balance_hash: H256,
}

/// The partner's signed commitment to the channel balances at one nonce.
#[derive(Clone, Copy, PartialEq, Eq, Debug)]
pub struct BalanceProofSignedState {
    pub nonce: u64,
    pub transferred_amount: u64,
    pub locked_amount: u64,
    pub locksroot: H256,
    pub message_hash: H256,
    pub signature: H256,
    pub sender: Address,
    pub canonical_identifier: CanonicalIdentifier,
    pub balance_hash: H256,
}

/// The ordered accumulator of pending lock hashes.
#[derive(PartialEq, Eq, Debug)]
pub struct PendingLocksState {
    pub locks: Vec<H256>,
}

impl View for PendingLocksState {
    type V = Seq<H256>;

    open spec fn view(&self) -> Seq<H256> {
        self.locks@
    }
}

impl PendingLocksState {
    pub fn new() -> (r: PendingLocksState)
        ensures
            r@ == Seq::<H256>::empty(),
    {
        PendingLocksState { locks: Vec::new() }
    }
}

impl Clone for PendingLocksState {
    fn clone(&self) -> (r: PendingLocksState)
        ensures
            r@ == self@,
    {
        let mut locks: Vec<H256> = Vec::new();
        let mut i: usize = 0;
        while i < self.locks.len()
            invariant
                0 <= i <= self.locks@.len(),
                locks@ == self.locks@.take(i as int),
            decreases self.locks@.len() - i,
        {
            locks.push(self.locks[i]);
            proof {
                assert(self.locks@.take(i + 1) =~= self.locks@.take(i as int).push(
                    self.locks@[i as int],
                ));
            }
            i = i + 1;
        }
        proof {
            assert(self.locks@.take(self.locks@.len() as int) =~= self.locks@);
        }
        PendingLocksState { locks }
    }
}

/// The fee schedule of a channel end; not consulted by any transition here.
#[derive(Clone, PartialEq, Eq, Debug)]
pub struct FeeScheduleState {
    pub flat: u64,
    pub proportional: u64,
    pub imbalance_penalty: Option<Vec<(u64, u64)>>,
    pub penalty_func: Option<u64>,
}

/// The mathematical content of our side of a channel.
pub struct OurEndStateView {
    pub address: Address,
    pub contract_balance: u64,
    pub onchain_total_withdraw: u64,
    pub withdraws_pending: Map<u64, PendingWithdrawState>,
    pub withdraws_expired: Seq<ExpiredWithdrawState>,
    pub locked: Map<H256, HashTimeLockState>,
    pub unlocked: Map<H256, UnlockPartialProofState>,
    pub onchain_unlocked: Map<H256, UnlockPartialProofState>,
    pub balance_proof: Option<BalanceProofUnsignedState>,
    pub pending_locks: Seq<H256>,
    pub onchain_locksroot: H256,
    pub nonce: u64,
}

/// The mathematical content of the partner's side of a channel.
pub struct PartnerEndStateView {
    pub address: Address,
    pub contract_balance: u64,
    pub onchain_total_withdraw: u64,
    pub withdraws_pending: Map<u64, PendingWithdrawState>,
    pub withdraws_expired: Seq<ExpiredWithdrawState>,
    pub locked: Map<H256, HashTimeLockState>,
    pub unlocked: Map<H256, UnlockPartialProofState>,
    pub onchain_unlocked: Map<H256, UnlockPartialProofState>,
    pub balance_proof: Option<BalanceProofSignedState>,
    pub pending_locks: Seq<H256>,
    pub onchain_locksroot: H256,
    pub nonce: u64,
}

/// Our side of a channel.
#[derive(PartialEq, Eq, Debug)]
pub struct OurEndState {
    pub address: Address,
    pub contract_balance: u64,
    pub onchain_total_withdraw: u64,
    pub withdraws_pending: Vec<(u64, PendingWithdrawState)>,
    pub withdraws_expired: Vec<ExpiredWithdrawState>,
    pub secrethashes_to_lockedlocks: Vec<(H256, HashTimeLockState)>,
    pub secrethashes_to_unlockedlocks: Vec<(H256, UnlockPartialProofState)>,
    pub secrethashes_to_onchain_unlockedlocks: Vec<(H256, UnlockPartialProofState)>,
    pub balance_proof: Option<BalanceProofUnsignedState>,
    pub pending_locks: PendingLocksState,
    pub onchain_locksroot: H256,
    pub nonce: u64,
}

impl View for OurEndState {
    type V = OurEndStateView;

    open spec fn view(&self) -> OurEndStateView {
        OurEndStateView {
            address: self.address,
            contract_balance: self.contract_balance,
            onchain_total_withdraw: self.onchain_total_withdraw,
            withdraws_pending: alist_map(self.withdraws_pending@),
            withdraws_expired: self.withdraws_expired@,
            locked: alist_map(self.secrethashes_to_lockedlocks@),
            unlocked: alist_map(self.secrethashes_to_unlockedlocks@),
            onchain_unlocked: alist_map(self.secrethashes_to_onchain_unlockedlocks@),
            balance_proof: self.balance_proof,
            pending_locks: self.pending_locks@,
            onchain_locksroot: self.onchain_locksroot,
            nonce: self.nonce,
        }
    }
}

/// Our side of a fresh channel: everything empty, nonce zero.
pub open spec fn our_end_fresh(address: Address) -> OurEndStateView {
    OurEndStateView {
        address,
        contract_balance: 0,
        onchain_total_withdraw: 0,
        withdraws_pending: Map::empty(),
        withdraws_expired: Seq::empty(),
        locked: Map::empty(),
        unlocked: Map::empty(),
        onchain_unlocked: Map::empty(),
        balance_proof: None,
        pending_locks: Seq::empty(),
        onchain_locksroot: H256 { w0: 0, w1: 0, w2: 0, w3: 0 },
        nonce: 0,
    }
}

impl OurEndState {
    pub fn new(address: Address) -> (r: OurEndState)
        ensures
            r@ == our_end_fresh(address),
    {
        let r = OurEndState {
            address,
            contract_balance: 0,
            onchain_total_withdraw: 0,
            withdraws_pending: Vec::new(),
            withdraws_expired: Vec::new(),
            secrethashes_to_lockedlocks: Vec::new(),
            secrethashes_to_unlockedlocks: Vec::new(),
            secrethashes_to_onchain_unlockedlocks: Vec::new(),
            balance_proof: None,
            pending_locks: PendingLocksState::new(),
            onchain_locksroot: H256::zero(),
            nonce: 0,
        };
        proof {
            assert(alist_map(r.withdraws_pending@) =~= our_end_fresh(address).withdraws_pending);
            assert(alist_map(r.secrethashes_to_lockedlocks@) =~= our_end_fresh(address).locked);
            assert(alist_map(r.secrethashes_to_unlockedlocks@) =~= our_end_fresh(address).unlocked);
            assert(alist_map(r.secrethashes_to_onchain_unlockedlocks@) =~= our_end_fresh(
                address,
            ).onchain_unlocked);
        }
        r
    }
}

impl Clone for OurEndState {
    fn clone(&self) -> (r: OurEndState)
        ensures
            r@ == self@,
    {
        OurEndState {
            address: self.address,
            contract_balance: self.contract_balance,
            onchain_total_withdraw: self.onchain_total_withdraw,
            withdraws_pending: clone_copy_pairs_u64_withdraw(&self.withdraws_pending),
            withdraws_expired: clone_copy_vec_expired(&self.withdraws_expired),
            secrethashes_to_lockedlocks: clone_copy_pairs_locks(&self.secrethashes_to_lockedlocks),
            secrethashes_to_unlockedlocks: clone_copy_pairs_unlocks(
                &self.secrethashes_to_unlockedlocks,
            ),
            secrethashes_to_onchain_unlockedlocks: clone_copy_pairs_unlocks(
                &self.secrethashes_to_onchain_unlockedlocks,
            ),
            balance_proof: self.balance_proof,
            pending_locks: self.pending_locks.clone(),
            onchain_locksroot: self.onchain_locksroot,
            nonce: self.nonce,
        }
    }
}

/// The partner's side of a channel.
#[derive(PartialEq, Eq, Debug)]
pub struct PartnerEndState {
    pub address: Address,
    pub contract_balance: u64,
    pub onchain_total_withdraw: u64,
    pub withdraws_pending: Vec<(u64, PendingWithdrawState)>,
    pub withdraws_expired: Vec<ExpiredWithdrawState>,
    pub secrethashes_to_lockedlocks: Vec<(H256, HashTimeLockState)>,
    pub secrethashes_to_unlockedlocks: Vec<(H256, UnlockPartialProofState)>,
    pub secrethashes_to_onchain_unlockedlocks: Vec<(H256, UnlockPartialProofState)>,
    pub balance_proof: Option<BalanceProofSignedState>,
    pub pending_locks: PendingLocksState,
    pub onchain_locksroot: H256,
    pub nonce: u64,
}

impl View for PartnerEndState {
    type V = PartnerEndStateView;

    open spec fn view(&self) -> PartnerEndStateView {
        PartnerEndStateView {
            address: self.address,
            contract_balance: self.contract_balance,
            onchain_total_withdraw: self.onchain_total_withdraw,
            withdraws_pending: alist_map(self.withdraws_pending@),
            withdraws_expired: self.withdraws_expired@,
            locked: alist_map(self.secrethashes_to_lockedlocks@),
            unlocked: alist_map(self.secrethashes_to_unlockedlocks@),
            onchain_unlocked: alist_map(self.secrethashes_to_onchain_unlockedlocks@),
            balance_proof: self.balance_proof,
            pending_locks: self.pending_locks@,
            onchain_locksroot: self.onchain_locksroot,
            nonce: self.nonce,
        }
    }
}

/// The partner's side of a fresh channel: everything empty, nonce zero.
pub open spec fn partner_end_fresh(address: Address) -> PartnerEndStateView {
    PartnerEndStateView {
        address,
        contract_balance: 0,
        onchain_total_withdraw: 0,
        withdraws_pending: Map::empty(),
        withdraws_expired: Seq::empty(),
        locked: Map::empty(),
        unlocked: Map::empty(),
        onchain_unlocked: Map::empty(),
        balance_proof: None,
        pending_locks: Seq::empty(),
        onchain_locksroot: H256 { w0: 0, w1: 0, w2: 0, w3: 0 },
        nonce: 0,
    }
}

impl PartnerEndState {
    pub fn new(address: Address) -> (r: PartnerEndState)
        ensures
            r@ == partner_end_fresh(address),
    {
        let r = PartnerEndState {
            address,
            contract_balance: 0,
            onchain_total_withdraw: 0,
            withdraws_pending: Vec::new(),
            withdraws_expired: Vec::new(),
            secrethashes_to_lockedlocks: Vec::new(),
            secrethashes_to_unlockedlocks: Vec::new(),
            secrethashes_to_onchain_unlockedlocks: Vec::new(),
            balance_proof: None,
            pending_locks: PendingLocksState::new(),
            onchain_locksroot: H256::zero(),
            nonce: 0,
        };
        proof {
            assert(alist_map(r.withdraws_pending@) =~= partner_end_fresh(
                address,
            ).withdraws_pending);
            assert(alist_map(r.secrethashes_to_lockedlocks@) =~= partner_end_fresh(address).locked);
            assert(alist_map(r.secrethashes_to_unlockedlocks@) =~= partner_end_fresh(
                address,
            ).unlocked);
            assert(alist_map(r.secrethashes_to_onchain_unlockedlocks@) =~= partner_end_fresh(
                address,
            ).onchain_unlocked);
        }
        r
    }
}

impl Clone for PartnerEndState {
    fn clone(&self) -> (r: PartnerEndState)
        ensures
            r@ == self@,
    {
        PartnerEndState {
            address: self.address,
            contract_balance: self.contract_balance,
            onchain_total_withdraw: self.onchain_total_withdraw,
            withdraws_pending: clone_copy_pairs_u64_withdraw(&self.withdraws_pending),
            withdraws_expired: clone_copy_vec_expired(&self.withdraws_expired),
            secrethashes_to_lockedlocks: clone_copy_pairs_locks(&self.secrethashes_to_lockedlocks),
            secrethashes_to_unlockedlocks: clone_copy_pairs_unlocks(
                &self.secrethashes_to_unlockedlocks,
            ),
            secrethashes_to_onchain_unlockedlocks: clone_copy_pairs_unlocks(
                &self.secrethashes_to_onchain_unlockedlocks,
            ),
            balance_proof: self.balance_proof,
            pending_locks: self.pending_locks.clone(),
            onchain_locksroot: self.onchain_locksroot,
            nonce: self.nonce,
        }
    }
}

/// Copies a vector of copyable pairs.
fn clone_copy_pairs_u64_withdraw(v: &Vec<(u64, PendingWithdrawState)>) -> (r: Vec<
    (u64, PendingWithdrawState),
>)
    ensures
        r@ == v@,
{
    let mut r: Vec<(u64, PendingWithdrawState)> = Vec::new();
    let mut i: usize = 0;
    while i < v.len()
        invariant
            0 <= i <= v@.len(),
            r@ == v@.take(i as int),
        decreases v@.len() - i,
    {
        r.push(v[i]);
        proof {
            assert(v@.take(i + 1) =~= v@.take(i as int).push(v@[i as int]));
        }
        i = i + 1;
    }
    proof {
        assert(v@.take(v@.len() as int) =~= v@);
    }
    r
}

/// Copies a vector of copyable withdraw records.
fn clone_copy_vec_expired(v: &Vec<ExpiredWithdrawState>) -> (r: Vec<ExpiredWithdrawState>)
    ensures
        r@ == v@,
{
    let mut r: Vec<ExpiredWithdrawState> = Vec::new();
    let mut i: usize = 0;
    while i < v.len()
        invariant
            0 <= i <= v@.len(),
            r@ == v@.take(i as int),
        decreases v@.len() - i,
    {
        r.push(v[i]);
        proof {
            assert(v@.take(i + 1) =~= v@.take(i as int).push(v@[i as int]));
        }
        i = i + 1;
    }
    proof {
        assert(v@.take(v@.len() as int) =~= v@);
    }
    r
}

/// Copies a vector of copyable lock pairs.
fn clone_copy_pairs_locks(v: &Vec<(H256, HashTimeLockState)>) -> (r: Vec<(H256, HashTimeLockState)>)
    ensures
        r@ == v@,
{
    let mut r: Vec<(H256, HashTimeLockState)> = Vec::new();
    let mut i: usize = 0;
    while i < v.len()
        invariant
            0 <= i <= v@.len(),
            r@ == v@.take(i as int),
        decreases v@.len() - i,
    {
        r.push(v[i]);
        proof {
            assert(v@.take(i + 1) =~= v@.take(i as int).push(v@[i as int]));
        }
        i = i + 1;
    }
    proof {
        assert(v@.take(v@.len() as int) =~= v@);
    }
    r
}

/// Copies a vector of copyable unlock pairs.
fn clone_copy_pairs_unlocks(v: &Vec<(H256, UnlockPartialProofState)>) -> (r: Vec<
    (H256, UnlockPartialProofState),
>)
    ensures
        r@ == v@,
{
    let mut r: Vec<(H256, UnlockPartialProofState)> = Vec::new();
    let mut i: usize = 0;
    while i < v.len()
        invariant
            0 <= i <= v@.len(),
            r@ == v@.take(i as int),
        decreases v@.len() - i,
    {
        r.push(v[i]);
        proof {
            assert(v@.take(i + 1) =~= v@.take(i as int).push(v@[i as int]));
        }
        i = i + 1;
    }
    proof {
        assert(v@.take(v@.len() as int) =~= v@);
    }
    r
}

/// A secret hash is held by at most one of the three lock maps.
pub open spec fn our_end_wf(e: OurEndStateView) -> bool {
    &&& e.locked.dom().disjoint(e.unlocked.dom())
    &&& e.locked.dom().disjoint(e.onchain_unlocked.dom())
    &&& e.unlocked.dom().disjoint(e.onchain_unlocked.dom())
}

/// A secret hash is held by at most one of the three lock maps.
pub open spec fn partner_end_wf(e: PartnerEndStateView) -> bool {
    &&& e.locked.dom().disjoint(e.unlocked.dom())
    &&& e.locked.dom().disjoint(e.onchain_unlocked.dom())
    &&& e.unlocked.dom().disjoint(e.onchain_unlocked.dom())
}

/// The mathematical content of a channel.
pub struct ChannelStateView {
    pub canonical_identifier: CanonicalIdentifier,
    pub token_address: Address,
    pub token_network_registry_address: Address,
    pub reveal_timeout: u16,
    pub settle_timeout: u16,
    pub our_state: OurEndStateView,
    pub partner_state: PartnerEndStateView,
    pub open_transaction: TransactionExecutionStatus,
    pub close_transaction: Option<TransactionExecutionStatus>,
    pub settle_transaction: Option<TransactionExecutionStatus>,
    pub update_transaction: Option<TransactionExecutionStatus>,
}

/// One payment channel.
#[derive(PartialEq, Eq, Debug)]
pub struct ChannelState {
    pub canonical_identifier: CanonicalIdentifier,
    pub token_address: Address,
    pub token_network_registry_address: Address,
    pub reveal_timeout: u16,
    pub settle_timeout: u16,
    pub our_state: OurEndState,
    pub partner_state: PartnerEndState,
    pub open_transaction: TransactionExecutionStatus,
    pub close_transaction: Option<TransactionExecutionStatus>,
    pub settle_transaction: Option<TransactionExecutionStatus>,
    pub update_transaction: Option<TransactionExecutionStatus>,
}

impl View for ChannelState {
    type V = ChannelStateView;

    open spec fn view(&self) -> ChannelStateView {
        ChannelStateView {
            canonical_identifier: self.canonical_identifier,
            token_address: self.token_address,
            token_network_registry_address: self.token_network_registry_address,
            reveal_timeout: self.reveal_timeout,
            settle_timeout: self.settle_timeout,
            our_state: self.our_state@,
            partner_state: self.partner_state@,
            open_transaction: self.open_transaction,
            close_transaction: self.close_transaction,
            settle_transaction: self.settle_transaction,
            update_transaction: self.update_transaction,
        }
    }
}

/// A freshly opened channel, both ends empty.
pub open spec fn channel_fresh(
    canonical_identifier: CanonicalIdentifier,
    token_address: Address,
    token_network_registry_address: Address,
    our_address: Address,
    partner_address: Address,
    reveal_timeout: u16,
    settle_timeout: u16,
    open_transaction: TransactionExecutionStatus,
) -> ChannelStateView {
    ChannelStateView {
        canonical_identifier,
        token_address,
        token_network_registry_address,
        reveal_timeout,
        settle_timeout,
        our_state: our_end_fresh(our_address),
        partner_state: partner_end_fresh(partner_address),
        open_transaction,
        close_transaction: None,
        settle_transaction: None,
        update_transaction: None,
    }
}

/// The timeout invariant and both ends' lock-map invariants.
pub open spec fn channel_state_wf(c: ChannelStateView) -> bool {
    &&& c.reveal_timeout < c.settle_timeout
    &&& our_end_wf(c.our_state)
    &&& partner_end_wf(c.partner_state)
}

impl ChannelState {
    /// Constructs a channel, enforcing that the reveal timeout is strictly
    /// below the settle timeout; a violation fails construction and no
    /// channel value exists.
    pub fn new(
        canonical_identifier: CanonicalIdentifier,
        token_address: Address,
        token_network_registry_address: Address,
        our_address: Address,
        partner_address: Address,
        reveal_timeout: u16,
        settle_timeout: u16,
        open_transaction: TransactionExecutionStatus,
    ) -> (r: Result<ChannelState, ChannelError>)
        ensures
            reveal_timeout < settle_timeout ==> (r matches Ok(c) && c@ == channel_fresh(
                canonical_identifier,
                token_address,
                token_network_registry_address,
                our_address,
                partner_address,
                reveal_timeout,
                settle_timeout,
                open_transaction,
            )),
            reveal_timeout >= settle_timeout ==> (r matches Err(e) && e.msg@
                == "reveal_timeout must be smaller than settle_timeout"@),
            r matches Ok(c) ==> channel_state_wf(c@),
    {
        if reveal_timeout >= settle_timeout {
            return Err(ChannelError {
                msg: "reveal_timeout must be smaller than settle_timeout".to_owned(),
            });
        }
        let our_state = OurEndState::new(our_address);
        let partner_state = PartnerEndState::new(partner_address);
        Ok(ChannelState {
            canonical_identifier,
            token_address,
            token_network_registry_address,
            reveal_timeout,
            settle_timeout,
            our_state,
            partner_state,
            open_transaction,
            close_transaction: None,
            settle_transaction: None,
            update_transaction: None,
        })
    }
}

impl Clone for ChannelState {
    fn clone(&self) -> (r: ChannelState)
        ensures
            r@ == self@,
    {
        ChannelState {
            canonical_identifier: self.canonical_identifier,
            token_address: self.token_address,
            token_network_registry_address: self.token_network_registry_address,
            reveal_timeout: self.reveal_timeout,
            settle_timeout: self.settle_timeout,
            our_state: self.our_state.clone(),
            partner_state: self.partner_state.clone(),
            open_transaction: self.open_transaction,
            close_transaction: self.close_transaction,
            settle_transaction: self.settle_transaction,
            update_transaction: self.update_transaction,
        }
    }
}

/// Routing metadata placeholder for a token network.
#[derive(Clone, Copy, PartialEq, Eq, Structural, Debug)]
pub struct TokenNetworkGraphState {}

impl TokenNetworkGraphState {
    pub fn default() -> (r: TokenNetworkGraphState)
        ensures
            r == (TokenNetworkGraphState {  }),
    {
        TokenNetworkGraphState {  }
    }
}


/// The mathematical content of a token network.
pub struct TokenNetworkStateView {
    pub address: Address,
    pub token_address: Address,
    pub channels: Map<u64, ChannelStateView>,
    pub partners: Map<Address, Seq<u64>>,
}

/// One token network contract and its channels.
#[derive(PartialEq, Eq, Debug)]
pub struct TokenNetworkState {
    pub address: Address,
    pub token_address: Address,
    pub network_graph: TokenNetworkGraphState,
    pub channelidentifiers_to_channels: Vec<(u64, ChannelState)>,
    pub partneraddresses_to_channelidentifiers: Vec<(Address, Vec<u64>)>,
}

/// The channel map an association list of channels holds.
pub open spec fn channels_view(s: Seq<(u64, ChannelState)>) -> Map<u64, ChannelStateView> {
    Map::new(|k: u64| alist_contains(s, k), |k: u64| alist_get(s, k)@)
}

/// The partner index an association list of identifier vectors holds.
pub open spec fn partners_view(s: Seq<(Address, Vec<u64>)>) -> Map<Address, Seq<u64>> {
    Map::new(|a: Address| alist_contains(s, a), |a: Address| alist_get(s, a)@)
}

/// Appending a channel entry with a fresh key inserts into the channel map.
proof fn lemma_channels_view_push(s: Seq<(u64, ChannelState)>, k: u64, c: ChannelState)
    requires
        !alist_contains(s, k),
    ensures
        channels_view(s.push((k, c))) == channels_view(s).insert(k, c@),
        alist_unique(s) ==> alist_unique(s.push((k, c))),
{
    let s2 = s.push((k, c));
    lemma_alist_push(s, k, c);
    assert(alist_map(s2) == alist_map(s).insert(k, c));
    assert forall|x: u64| #[trigger] alist_contains(s2, x) implies x == k || alist_contains(
        s,
        x,
    ) by {
        assert(alist_map(s2).dom().contains(x));
    }
    assert forall|x: u64| x != k && alist_contains(s, x) implies #[trigger] alist_get(s2, x)
        == alist_get(s, x) by {
        assert(alist_map(s).dom().contains(x));
        assert(alist_map(s2).dom().contains(x));
        assert(alist_map(s2)[x] == alist_map(s).insert(k, c)[x]);
    }
    assert(alist_contains(s2, k) && alist_get(s2, k) == c) by {
        assert(alist_map(s2).dom().contains(k));
        assert(alist_map(s2)[k] == alist_map(s).insert(k, c)[k]);
    }
    assert(channels_view(s2) =~= channels_view(s).insert(k, c@));
}

/// Replacing the channel at a key's position inserts into the channel map.
proof fn lemma_channels_view_update(s: Seq<(u64, ChannelState)>, i: int, c: ChannelState)
    requires
        alist_unique(s),
        0 <= i < s.len(),
    ensures
        channels_view(s.update(i, (s[i].0, c))) == channels_view(s).insert(s[i].0, c@),
        alist_unique(s.update(i, (s[i].0, c))),
{
    let k = s[i].0;
    let s2 = s.update(i, (k, c));
    lemma_alist_update(s, i, c);
    assert(alist_map(s2) == alist_map(s).insert(k, c));
    assert forall|x: u64| #[trigger] alist_contains(s2, x) implies x == k || alist_contains(
        s,
        x,
    ) by {
        assert(alist_map(s2).dom().contains(x));
    }
    assert forall|x: u64| x != k && alist_contains(s, x) implies #[trigger] alist_get(s2, x)
        == alist_get(s, x) by {
        assert(alist_map(s2).dom().contains(x));
        assert(alist_map(s2)[x] == alist_map(s).insert(k, c)[x]);
    }
    assert(alist_contains(s2, k) && alist_get(s2, k) == c) by {
        assert(alist_map(s2).dom().contains(k));
        assert(alist_map(s2)[k] == alist_map(s).insert(k, c)[k]);
    }
    assert(channels_view(s2) =~= channels_view(s).insert(k, c@));
}

/// Appending a partner entry with a fresh key inserts into the partner index.
proof fn lemma_partners_view_push(s: Seq<(Address, Vec<u64>)>, a: Address, ids: Vec<u64>)
    requires
        !alist_contains(s, a),
    ensures
        partners_view(s.push((a, ids))) == partners_view(s).insert(a, ids@),
        alist_unique(s) ==> alist_unique(s.push((a, ids))),
{
    let s2 = s.push((a, ids));
    lemma_alist_push(s, a, ids);
    assert(alist_map(s2) == alist_map(s).insert(a, ids));
    assert forall|x: Address| #[trigger] alist_contains(s2, x) implies x == a || alist_contains(
        s,
        x,
    ) by {
        assert(alist_map(s2).dom().contains(x));
    }
    assert forall|x: Address| x != a && alist_contains(s, x) implies #[trigger] alist_get(s2, x)
        == alist_get(s, x) by {
        assert(alist_map(s).dom().contains(x));
        assert(alist_map(s2).dom().contains(x));
        assert(alist_map(s2)[x] == alist_map(s).insert(a, ids)[x]);
    }
    assert(alist_contains(s2, a) && alist_get(s2, a) == ids) by {
        assert(alist_map(s2).dom().contains(a));
        assert(alist_map(s2)[a] == alist_map(s).insert(a, ids)[a]);
    }
    assert(partners_view(s2) =~= partners_view(s).insert(a, ids@));
}

/// Replacing the identifier vector at a key's position inserts into the
/// partner index.
proof fn lemma_partners_view_update(s: Seq<(Address, Vec<u64>)>, i: int, ids: Vec<u64>)
    requires
        alist_unique(s),
        0 <= i < s.len(),
    ensures
        partners_view(s.update(i, (s[i].0, ids))) == partners_view(s).insert(s[i].0, ids@),
        alist_unique(s.update(i, (s[i].0, ids))),
{
    let a = s[i].0;
    let s2 = s.update(i, (a, ids));
    lemma_alist_update(s, i, ids);
    assert(alist_map(s2) == alist_map(s).insert(a, ids));
    assert forall|x: Address| #[trigger] alist_contains(s2, x) implies x == a || alist_contains(
        s,
        x,
    ) by {
        assert(alist_map(s2).dom().contains(x));
    }
    assert forall|x: Address| x != a && alist_contains(s, x) implies #[trigger] alist_get(s2, x)
        == alist_get(s, x) by {
        assert(alist_map(s2).dom().contains(x));
        assert(alist_map(s2)[x] == alist_map(s).insert(a, ids)[x]);
    }
    assert(alist_contains(s2, a) && alist_get(s2, a) == ids) by {
        assert(alist_map(s2).dom().contains(a));
        assert(alist_map(s2)[a] == alist_map(s).insert(a, ids)[a]);
    }
    assert(partners_view(s2) =~= partners_view(s).insert(a, ids@));
}

impl View for TokenNetworkState {
    type V = TokenNetworkStateView;

    open spec fn view(&self) -> TokenNetworkStateView {
        TokenNetworkStateView {
            address: self.address,
            token_address: self.token_address,
            channels: channels_view(self.channelidentifiers_to_channels@),
            partners: partners_view(self.partneraddresses_to_channelidentifiers@),
        }
    }
}

/// A token network with no channels yet.
pub open spec fn token_network_fresh(address: Address, token_address: Address)
    -> TokenNetworkStateView {
    TokenNetworkStateView {
        address,
        token_address,
        channels: Map::empty(),
        partners: Map::empty(),
    }
}

/// Every identifier in the partner index names a channel of the map, and
/// every channel is well formed and keyed by its own identifier.
pub open spec fn token_network_wf(t: TokenNetworkStateView) -> bool {
    &&& forall|p: Address| #[trigger] t.partners.dom().contains(p)
        ==> forall|j: int| 0 <= j < t.partners[p].len()
            ==> t.channels.dom().contains(#[trigger] t.partners[p][j])
    &&& forall|id: u64| #[trigger] t.channels.dom().contains(id) ==> {
        &&& channel_state_wf(t.channels[id])
        &&& t.channels[id].canonical_identifier.channel_identifier == id
        &&& t.channels[id].canonical_identifier.token_network_address == t.address
    }
}

/// A token network after one channel is registered: the channel map gains
/// the channel under its identifier, and the partner index gains the
/// identifier under the partner address.
pub open spec fn network_register_channel(t: TokenNetworkStateView, c: ChannelStateView)
    -> TokenNetworkStateView {
    let cid = c.canonical_identifier.channel_identifier;
    let partner = c.partner_state.address;
    TokenNetworkStateView {
        address: t.address,
        token_address: t.token_address,
        channels: t.channels.insert(cid, c),
        partners: if t.partners.dom().contains(partner) {
            t.partners.insert(partner, t.partners[partner].push(cid))
        } else {
            t.partners.insert(partner, seq![cid])
        },
    }
}

/// Registering a well-formed channel that belongs to the network keeps the
/// network well formed.
pub proof fn lemma_network_register_channel_wf(t: TokenNetworkStateView, c: ChannelStateView)
    requires
        token_network_wf(t),
        channel_state_wf(c),
        c.canonical_identifier.token_network_address == t.address,
    ensures
        token_network_wf(network_register_channel(t, c)),
{
    let r = network_register_channel(t, c);
    let cid = c.canonical_identifier.channel_identifier;
    let partner = c.partner_state.address;
    assert forall|p: Address| #[trigger] r.partners.dom().contains(p) implies forall|j: int|
        0 <= j < r.partners[p].len() ==> r.channels.dom().contains(#[trigger] r.partners[p][j]) by {
        assert forall|j: int| 0 <= j < r.partners[p].len() implies r.channels.dom().contains(
            #[trigger] r.partners[p][j],
        ) by {
            if p == partner {
                if t.partners.dom().contains(partner) {
                    if j < t.partners[partner].len() {
                        assert(t.channels.dom().contains(t.partners[partner][j]));
                    }
                }
            }
        }
    }
}

impl TokenNetworkState {
    /// The association lists behind both indices have unique keys.
    pub open spec fn wf(&self) -> bool {
        &&& alist_unique(self.channelidentifiers_to_channels@)
        &&& alist_unique(self.partneraddresses_to_channelidentifiers@)
    }

    pub fn default() -> (r: TokenNetworkState)
        ensures
            r@ == token_network_fresh(
                Address { w0: 0, w1: 0, w2: 0 },
                Address { w0: 0, w1: 0, w2: 0 },
            ),
            r.wf(),
            token_network_wf(r@),
    {
        TokenNetworkState::new(Address::zero(), Address::zero())
    }

    pub fn new(address: Address, token_address: Address) -> (r: TokenNetworkState)
        ensures
            r@ == token_network_fresh(address, token_address),
            r.wf(),
            token_network_wf(r@),
    {
        let r = TokenNetworkState {
            address,
            token_address,
            network_graph: TokenNetworkGraphState::default(),
            channelidentifiers_to_channels: Vec::new(),
            partneraddresses_to_channelidentifiers: Vec::new(),
        };
        proof {
            assert(channels_view(r.channelidentifiers_to_channels@) =~= Map::<
                u64,
                ChannelStateView,
            >::empty());
            assert(partners_view(r.partneraddresses_to_channelidentifiers@) =~= Map::<
                Address,
                Seq<u64>,
            >::empty());
        }
        r
    }

    /// Inserts a channel under its identifier and records it under the
    /// partner's address.
    pub fn register_channel(&mut self, channel: ChannelState)
        requires
            old(self).wf(),
        ensures
            final(self).wf(),
            final(self)@ == network_register_channel(old(self)@, channel@),
    {
        let cid = channel.canonical_identifier.channel_identifier;
        let partner = channel.partner_state.address;
        channels_insert(&mut self.channelidentifiers_to_channels, cid, channel);
        partners_add(&mut self.partneraddresses_to_channelidentifiers, partner, cid);
    }

    /// The channel stored under `id`, if any.
    pub fn get_channel(&self, id: u64) -> (r: Option<&ChannelState>)
        requires
            self.wf(),
        ensures
            match r {
                Some(c) => self@.channels.dom().contains(id) && c@ == self@.channels[id],
                None => !self@.channels.dom().contains(id),
            },
    {
        let n = self.channelidentifiers_to_channels.len();
        let mut i: usize = 0;
        while i < n
            invariant
                0 <= i <= n,
                n == self.channelidentifiers_to_channels@.len(),
                self.wf(),
                forall|j: int| 0 <= j < i ==> self.channelidentifiers_to_channels@[j].0 != id,
            decreases n - i,
        {
            if self.channelidentifiers_to_channels[i].0 == id {
                proof {
                    lemma_alist_get_at(self.channelidentifiers_to_channels@, i as int);
                }
                return Some(&self.channelidentifiers_to_channels[i].1);
            }
            i = i + 1;
        }
        None
    }
}

/// Replaces the value stored under `k`, or appends the entry if `k` is new.
fn channels_insert(v: &mut Vec<(u64, ChannelState)>, k: u64, c: ChannelState)
    requires
        alist_unique(old(v)@),
    ensures
        alist_unique(final(v)@),
        channels_view(final(v)@) == channels_view(old(v)@).insert(k, c@),
{
    let n = v.len();
    let mut i: usize = 0;
    while i < n
        invariant
            0 <= i <= n,
            n == v@.len(),
            v@ == old(v)@,
            alist_unique(v@),
            forall|j: int| 0 <= j < i ==> v@[j].0 != k,
        decreases n - i,
    {
        if v[i].0 == k {
            let ghost s0 = v@;
            proof {
                lemma_channels_view_update(s0, i as int, c);
            }
            v[i] = (k, c);
            proof {
                assert(v@ == s0.update(i as int, (s0[i as int].0, c)));
            }
            return ;
        }
        i = i + 1;
    }
    proof {
        assert(!alist_contains(v@, k));
        lemma_channels_view_push(v@, k, c);
    }
    v.push((k, c));
}

/// Appends `cid` to the identifier vector stored under `partner`, creating
/// the entry if `partner` is new.
fn partners_add(v: &mut Vec<(Address, Vec<u64>)>, partner: Address, cid: u64)
    requires
        alist_unique(old(v)@),
    ensures
        alist_unique(final(v)@),
        partners_view(final(v)@) == if partners_view(old(v)@).dom().contains(partner) {
            partners_view(old(v)@).insert(partner, partners_view(old(v)@)[partner].push(cid))
        } else {
            partners_view(old(v)@).insert(partner, seq![cid])
        },
{
    let n = v.len();
    let mut i: usize = 0;
    while i < n
        invariant
            0 <= i <= n,
            n == v@.len(),
            v@ == old(v)@,
            alist_unique(v@),
            forall|j: int| 0 <= j < i ==> v@[j].0 != partner,
        decreases n - i,
    {
        if v[i].0 == partner {
            let ghost s0 = v@;
            proof {
                lemma_alist_get_at(s0, i as int);
            }
            let mut ids = clone_ids(&v[i].1);
            ids.push(cid);
            let ghost ids_v = ids;
            proof {
                assert(ids_v@ == s0[i as int].1@.push(cid));
                lemma_partners_view_update(s0, i as int, ids_v);
                assert(partners_view(s0)[partner] == alist_get(s0, partner)@);
            }
            v[i] = (partner, ids);
            proof {
                assert(v@ == s0.update(i as int, (s0[i as int].0, ids_v)));
            }
            return ;
        }
        i = i + 1;
    }
    proof {
        assert(!alist_contains(v@, partner));
    }
    let mut ids: Vec<u64> = Vec::new();
    ids.push(cid);
    proof {
        lemma_partners_view_push(v@, partner, ids);
        assert(ids@ =~= seq![cid]);
    }
    v.push((partner, ids));
}

impl Clone for TokenNetworkState {
    fn clone(&self) -> (r: TokenNetworkState)
        ensures
            r@ == self@,
            self.wf() ==> r.wf(),
    {
        let mut channels: Vec<(u64, ChannelState)> = Vec::new();
        let mut i: usize = 0;
        while i < self.channelidentifiers_to_channels.len()
            invariant
                0 <= i <= self.channelidentifiers_to_channels@.len(),
                channels@.len() == i,
                forall|j: int| #![trigger channels@[j]] 0 <= j < i ==> channels@[j].0
                    == self.channelidentifiers_to_channels@[j].0 && channels@[j].1@
                    == self.channelidentifiers_to_channels@[j].1@,
            decreases self.channelidentifiers_to_channels@.len() - i,
        {
            let entry = &self.channelidentifiers_to_channels[i];
            channels.push((entry.0, entry.1.clone()));
            i = i + 1;
        }
        let mut partners: Vec<(Address, Vec<u64>)> = Vec::new();
        let mut l: usize = 0;
        while l < self.partneraddresses_to_channelidentifiers.len()
            invariant
                0 <= l <= self.partneraddresses_to_channelidentifiers@.len(),
                partners@.len() == l,
                forall|j: int| #![trigger partners@[j]] 0 <= j < l ==> partners@[j].0
                    == self.partneraddresses_to_channelidentifiers@[j].0
                    && partners@[j].1@
                    == self.partneraddresses_to_channelidentifiers@[j].1@,
            decreases self.partneraddresses_to_channelidentifiers@.len() - l,
        {
            let entry = &self.partneraddresses_to_channelidentifiers[l];
            partners.push((entry.0, clone_ids(&entry.1)));
            l = l + 1;
        }
        let r = TokenNetworkState {
            address: self.address,
            token_address: self.token_address,
            network_graph: self.network_graph,
            channelidentifiers_to_channels: channels,
            partneraddresses_to_channelidentifiers: partners,
        };
        proof {
            lemma_channels_view_congruent(
                r.channelidentifiers_to_channels@,
                self.channelidentifiers_to_channels@,
            );
            lemma_partners_view_congruent(
                r.partneraddresses_to_channelidentifiers@,
                self.partneraddresses_to_channelidentifiers@,
            );
        }
        r
    }
}

/// Copies a vector of channel identifiers.
fn clone_ids(v: &Vec<u64>) -> (r: Vec<u64>)
    ensures
        r@ == v@,
{
    let mut r: Vec<u64> = Vec::new();
    let mut i: usize = 0;
    while i < v.len()
        invariant
            0 <= i <= v@.len(),
            r@ == v@.take(i as int),
        decreases v@.len() - i,
    {
        r.push(v[i]);
        proof {
            assert(v@.take(i + 1) =~= v@.take(i as int).push(v@[i as int]));
        }
        i = i + 1;
    }
    proof {
        assert(v@.take(v@.len() as int) =~= v@);
    }
    r
}

/// Association lists with pairwise equal keys and view-equal values hold the
/// same channel map.
proof fn lemma_channels_view_congruent(s1: Seq<(u64, ChannelState)>, s2: Seq<(u64, ChannelState)>)
    requires
        s1.len() == s2.len(),
        forall|j: int| #![trigger s1[j]] 0 <= j < s1.len() ==> s1[j].0 == s2[j].0 && s1[j].1@
            == s2[j].1@,
    ensures
        channels_view(s1) =~= channels_view(s2),
        alist_unique(s1) == alist_unique(s2),
    decreases s1.len(),
{
    assert forall|k: u64| alist_contains(s1, k) == alist_contains(s2, k) by {
        if alist_contains(s1, k) {
            let j = choose|j: int| 0 <= j < s1.len() && s1[j].0 == k;
            assert(s2[j].0 == k);
        }
        if alist_contains(s2, k) {
            let j = choose|j: int| 0 <= j < s2.len() && s2[j].0 == k;
            assert(s1[j].0 == k);
        }
    }
    assert forall|k: u64| alist_contains(s1, k) implies alist_get(s1, k)@ == alist_get(s2, k)@ by {
        lemma_channels_get_congruent(s1, s2, k);
    }
    assert(forall|i: int, j: int| 0 <= i < j < s1.len() ==> ((s1[i].0 != s1[j].0) == (#[trigger] s2[i].0 != #[trigger] s2[j].0)));
}

proof fn lemma_channels_get_congruent(
    s1: Seq<(u64, ChannelState)>,
    s2: Seq<(u64, ChannelState)>,
    k: u64,
)
    requires
        s1.len() == s2.len(),
        forall|j: int| #![trigger s1[j]] 0 <= j < s1.len() ==> s1[j].0 == s2[j].0 && s1[j].1@
            == s2[j].1@,
        alist_contains(s1, k),
    ensures
        alist_get(s1, k)@ == alist_get(s2, k)@,
    decreases s1.len(),
{
    if s1.last().0 == k {
    } else {
        assert forall|j: int| #![trigger s1.drop_last()[j]] 0 <= j < s1.len() - 1 implies s1.drop_last()[j].0
            == s2.drop_last()[j].0 && s1.drop_last()[j].1@ == s2.drop_last()[j].1@ by {
            assert(s1.drop_last()[j] == s1[j]);
            assert(s1[j].0 == s2[j].0 && s1[j].1@ == s2[j].1@);
        }
        let j = choose|j: int| 0 <= j < s1.len() && s1[j].0 == k;
        assert(s1.drop_last()[j].0 == k);
        lemma_channels_get_congruent(s1.drop_last(), s2.drop_last(), k);
    }
}

/// Association lists with pairwise equal keys and view-equal values hold the
/// same partner index.
proof fn lemma_partners_view_congruent(
    s1: Seq<(Address, Vec<u64>)>,
    s2: Seq<(Address, Vec<u64>)>,
)
    requires
        s1.len() == s2.len(),
        forall|j: int| #![trigger s1[j]] 0 <= j < s1.len() ==> s1[j].0 == s2[j].0 && s1[j].1@
            == s2[j].1@,
    ensures
        partners_view(s1) =~= partners_view(s2),
        alist_unique(s1) == alist_unique(s2),
    decreases s1.len(),
{
    assert forall|k: Address| alist_contains(s1, k) == alist_contains(s2, k) by {
        if alist_contains(s1, k) {
            let j = choose|j: int| 0 <= j < s1.len() && s1[j].0 == k;
            assert(s2[j].0 == k);
        }
        if alist_contains(s2, k) {
            let j = choose|j: int| 0 <= j < s2.len() && s2[j].0 == k;
            assert(s1[j].0 == k);
        }
    }
    assert forall|k: Address| alist_contains(s1, k) implies alist_get(s1, k)@ == alist_get(
        s2,
        k,
    )@ by {
        lemma_partners_get_congruent(s1, s2, k);
    }
    assert(forall|i: int, j: int| 0 <= i < j < s1.len() ==> ((s1[i].0 != s1[j].0) == (#[trigger] s2[i].0 != #[trigger] s2[j].0)));
}

proof fn lemma_partners_get_congruent(
    s1: Seq<(Address, Vec<u64>)>,
    s2: Seq<(Address, Vec<u64>)>,
    k: Address,
)
    requires
        s1.len() == s2.len(),
        forall|j: int| #![trigger s1[j]] 0 <= j < s1.len() ==> s1[j].0 == s2[j].0 && s1[j].1@
            == s2[j].1@,
        alist_contains(s1, k),
    ensures
        alist_get(s1, k)@ == alist_get(s2, k)@,
    decreases s1.len(),
{
    if s1.last().0 == k {
    } else {
        assert forall|j: int| #![trigger s1.drop_last()[j]] 0 <= j < s1.len() - 1 implies s1.drop_last()[j].0
            == s2.drop_last()[j].0 && s1.drop_last()[j].1@ == s2.drop_last()[j].1@ by {
            assert(s1.drop_last()[j] == s1[j]);
            assert(s1[j].0 == s2[j].0 && s1[j].1@ == s2[j].1@);
        }
        let j = choose|j: int| 0 <= j < s1.len() && s1[j].0 == k;
        assert(s1.drop_last()[j].0 == k);
        lemma_partners_get_congruent(s1.drop_last(), s2.drop_last(), k);
    }
}


/// The mathematical content of the token network registry.
pub struct TokenNetworkRegistryStateView {
    pub address: Address,
    pub token_network_list: Seq<TokenNetworkStateView>,
    pub network_index: Map<Address, int>,
    pub token_to_network: Map<Address, Address>,
}

/// The token network registry: the ordered list of token networks and the
/// two lookup indices derived from it.
#[derive(PartialEq, Eq, Debug)]
pub struct TokenNetworkRegistryState {
    pub address: Address,
    pub token_network_list: Vec<TokenNetworkState>,
    pub tokennetworkaddresses_to_tokennetworks: Vec<(Address, usize)>,
    pub tokenaddresses_to_tokennetworkaddresses: Vec<(Address, Address)>,
}

/// The views of the listed networks, in order.
pub open spec fn networks_view(s: Seq<TokenNetworkState>) -> Seq<TokenNetworkStateView> {
    s.map_values(|n: TokenNetworkState| n@)
}

/// The position index an association list of list offsets holds.
pub open spec fn network_index_view(s: Seq<(Address, usize)>) -> Map<Address, int> {
    Map::new(|a: Address| alist_contains(s, a), |a: Address| alist_get(s, a) as int)
}

impl View for TokenNetworkRegistryState {
    type V = TokenNetworkRegistryStateView;

    open spec fn view(&self) -> TokenNetworkRegistryStateView {
        TokenNetworkRegistryStateView {
            address: self.address,
            token_network_list: networks_view(self.token_network_list@),
            network_index: network_index_view(self.tokennetworkaddresses_to_tokennetworks@),
            token_to_network: alist_map(self.tokenaddresses_to_tokennetworkaddresses@),
        }
    }
}

/// The network the registry holds under `a`.
pub open spec fn network_by_address(r: TokenNetworkRegistryStateView, a: Address)
    -> TokenNetworkStateView
    recommends
        r.network_index.dom().contains(a),
{
    r.token_network_list[r.network_index[a]]
}

/// Both lookup indices are consistent with the registry list: every index
/// entry names a listed network with the right address, and every listed
/// network is reachable through both indices.
pub open spec fn registry_wf(r: TokenNetworkRegistryStateView) -> bool {
    &&& forall|a: Address| #[trigger] r.network_index.dom().contains(a) ==> 0 <= r.network_index[a]
        < r.token_network_list.len() && r.token_network_list[r.network_index[a]].address == a
    &&& forall|i: int| 0 <= i < r.token_network_list.len() ==> r.network_index.dom().contains(
        (#[trigger] r.token_network_list[i]).address,
    )
    &&& forall|i: int| 0 <= i < r.token_network_list.len() ==> r.token_to_network.dom().contains(
        (#[trigger] r.token_network_list[i]).token_address,
    )
    &&& forall|t: Address| #[trigger] r.token_to_network.dom().contains(t) ==> exists|i: int|
        0 <= i < r.token_network_list.len() && (#[trigger] r.token_network_list[i]).token_address
            == t && r.token_network_list[i].address == r.token_to_network[t]
    &&& forall|i: int| 0 <= i < r.token_network_list.len() ==> token_network_wf(
        #[trigger] r.token_network_list[i],
    )
}

/// A registry with no token networks.
pub open spec fn registry_fresh(address: Address) -> TokenNetworkRegistryStateView {
    TokenNetworkRegistryStateView {
        address,
        token_network_list: Seq::empty(),
        network_index: Map::empty(),
        token_to_network: Map::empty(),
    }
}

/// A registry after one token network is appended: the list grows by the
/// network, and both indices gain its addresses, the newest entry winning.
pub open spec fn registry_add_network(
    r: TokenNetworkRegistryStateView,
    n: TokenNetworkStateView,
) -> TokenNetworkRegistryStateView {
    TokenNetworkRegistryStateView {
        address: r.address,
        token_network_list: r.token_network_list.push(n),
        network_index: r.network_index.insert(n.address, r.token_network_list.len() as int),
        token_to_network: r.token_to_network.insert(n.token_address, n.address),
    }
}

/// Appending a well-formed token network keeps the registry well formed.
pub proof fn lemma_registry_add_network_wf(
    r: TokenNetworkRegistryStateView,
    n: TokenNetworkStateView,
)
    requires
        registry_wf(r),
        token_network_wf(n),
    ensures
        registry_wf(registry_add_network(r, n)),
{
    let r2 = registry_add_network(r, n);
    let len = r.token_network_list.len() as int;
    assert(r2.token_network_list[len] == n);
    assert(forall|i: int| 0 <= i < len ==> r2.token_network_list[i]
        == r.token_network_list[i]);
    assert forall|t: Address| #[trigger] r2.token_to_network.dom().contains(t) implies exists|
        i: int,
    |
        0 <= i < r2.token_network_list.len() && (#[trigger] r2.token_network_list[i]).token_address
            == t && r2.token_network_list[i].address == r2.token_to_network[t] by {
        if t == n.token_address {
            assert(r2.token_network_list[len].token_address == t && r2.token_network_list[
                len
            ].address == r2.token_to_network[t]);
        } else {
            let i = choose|i: int|
                0 <= i < r.token_network_list.len() && (#[trigger] r.token_network_list[
                    i
                ]).token_address == t && r.token_network_list[i].address == r.token_to_network[t];
            assert(r2.token_network_list[i].token_address == t && r2.token_network_list[i].address
                == r2.token_to_network[t]);
        }
    }
}

/// A registry after the network under `a` is replaced by `n2`, which keeps
/// its addresses: the list is updated in place and the indices stand.
pub open spec fn registry_update_network(
    r: TokenNetworkRegistryStateView,
    a: Address,
    n2: TokenNetworkStateView,
) -> TokenNetworkRegistryStateView
    recommends
        r.network_index.dom().contains(a),
{
    TokenNetworkRegistryStateView {
        address: r.address,
        token_network_list: r.token_network_list.update(r.network_index[a], n2),
        network_index: r.network_index,
        token_to_network: r.token_to_network,
    }
}

/// Replacing a network with a well-formed one of the same addresses keeps
/// the registry well formed.
pub proof fn lemma_registry_update_network_wf(
    r: TokenNetworkRegistryStateView,
    a: Address,
    n2: TokenNetworkStateView,
)
    requires
        registry_wf(r),
        r.network_index.dom().contains(a),
        token_network_wf(n2),
        n2.address == network_by_address(r, a).address,
        n2.token_address == network_by_address(r, a).token_address,
    ensures
        registry_wf(registry_update_network(r, a, n2)),
{
    let r2 = registry_update_network(r, a, n2);
    let idx = r.network_index[a];
    assert(r2.token_network_list[idx] == n2);
    assert(forall|i: int| 0 <= i < r.token_network_list.len() && i != idx
        ==> r2.token_network_list[i] == r.token_network_list[i]);
    assert forall|t: Address| #[trigger] r2.token_to_network.dom().contains(t) implies exists|
        i: int,
    |
        0 <= i < r2.token_network_list.len() && (#[trigger] r2.token_network_list[i]).token_address
            == t && r2.token_network_list[i].address == r2.token_to_network[t] by {
        let i = choose|i: int|
            0 <= i < r.token_network_list.len() && (#[trigger] r.token_network_list[
                i
            ]).token_address == t && r.token_network_list[i].address == r.token_to_network[t];
        assert(r2.token_network_list[i].token_address == t && r2.token_network_list[i].address
            == r2.token_to_network[t]);
    }
}

/// The registry built over `address` by appending the networks of `ns` in
/// order.
pub open spec fn registry_with_networks(
    address: Address,
    ns: Seq<TokenNetworkStateView>,
) -> TokenNetworkRegistryStateView
    decreases ns.len(),
{
    if ns.len() == 0 {
        registry_fresh(address)
    } else {
        registry_add_network(registry_with_networks(address, ns.drop_last()), ns.last())
    }
}

impl TokenNetworkRegistryState {
    /// The association lists behind both indices have unique keys, every
    /// index offset is a valid list position holding the address it is
    /// filed under, and every listed network is well formed.
    pub open spec fn wf(&self) -> bool {
        &&& alist_unique(self.tokennetworkaddresses_to_tokennetworks@)
        &&& alist_unique(self.tokenaddresses_to_tokennetworkaddresses@)
        &&& forall|j: int| #![trigger self.tokennetworkaddresses_to_tokennetworks@[j]]
            0 <= j < self.tokennetworkaddresses_to_tokennetworks@.len() ==> {
            let e = self.tokennetworkaddresses_to_tokennetworks@[j];
            e.1 < self.token_network_list@.len() && self.token_network_list@[e.1 as int].address
                == e.0
        }
        &&& forall|i: int| 0 <= i < self.token_network_list@.len() ==> (
        #[trigger] self.token_network_list@[i]).wf()
    }

    pub fn default() -> (r: TokenNetworkRegistryState)
        ensures
            r@ == registry_fresh(Address { w0: 0, w1: 0, w2: 0 }),
            r.wf(),
            registry_wf(r@),
    {
        let r = TokenNetworkRegistryState {
            address: Address::zero(),
            token_network_list: Vec::new(),
            tokennetworkaddresses_to_tokennetworks: Vec::new(),
            tokenaddresses_to_tokennetworkaddresses: Vec::new(),
        };
        proof {
            assert(networks_view(r.token_network_list@) =~= Seq::<TokenNetworkStateView>::empty());
            assert(network_index_view(r.tokennetworkaddresses_to_tokennetworks@) =~= Map::<
                Address,
                int,
            >::empty());
            assert(alist_map(r.tokenaddresses_to_tokennetworkaddresses@) =~= Map::<
                Address,
                Address,
            >::empty());
        }
        r
    }

    /// Builds a registry over `address` holding the given networks, with
    /// both indices derived from the list.
    pub fn new(address: Address, token_network_list: Vec<TokenNetworkState>) -> (r:
        TokenNetworkRegistryState)
        requires
            forall|i: int| 0 <= i < token_network_list@.len() ==> (
            #[trigger] token_network_list@[i]).wf() && token_network_wf(token_network_list@[i]@),
        ensures
            r@ == registry_with_networks(address, networks_view(token_network_list@)),
            r.wf(),
            registry_wf(r@),
    {
        let ghost full = token_network_list@;
        let mut r = TokenNetworkRegistryState {
            address,
            token_network_list: Vec::new(),
            tokennetworkaddresses_to_tokennetworks: Vec::new(),
            tokenaddresses_to_tokennetworkaddresses: Vec::new(),
        };
        proof {
            assert(networks_view(r.token_network_list@) =~= Seq::<TokenNetworkStateView>::empty());
            assert(network_index_view(r.tokennetworkaddresses_to_tokennetworks@) =~= Map::<
                Address,
                int,
            >::empty());
            assert(alist_map(r.tokenaddresses_to_tokennetworkaddresses@) =~= Map::<
                Address,
                Address,
            >::empty());
            assert(networks_view(full.take(0)) =~= Seq::<TokenNetworkStateView>::empty());
        }
        let mut rest = token_network_list;
        let total: usize = rest.len();
        let mut k: usize = 0;
        while rest.len() > 0
            invariant
                total == full.len(),
                k + rest@.len() == total,
                rest@ == full.skip(k as int),
                r@ == registry_with_networks(address, networks_view(full.take(k as int))),
                r.wf(),
                registry_wf(r@),
                forall|i: int| 0 <= i < full.len() ==> (#[trigger] full[i]).wf()
                    && token_network_wf(full[i]@),
            decreases rest@.len(),
        {
            let n = rest.remove(0);
            proof {
                assert(n == full[k as int]);
                assert(rest@ =~= full.skip(k + 1));
                assert(networks_view(full.take(k + 1)).drop_last() =~= networks_view(
                    full.take(k as int),
                ));
                assert(networks_view(full.take(k + 1)).last() == full[k as int]@);
            }
            r.add_token_network(n);
            k = k + 1;
        }
        proof {
            assert(full.take(full.len() as int) =~= full);
        }
        r
    }

    /// Appends a token network and files it in both indices.
    pub fn add_token_network(&mut self, network: TokenNetworkState)
        requires
            old(self).wf(),
            network.wf(),
            token_network_wf(network@),
        ensures
            final(self).wf(),
            final(self)@ == registry_add_network(old(self)@, network@),
            registry_wf(old(self)@) ==> registry_wf(final(self)@),
    {
        let idx = self.token_network_list.len();
        let network_address = network.address;
        let token_address = network.token_address;
        let ghost list0 = self.token_network_list@;
        self.token_network_list.push(network);
        proof {
            assert(networks_view(self.token_network_list@) =~= networks_view(list0).push(
                network@,
            ));
        }
        network_index_insert(
            &mut self.tokennetworkaddresses_to_tokennetworks,
            network_address,
            idx,
        );
        token_index_insert(
            &mut self.tokenaddresses_to_tokennetworkaddresses,
            token_address,
            network_address,
        );
        proof {
            if registry_wf(old(self)@) {
                lemma_registry_add_network_wf(old(self)@, network@);
            }
        }
    }

    /// The list position of the token network registered under `a`, if any.
    pub fn find_network_index(&self, a: Address) -> (r: Option<usize>)
        requires
            self.wf(),
        ensures
            match r {
                Some(i) => self@.network_index.dom().contains(a) && i as int
                    == self@.network_index[a] && i < self.token_network_list@.len(),
                None => !self@.network_index.dom().contains(a),
            },
    {
        let n = self.tokennetworkaddresses_to_tokennetworks.len();
        let mut i: usize = 0;
        while i < n
            invariant
                0 <= i <= n,
                n == self.tokennetworkaddresses_to_tokennetworks@.len(),
                self.wf(),
                forall|j: int| 0 <= j < i ==> self.tokennetworkaddresses_to_tokennetworks@[j].0
                    != a,
            decreases n - i,
        {
            if self.tokennetworkaddresses_to_tokennetworks[i].0 == a {
                proof {
                    lemma_alist_get_at(self.tokennetworkaddresses_to_tokennetworks@, i as int);
                }
                return Some(self.tokennetworkaddresses_to_tokennetworks[i].1);
            }
            i = i + 1;
        }
        None
    }
}

/// Replaces the offset stored under `k`, or appends the entry if `k` is new.
fn network_index_insert(v: &mut Vec<(Address, usize)>, k: Address, idx: usize)
    requires
        alist_unique(old(v)@),
    ensures
        alist_unique(final(v)@),
        network_index_view(final(v)@) == network_index_view(old(v)@).insert(k, idx as int),
        final(v)@.len() >= old(v)@.len(),
        forall|j: int| #![trigger final(v)@[j]] 0 <= j < final(v)@.len() ==> final(v)@[j] == (
        k,
        idx,
        ) || (0 <= j < old(v)@.len() && final(v)@[j] == old(v)@[j]),
{
    let n = v.len();
    let mut i: usize = 0;
    while i < n
        invariant
            0 <= i <= n,
            n == v@.len(),
            v@ == old(v)@,
            alist_unique(v@),
            forall|j: int| 0 <= j < i ==> v@[j].0 != k,
        decreases n - i,
    {
        if v[i].0 == k {
            let ghost s0 = v@;
            proof {
                lemma_alist_update(s0, i as int, idx);
            }
            v[i] = (k, idx);
            proof {
                assert(v@ == s0.update(i as int, (s0[i as int].0, idx)));
                assert(alist_map(v@) == alist_map(s0).insert(k, idx));
                assert forall|x: Address| #[trigger] alist_contains(v@, x) implies x == k
                    || alist_contains(s0, x) by {
                    assert(alist_map(v@).dom().contains(x));
                }
                assert forall|x: Address| x != k && alist_contains(s0, x) implies #[trigger]
                    alist_get(v@, x) == alist_get(s0, x) by {
                    assert(alist_map(v@)[x] == alist_map(s0).insert(k, idx)[x]);
                }
                assert(alist_contains(v@, k) && alist_get(v@, k) == idx) by {
                    assert(alist_map(v@)[k] == alist_map(s0).insert(k, idx)[k]);
                }
                assert(network_index_view(v@) =~= network_index_view(s0).insert(k, idx as int));
            }
            return ;
        }
        i = i + 1;
    }
    proof {
        assert(!alist_contains(v@, k));
        lemma_alist_push(v@, k, idx);
    }
    let ghost s0 = v@;
    v.push((k, idx));
    proof {
        assert(alist_map(v@) == alist_map(s0).insert(k, idx));
        assert forall|x: Address| #[trigger] alist_contains(v@, x) implies x == k
            || alist_contains(s0, x) by {
            assert(alist_map(v@).dom().contains(x));
        }
        assert forall|x: Address| x != k && alist_contains(s0, x) implies #[trigger] alist_get(
            v@,
            x,
        ) == alist_get(s0, x) by {
            assert(alist_map(s0).dom().contains(x));
            assert(alist_map(v@)[x] == alist_map(s0).insert(k, idx)[x]);
        }
        assert(alist_contains(v@, k) && alist_get(v@, k) == idx) by {
            assert(alist_map(v@)[k] == alist_map(s0).insert(k, idx)[k]);
        }
        assert(network_index_view(v@) =~= network_index_view(s0).insert(k, idx as int));
    }
}

/// Replaces the network address stored under `k`, or appends the entry if
/// `k` is new.
fn token_index_insert(v: &mut Vec<(Address, Address)>, k: Address, val: Address)
    requires
        alist_unique(old(v)@),
    ensures
        alist_unique(final(v)@),
        alist_map(final(v)@) == alist_map(old(v)@).insert(k, val),
{
    let n = v.len();
    let mut i: usize = 0;
    while i < n
        invariant
            0 <= i <= n,
            n == v@.len(),
            v@ == old(v)@,
            alist_unique(v@),
            forall|j: int| 0 <= j < i ==> v@[j].0 != k,
        decreases n - i,
    {
        if v[i].0 == k {
            let ghost s0 = v@;
            proof {
                lemma_alist_update(s0, i as int, val);
            }
            v[i] = (k, val);
            proof {
                assert(v@ == s0.update(i as int, (s0[i as int].0, val)));
            }
            return ;
        }
        i = i + 1;
    }
    proof {
        assert(!alist_contains(v@, k));
        lemma_alist_push(v@, k, val);
    }
    v.push((k, val));
}

impl Clone for TokenNetworkRegistryState {
    fn clone(&self) -> (r: TokenNetworkRegistryState)
        ensures
            r@ == self@,
            self.wf() ==> r.wf(),
    {
        let mut list: Vec<TokenNetworkState> = Vec::new();
        let mut i: usize = 0;
        while i < self.token_network_list.len()
            invariant
                0 <= i <= self.token_network_list@.len(),
                list@.len() == i,
                forall|j: int| #![trigger list@[j]] 0 <= j < i ==> list@[j]@
                    == self.token_network_list@[j]@ && (self.token_network_list@[j].wf()
                    ==> list@[j].wf()),
            decreases self.token_network_list@.len() - i,
        {
            list.push(self.token_network_list[i].clone());
            i = i + 1;
        }
        let r = TokenNetworkRegistryState {
            address: self.address,
            token_network_list: list,
            tokennetworkaddresses_to_tokennetworks: clone_copy_pairs_addr_usize(
                &self.tokennetworkaddresses_to_tokennetworks,
            ),
            tokenaddresses_to_tokennetworkaddresses: clone_copy_pairs_addr_addr(
                &self.tokenaddresses_to_tokennetworkaddresses,
            ),
        };
        proof {
            assert(networks_view(r.token_network_list@) =~= networks_view(
                self.token_network_list@,
            ));
        }
        r
    }
}

/// Copies a vector of copyable offset pairs.
fn clone_copy_pairs_addr_usize(v: &Vec<(Address, usize)>) -> (r: Vec<(Address, usize)>)
    ensures
        r@ == v@,
{
    let mut r: Vec<(Address, usize)> = Vec::new();
    let mut i: usize = 0;
    while i < v.len()
        invariant
            0 <= i <= v@.len(),
            r@ == v@.take(i as int),
        decreases v@.len() - i,
    {
        r.push(v[i]);
        proof {
            assert(v@.take(i + 1) =~= v@.take(i as int).push(v@[i as int]));
        }
        i = i + 1;
    }
    proof {
        assert(v@.take(v@.len() as int) =~= v@);
    }
    r
}

/// Copies a vector of copyable address pairs.
fn clone_copy_pairs_addr_addr(v: &Vec<(Address, Address)>) -> (r: Vec<(Address, Address)>)
    ensures
        r@ == v@,
{
    let mut r: Vec<(Address, Address)> = Vec::new();
    let mut i: usize = 0;
    while i < v.len()
        invariant
            0 <= i <= v@.len(),
            r@ == v@.take(i as int),
        decreases v@.len() - i,
    {
        r.push(v[i]);
        proof {
            assert(v@.take(i + 1) =~= v@.take(i as int).push(v@[i as int]));
        }
        i = i + 1;
    }
    proof {
        assert(v@.take(v@.len() as int) =~= v@);
    }
    r
}

/// The mathematical content of the whole chain state.
pub struct ChainStateView {
    pub chain_id: ChainID,
    pub block_number: u64,
    pub our_address: Address,
    pub token_network_registry: TokenNetworkRegistryStateView,
}

/// The root aggregate: the observed block number, our address and the token
/// network registry. Replaced wholesale on every successful transition.
#[derive(PartialEq, Eq, Debug)]
pub struct ChainState {
    pub chain_id: ChainID,
    pub block_number: u64,
    pub our_address: Address,
    pub token_network_registry: TokenNetworkRegistryState,
}

impl View for ChainState {
    type V = ChainStateView;

    open spec fn view(&self) -> ChainStateView {
        ChainStateView {
            chain_id: self.chain_id,
            block_number: self.block_number,
            our_address: self.our_address,
            token_network_registry: self.token_network_registry@,
        }
    }
}

/// The registry and every token network under it are well formed.
pub open spec fn chain_state_wf(s: ChainStateView) -> bool {
    registry_wf(s.token_network_registry)
}

impl ChainState {
    /// The representation of the registry's indices is well formed.
    pub open spec fn wf(&self) -> bool {
        self.token_network_registry.wf()
    }
}

impl Clone for ChainState {
    fn clone(&self) -> (r: ChainState)
        ensures
            r@ == self@,
            self.wf() ==> r.wf(),
    {
        ChainState {
            chain_id: self.chain_id,
            block_number: self.block_number,
            our_address: self.our_address,
            token_network_registry: self.token_network_registry.clone(),
        }
    }
}


/// The view of an optional chain state.
pub open spec fn opt_view(s: Option<ChainState>) -> Option<ChainStateView> {
    match s {
        None => None,
        Some(c) => Some(c@),
    }
}

} // verus!
