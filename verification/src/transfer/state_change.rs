//! The closed set of state-change commands the chain reducer consumes. Each
//! carries the minimal plain data the reducer needs, plus the block and
//! transaction provenance of the chain event it came from.

use crate::enums::ChainID;
use crate::primitives::{Address, H256};
use crate::transfer::state::{CanonicalIdentifier, TransactionExecutionStatus};
use vstd::prelude::*;

verus! {

/// A new block was observed on chain.
#[derive(Clone, Copy, PartialEq, Eq, Debug)]
pub struct Block {
    pub chain_id: ChainID,
    pub block_number: u64,
}

impl Block {
    pub fn new(chain_id: ChainID, block_number: u64) -> (r: Block)
        ensures
            r == (Block { chain_id, block_number }),
    {
        Block { chain_id, block_number }
    }
}

/// Bootstrap command: create the chain state at the given starting block.
#[derive(Clone, Copy, PartialEq, Eq, Debug)]
pub struct ActionInitChain {
    pub chain_id: ChainID,
    pub block_number: u64,
    pub our_address: Address,
}

/// The token network registry contract was seen; install its root into the
/// chain state.
#[derive(Clone, Copy, PartialEq, Eq, Debug)]
pub struct ContractReceiveTokenNetworkRegistry {
    pub transaction_hash: Option<H256>,
    pub token_network_registry: Address,
    pub block_number: u64,
    pub block_hash: H256,
}

impl ContractReceiveTokenNetworkRegistry {
    pub fn new(
        transaction_hash: H256,
        token_network_registry: Address,
        block_number: u64,
        block_hash: H256,
    ) -> (r: ContractReceiveTokenNetworkRegistry)
        ensures
            r == (ContractReceiveTokenNetworkRegistry {
                transaction_hash: Some(transaction_hash),
                token_network_registry,
                block_number,
                block_hash,
            }),
    {
        ContractReceiveTokenNetworkRegistry {
            transaction_hash: Some(transaction_hash),
            token_network_registry,
            block_number,
            block_hash,
        }
    }
}

/// A new token network contract was created under the registry.
#[derive(Clone, Copy, PartialEq, Eq, Debug)]
pub struct ContractReceiveTokenNetworkCreated {
    pub transaction_hash: Option<H256>,
    pub token_network_registry_address: Address,
    pub token_network_address: Address,
    pub token_address: Address,
    pub block_number: u64,
    pub block_hash: H256,
}

/// A channel was opened on a token network contract. Carries the raw channel
/// parameters; the reducer constructs the channel state and enforces its
/// invariant.
#[derive(Clone, Copy, PartialEq, Eq, Debug)]
pub struct ContractReceiveChannelOpened {
    pub transaction_hash: Option<H256>,
    pub block_number: u64,
    pub block_hash: H256,
    pub canonical_identifier: CanonicalIdentifier,
    pub token_address: Address,
    pub token_network_registry_address: Address,
    pub partner_address: Address,
    pub reveal_timeout: u16,
    pub settle_timeout: u16,
    pub open_transaction: TransactionExecutionStatus,
}

} // verus!
