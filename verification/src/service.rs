//! The startup decisions of the service: which state changes a fresh node
//! applies when no state could be restored. The surrounding I/O — the
//! database, the RPC transport, the block subscription — lives outside the
//! library and feeds its results back in as plain values.

use crate::enums::{ChainID, StateChange};
use crate::primitives::{Address, H256};
use crate::transfer::state_change::{ActionInitChain, ContractReceiveTokenNetworkRegistry};
use vstd::prelude::*;

verus! {

/// The state changes a fresh node applies at startup, in order: initialize
/// the chain at block one under our address, then install the token
/// network registry root.
pub fn initial_state_changes(
    chain_id: ChainID,
    our_address: Address,
    registry_address: Address,
) -> (r: Vec<StateChange>)
    ensures
        r@ == seq![
            StateChange::ActionInitChain(
                ActionInitChain { chain_id, block_number: 1, our_address },
            ),
            StateChange::ContractReceiveTokenNetworkRegistry(
                ContractReceiveTokenNetworkRegistry {
                    transaction_hash: Some(H256 { w0: 0, w1: 0, w2: 0, w3: 0 }),
                    token_network_registry: registry_address,
                    block_number: 1,
                    block_hash: H256 { w0: 0, w1: 0, w2: 0, w3: 0 },
                },
            ),
        ],
{
    let mut r: Vec<StateChange> = Vec::new();
    r.push(
        StateChange::ActionInitChain(ActionInitChain { chain_id, block_number: 1, our_address }),
    );
    r.push(
        StateChange::ContractReceiveTokenNetworkRegistry(
            ContractReceiveTokenNetworkRegistry::new(H256::zero(), registry_address, 1,
                H256::zero()),
        ),
    );
    proof {
        assert(r@ =~= seq![
            StateChange::ActionInitChain(
                ActionInitChain { chain_id, block_number: 1, our_address },
            ),
            StateChange::ContractReceiveTokenNetworkRegistry(
                ContractReceiveTokenNetworkRegistry {
                    transaction_hash: Some(H256 { w0: 0, w1: 0, w2: 0, w3: 0 }),
                    token_network_registry: registry_address,
                    block_number: 1,
                    block_hash: H256 { w0: 0, w1: 0, w2: 0, w3: 0 },
                },
            ),
        ]);
    }
    r
}

} // verus!
