//! The state-change translator: maps a decoded chain event, with the
//! current chain state for context, to one state-change command. Unknown
//! event names, malformed parameter shapes, values out of range for their
//! narrowed fields, and a channel between two foreign participants all
//! translate to nothing and are dropped: translation is total and never
//! fails hard.

use crate::blockchain::contracts::abi::{
    log_to_event_spec, AbiValue, ContractRegistry, ContractSpecView, Event, EventView, RawLog,
    RawLogView,
};
use crate::enums::StateChange;
use crate::primitives::Address;
use crate::transfer::state::{
    opt_view, CanonicalIdentifier, ChainState, ChainStateView, TransactionExecutionStatus,
    TransactionResult,
};
use crate::transfer::state_change::{
    ContractReceiveChannelOpened, ContractReceiveTokenNetworkCreated,
};
use vstd::prelude::*;

verus! {

/// The reveal timeout a channel opened from a chain event is given.
pub const DEFAULT_REVEAL_TIMEOUT: u16 = 50;

/// The token-network-created change of a decoded event, when its data has
/// the declared shape: the token address, then the token network address.
pub open spec fn token_network_created_change(e: EventView, log: RawLogView) -> Option<
    StateChange,
> {
    if e.data.len() == 2 && (e.data[0] is Address) && (e.data[1] is Address) {
        Some(
            StateChange::ContractReceiveTokenNetworkCreated(
                ContractReceiveTokenNetworkCreated {
                    transaction_hash: Some(e.transaction_hash),
                    token_network_registry_address: log.address,
                    token_network_address: e.data[1]->Address_0,
                    token_address: e.data[0]->Address_0,
                    block_number: e.block_number,
                    block_hash: e.block_hash,
                },
            ),
        )
    } else {
        None
    }
}

/// The channel-opened change of a decoded event, when its data has the
/// declared shape and each narrowed value is in range. The partner is the
/// participant that is not our address; a channel between two foreign
/// participants is dropped explicitly rather than guessed at.
pub open spec fn channel_opened_change(cs: ChainStateView, e: EventView, log: RawLogView) -> Option<
    StateChange,
> {
    if e.data.len() == 4 && (e.data[0] is Uint) && (e.data[1] is Address) && (e.data[2] is Address)
        && (e.data[3] is Uint) {
        let cid_u = e.data[0]->Uint_0;
        let p1 = e.data[1]->Address_0;
        let p2 = e.data[2]->Address_0;
        let st_u = e.data[3]->Uint_0;
        if !(cid_u.w0 == 0 && cid_u.w1 == 0 && cid_u.w2 == 0) {
            None
        } else if !(st_u.w0 == 0 && st_u.w1 == 0 && st_u.w2 == 0 && st_u.w3 <= 0xffff) {
            None
        } else if p1 != cs.our_address && p2 != cs.our_address {
            None
        } else {
            let partner = if p1 == cs.our_address {
                p2
            } else {
                p1
            };
            Some(
                StateChange::ContractReceiveChannelOpened(
                    ContractReceiveChannelOpened {
                        transaction_hash: Some(e.transaction_hash),
                        block_number: e.block_number,
                        block_hash: e.block_hash,
                        canonical_identifier: CanonicalIdentifier {
                            chain_identifier: cs.chain_id.spec_id(),
                            token_network_address: log.address,
                            channel_identifier: cid_u.w3,
                        },
                        token_address: Address { w0: 0, w1: 0, w2: 0 },
                        token_network_registry_address: Address { w0: 0, w1: 0, w2: 0 },
                        partner_address: partner,
                        reveal_timeout: DEFAULT_REVEAL_TIMEOUT,
                        settle_timeout: st_u.w3 as u16,
                        open_transaction: TransactionExecutionStatus {
                            started_block_number: Some(0),
                            finished_block_number: Some(e.block_number),
                            result: Some(TransactionResult::SUCCESS),
                        },
                    },
                ),
            )
        }
    } else {
        None
    }
}

/// The state change of one decoded event. Creating a token network needs
/// no state; opening a channel before the chain state exists is dropped.
pub open spec fn translate_event(
    chain: Option<ChainStateView>,
    e: EventView,
    log: RawLogView,
) -> Option<StateChange> {
    if e.name == "TokenNetworkCreated"@ {
        token_network_created_change(e, log)
    } else if e.name == "ChannelOpened"@ {
        match chain {
            None => None,
            Some(cs) => channel_opened_change(cs, e, log),
        }
    } else {
        None
    }
}

/// The state change a raw log yields against a registry and the current
/// state: decode, then translate.
pub open spec fn log_to_state_change_spec(
    chain: Option<ChainStateView>,
    contracts: Seq<ContractSpecView>,
    log: RawLogView,
) -> Option<StateChange> {
    match log_to_event_spec(contracts, log) {
        None => None,
        Some(e) => translate_event(chain, e, log),
    }
}

/// Builds the token-network-created change of a decoded event.
fn create_token_network_created_state_change(base_event: &Event, log: &RawLog) -> (r: Option<
    StateChange,
>)
    ensures
        r == token_network_created_change(base_event@, log@),
{
    if base_event.data.len() != 2 {
        return None;
    }
    let token_address = match base_event.data[0] {
        AbiValue::Address(a) => a,
        _ => {
            return None;
        },
    };
    let token_network_address = match base_event.data[1] {
        AbiValue::Address(a) => a,
        _ => {
            return None;
        },
    };
    Some(
        StateChange::ContractReceiveTokenNetworkCreated(
            ContractReceiveTokenNetworkCreated {
                transaction_hash: Some(base_event.transaction_hash),
                token_network_registry_address: log.address,
                token_network_address,
                token_address,
                block_number: base_event.block_number,
                block_hash: base_event.block_hash,
            },
        ),
    )
}

/// Builds the channel-opened change of a decoded event.
fn create_channel_opened_state_change(
    chain_state: &ChainState,
    base_event: &Event,
    log: &RawLog,
) -> (r: Option<StateChange>)
    ensures
        r == channel_opened_change(chain_state@, base_event@, log@),
{
    if base_event.data.len() != 4 {
        return None;
    }
    let cid_u = match base_event.data[0] {
        AbiValue::Uint(u) => u,
        _ => {
            return None;
        },
    };
    let p1 = match base_event.data[1] {
        AbiValue::Address(a) => a,
        _ => {
            return None;
        },
    };
    let p2 = match base_event.data[2] {
        AbiValue::Address(a) => a,
        _ => {
            return None;
        },
    };
    let st_u = match base_event.data[3] {
        AbiValue::Uint(u) => u,
        _ => {
            return None;
        },
    };
    let channel_identifier = match cid_u.as_u64() {
        Some(v) => v,
        None => {
            return None;
        },
    };
    let settle_wide = match st_u.as_u64() {
        Some(v) => v,
        None => {
            return None;
        },
    };
    if settle_wide > 0xffff {
        return None;
    }
    let settle_timeout: u16 = settle_wide as u16;
    let our_address = chain_state.our_address;
    if p1 != our_address && p2 != our_address {
        return None;
    }
    let partner_address = if p1 == our_address {
        p2
    } else {
        p1
    };
    let open_transaction = TransactionExecutionStatus {
        started_block_number: Some(0),
        finished_block_number: Some(base_event.block_number),
        result: Some(TransactionResult::SUCCESS),
    };
    Some(
        StateChange::ContractReceiveChannelOpened(
            ContractReceiveChannelOpened {
                transaction_hash: Some(base_event.transaction_hash),
                block_number: base_event.block_number,
                block_hash: base_event.block_hash,
                canonical_identifier: CanonicalIdentifier {
                    chain_identifier: chain_state.chain_id.id(),
                    token_network_address: log.address,
                    channel_identifier,
                },
                token_address: Address::zero(),
                token_network_registry_address: Address::zero(),
                partner_address,
                reveal_timeout: DEFAULT_REVEAL_TIMEOUT,
                settle_timeout,
                open_transaction,
            },
        ),
    )
}

/// Decodes a raw log and translates the decoded event into a state-change
/// command. A log that decodes to nothing, an unrecognized event name, or
/// a channel opening before initialization yields nothing.
pub fn log_to_blockchain_state_change(
    chain_state: &Option<ChainState>,
    contract_registry: &ContractRegistry,
    log: &RawLog,
) -> (r: Option<StateChange>)
    ensures
        r == log_to_state_change_spec(opt_view(*chain_state), contract_registry@.contracts, log@),
{
    let base_event = match contract_registry.log_to_event(log) {
        Some(e) => e,
        None => {
            return None;
        },
    };
    if base_event.name == "TokenNetworkCreated".to_owned() {
        create_token_network_created_state_change(&base_event, log)
    } else if base_event.name == "ChannelOpened".to_owned() {
        match chain_state {
            Some(cs) => create_channel_opened_state_change(cs, &base_event, log),
            None => None,
        }
    } else {
        None
    }
}

} // verus!
