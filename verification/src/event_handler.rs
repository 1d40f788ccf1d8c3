//! The side-effect event handler: turns each reducer event into the filter
//! registrations it requires. Polling itself is I/O and is driven by the
//! caller; the handler reports whether a poll is due.

use crate::blockchain::contracts::abi::{
    filters_for, filters_installed, BlockSpec, ContractRegistry,
};
use crate::enums::Event;
use vstd::prelude::*;

verus! {

/// Dispatches reducer side effects into filter registrations.
pub struct EventHandler {}

impl EventHandler {
    /// Handles one reducer event. A token network creation installs log
    /// filters for the new contract, scoped to its address from its
    /// creation block onward, and asks the caller to poll; the returned
    /// flag says whether a poll is due.
    pub fn handle_event(registry: &mut ContractRegistry, event: &Event) -> (r: bool)
        ensures
            final(registry)@.contracts == old(registry)@.contracts,
            match event {
                Event::TokenNetworkCreated(e) => r == true && final(registry)@.filters == (
                if filters_installed(old(registry)@.filters, "TokenNetwork"@,
                    e.token_network_address) {
                    old(registry)@.filters
                } else {
                    old(registry)@.filters + filters_for(
                        old(registry)@.contracts,
                        "TokenNetwork"@,
                        e.token_network_address,
                        BlockSpec::Number(e.block_number),
                    )
                }),
            },
    {
        match event {
            Event::TokenNetworkCreated(e) => {
                registry.create_contract_event_filters(
                    "TokenNetwork".to_owned(),
                    e.token_network_address,
                    BlockSpec::Number(e.block_number),
                );
                true
            },
        }
    }
}

} // verus!
