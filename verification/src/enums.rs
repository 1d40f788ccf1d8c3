//! The chain identifier, the closed set of state changes the reducer
//! consumes, and the closed set of side-effect events it emits.

use crate::primitives::Address;
use crate::transfer::state_change::{
    ActionInitChain, Block, ContractReceiveChannelOpened, ContractReceiveTokenNetworkCreated,
    ContractReceiveTokenNetworkRegistry,
};
use core::str::FromStr;
use vstd::prelude::*;

verus! {

/// The chain a node runs against.
#[derive(Clone, Copy, PartialEq, Eq, Structural, Debug)]
pub enum ChainID {
    Mainnet,
    Ropsten,
    Rinkeby,
    Goerli,
    Kovan,
}

impl ChainID {
    /// The numeric chain identifier of this chain.
    pub open spec fn spec_id(self) -> u64 {
        match self {
            ChainID::Mainnet => 1,
            ChainID::Ropsten => 3,
            ChainID::Rinkeby => 4,
            ChainID::Goerli => 5,
            ChainID::Kovan => 42,
        }
    }

    /// The numeric chain identifier of this chain.
    pub fn id(&self) -> (r: u64)
        ensures
            r == self.spec_id(),
    {
        match self {
            ChainID::Mainnet => 1,
            ChainID::Ropsten => 3,
            ChainID::Rinkeby => 4,
            ChainID::Goerli => 5,
            ChainID::Kovan => 42,
        }
    }
}

/// The chain named `s`, if the name is known.
pub open spec fn chain_id_of_name(s: Seq<char>) -> Option<ChainID> {
    if s == "mainnet"@ {
        Some(ChainID::Mainnet)
    } else if s == "ropsten"@ {
        Some(ChainID::Ropsten)
    } else if s == "rinkeby"@ {
        Some(ChainID::Rinkeby)
    } else if s == "goerli"@ {
        Some(ChainID::Goerli)
    } else if s == "kovan"@ {
        Some(ChainID::Kovan)
    } else {
        None
    }
}

impl FromStr for ChainID {
    type Err = ();

    fn from_str(s: &str) -> (r: Result<ChainID, ()>)
        ensures
            match r {
                Ok(c) => chain_id_of_name(s@) == Some(c),
                Err(_) => chain_id_of_name(s@) is None,
            },
    {
        let owned = s.to_owned();
        if owned == "mainnet".to_owned() {
            Ok(ChainID::Mainnet)
        } else if owned == "ropsten".to_owned() {
            Ok(ChainID::Ropsten)
        } else if owned == "rinkeby".to_owned() {
            Ok(ChainID::Rinkeby)
        } else if owned == "goerli".to_owned() {
            Ok(ChainID::Goerli)
        } else if owned == "kovan".to_owned() {
            Ok(ChainID::Kovan)
        } else {
            Err(())
        }
    }
}

/// The closed set of inputs of the chain reducer.
#[derive(Clone, Copy, PartialEq, Eq, Debug)]
pub enum StateChange {
    Block(Block),
    ActionInitChain(ActionInitChain),
    ContractReceiveTokenNetworkRegistry(ContractReceiveTokenNetworkRegistry),
    ContractReceiveTokenNetworkCreated(ContractReceiveTokenNetworkCreated),
    ContractReceiveChannelOpened(ContractReceiveChannelOpened),
}

/// The payload of a `TokenNetworkCreated` side-effect event.
#[derive(Clone, Copy, PartialEq, Eq, Debug)]
pub struct TokenNetworkCreatedEvent {
    pub token_network_address: Address,
    pub token_address: Address,
    pub block_number: u64,
}

/// The closed set of side-effect events the reducer emits; consumed by the
/// handler layer, never by the reducer itself.
#[derive(Clone, Copy, PartialEq, Eq, Debug)]
pub enum Event {
    TokenNetworkCreated(TokenNetworkCreatedEvent),
}

} // verus!
