use raiden::enums::{ChainID, Event, StateChange};
use raiden::primitives::{Address, H256};
use raiden::state::StateManager;
use raiden::transfer::chain::{handle_state_change, ChainTransitionResult};
use raiden::transfer::state::{
    CanonicalIdentifier, ChannelState, HashTimeLockState, TokenNetworkGraphState,
    TokenNetworkRegistryState, TokenNetworkState, TransactionExecutionStatus, TransactionResult,
};
use raiden::transfer::state_change::{
    ActionInitChain, Block, ContractReceiveChannelOpened, ContractReceiveTokenNetworkCreated,
    ContractReceiveTokenNetworkRegistry,
};

fn addr(tag: u32) -> Address {
    Address {
        w0: tag as u64,
        w1: 0x1111_2222_3333_4444,
        w2: 0x5555_6666,
    }
}

fn open_transaction(block: u64) -> TransactionExecutionStatus {
    TransactionExecutionStatus {
        started_block_number: Some(0),
        finished_block_number: Some(block),
        result: Some(TransactionResult::SUCCESS),
    }
}

fn init_chain() -> StateChange {
    StateChange::ActionInitChain(ActionInitChain {
        chain_id: ChainID::Kovan,
        block_number: 1,
        our_address: addr(0xDD),
    })
}

fn registry_change(registry: Address) -> StateChange {
    StateChange::ContractReceiveTokenNetworkRegistry(ContractReceiveTokenNetworkRegistry::new(
        H256::zero(),
        registry,
        1,
        H256::zero(),
    ))
}

fn network_created(network: Address, token: Address) -> StateChange {
    StateChange::ContractReceiveTokenNetworkCreated(ContractReceiveTokenNetworkCreated {
        transaction_hash: Some(H256::zero()),
        token_network_registry_address: addr(0xAA),
        token_network_address: network,
        token_address: token,
        block_number: 5,
        block_hash: H256::zero(),
    })
}

fn channel_opened(network: Address, reveal: u16, settle: u16) -> StateChange {
    StateChange::ContractReceiveChannelOpened(ContractReceiveChannelOpened {
        transaction_hash: Some(H256::zero()),
        block_number: 7,
        block_hash: H256::zero(),
        canonical_identifier: CanonicalIdentifier {
            chain_identifier: 42,
            token_network_address: network,
            channel_identifier: 17,
        },
        token_address: Address::zero(),
        token_network_registry_address: Address::zero(),
        partner_address: addr(0xEE),
        reveal_timeout: reveal,
        settle_timeout: settle,
        open_transaction: open_transaction(7),
    })
}

#[test]
fn init_then_registry_yields_empty_network_list() {
    let mut manager = StateManager::new();
    manager.transition(init_chain()).expect("init");
    manager
        .transition(registry_change(addr(0xAA)))
        .expect("registry");
    let state = manager.current_state.as_ref().expect("state");
    assert_eq!(state.block_number, 1);
    assert_eq!(state.token_network_registry.address, addr(0xAA));
    assert!(state.token_network_registry.token_network_list.is_empty());
}

#[test]
fn reinitialization_is_rejected() {
    let mut manager = StateManager::new();
    manager.transition(init_chain()).expect("init");
    let err = manager.transition(init_chain()).unwrap_err();
    assert_eq!(err.msg, "chain already initialized");
}

#[test]
fn block_before_initialization_is_rejected() {
    let mut manager = StateManager::new();
    let err = manager
        .transition(StateChange::Block(Block::new(ChainID::Kovan, 3)))
        .unwrap_err();
    assert_eq!(err.msg, "chain state not initialized");
}

#[test]
fn increasing_blocks_set_final_block_number() {
    let mut manager = StateManager::new();
    manager.transition(init_chain()).expect("init");
    for n in [2u64, 5, 9, 100] {
        manager
            .transition(StateChange::Block(Block::new(ChainID::Kovan, n)))
            .expect("block");
    }
    assert_eq!(manager.current_state.as_ref().unwrap().block_number, 100);
}

#[test]
fn lower_block_is_rejected_and_state_kept() {
    let mut manager = StateManager::new();
    manager.transition(init_chain()).expect("init");
    manager
        .transition(StateChange::Block(Block::new(ChainID::Kovan, 10)))
        .expect("block");
    let err = manager
        .transition(StateChange::Block(Block::new(ChainID::Kovan, 4)))
        .unwrap_err();
    assert_eq!(err.msg, "block number lower than current block");
    assert_eq!(manager.current_state.as_ref().unwrap().block_number, 10);
}

#[test]
fn replaying_the_log_reproduces_the_state() {
    let mut manager = StateManager::new();
    manager.transition(init_chain()).expect("init");
    manager
        .transition(registry_change(addr(0xAA)))
        .expect("registry");
    manager
        .transition(network_created(addr(0xBB), addr(0xCC)))
        .expect("created");
    manager
        .transition(channel_opened(addr(0xBB), 50, 500))
        .expect("opened");
    manager
        .transition(StateChange::Block(Block::new(ChainID::Kovan, 12)))
        .expect("block");

    let mut replayed = StateManager {
        current_state: None,
        change_log: manager.change_log.clone(),
    };
    assert!(replayed.restore_state().expect("restore"));
    assert_eq!(replayed.current_state, manager.current_state);

    let mut replayed_again = StateManager {
        current_state: None,
        change_log: manager.change_log.clone(),
    };
    assert!(replayed_again.restore_state().expect("restore"));
    assert_eq!(replayed_again.current_state, replayed.current_state);
}

#[test]
fn replay_skips_rejected_entries() {
    let mut manager = StateManager::new();
    manager.transition(init_chain()).expect("init");
    manager
        .transition(registry_change(addr(0xAA)))
        .expect("registry");
    manager
        .transition(network_created(addr(0xBB), addr(0xCC)))
        .expect("created");
    // A rejected change is still logged, and replay skips it.
    assert!(manager.transition(channel_opened(addr(0xBB), 10, 5)).is_err());
    assert_eq!(manager.change_log.len(), 4);

    let mut replayed = StateManager {
        current_state: None,
        change_log: manager.change_log.clone(),
    };
    assert!(replayed.restore_state().expect("restore"));
    assert_eq!(replayed.current_state, manager.current_state);
}

#[test]
fn restore_of_empty_log_signals_initialization() {
    let mut manager = StateManager::new();
    let err = manager.restore_state().unwrap_err();
    assert_eq!(err.msg, "Invalid state");
    assert!(manager.current_state.is_none());
}

#[test]
fn network_created_updates_both_indices() {
    let mut manager = StateManager::new();
    manager.transition(init_chain()).expect("init");
    manager
        .transition(registry_change(addr(0xAA)))
        .expect("registry");
    let events = manager
        .transition(network_created(addr(0xBB), addr(0xCC)))
        .expect("created");
    assert_eq!(events.len(), 1);
    match &events[0] {
        Event::TokenNetworkCreated(e) => {
            assert_eq!(e.token_network_address, addr(0xBB));
            assert_eq!(e.token_address, addr(0xCC));
            assert_eq!(e.block_number, 5);
        }
    }
    let state = manager.current_state.as_ref().unwrap();
    let registry = &state.token_network_registry;
    assert_eq!(registry.token_network_list.len(), 1);
    assert_eq!(registry.token_network_list[0].address, addr(0xBB));
    assert_eq!(registry.token_network_list[0].token_address, addr(0xCC));
    let (_, idx) = registry
        .tokennetworkaddresses_to_tokennetworks
        .iter()
        .find(|(a, _)| *a == addr(0xBB))
        .expect("network indexed");
    assert_eq!(registry.token_network_list[*idx].address, addr(0xBB));
    let (_, net_addr) = registry
        .tokenaddresses_to_tokennetworkaddresses
        .iter()
        .find(|(t, _)| *t == addr(0xCC))
        .expect("token indexed");
    assert_eq!(*net_addr, addr(0xBB));
}

#[test]
fn channel_opened_registers_the_channel() {
    let mut manager = StateManager::new();
    manager.transition(init_chain()).expect("init");
    manager
        .transition(registry_change(addr(0xAA)))
        .expect("registry");
    manager
        .transition(network_created(addr(0xBB), addr(0xCC)))
        .expect("created");
    let events = manager
        .transition(channel_opened(addr(0xBB), 50, 500))
        .expect("opened");
    assert!(events.is_empty());
    let state = manager.current_state.as_ref().unwrap();
    let network = &state.token_network_registry.token_network_list[0];
    let channel = network.get_channel(17).expect("channel");
    assert_eq!(channel.reveal_timeout, 50);
    assert_eq!(channel.settle_timeout, 500);
    assert_eq!(channel.partner_state.address, addr(0xEE));
    assert_eq!(channel.our_state.address, addr(0xDD));
    let (_, ids) = network
        .partneraddresses_to_channelidentifiers
        .iter()
        .find(|(p, _)| *p == addr(0xEE))
        .expect("partner indexed");
    assert_eq!(ids, &vec![17u64]);
}

#[test]
fn bad_timeouts_fail_channel_construction() {
    let err = ChannelState::new(
        CanonicalIdentifier {
            chain_identifier: 42,
            token_network_address: addr(0xBB),
            channel_identifier: 1,
        },
        Address::zero(),
        Address::zero(),
        addr(0xDD),
        addr(0xEE),
        500,
        500,
        open_transaction(1),
    )
    .unwrap_err();
    assert_eq!(err.msg, "reveal_timeout must be smaller than settle_timeout");
}

#[test]
fn bad_timeouts_fail_the_transition_and_leave_the_channel_map_unchanged() {
    let mut manager = StateManager::new();
    manager.transition(init_chain()).expect("init");
    manager
        .transition(registry_change(addr(0xAA)))
        .expect("registry");
    manager
        .transition(network_created(addr(0xBB), addr(0xCC)))
        .expect("created");
    let err = manager
        .transition(channel_opened(addr(0xBB), 10, 5))
        .unwrap_err();
    assert_eq!(err.msg, "reveal_timeout must be smaller than settle_timeout");
    let state = manager.current_state.as_ref().unwrap();
    let network = &state.token_network_registry.token_network_list[0];
    assert!(network.channelidentifiers_to_channels.is_empty());
    assert!(network.partneraddresses_to_channelidentifiers.is_empty());
}

#[test]
fn channel_on_unknown_network_is_rejected() {
    let mut manager = StateManager::new();
    manager.transition(init_chain()).expect("init");
    manager
        .transition(registry_change(addr(0xAA)))
        .expect("registry");
    let err = manager
        .transition(channel_opened(addr(0xBB), 50, 500))
        .unwrap_err();
    assert_eq!(err.msg, "unknown token network");
}

#[test]
fn reducer_is_pure_on_equal_inputs() {
    let run = || -> ChainTransitionResult {
        let first = handle_state_change(None, init_chain()).expect("init");
        handle_state_change(Some(first.new_state), registry_change(addr(0xAA))).expect("registry")
    };
    let a = run();
    let b = run();
    assert_eq!(a.new_state, b.new_state);
    assert_eq!(a.events, b.events);
}

#[test]
fn value_constructors_keep_their_fields() {
    let lock = HashTimeLockState::new(9, 30, H256::zero(), H256::zero());
    assert_eq!(lock.amount, 9);
    assert_eq!(lock.expiration, 30);
    let _graph = TokenNetworkGraphState::default();
    let block = Block::new(ChainID::Goerli, 8);
    assert_eq!(block.block_number, 8);
    let registry = ContractReceiveTokenNetworkRegistry::new(H256::zero(), addr(0xAA), 2, H256::zero());
    assert_eq!(registry.transaction_hash, Some(H256::zero()));
    assert_eq!(registry.token_network_registry, addr(0xAA));
}

#[test]
fn registry_built_from_a_network_list_indexes_every_network() {
    let networks = vec![
        TokenNetworkState::new(addr(0xB1), addr(0xC1)),
        TokenNetworkState::new(addr(0xB2), addr(0xC2)),
    ];
    let registry = TokenNetworkRegistryState::new(addr(0xAA), networks);
    assert_eq!(registry.address, addr(0xAA));
    assert_eq!(registry.token_network_list.len(), 2);
    for (network_addr, token_addr) in [(addr(0xB1), addr(0xC1)), (addr(0xB2), addr(0xC2))] {
        let (_, idx) = registry
            .tokennetworkaddresses_to_tokennetworks
            .iter()
            .find(|(a, _)| *a == network_addr)
            .expect("network indexed");
        assert_eq!(registry.token_network_list[*idx].address, network_addr);
        let (_, mapped) = registry
            .tokenaddresses_to_tokennetworkaddresses
            .iter()
            .find(|(t, _)| *t == token_addr)
            .expect("token indexed");
        assert_eq!(*mapped, network_addr);
    }
}
