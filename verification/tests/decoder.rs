use raiden::api::http::{route_request, Route};
use raiden::blockchain::contracts::abi::{AbiValue, BlockSpec, ContractRegistry, RawLog};
use raiden::blockchain::events::log_to_blockchain_state_change;
use raiden::blockchain::helpers::parse_address;
use raiden::enums::{ChainID, Event, StateChange};
use raiden::errors::SerializationError;
use raiden::event_handler::EventHandler;
use raiden::primitives::{h256_from_bytes, Address, H256};
use raiden::state::StateManager;
use raiden::transfer::state_change::{ActionInitChain, ContractReceiveTokenNetworkRegistry};
use std::str::FromStr;

fn address_bytes(a: &Address) -> [u8; 20] {
    let mut out = [0u8; 20];
    out[..8].copy_from_slice(&a.w0.to_be_bytes());
    out[8..16].copy_from_slice(&a.w1.to_be_bytes());
    out[16..].copy_from_slice(&a.w2.to_be_bytes());
    out
}

fn address_topic(a: &Address) -> H256 {
    let mut word = [0u8; 32];
    word[12..].copy_from_slice(&address_bytes(a));
    h256_from_bytes(&word)
}

fn uint_topic(v: u64) -> H256 {
    let mut word = [0u8; 32];
    word[24..].copy_from_slice(&v.to_be_bytes());
    h256_from_bytes(&word)
}

fn uint_word(v: u64) -> Vec<u8> {
    let mut word = [0u8; 32];
    word[24..].copy_from_slice(&v.to_be_bytes());
    word.to_vec()
}

fn addr(tag: u32) -> Address {
    Address {
        w0: tag as u64,
        w1: 0x1111_2222_3333_4444,
        w2: 0x5555_6666,
    }
}

fn initialized_manager() -> StateManager {
    let mut manager = StateManager::new();
    manager
        .transition(StateChange::ActionInitChain(ActionInitChain {
            chain_id: ChainID::Kovan,
            block_number: 1,
            our_address: addr(0xDD),
        }))
        .expect("init");
    manager
        .transition(StateChange::ContractReceiveTokenNetworkRegistry(
            ContractReceiveTokenNetworkRegistry::new(H256::zero(), addr(0xAA), 1, H256::zero()),
        ))
        .expect("registry");
    manager
}

fn stored_signature(registry: &ContractRegistry, contract: usize, event: usize) -> H256 {
    registry.contracts[contract].events[event].signature
}

#[test]
fn stored_signatures_match_the_canonical_hashes() {
    let registry = ContractRegistry::new();
    let tnc = ethabi::long_signature(
        "TokenNetworkCreated",
        &[ethabi::ParamType::Address, ethabi::ParamType::Address],
    );
    assert_eq!(
        stored_signature(&registry, 0, 0).to_bytes(),
        tnc.as_bytes().to_vec()
    );
    let opened = ethabi::long_signature(
        "ChannelOpened",
        &[
            ethabi::ParamType::Uint(256),
            ethabi::ParamType::Address,
            ethabi::ParamType::Address,
            ethabi::ParamType::Uint(256),
        ],
    );
    assert_eq!(
        stored_signature(&registry, 1, 0).to_bytes(),
        opened.as_bytes().to_vec()
    );
}

#[test]
fn token_network_created_log_decodes_and_translates() {
    let registry = ContractRegistry::new();
    let token = addr(0xCC);
    let network = addr(0xBB);
    let log = RawLog {
        address: addr(0xAA),
        topics: vec![
            stored_signature(&registry, 0, 0),
            address_topic(&token),
            address_topic(&network),
        ],
        data: Vec::new(),
        block_number: Some(5),
        block_hash: Some(H256::zero()),
        transaction_hash: Some(H256::zero()),
    };
    let event = registry.log_to_event(&log).expect("decoded");
    assert_eq!(event.name, "TokenNetworkCreated");
    assert_eq!(event.block_number, 5);
    assert_eq!(
        event.data,
        vec![AbiValue::Address(token), AbiValue::Address(network)]
    );

    let change = log_to_blockchain_state_change(&None, &registry, &log).expect("translated");
    match change {
        StateChange::ContractReceiveTokenNetworkCreated(c) => {
            assert_eq!(c.token_network_registry_address, addr(0xAA));
            assert_eq!(c.token_network_address, network);
            assert_eq!(c.token_address, token);
            assert_eq!(c.block_number, 5);
        }
        _ => panic!("wrong state change"),
    }
}

#[test]
fn channel_opened_log_translates_and_applies() {
    let registry = ContractRegistry::new();
    let mut manager = initialized_manager();
    manager
        .transition(
            log_to_blockchain_state_change(
                &None,
                &registry,
                &RawLog {
                    address: addr(0xAA),
                    topics: vec![
                        stored_signature(&registry, 0, 0),
                        address_topic(&addr(0xCC)),
                        address_topic(&addr(0xBB)),
                    ],
                    data: Vec::new(),
                    block_number: Some(5),
                    block_hash: Some(H256::zero()),
                    transaction_hash: Some(H256::zero()),
                },
            )
            .expect("created change"),
        )
        .expect("created");

    let log = RawLog {
        address: addr(0xBB),
        topics: vec![
            stored_signature(&registry, 1, 0),
            uint_topic(17),
            address_topic(&addr(0xDD)),
            address_topic(&addr(0xEE)),
        ],
        data: uint_word(500),
        block_number: Some(7),
        block_hash: Some(H256::zero()),
        transaction_hash: Some(H256::zero()),
    };
    let change = log_to_blockchain_state_change(&manager.current_state.clone(), &registry, &log)
        .expect("translated");
    match &change {
        StateChange::ContractReceiveChannelOpened(c) => {
            assert_eq!(c.canonical_identifier.channel_identifier, 17);
            assert_eq!(c.canonical_identifier.chain_identifier, 42);
            assert_eq!(c.canonical_identifier.token_network_address, addr(0xBB));
            assert_eq!(c.partner_address, addr(0xEE));
            assert_eq!(c.reveal_timeout, 50);
            assert_eq!(c.settle_timeout, 500);
        }
        _ => panic!("wrong state change"),
    }
    manager.transition(change).expect("opened");
    let state = manager.current_state.as_ref().unwrap();
    let network = &state.token_network_registry.token_network_list[0];
    assert!(network.get_channel(17).is_some());
}

#[test]
fn channel_between_foreign_participants_is_dropped() {
    let registry = ContractRegistry::new();
    let manager = initialized_manager();
    let log = RawLog {
        address: addr(0xBB),
        topics: vec![
            stored_signature(&registry, 1, 0),
            uint_topic(17),
            address_topic(&addr(0x11)),
            address_topic(&addr(0x22)),
        ],
        data: uint_word(500),
        block_number: Some(7),
        block_hash: Some(H256::zero()),
        transaction_hash: Some(H256::zero()),
    };
    assert!(log_to_blockchain_state_change(&manager.current_state.clone(), &registry, &log)
        .is_none());
}

#[test]
fn unknown_topic_yields_no_event_and_no_state_change() {
    let registry = ContractRegistry::new();
    let manager = initialized_manager();
    let before = manager.current_state.clone();
    let log = RawLog {
        address: addr(0xAA),
        topics: vec![H256 {
            w0: 1,
            w1: 2,
            w2: 3,
            w3: 4,
        }],
        data: Vec::new(),
        block_number: Some(5),
        block_hash: Some(H256::zero()),
        transaction_hash: Some(H256::zero()),
    };
    assert!(registry.log_to_event(&log).is_none());
    assert!(log_to_blockchain_state_change(&before, &registry, &log).is_none());
    assert_eq!(manager.current_state, before);
}

#[test]
fn log_without_provenance_is_skipped() {
    let registry = ContractRegistry::new();
    let log = RawLog {
        address: addr(0xAA),
        topics: vec![
            stored_signature(&registry, 0, 0),
            address_topic(&addr(0xCC)),
            address_topic(&addr(0xBB)),
        ],
        data: Vec::new(),
        block_number: None,
        block_hash: Some(H256::zero()),
        transaction_hash: Some(H256::zero()),
    };
    assert!(registry.log_to_event(&log).is_none());
}

#[test]
fn log_with_wrong_topic_count_is_skipped() {
    let registry = ContractRegistry::new();
    let log = RawLog {
        address: addr(0xAA),
        topics: vec![stored_signature(&registry, 0, 0), address_topic(&addr(0xCC))],
        data: Vec::new(),
        block_number: Some(5),
        block_hash: Some(H256::zero()),
        transaction_hash: Some(H256::zero()),
    };
    assert!(registry.log_to_event(&log).is_none());
}

#[test]
fn created_event_installs_filters_for_the_new_network() {
    let mut registry = ContractRegistry::new();
    let channel_opened_signature = stored_signature(&registry, 1, 0);
    let event = {
        let mut manager = initialized_manager();
        let events = manager
            .transition(
                log_to_blockchain_state_change(
                    &None,
                    &registry,
                    &RawLog {
                        address: addr(0xAA),
                        topics: vec![
                            stored_signature(&registry, 0, 0),
                            address_topic(&addr(0xCC)),
                            address_topic(&addr(0xBB)),
                        ],
                        data: Vec::new(),
                        block_number: Some(5),
                        block_hash: Some(H256::zero()),
                        transaction_hash: Some(H256::zero()),
                    },
                )
                .expect("created change"),
            )
            .expect("created");
        assert_eq!(events.len(), 1);
        events[0]
    };
    match &event {
        Event::TokenNetworkCreated(e) => assert_eq!(e.token_network_address, addr(0xBB)),
    }
    let poll = EventHandler::handle_event(&mut registry, &event);
    assert!(poll);
    let entry = registry
        .filters
        .iter()
        .find(|f| f.contract_address == addr(0xBB))
        .expect("filter installed");
    assert_eq!(entry.contract_name, "TokenNetwork");
    assert_eq!(entry.event_name, "ChannelOpened");
    assert_eq!(entry.filter.topic, channel_opened_signature);
    assert_eq!(entry.filter.from_block, BlockSpec::Number(5));
    assert_eq!(entry.filter.to_block, BlockSpec::Latest);

    // Installing again for the same name and address changes nothing.
    let count = registry.filters.len();
    let _ = EventHandler::handle_event(&mut registry, &event);
    assert_eq!(registry.filters.len(), count);
}

#[test]
fn parse_address_accepts_hex_with_and_without_prefix() {
    let parsed = parse_address("0xaabbccddeeff00112233445566778899aabbccdd".to_string())
        .expect("parsed");
    assert_eq!(parsed.w0, 0xaabbccddeeff0011);
    assert_eq!(parsed.w1, 0x2233445566778899);
    assert_eq!(parsed.w2, 0xaabbccdd);
    let bare = parse_address("AABBCCDDEEFF00112233445566778899AABBCCDD".to_string())
        .expect("parsed");
    assert_eq!(bare, parsed);
}

#[test]
fn parse_address_rejects_bad_input() {
    assert!(parse_address("0x1234".to_string()).is_none());
    assert!(parse_address("0xzzbbccddeeff00112233445566778899aabbccdd".to_string()).is_none());
    assert!(parse_address("".to_string()).is_none());
    assert!(parse_address("0xaabbccddeeff00112233445566778899aabbccdd00".to_string()).is_none());
}

#[test]
fn chain_names_parse_to_their_chains() {
    assert!(matches!(ChainID::from_str("mainnet"), Ok(ChainID::Mainnet)));
    assert!(matches!(ChainID::from_str("kovan"), Ok(ChainID::Kovan)));
    assert!(ChainID::from_str("testnet").is_err());
    assert_eq!(ChainID::Mainnet.id(), 1);
    assert_eq!(ChainID::Kovan.id(), 42);
}

#[test]
fn requests_route_to_their_endpoints() {
    assert_eq!(route_request("GET", "/info"), Route::Info);
    assert_eq!(route_request("POST", "/channels"), Route::ChannelsPost);
    assert_eq!(route_request("GET", "/channels"), Route::ChannelsGet);
    assert_eq!(route_request("DELETE", "/channels"), Route::NotFound);
    assert_eq!(route_request("GET", "/other"), Route::NotFound);
}

#[test]
fn serialization_error_has_its_message() {
    assert_eq!(
        SerializationError.message(),
        "Could not serialize state change"
    );
}
