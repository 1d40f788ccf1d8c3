//! The chain reducer: the pure protocol state machine from an optional
//! current state and one state change to the next state and its side-effect
//! events. Policy choices the protocol description leaves open are made
//! here explicitly: a `Block` below the current block number is rejected
//! (an equal one is accepted again), a repeated registry installation
//! overwrites the registry root, and a repeated token network creation
//! appends again with the newest entry winning in both indices.

use crate::enums::{Event, StateChange, TokenNetworkCreatedEvent};
use crate::errors::StateTransitionError;
use crate::primitives::Address;
use crate::transfer::state::{
    chain_state_wf, channel_fresh, channel_state_wf, lemma_network_register_channel_wf,
    lemma_registry_add_network_wf, lemma_registry_update_network_wf, network_by_address,
    network_register_channel, networks_view, opt_view, registry_add_network, registry_fresh,
    registry_update_network, registry_wf, token_network_fresh, token_network_wf, ChainState,
    ChainStateView, ChannelState, ChannelStateView, TokenNetworkRegistryState, TokenNetworkState,
};
use crate::transfer::state_change::{
    ActionInitChain, Block, ContractReceiveChannelOpened, ContractReceiveTokenNetworkCreated,
    ContractReceiveTokenNetworkRegistry,
};
use vstd::prelude::*;

verus! {

/// Why the reducer rejected a state change.
#[derive(Clone, Copy, PartialEq, Eq, Structural, Debug)]
pub enum TransitionFailure {
    /// `ActionInitChain` arrived while the chain state already exists.
    AlreadyInitialized,
    /// A change other than `ActionInitChain` arrived before initialization.
    NotInitialized,
    /// A `Block` carried a number lower than the current one.
    StaleBlock,
    /// A channel was opened on a token network the registry does not hold.
    UnknownTokenNetwork,
    /// A channel's reveal timeout was not strictly below its settle timeout.
    ChannelTimeouts,
}

/// The message text of each rejection.
pub open spec fn failure_msg(f: TransitionFailure) -> Seq<char> {
    match f {
        TransitionFailure::AlreadyInitialized => "chain already initialized"@,
        TransitionFailure::NotInitialized => "chain state not initialized"@,
        TransitionFailure::StaleBlock => "block number lower than current block"@,
        TransitionFailure::UnknownTokenNetwork => "unknown token network"@,
        TransitionFailure::ChannelTimeouts => "reveal_timeout must be smaller than settle_timeout"@,
    }
}

/// The chain state `ActionInitChain` creates: the given chain, block and
/// address over an empty registry.
pub open spec fn init_chain_v(a: ActionInitChain) -> ChainStateView {
    ChainStateView {
        chain_id: a.chain_id,
        block_number: a.block_number,
        our_address: a.our_address,
        token_network_registry: registry_fresh(Address { w0: 0, w1: 0, w2: 0 }),
    }
}

/// The channel a `ContractReceiveChannelOpened` describes, opened between
/// our address and the partner it names.
pub open spec fn channel_of_change(
    sc: ContractReceiveChannelOpened,
    our_address: Address,
) -> ChannelStateView {
    channel_fresh(
        sc.canonical_identifier,
        sc.token_address,
        sc.token_network_registry_address,
        our_address,
        sc.partner_address,
        sc.reveal_timeout,
        sc.settle_timeout,
        sc.open_transaction,
    )
}

/// One step of the protocol state machine.
pub open spec fn apply(s: Option<ChainStateView>, sc: StateChange) -> Result<
    (ChainStateView, Seq<Event>),
    TransitionFailure,
> {
    match sc {
        StateChange::ActionInitChain(a) => match s {
            Some(_) => Err(TransitionFailure::AlreadyInitialized),
            None => Ok((init_chain_v(a), Seq::empty())),
        },
        StateChange::Block(b) => match s {
            None => Err(TransitionFailure::NotInitialized),
            Some(st) => if b.block_number < st.block_number {
                Err(TransitionFailure::StaleBlock)
            } else {
                Ok((ChainStateView { block_number: b.block_number, ..st }, Seq::empty()))
            },
        },
        StateChange::ContractReceiveTokenNetworkRegistry(rc) => match s {
            None => Err(TransitionFailure::NotInitialized),
            Some(st) => Ok(
                (
                    ChainStateView {
                        token_network_registry: registry_fresh(rc.token_network_registry),
                        ..st
                    },
                    Seq::empty(),
                ),
            ),
        },
        StateChange::ContractReceiveTokenNetworkCreated(tc) => match s {
            None => Err(TransitionFailure::NotInitialized),
            Some(st) => Ok(
                (
                    ChainStateView {
                        token_network_registry: registry_add_network(
                            st.token_network_registry,
                            token_network_fresh(tc.token_network_address, tc.token_address),
                        ),
                        ..st
                    },
                    seq![
                        Event::TokenNetworkCreated(
                            TokenNetworkCreatedEvent {
                                token_network_address: tc.token_network_address,
                                token_address: tc.token_address,
                                block_number: tc.block_number,
                            },
                        ),
                    ],
                ),
            ),
        },
        StateChange::ContractReceiveChannelOpened(co) => match s {
            None => Err(TransitionFailure::NotInitialized),
            Some(st) => {
                let tna = co.canonical_identifier.token_network_address;
                if co.reveal_timeout >= co.settle_timeout {
                    Err(TransitionFailure::ChannelTimeouts)
                } else if !st.token_network_registry.network_index.dom().contains(tna) {
                    Err(TransitionFailure::UnknownTokenNetwork)
                } else {
                    let net = network_by_address(st.token_network_registry, tna);
                    let net2 = network_register_channel(net, channel_of_change(co, st.our_address));
                    Ok(
                        (
                            ChainStateView {
                                token_network_registry: registry_update_network(
                                    st.token_network_registry,
                                    tna,
                                    net2,
                                ),
                                ..st
                            },
                            Seq::empty(),
                        ),
                    )
                }
            },
        },
    }
}

/// A transition from a well-formed state yields a well-formed state.
pub proof fn lemma_apply_wf(s: Option<ChainStateView>, sc: StateChange)
    requires
        s matches Some(st) ==> chain_state_wf(st),
    ensures
        apply(s, sc) matches Ok(p) ==> chain_state_wf(p.0),
{
    if apply(s, sc) matches Ok(p) {
        match sc {
            StateChange::ActionInitChain(a) => {
                assert(registry_wf(registry_fresh(Address { w0: 0, w1: 0, w2: 0 })));
            },
            StateChange::Block(_) => {},
            StateChange::ContractReceiveTokenNetworkRegistry(rc) => {
                assert(registry_wf(registry_fresh(rc.token_network_registry)));
            },
            StateChange::ContractReceiveTokenNetworkCreated(tc) => {
                let st = s->0;
                let n = token_network_fresh(tc.token_network_address, tc.token_address);
                assert(token_network_wf(n));
                lemma_registry_add_network_wf(st.token_network_registry, n);
            },
            StateChange::ContractReceiveChannelOpened(co) => {
                let st = s->0;
                let tna = co.canonical_identifier.token_network_address;
                let net = network_by_address(st.token_network_registry, tna);
                let c = channel_of_change(co, st.our_address);
                assert(channel_state_wf(c));
                assert(token_network_wf(net));
                assert(c.canonical_identifier.token_network_address == net.address);
                lemma_network_register_channel_wf(net, c);
                lemma_registry_update_network_wf(
                    st.token_network_registry,
                    tna,
                    network_register_channel(net, c),
                );
            },
        }
    }
}

/// The result of one accepted transition: the replacement state and the
/// side-effect events it emitted.
pub struct ChainTransitionResult {
    pub new_state: ChainState,
    pub events: Vec<Event>,
}

/// Applies a `Block`: advances the block number, rejecting a lower one.
fn handle_new_block(chain_state: ChainState, state_change: Block) -> (r: Result<
    ChainTransitionResult,
    StateTransitionError,
>)
    requires
        chain_state.wf(),
    ensures
        match r {
            Ok(tr) => apply(Some(chain_state@), StateChange::Block(state_change)) matches Ok(p)
                && tr.new_state@ == p.0 && tr.events@ == p.1 && tr.new_state.wf(),
            Err(e) => apply(Some(chain_state@), StateChange::Block(state_change)) matches Err(f)
                && e.msg@ == failure_msg(f),
        },
{
    let mut chain_state = chain_state;
    if state_change.block_number < chain_state.block_number {
        return Err(StateTransitionError {
            msg: "block number lower than current block".to_owned(),
        });
    }
    chain_state.block_number = state_change.block_number;
    Ok(ChainTransitionResult { new_state: chain_state, events: Vec::new() })
}

/// Applies `ActionInitChain`: creates the initial chain state.
fn handle_action_init_chain(state_change: ActionInitChain) -> (r: Result<
    ChainTransitionResult,
    StateTransitionError,
>)
    ensures
        match r {
            Ok(tr) => apply(None, StateChange::ActionInitChain(state_change)) matches Ok(p)
                && tr.new_state@ == p.0 && tr.events@ == p.1 && tr.new_state.wf(),
            Err(_) => false,
        },
{
    let new_state = ChainState {
        chain_id: state_change.chain_id,
        block_number: state_change.block_number,
        our_address: state_change.our_address,
        token_network_registry: TokenNetworkRegistryState::default(),
    };
    Ok(ChainTransitionResult { new_state, events: Vec::new() })
}

/// Applies `ContractReceiveTokenNetworkRegistry`: installs the registry
/// root, overwriting any present one.
fn handle_contract_receive_token_network_registry(
    chain_state: ChainState,
    state_change: ContractReceiveTokenNetworkRegistry,
) -> (r: Result<ChainTransitionResult, StateTransitionError>)
    requires
        chain_state.wf(),
    ensures
        match r {
            Ok(tr) => apply(
                Some(chain_state@),
                StateChange::ContractReceiveTokenNetworkRegistry(state_change),
            ) matches Ok(p) && tr.new_state@ == p.0 && tr.events@ == p.1 && tr.new_state.wf(),
            Err(_) => false,
        },
{
    let mut chain_state = chain_state;
    chain_state.token_network_registry = TokenNetworkRegistryState::new(
        state_change.token_network_registry,
        Vec::new(),
    );
    proof {
        assert(networks_view(Seq::<TokenNetworkState>::empty()) =~= Seq::<
            crate::transfer::state::TokenNetworkStateView,
        >::empty());
    }
    Ok(ChainTransitionResult { new_state: chain_state, events: Vec::new() })
}

/// Applies `ContractReceiveTokenNetworkCreated`: appends the new token
/// network, updates both lookup indices and emits the creation event.
fn handle_contract_receive_token_network_created(
    chain_state: ChainState,
    state_change: ContractReceiveTokenNetworkCreated,
) -> (r: Result<ChainTransitionResult, StateTransitionError>)
    requires
        chain_state.wf(),
    ensures
        match r {
            Ok(tr) => apply(
                Some(chain_state@),
                StateChange::ContractReceiveTokenNetworkCreated(state_change),
            ) matches Ok(p) && tr.new_state@ == p.0 && tr.events@ == p.1 && tr.new_state.wf(),
            Err(_) => false,
        },
{
    let mut chain_state = chain_state;
    let token_network = TokenNetworkState::new(
        state_change.token_network_address,
        state_change.token_address,
    );
    chain_state.token_network_registry.add_token_network(token_network);
    let mut events: Vec<Event> = Vec::new();
    events.push(
        Event::TokenNetworkCreated(
            TokenNetworkCreatedEvent {
                token_network_address: state_change.token_network_address,
                token_address: state_change.token_address,
                block_number: state_change.block_number,
            },
        ),
    );
    proof {
        assert(events@ =~= seq![
            Event::TokenNetworkCreated(
                TokenNetworkCreatedEvent {
                    token_network_address: state_change.token_network_address,
                    token_address: state_change.token_address,
                    block_number: state_change.block_number,
                },
            ),
        ]);
    }
    Ok(ChainTransitionResult { new_state: chain_state, events })
}

/// Applies `ContractReceiveChannelOpened`: constructs the channel, which
/// enforces the timeout invariant, and registers it with the owning token
/// network.
fn handle_contract_receive_channel_opened(
    chain_state: ChainState,
    state_change: ContractReceiveChannelOpened,
) -> (r: Result<ChainTransitionResult, StateTransitionError>)
    requires
        chain_state.wf(),
    ensures
        match r {
            Ok(tr) => apply(
                Some(chain_state@),
                StateChange::ContractReceiveChannelOpened(state_change),
            ) matches Ok(p) && tr.new_state@ == p.0 && tr.events@ == p.1 && tr.new_state.wf(),
            Err(e) => apply(
                Some(chain_state@),
                StateChange::ContractReceiveChannelOpened(state_change),
            ) matches Err(f) && e.msg@ == failure_msg(f),
        },
{
    let mut chain_state = chain_state;
    let ghost st0 = chain_state@;
    let channel = match ChannelState::new(
        state_change.canonical_identifier,
        state_change.token_address,
        state_change.token_network_registry_address,
        chain_state.our_address,
        state_change.partner_address,
        state_change.reveal_timeout,
        state_change.settle_timeout,
        state_change.open_transaction,
    ) {
        Ok(c) => c,
        Err(e) => {
            return Err(StateTransitionError { msg: e.msg });
        },
    };
    let tna = state_change.canonical_identifier.token_network_address;
    let idx = match chain_state.token_network_registry.find_network_index(tna) {
        Some(i) => i,
        None => {
            return Err(StateTransitionError { msg: "unknown token network".to_owned() });
        },
    };
    let ghost reg0 = chain_state.token_network_registry@;
    let ghost list0 = chain_state.token_network_registry.token_network_list@;
    let ghost net0 = chain_state.token_network_registry.token_network_list@[idx as int]@;
    proof {
        assert(networks_view(list0)[idx as int] == net0);
        assert(net0 == network_by_address(reg0, tna));
    }
    let net = &mut chain_state.token_network_registry.token_network_list[idx];
    net.register_channel(channel);
    proof {
        let list1 = chain_state.token_network_registry.token_network_list@;
        assert(list1 == list0.update(idx as int, list1[idx as int]));
        assert(list1[idx as int]@ == network_register_channel(net0, channel@));
        assert(networks_view(list1) =~= networks_view(list0).update(
            idx as int,
            network_register_channel(net0, channel@),
        ));
        assert(chain_state.token_network_registry@ == registry_update_network(
            reg0,
            tna,
            network_register_channel(net0, channel@),
        ));
        assert(channel@ == channel_of_change(state_change, st0.our_address));
    }
    Ok(ChainTransitionResult { new_state: chain_state, events: Vec::new() })
}

/// Applies one state change to the optional current state. This is the
/// pure reducer: it performs no effects and every output is a function of
/// its inputs alone.
pub fn handle_state_change(chain_state: Option<ChainState>, state_change: StateChange) -> (r:
    Result<ChainTransitionResult, StateTransitionError>)
    requires
        chain_state matches Some(s) ==> s.wf(),
    ensures
        match r {
            Ok(tr) => apply(opt_view(chain_state), state_change) matches Ok(p) && tr.new_state@
                == p.0 && tr.events@ == p.1 && tr.new_state.wf(),
            Err(e) => apply(opt_view(chain_state), state_change) matches Err(f) && e.msg@
                == failure_msg(f),
        },
{
    match state_change {
        StateChange::ActionInitChain(action_init_chain) => match chain_state {
            Some(_) => Err(StateTransitionError { msg: "chain already initialized".to_owned() }),
            None => handle_action_init_chain(action_init_chain),
        },
        StateChange::Block(block) => match chain_state {
            Some(state) => handle_new_block(state, block),
            None => Err(StateTransitionError { msg: "chain state not initialized".to_owned() }),
        },
        StateChange::ContractReceiveTokenNetworkRegistry(registry) => match chain_state {
            Some(state) => handle_contract_receive_token_network_registry(state, registry),
            None => Err(StateTransitionError { msg: "chain state not initialized".to_owned() }),
        },
        StateChange::ContractReceiveTokenNetworkCreated(created) => match chain_state {
            Some(state) => handle_contract_receive_token_network_created(state, created),
            None => Err(StateTransitionError { msg: "chain state not initialized".to_owned() }),
        },
        StateChange::ContractReceiveChannelOpened(opened) => match chain_state {
            Some(state) => handle_contract_receive_channel_opened(state, opened),
            None => Err(StateTransitionError { msg: "chain state not initialized".to_owned() }),
        },
    }
}


/// The fold of the reducer over an ordered log of state changes, starting
/// from an optional state. A rejected change leaves the state as it was:
/// replay tolerates reducer errors by skipping invalid entries, so a
/// persisted-but-unapplied record is replayed-and-skipped on restart.
pub open spec fn replay_from(s: Option<ChainStateView>, log: Seq<StateChange>) -> Option<
    ChainStateView,
>
    decreases log.len(),
{
    if log.len() == 0 {
        s
    } else {
        let prev = replay_from(s, log.drop_last());
        match apply(prev, log.last()) {
            Ok(p) => Some(p.0),
            Err(_) => prev,
        }
    }
}

/// The state replaying a persisted log from empty state reaches.
pub open spec fn replay(log: Seq<StateChange>) -> Option<ChainStateView> {
    replay_from(None, log)
}

/// For every state and every channel-opened change whose reveal timeout is
/// not strictly below its settle timeout, the transition is rejected, and
/// the state it leaves behind is the old one: no channel is inserted into
/// any index.
pub proof fn lemma_channel_timeout_rejected(s: ChainStateView, co: ContractReceiveChannelOpened)
    requires
        co.reveal_timeout >= co.settle_timeout,
    ensures
        apply(Some(s), StateChange::ContractReceiveChannelOpened(co)) == Err::<
            (ChainStateView, Seq<Event>),
            TransitionFailure,
        >(TransitionFailure::ChannelTimeouts),
        replay_from(Some(s), seq![StateChange::ContractReceiveChannelOpened(co)]) == Some(s),
{
    let log = seq![StateChange::ContractReceiveChannelOpened(co)];
    assert(log.drop_last() =~= Seq::<StateChange>::empty());
    assert(log.last() == StateChange::ContractReceiveChannelOpened(co));
    assert(replay_from(Some(s), log.drop_last()) == Some(s)) by {
        reveal_with_fuel(replay_from, 2);
    }
    assert(replay_from(Some(s), log) == Some(s));
}

/// Every entry of `log` is a `Block`, and their numbers strictly increase.
pub open spec fn blocks_strictly_increasing(log: Seq<StateChange>) -> bool {
    &&& forall|i: int| 0 <= i < log.len() ==> (#[trigger] log[i]) is Block
    &&& forall|i: int, j: int| 0 <= i < j < log.len() ==> (#[trigger] log[i])->Block_0.block_number
        < (#[trigger] log[j])->Block_0.block_number
}

/// Every entry of `log`, folded from `s`, is accepted by the reducer.
pub open spec fn replay_accepts_all(s: Option<ChainStateView>, log: Seq<StateChange>) -> bool
    decreases log.len(),
{
    log.len() == 0 || {
        &&& replay_accepts_all(s, log.drop_last())
        &&& apply(replay_from(s, log.drop_last()), log.last()) is Ok
    }
}

/// For every initialized state and every strictly increasing run of block
/// changes starting at or above the current block, every block is accepted
/// and the final block number is the last one applied; nothing else
/// changes.
pub proof fn lemma_blocks_advance(s: ChainStateView, log: Seq<StateChange>)
    requires
        log.len() > 0,
        blocks_strictly_increasing(log),
        s.block_number <= log[0]->Block_0.block_number,
    ensures
        replay_from(Some(s), log) matches Some(t) && t.block_number
            == log.last()->Block_0.block_number && t.chain_id == s.chain_id && t.our_address
            == s.our_address && t.token_network_registry == s.token_network_registry,
        replay_accepts_all(Some(s), log),
    decreases log.len(),
{
    assert(log.last() == log[log.len() - 1]);
    assert(log[log.len() - 1] is Block);
    if log.len() == 1 {
        assert(log.drop_last() =~= Seq::<StateChange>::empty());
        assert(replay_from(Some(s), log.drop_last()) == Some(s)) by {
            reveal_with_fuel(replay_from, 2);
        }
        assert(replay_accepts_all(Some(s), log.drop_last())) by {
            reveal_with_fuel(replay_accepts_all, 2);
        }
        assert(log[0] == log.last());
        assert(s.block_number <= log.last()->Block_0.block_number);
    } else {
        let front = log.drop_last();
        assert(front[0] == log[0]);
        assert(blocks_strictly_increasing(front)) by {
            assert(forall|i: int| 0 <= i < front.len() ==> front[i] == log[i]);
        }
        lemma_blocks_advance(s, front);
        let t1 = replay_from(Some(s), front)->0;
        assert(t1.block_number == front.last()->Block_0.block_number);
        assert(front.last() == log[log.len() - 2]);
        assert(log[log.len() - 2]->Block_0.block_number < log.last()->Block_0.block_number);
        assert(t1.block_number < log.last()->Block_0.block_number);
    }
}

/// Determinism of replay: folding equal persisted logs from empty state
/// produces identical final states, so replaying the same log twice
/// reproduces the state exactly.
pub proof fn lemma_replay_deterministic(l1: Seq<StateChange>, l2: Seq<StateChange>)
    requires
        l1 == l2,
    ensures
        replay(l1) == replay(l2),
{
}

/// For every well-formed state and every token-network-created change, the
/// transition succeeds, the resulting state's two lookup indices are
/// mutually consistent with the registry list, the new network is
/// reachable through both of them, and exactly one creation event is
/// emitted.
pub proof fn lemma_token_network_created_indices(
    s: ChainStateView,
    tc: ContractReceiveTokenNetworkCreated,
)
    requires
        chain_state_wf(s),
    ensures
        apply(Some(s), StateChange::ContractReceiveTokenNetworkCreated(tc)) matches Ok(p) && {
            let reg = p.0.token_network_registry;
            &&& chain_state_wf(p.0)
            &&& reg.network_index.dom().contains(tc.token_network_address)
            &&& network_by_address(reg, tc.token_network_address) == token_network_fresh(
                tc.token_network_address,
                tc.token_address,
            )
            &&& reg.token_to_network.dom().contains(tc.token_address)
            &&& reg.token_to_network[tc.token_address] == tc.token_network_address
            &&& reg.token_network_list == s.token_network_registry.token_network_list.push(
                token_network_fresh(tc.token_network_address, tc.token_address),
            )
            &&& p.1 =~= seq![
                Event::TokenNetworkCreated(
                    TokenNetworkCreatedEvent {
                        token_network_address: tc.token_network_address,
                        token_address: tc.token_address,
                        block_number: tc.block_number,
                    },
                ),
            ]
        },
{
    lemma_apply_wf(Some(s), StateChange::ContractReceiveTokenNetworkCreated(tc));
}

} // verus!
