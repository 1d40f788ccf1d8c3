//! The event decoder: registered contract interface descriptions, the
//! signature-hash and ABI-word primitives relied on, and the map from a raw
//! chain log to a typed event. Decode failures are never fatal: a log that
//! matches no registered signature, lacks provenance fields, or carries a
//! malformed payload decodes to nothing and is skipped.

use crate::primitives::{addr_of_bytes, h256_bytes, u256_of_bytes, Address, H256, U256};
use crate::primitives::{address_from_bytes, h256_from_bytes, u256_from_bytes};
use vstd::prelude::*;

verus! {

/// The static parameter types the registered contract events use.
#[derive(Clone, Copy, PartialEq, Eq, Structural, Debug)]
pub enum ParamKind {
    Address,
    Uint256,
}

/// One decoded parameter value.
#[derive(Clone, Copy, PartialEq, Eq, Structural, Debug)]
pub enum AbiValue {
    Address(Address),
    Uint(U256),
}

/// A raw chain log as the connectivity layer hands it over: the emitting
/// contract, the ordered topic words, the opaque payload and the block and
/// transaction provenance.
#[derive(PartialEq, Eq, Debug)]
pub struct RawLog {
    pub address: Address,
    pub topics: Vec<H256>,
    pub data: Vec<u8>,
    pub block_number: Option<u64>,
    pub block_hash: Option<H256>,
    pub transaction_hash: Option<H256>,
}

/// The mathematical content of a raw log.
pub struct RawLogView {
    pub address: Address,
    pub topics: Seq<H256>,
    pub data: Seq<u8>,
    pub block_number: Option<u64>,
    pub block_hash: Option<H256>,
    pub transaction_hash: Option<H256>,
}

impl View for RawLog {
    type V = RawLogView;

    open spec fn view(&self) -> RawLogView {
        RawLogView {
            address: self.address,
            topics: self.topics@,
            data: self.data@,
            block_number: self.block_number,
            block_hash: self.block_hash,
            transaction_hash: self.transaction_hash,
        }
    }
}

/// One event parameter: its type and whether it is indexed.
#[derive(Clone, Copy, PartialEq, Eq, Structural, Debug)]
pub struct EventParamSpec {
    pub kind: ParamKind,
    pub indexed: bool,
}

/// The mathematical content of one event description.
pub struct EventSpecView {
    pub name: Seq<char>,
    pub signature: H256,
    pub inputs: Seq<EventParamSpec>,
}

/// One event of a contract interface: its name, its precomputed signature
/// hash and its ordered parameters.
#[derive(PartialEq, Eq, Debug)]
pub struct EventSpec {
    pub name: String,
    pub signature: H256,
    pub inputs: Vec<EventParamSpec>,
}

impl View for EventSpec {
    type V = EventSpecView;

    open spec fn view(&self) -> EventSpecView {
        EventSpecView { name: self.name@, signature: self.signature, inputs: self.inputs@ }
    }
}

/// The mathematical content of one contract interface.
pub struct ContractSpecView {
    pub name: Seq<char>,
    pub events: Seq<EventSpecView>,
}

/// A named contract interface: the events it declares.
#[derive(PartialEq, Eq, Debug)]
pub struct ContractSpec {
    pub name: String,
    pub events: Vec<EventSpec>,
}

impl View for ContractSpec {
    type V = ContractSpecView;

    open spec fn view(&self) -> ContractSpecView {
        ContractSpecView {
            name: self.name@,
            events: self.events@.map_values(|e: EventSpec| e@),
        }
    }
}

/// The Keccak-256 hash of the canonical signature an event's name and
/// parameter kinds spell; a function of those alone.
pub uninterp spec fn event_signature_hash(name: Seq<char>, kinds: Seq<ParamKind>) -> H256;

/// Relies on ethabi::long_signature: the full Keccak-256 hash of the
/// canonical signature `name(type1,...)`, which depends on the event name
/// and the parameter kinds alone.
#[verifier::external_body]
fn compute_event_signature(name: &str, kinds: &Vec<ParamKind>) -> (r: H256)
    ensures
        r == event_signature_hash(name@, kinds@),
{
    let params: Vec<ethabi::ParamType> = kinds.iter().map(|k| match k {
        ParamKind::Address => ethabi::ParamType::Address,
        ParamKind::Uint256 => ethabi::ParamType::Uint(256),
    }).collect();
    let h = ethabi::long_signature(name, &params);
    h256_from_bytes(h.as_bytes())
}

/// The 32-byte ABI word at position `i` of a payload.
pub open spec fn abi_word(data: Seq<u8>, i: int) -> Seq<u8> {
    data.subrange(32 * i, 32 * i + 32)
}

/// The value one static parameter takes from its word: an address is the
/// word's last 20 bytes, a uint256 the whole word.
pub open spec fn abi_value_of(kind: ParamKind, word: Seq<u8>) -> AbiValue {
    match kind {
        ParamKind::Address => AbiValue::Address(addr_of_bytes(word.subrange(12, 32))),
        ParamKind::Uint256 => AbiValue::Uint(u256_of_bytes(word)),
    }
}

/// Head-only ABI decoding of static parameters: one 32-byte word each, at
/// increasing offsets. It succeeds exactly when the payload holds at least
/// one word per parameter; trailing bytes are ignored.
pub open spec fn abi_decode_spec(kinds: Seq<ParamKind>, data: Seq<u8>) -> Option<Seq<AbiValue>> {
    if 32 * kinds.len() <= data.len() {
        Some(Seq::new(kinds.len(), |i: int| abi_value_of(kinds[i], abi_word(data, i))))
    } else {
        None
    }
}

/// Relies on ethabi::decode: for the static kinds used here it reads one
/// 32-byte word per parameter at increasing offsets, takes an address from
/// the word's last 20 bytes and a uint256 from the whole word, fails when
/// the payload is shorter than one word per parameter, and ignores
/// trailing bytes.
#[verifier::external_body]
fn abi_decode(kinds: &Vec<ParamKind>, data: &Vec<u8>) -> (r: Option<Vec<AbiValue>>)
    ensures
        r is Some <==> abi_decode_spec(kinds@, data@) is Some,
        r matches Some(v) ==> Some(v@) == abi_decode_spec(kinds@, data@),
{
    let types: Vec<ethabi::ParamType> = kinds.iter().map(|k| match k {
        ParamKind::Address => ethabi::ParamType::Address,
        ParamKind::Uint256 => ethabi::ParamType::Uint(256),
    }).collect();
    let tokens = ethabi::decode(&types, data.as_slice()).ok()?;
    let mut out: Vec<AbiValue> = Vec::new();
    for t in tokens {
        out.push(match t {
            ethabi::Token::Address(a) => AbiValue::Address(address_from_bytes(a.as_bytes())),
            ethabi::Token::Uint(u) => { let mut b = [0u8; 32]; u.to_big_endian(&mut b); AbiValue::Uint(u256_from_bytes(&b)) },
            _ => return None,
        });
    }
    Some(out)
}


/// A decoded event: its name, the provenance of the log it came from, and
/// the decoded parameter values, indexed ones first.
#[derive(PartialEq, Eq, Debug)]
pub struct Event {
    pub name: String,
    pub block_number: u64,
    pub block_hash: H256,
    pub transaction_hash: H256,
    pub data: Vec<AbiValue>,
}

/// The mathematical content of a decoded event.
pub struct EventView {
    pub name: Seq<char>,
    pub block_number: u64,
    pub block_hash: H256,
    pub transaction_hash: H256,
    pub data: Seq<AbiValue>,
}

impl View for Event {
    type V = EventView;

    open spec fn view(&self) -> EventView {
        EventView {
            name: self.name@,
            block_number: self.block_number,
            block_hash: self.block_hash,
            transaction_hash: self.transaction_hash,
            data: self.data@,
        }
    }
}

/// The first event among `events` whose signature hash equals `topic0`.
pub open spec fn matching_event_of(events: Seq<EventSpecView>, topic0: H256) -> Option<
    EventSpecView,
>
    decreases events.len(),
{
    if events.len() == 0 {
        None
    } else if events[0].signature == topic0 {
        Some(events[0])
    } else {
        matching_event_of(events.skip(1), topic0)
    }
}

/// The first registered event, in registry order, whose signature hash
/// equals `topic0`.
pub open spec fn matching_event(contracts: Seq<ContractSpecView>, topic0: H256) -> Option<
    EventSpecView,
>
    decreases contracts.len(),
{
    if contracts.len() == 0 {
        None
    } else {
        match matching_event_of(contracts[0].events, topic0) {
            Some(e) => Some(e),
            None => matching_event(contracts.skip(1), topic0),
        }
    }
}

/// When no event before position `j` matches, the search result over the
/// whole list is the result over the tail from `j`.
proof fn lemma_matching_event_of_skip(events: Seq<EventSpecView>, topic0: H256, j: int)
    requires
        0 <= j <= events.len(),
        forall|l: int| 0 <= l < j ==> (#[trigger] events[l]).signature != topic0,
    ensures
        matching_event_of(events, topic0) == matching_event_of(events.skip(j), topic0),
    decreases j,
{
    if j > 0 {
        assert(events[0].signature != topic0);
        lemma_matching_event_of_skip(events.skip(1), topic0, j - 1);
        assert(events.skip(1).skip(j - 1) =~= events.skip(j));
    } else {
        assert(events.skip(0) =~= events);
    }
}

/// When no contract before position `i` declares a matching event, the
/// search result over the whole registry is the result over the tail.
proof fn lemma_matching_event_skip(contracts: Seq<ContractSpecView>, topic0: H256, i: int)
    requires
        0 <= i <= contracts.len(),
        forall|l: int| 0 <= l < i ==> matching_event_of(
            (#[trigger] contracts[l]).events,
            topic0,
        ) is None,
    ensures
        matching_event(contracts, topic0) == matching_event(contracts.skip(i), topic0),
    decreases i,
{
    if i > 0 {
        assert(matching_event_of(contracts[0].events, topic0) is None);
        lemma_matching_event_skip(contracts.skip(1), topic0, i - 1);
        assert(contracts.skip(1).skip(i - 1) =~= contracts.skip(i));
    } else {
        assert(contracts.skip(0) =~= contracts);
    }
}

/// The kinds of the indexed parameters of an input list, in order.
pub open spec fn indexed_kinds(inputs: Seq<EventParamSpec>) -> Seq<ParamKind>
    decreases inputs.len(),
{
    if inputs.len() == 0 {
        Seq::empty()
    } else {
        let rest = indexed_kinds(inputs.drop_last());
        if inputs.last().indexed {
            rest.push(inputs.last().kind)
        } else {
            rest
        }
    }
}

/// The kinds of the non-indexed parameters of an input list, in order.
pub open spec fn non_indexed_kinds(inputs: Seq<EventParamSpec>) -> Seq<ParamKind>
    decreases inputs.len(),
{
    if inputs.len() == 0 {
        Seq::empty()
    } else {
        let rest = non_indexed_kinds(inputs.drop_last());
        if inputs.last().indexed {
            rest
        } else {
            rest.push(inputs.last().kind)
        }
    }
}

/// Decodes a log's topics and payload against one event description:
/// topic `1 + j` holds indexed parameter `j`'s word, the payload holds one
/// word per non-indexed parameter, and the decoded values list the indexed
/// ones first. Anything else is a decode failure.
pub open spec fn decode_log_with(e: EventSpecView, topics: Seq<H256>, payload: Seq<u8>) -> Option<
    Seq<AbiValue>,
> {
    let ik = indexed_kinds(e.inputs);
    let nk = non_indexed_kinds(e.inputs);
    if topics.len() != 1 + ik.len() {
        None
    } else {
        match abi_decode_spec(nk, payload) {
            Some(nvals) => Some(
                Seq::new(ik.len(), |j: int| abi_value_of(ik[j], h256_bytes(topics[1 + j])))
                    + nvals,
            ),
            None => None,
        }
    }
}

/// The decoded event of a raw log against a contract registry: the first
/// registered event whose signature equals the log's first topic, decoded
/// against the log, provided the provenance fields are present.
pub open spec fn log_to_event_spec(contracts: Seq<ContractSpecView>, log: RawLogView) -> Option<
    EventView,
> {
    if log.topics.len() == 0 {
        None
    } else {
        match matching_event(contracts, log.topics[0]) {
            None => None,
            Some(e) => match (log.block_number, log.block_hash, log.transaction_hash) {
                (Some(bn), Some(bh), Some(th)) => match decode_log_with(e, log.topics, log.data) {
                    Some(vals) => Some(
                        EventView {
                            name: e.name,
                            block_number: bn,
                            block_hash: bh,
                            transaction_hash: th,
                            data: vals,
                        },
                    ),
                    None => None,
                },
                _ => None,
            },
        }
    }
}

/// When the first topic of a log equals no registered event's signature,
/// the log decodes to nothing; it causes no state change downstream.
pub proof fn lemma_unknown_topic_no_event(contracts: Seq<ContractSpecView>, log: RawLogView)
    requires
        forall|i: int, j: int|
            0 <= i < contracts.len() && 0 <= j < (#[trigger] contracts[i]).events.len()
                ==> log.topics.len() > 0 && (#[trigger] contracts[i].events[j]).signature
                != log.topics[0],
    ensures
        log_to_event_spec(contracts, log) is None,
{
    if log.topics.len() > 0 {
        lemma_no_match(contracts, log.topics[0]);
    }
}

proof fn lemma_no_match(contracts: Seq<ContractSpecView>, topic0: H256)
    requires
        forall|i: int, j: int|
            0 <= i < contracts.len() && 0 <= j < (#[trigger] contracts[i]).events.len() ==> (
            #[trigger] contracts[i].events[j]).signature != topic0,
    ensures
        matching_event(contracts, topic0) is None,
    decreases contracts.len(),
{
    if contracts.len() > 0 {
        assert(forall|j: int| 0 <= j < contracts[0].events.len() ==> (
        #[trigger] contracts[0].events[j]).signature != topic0);
        lemma_matching_event_of_skip(contracts[0].events, topic0, contracts[0].events.len() as int);
        assert(contracts[0].events.skip(contracts[0].events.len() as int) =~= Seq::<
            EventSpecView,
        >::empty());
        assert forall|i: int, j: int|
            0 <= i < contracts.skip(1).len() && 0 <= j < (
            #[trigger] contracts.skip(1)[i]).events.len() implies (#[trigger] contracts.skip(
            1,
        )[i].events[j]).signature != topic0 by {
            assert(contracts.skip(1)[i] == contracts[i + 1]);
            assert(contracts[i + 1].events[j].signature != topic0);
        }
        lemma_no_match(contracts.skip(1), topic0);
    }
}


/// A block position a filter range can start or end at.
#[derive(Clone, Copy, PartialEq, Eq, Structural, Debug)]
pub enum BlockSpec {
    Earliest,
    Latest,
    Number(u64),
}

/// A log filter scoped to one contract address and one event signature,
/// over a block range.
#[derive(Clone, Copy, PartialEq, Eq, Structural, Debug)]
pub struct FilterSpec {
    pub address: Address,
    pub topic: H256,
    pub from_block: BlockSpec,
    pub to_block: BlockSpec,
}

/// One installed filter: the contract and event it was derived from, and
/// the filter itself.
#[derive(PartialEq, Eq, Debug)]
pub struct FilterEntry {
    pub contract_name: String,
    pub contract_address: Address,
    pub event_name: String,
    pub filter: FilterSpec,
}

/// The mathematical content of one installed filter.
pub struct FilterEntryView {
    pub contract_name: Seq<char>,
    pub contract_address: Address,
    pub event_name: Seq<char>,
    pub filter: FilterSpec,
}

impl View for FilterEntry {
    type V = FilterEntryView;

    open spec fn view(&self) -> FilterEntryView {
        FilterEntryView {
            contract_name: self.contract_name@,
            contract_address: self.contract_address,
            event_name: self.event_name@,
            filter: self.filter,
        }
    }
}

/// The mathematical content of the contract registry.
pub struct ContractRegistryView {
    pub contracts: Seq<ContractSpecView>,
    pub filters: Seq<FilterEntryView>,
}

/// The registered contract interfaces and the installed log filters.
#[derive(PartialEq, Eq, Debug)]
pub struct ContractRegistry {
    pub contracts: Vec<ContractSpec>,
    pub filters: Vec<FilterEntry>,
}

impl View for ContractRegistry {
    type V = ContractRegistryView;

    open spec fn view(&self) -> ContractRegistryView {
        ContractRegistryView {
            contracts: self.contracts@.map_values(|c: ContractSpec| c@),
            filters: self.filters@.map_values(|f: FilterEntry| f@),
        }
    }
}

/// One filter entry per event, in order, scoped to `address`.
pub open spec fn event_filter_entries(
    cname: Seq<char>,
    address: Address,
    from_block: BlockSpec,
    events: Seq<EventSpecView>,
) -> Seq<FilterEntryView>
    decreases events.len(),
{
    if events.len() == 0 {
        Seq::empty()
    } else {
        event_filter_entries(cname, address, from_block, events.drop_last()).push(
            FilterEntryView {
                contract_name: cname,
                contract_address: address,
                event_name: events.last().name,
                filter: FilterSpec {
                    address,
                    topic: events.last().signature,
                    from_block,
                    to_block: BlockSpec::Latest,
                },
            },
        )
    }
}

/// The filter entries derived for every registered contract named `cname`,
/// scoped to `address`, from `from_block` to the latest block.
pub open spec fn filters_for(
    contracts: Seq<ContractSpecView>,
    cname: Seq<char>,
    address: Address,
    from_block: BlockSpec,
) -> Seq<FilterEntryView>
    decreases contracts.len(),
{
    if contracts.len() == 0 {
        Seq::empty()
    } else {
        let rest = filters_for(contracts.drop_last(), cname, address, from_block);
        if contracts.last().name == cname {
            rest + event_filter_entries(cname, address, from_block, contracts.last().events)
        } else {
            rest
        }
    }
}

/// Whether filters for this contract name and address are already
/// installed.
pub open spec fn filters_installed(
    filters: Seq<FilterEntryView>,
    cname: Seq<char>,
    address: Address,
) -> bool {
    exists|i: int|
        0 <= i < filters.len() && (#[trigger] filters[i]).contract_name == cname
            && filters[i].contract_address == address
}

impl ContractRegistry {
    /// The registry of the contract interfaces monitored here: the token
    /// network registry with its creation event, and the token network
    /// with its channel-opened event. No filters are installed yet.
    pub fn new() -> (r: ContractRegistry)
        ensures
            r@.filters == Seq::<FilterEntryView>::empty(),
            r@.contracts.len() == 2,
            r@.contracts[0].name == "TokenNetworkRegistry"@,
            r@.contracts[0].events.len() == 1,
            r@.contracts[0].events[0].name == "TokenNetworkCreated"@,
            r@.contracts[0].events[0].inputs == seq![
                EventParamSpec { kind: ParamKind::Address, indexed: true },
                EventParamSpec { kind: ParamKind::Address, indexed: true },
            ],
            r@.contracts[0].events[0].signature == event_signature_hash(
                "TokenNetworkCreated"@,
                seq![ParamKind::Address, ParamKind::Address],
            ),
            r@.contracts[1].name == "TokenNetwork"@,
            r@.contracts[1].events.len() == 1,
            r@.contracts[1].events[0].name == "ChannelOpened"@,
            r@.contracts[1].events[0].inputs == seq![
                EventParamSpec { kind: ParamKind::Uint256, indexed: true },
                EventParamSpec { kind: ParamKind::Address, indexed: true },
                EventParamSpec { kind: ParamKind::Address, indexed: true },
                EventParamSpec { kind: ParamKind::Uint256, indexed: false },
            ],
            r@.contracts[1].events[0].signature == event_signature_hash(
                "ChannelOpened"@,
                seq![ParamKind::Uint256, ParamKind::Address, ParamKind::Address,
                    ParamKind::Uint256],
            ),
    {
        let mut tnc_kinds: Vec<ParamKind> = Vec::new();
        tnc_kinds.push(ParamKind::Address);
        tnc_kinds.push(ParamKind::Address);
        proof {
            assert(tnc_kinds@ =~= seq![ParamKind::Address, ParamKind::Address]);
        }
        let tnc_signature = compute_event_signature("TokenNetworkCreated", &tnc_kinds);
        let mut tnc_inputs: Vec<EventParamSpec> = Vec::new();
        tnc_inputs.push(EventParamSpec { kind: ParamKind::Address, indexed: true });
        tnc_inputs.push(EventParamSpec { kind: ParamKind::Address, indexed: true });
        proof {
            assert(tnc_inputs@ =~= seq![
                EventParamSpec { kind: ParamKind::Address, indexed: true },
                EventParamSpec { kind: ParamKind::Address, indexed: true },
            ]);
        }
        let mut registry_events: Vec<EventSpec> = Vec::new();
        registry_events.push(
            EventSpec {
                name: "TokenNetworkCreated".to_owned(),
                signature: tnc_signature,
                inputs: tnc_inputs,
            },
        );
        let registry_contract = ContractSpec {
            name: "TokenNetworkRegistry".to_owned(),
            events: registry_events,
        };
        let mut co_kinds: Vec<ParamKind> = Vec::new();
        co_kinds.push(ParamKind::Uint256);
        co_kinds.push(ParamKind::Address);
        co_kinds.push(ParamKind::Address);
        co_kinds.push(ParamKind::Uint256);
        proof {
            assert(co_kinds@ =~= seq![ParamKind::Uint256, ParamKind::Address, ParamKind::Address,
                ParamKind::Uint256]);
        }
        let co_signature = compute_event_signature("ChannelOpened", &co_kinds);
        let mut co_inputs: Vec<EventParamSpec> = Vec::new();
        co_inputs.push(EventParamSpec { kind: ParamKind::Uint256, indexed: true });
        co_inputs.push(EventParamSpec { kind: ParamKind::Address, indexed: true });
        co_inputs.push(EventParamSpec { kind: ParamKind::Address, indexed: true });
        co_inputs.push(EventParamSpec { kind: ParamKind::Uint256, indexed: false });
        proof {
            assert(co_inputs@ =~= seq![
                EventParamSpec { kind: ParamKind::Uint256, indexed: true },
                EventParamSpec { kind: ParamKind::Address, indexed: true },
                EventParamSpec { kind: ParamKind::Address, indexed: true },
                EventParamSpec { kind: ParamKind::Uint256, indexed: false },
            ]);
        }
        let mut network_events: Vec<EventSpec> = Vec::new();
        network_events.push(
            EventSpec {
                name: "ChannelOpened".to_owned(),
                signature: co_signature,
                inputs: co_inputs,
            },
        );
        let network_contract = ContractSpec { name: "TokenNetwork".to_owned(), events: network_events };
        let mut contracts: Vec<ContractSpec> = Vec::new();
        contracts.push(registry_contract);
        contracts.push(network_contract);
        let r = ContractRegistry { contracts, filters: Vec::new() };
        proof {
            assert(r@.filters =~= Seq::<FilterEntryView>::empty());
            assert(r@.contracts.len() == 2);
        }
        r
    }

    /// The registry as first constructed.
    pub fn default() -> (r: ContractRegistry)
        ensures
            r@.filters == Seq::<FilterEntryView>::empty(),
            r@.contracts.len() == 2,
            r@.contracts[0].name == "TokenNetworkRegistry"@,
            r@.contracts[1].name == "TokenNetwork"@,
            r@.contracts[0].events.len() == 1,
            r@.contracts[1].events.len() == 1,
            r@.contracts[0].events[0].name == "TokenNetworkCreated"@,
            r@.contracts[1].events[0].name == "ChannelOpened"@,
    {
        ContractRegistry::new()
    }

    /// Decodes a raw log against the registered interfaces: the first
    /// event whose signature hash equals the log's first topic, its
    /// indexed parameters read positionally from the remaining topics and
    /// its non-indexed parameters from the payload. Returns nothing when
    /// no signature matches or any part fails to decode.
    pub fn log_to_event(&self, log: &RawLog) -> (r: Option<Event>)
        ensures
            match r {
                Some(e) => log_to_event_spec(self@.contracts, log@) == Some(e@),
                None => log_to_event_spec(self@.contracts, log@) is None,
            },
    {
        let ntop = log.topics.len();
        if ntop == 0 {
            return None;
        }
        let ghost cviews = self@.contracts;
        let topic0 = log.topics[0];
        let nc = self.contracts.len();
        let mut i: usize = 0;
        while i < nc
            invariant
                0 <= i <= nc,
                nc == self.contracts@.len(),
                ntop == log@.topics.len(),
                ntop >= 1,
                topic0 == log@.topics[0],
                cviews == self@.contracts,
                forall|l: int| 0 <= l < i ==> matching_event_of(
                    (#[trigger] cviews[l]).events,
                    topic0,
                ) is None,
            decreases nc - i,
        {
            let ne = self.contracts[i].events.len();
            let mut j: usize = 0;
            while j < ne
                invariant
                    0 <= i < nc,
                    0 <= j <= ne,
                    nc == self.contracts@.len(),
                    ne == self.contracts@[i as int].events@.len(),
                    ntop == log@.topics.len(),
                    ntop >= 1,
                    topic0 == log@.topics[0],
                    cviews == self@.contracts,
                    forall|l: int| 0 <= l < i ==> matching_event_of(
                        (#[trigger] cviews[l]).events,
                        topic0,
                    ) is None,
                    forall|l: int| 0 <= l < j ==> (#[trigger] cviews[i as int].events[l]).signature
                        != topic0,
                decreases ne - j,
            {
                if self.contracts[i].events[j].signature == topic0 {
                    proof {
                        assert(cviews[i as int].events[j as int]
                            == self.contracts@[i as int].events@[j as int]@);
                    }
                    return self.decode_matched(log, i, j, Ghost(cviews), Ghost(topic0));
                }
                proof {
                    assert(cviews[i as int].events[j as int]
                        == self.contracts@[i as int].events@[j as int]@);
                }
                j = j + 1;
            }
            proof {
                lemma_matching_event_of_skip(cviews[i as int].events, topic0, ne as int);
                assert(cviews[i as int].events.skip(ne as int) =~= Seq::<EventSpecView>::empty());
            }
            i = i + 1;
        }
        proof {
            lemma_matching_event_skip(cviews, topic0, nc as int);
            assert(cviews.skip(nc as int) =~= Seq::<ContractSpecView>::empty());
        }
        None
    }

    /// Decodes the log against the matched event description.
    fn decode_matched(
        &self,
        log: &RawLog,
        i: usize,
        j: usize,
        Ghost(cviews): Ghost<Seq<ContractSpecView>>,
        Ghost(topic0): Ghost<H256>,
    ) -> (r: Option<Event>)
        requires
            cviews == self@.contracts,
            i < self.contracts@.len(),
            j < self.contracts@[i as int].events@.len(),
            log@.topics.len() >= 1,
            topic0 == log@.topics[0],
            cviews[i as int].events[j as int].signature == topic0,
            forall|l: int| 0 <= l < i ==> matching_event_of(
                (#[trigger] cviews[l]).events,
                topic0,
            ) is None,
            forall|l: int| 0 <= l < j ==> (#[trigger] cviews[i as int].events[l]).signature
                != topic0,
        ensures
            match r {
                Some(e) => log_to_event_spec(self@.contracts, log@) == Some(e@),
                None => log_to_event_spec(self@.contracts, log@) is None,
            },
    {
        let ghost ev = cviews[i as int].events[j as int];
        proof {
            lemma_matching_event_skip(cviews, topic0, i as int);
            lemma_matching_event_of_skip(cviews[i as int].events, topic0, j as int);
            assert(cviews.skip(i as int)[0] == cviews[i as int]);
            assert(cviews[i as int].events.skip(j as int)[0] == ev);
            assert(matching_event_of(cviews[i as int].events, topic0) == Some(ev));
            assert(matching_event(cviews, topic0) == Some(ev));
        }
        let bn = match log.block_number {
            Some(b) => b,
            None => {
                return None;
            },
        };
        let bh = match log.block_hash {
            Some(b) => b,
            None => {
                return None;
            },
        };
        let th = match log.transaction_hash {
            Some(b) => b,
            None => {
                return None;
            },
        };
        let inputs = &self.contracts[i].events[j].inputs;
        let np = inputs.len();
        let mut ik: Vec<ParamKind> = Vec::new();
        let mut nk: Vec<ParamKind> = Vec::new();
        let mut p: usize = 0;
        proof {
            assert(inputs@.take(0) =~= Seq::<EventParamSpec>::empty());
        }
        while p < np
            invariant
                0 <= p <= np,
                np == inputs@.len(),
                ik@ == indexed_kinds(inputs@.take(p as int)),
                nk@ == non_indexed_kinds(inputs@.take(p as int)),
            decreases np - p,
        {
            proof {
                assert(inputs@.take(p + 1).drop_last() =~= inputs@.take(p as int));
                assert(inputs@.take(p + 1).last() == inputs@[p as int]);
            }
            let param = inputs[p];
            if param.indexed {
                ik.push(param.kind);
            } else {
                nk.push(param.kind);
            }
            p = p + 1;
        }
        proof {
            assert(inputs@.take(np as int) =~= inputs@);
            assert(ev.inputs == inputs@);
        }
        let ntop = log.topics.len();
        if ntop - 1 != ik.len() {
            return None;
        }
        let niv = ik.len();
        let mut data: Vec<AbiValue> = Vec::new();
        let mut q: usize = 0;
        while q < niv
            invariant
                0 <= q <= niv,
                niv == ik@.len(),
                niv + 1 == log@.topics.len(),
                ik@ == indexed_kinds(ev.inputs),
                data@.len() == q,
                forall|l: int| 0 <= l < q ==> data@[l] == abi_value_of(
                    ik@[l],
                    h256_bytes(log@.topics[1 + l]),
                ),
            decreases niv - q,
        {
            let tb = log.topics[1 + q].to_bytes();
            let mut kv: Vec<ParamKind> = Vec::new();
            kv.push(ik[q]);
            proof {
                assert(kv@ =~= seq![ik@[q as int]]);
            }
            match abi_decode(&kv, &tb) {
                Some(vals) => {
                    proof {
                        let sv = match abi_decode_spec(kv@, tb@) {
                            Some(s) => s,
                            None => Seq::empty(),
                        };
                        assert(abi_decode_spec(kv@, tb@) == Some(sv));
                        assert(sv.len() == 1);
                        assert(abi_word(tb@, 0) =~= tb@);
                        assert(sv[0] == abi_value_of(ik@[q as int], h256_bytes(
                            log@.topics[1 + q as int],
                        )));
                        assert(vals@ == sv);
                    }
                    data.push(vals[0]);
                },
                None => {
                    proof {
                        assert(false);
                    }
                    return None;
                },
            }
            q = q + 1;
        }
        let nvals = match abi_decode(&nk, &log.data) {
            Some(v) => v,
            None => {
                return None;
            },
        };
        let ghost ivals = Seq::new(
            indexed_kinds(ev.inputs).len(),
            |l: int| abi_value_of(indexed_kinds(ev.inputs)[l], h256_bytes(log@.topics[1 + l])),
        );
        proof {
            assert(data@ =~= ivals);
        }
        let nnv = nvals.len();
        let mut w: usize = 0;
        while w < nnv
            invariant
                0 <= w <= nnv,
                nnv == nvals@.len(),
                data@ == ivals + nvals@.take(w as int),
            decreases nnv - w,
        {
            data.push(nvals[w]);
            proof {
                assert(ivals + nvals@.take(w + 1) =~= (ivals + nvals@.take(w as int)).push(
                    nvals@[w as int],
                ));
            }
            w = w + 1;
        }
        proof {
            assert(nvals@.take(nnv as int) =~= nvals@);
            assert(decode_log_with(ev, log@.topics, log@.data) == Some(ivals + nvals@));
        }
        let name = self.contracts[i].events[j].name.clone();
        let e = Event { name, block_number: bn, block_hash: bh, transaction_hash: th, data };
        proof {
            assert(e@.name == ev.name);
            assert(e@.data == ivals + nvals@);
        }
        Some(e)
    }
}


impl ContractRegistry {
    /// Installs one filter per event of every registered contract named
    /// `contract_name`, scoped to `contract_address`, from `from_block` to
    /// the latest block. A name and address already installed is left
    /// alone, so repeated creation is idempotent; a second network of the
    /// same interface gets its own filters under its own address.
    pub fn create_contract_event_filters(
        &mut self,
        contract_name: String,
        contract_address: Address,
        from_block: BlockSpec,
    )
        ensures
            final(self)@.contracts == old(self)@.contracts,
            final(self)@.filters == if filters_installed(
                old(self)@.filters,
                contract_name@,
                contract_address,
            ) {
                old(self)@.filters
            } else {
                old(self)@.filters + filters_for(
                    old(self)@.contracts,
                    contract_name@,
                    contract_address,
                    from_block,
                )
            },
    {
        let ghost fviews = old(self)@.filters;
        let ghost cviews = old(self)@.contracts;
        let nf = self.filters.len();
        let mut x: usize = 0;
        while x < nf
            invariant
                0 <= x <= nf,
                nf == self.filters@.len(),
                self == old(self),
                forall|l: int| 0 <= l < x ==> !((#[trigger] old(self)@.filters[l]).contract_name
                    == contract_name@ && old(self)@.filters[l].contract_address
                    == contract_address),
            decreases nf - x,
        {
            if self.filters[x].contract_name == contract_name && self.filters[x].contract_address
                == contract_address {
                proof {
                    assert(old(self)@.filters[x as int].contract_name == contract_name@);
                    assert(filters_installed(old(self)@.filters, contract_name@,
                        contract_address));
                }
                return ;
            }
            proof {
                assert(old(self)@.filters[x as int] == self.filters@[x as int]@);
            }
            x = x + 1;
        }
        proof {
            assert(!filters_installed(old(self)@.filters, contract_name@, contract_address));
        }
        let nc = self.contracts.len();
        let mut i: usize = 0;
        proof {
            assert(cviews.take(0) =~= Seq::<ContractSpecView>::empty());
            assert(self@.filters =~= fviews + filters_for(cviews.take(0), contract_name@,
                contract_address, from_block));
        }
        while i < nc
            invariant
                0 <= i <= nc,
                nc == self.contracts@.len(),
                self.contracts == old(self).contracts,
                cviews == self@.contracts,
                fviews == old(self)@.filters,
                self@.filters == fviews + filters_for(
                    cviews.take(i as int),
                    contract_name@,
                    contract_address,
                    from_block,
                ),
            decreases nc - i,
        {
            proof {
                assert(cviews.take(i + 1).drop_last() =~= cviews.take(i as int));
                assert(cviews.take(i + 1).last() == cviews[i as int]);
            }
            if self.contracts[i].name == contract_name {
                let ghost events = cviews[i as int].events;
                let ghost base = self@.filters;
                let ne = self.contracts[i].events.len();
                let mut j: usize = 0;
                proof {
                    assert(events.take(0) =~= Seq::<EventSpecView>::empty());
                    assert(event_filter_entries(contract_name@, contract_address, from_block,
                        events.take(0)) =~= Seq::<FilterEntryView>::empty());
                    assert(base + event_filter_entries(contract_name@, contract_address,
                        from_block, events.take(0)) =~= base);
                }
                while j < ne
                    invariant
                        0 <= j <= ne,
                        0 <= i < nc,
                        nc == self.contracts@.len(),
                        ne == self.contracts@[i as int].events@.len(),
                        self.contracts == old(self).contracts,
                        cviews == self@.contracts,
                        events == cviews[i as int].events,
                        self@.filters == base + event_filter_entries(
                            contract_name@,
                            contract_address,
                            from_block,
                            events.take(j as int),
                        ),
                    decreases ne - j,
                {
                    proof {
                        assert(events.take(j + 1).drop_last() =~= events.take(j as int));
                        assert(events.take(j + 1).last() == events[j as int]);
                        assert(events[j as int] == self.contracts@[i as int].events@[j as int]@);
                    }
                    let ghost before = self@.filters;
                    let entry = FilterEntry {
                        contract_name: contract_name.clone(),
                        contract_address,
                        event_name: self.contracts[i].events[j].name.clone(),
                        filter: FilterSpec {
                            address: contract_address,
                            topic: self.contracts[i].events[j].signature,
                            from_block,
                            to_block: BlockSpec::Latest,
                        },
                    };
                    self.filters.push(entry);
                    proof {
                        assert(self@.filters =~= before.push(
                            FilterEntryView {
                                contract_name: contract_name@,
                                contract_address,
                                event_name: events[j as int].name,
                                filter: FilterSpec {
                                    address: contract_address,
                                    topic: events[j as int].signature,
                                    from_block,
                                    to_block: BlockSpec::Latest,
                                },
                            },
                        ));
                        assert(self@.filters =~= base + event_filter_entries(contract_name@,
                            contract_address, from_block, events.take(j + 1)));
                    }
                    j = j + 1;
                }
                proof {
                    assert(events.take(ne as int) =~= events);
                    assert(cviews[i as int].name == contract_name@);
                    assert(self@.filters =~= fviews + filters_for(cviews.take(i + 1),
                        contract_name@, contract_address, from_block)) by {
                        assert(self@.filters == base + event_filter_entries(contract_name@,
                            contract_address, from_block, events));
                        assert(base == fviews + filters_for(cviews.take(i as int),
                            contract_name@, contract_address, from_block));
                    }
                }
            } else {
                proof {
                    assert(cviews[i as int].name != contract_name@);
                }
            }
            i = i + 1;
        }
        proof {
            assert(cviews.take(nc as int) =~= cviews);
        }
    }
}

} // verus!
