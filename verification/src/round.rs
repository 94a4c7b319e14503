//! Discovery of round contracts: the decisions around the chain calls.
//!
//! Reading logs and contract state from a chain is the caller's work.
//! This module says what to ask for, which contract instances a set of
//! logs names, in what batches to fetch their state, and what to make
//! of the answers, failed ones included.

use crate::event_handling::{event_views, Event, EventPayload, EventView, PayloadView};
use crate::event_log::{slice_window, window, window_end};
use crate::text::{digit, digit_char, push_char};
use vstd::prelude::*;
use vstd::slice::slice_to_vec;

verus! {

/// Signature of the log entries that announce a new round contract.
pub const ROUND_CREATED_SIGNATURE: &'static str = "RoundCreated(address,address,address)";

/// Position, among the topics of such a log entry, of the topic that
/// holds the address of the new contract.
pub const INSTANCE_TOPIC: usize = 1;

/// The address of a contract: twenty bytes.
#[derive(Clone, Copy, Debug, PartialEq, Eq)]
pub struct Address {
    pub bytes: [u8; 20],
}

impl View for Address {
    type V = Seq<u8>;

    open spec fn view(&self) -> Seq<u8> {
        self.bytes@
    }
}

/// The bytes `bytes` in hexadecimal, two lower-case digits each.
pub open spec fn hex_of(bytes: Seq<u8>) -> Seq<char>
    decreases bytes.len(),
{
    if bytes.len() == 0 {
        Seq::empty()
    } else {
        hex_of(bytes.drop_last()).push(digit_char(bytes.last() as int / 16)).push(
            digit_char(bytes.last() as int % 16),
        )
    }
}

/// An address as text: `0x` and forty hexadecimal digits.
pub open spec fn address_text(bytes: Seq<u8>) -> Seq<char> {
    seq!['0', 'x'] + hex_of(bytes)
}

impl Address {
    /// The address held by a log topic: its last twenty bytes.
    pub fn from_topic(topic: &[u8; 32]) -> (address: Address)
        ensures
            address@ == topic@.subrange(12, 32),
    {
        let mut bytes = [0u8;20];
        let mut i: usize = 0;
        while i < 20
            invariant
                i <= 20,
                forall|j: int| 0 <= j < i ==> bytes@[j] == topic@[12 + j],
            decreases 20 - i,
        {
            bytes[i] = topic[12 + i];
            i += 1;
        }
        let address = Address { bytes };
        assert(address@ =~= topic@.subrange(12, 32));
        address
    }

    /// Whether two addresses are the same, byte for byte.
    pub fn same_as(&self, other: &Address) -> (same: bool)
        ensures
            same == (self@ == other@),
    {
        let mut i: usize = 0;
        while i < 20
            invariant
                i <= 20,
                forall|j: int| 0 <= j < i ==> self.bytes@[j] == other.bytes@[j],
            decreases 20 - i,
        {
            if self.bytes[i] != other.bytes[i] {
                return false;
            }
            i += 1;
        }
        assert(self@ =~= other@);
        true
    }

    /// The address as text: `0x` and forty lower-case hexadecimal
    /// digits.
    pub fn to_hex(&self) -> (text: String)
        ensures
            text@ == address_text(self@),
    {
        let mut text = String::new();
        push_char(&mut text, '0');
        push_char(&mut text, 'x');
        let mut i: usize = 0;
        while i < 20
            invariant
                i <= 20,
                text@ == address_text(self@.take(i as int)),
            decreases 20 - i,
        {
            let byte: u32 = self.bytes[i] as u32;
            assert(self@.take(i + 1).drop_last() == self@.take(i as int));
            push_char(&mut text, digit(byte / 16));
            push_char(&mut text, digit(byte % 16));
            i += 1;
        }
        assert(self@.take(20) == self@);
        text
    }
}

/// What is asked of a chain to find the round contracts of a factory.
#[derive(Clone, Copy, Debug, PartialEq, Eq)]
pub struct LogQuery {
    /// The factory contract whose log entries are wanted.
    pub address: Address,
    /// Signature of the wanted entries.
    pub signature: &'static str,
    /// First block to search.
    pub from_block: u64,
}

/// The query for the round contracts that the factory at
/// `factory_address` has announced from `from_block` on, or from the
/// first block of the chain where none is given.
pub fn log_query(factory_address: Address, from_block: Option<u64>) -> (query: LogQuery)
    ensures
        query.address == factory_address,
        query.signature@ == ROUND_CREATED_SIGNATURE@,
        query.from_block == match from_block {
            Some(block) => block,
            None => 0,
        },
{
    let from_block = match from_block {
        Some(block) => block,
        None => 0,
    };
    LogQuery { address: factory_address, signature: ROUND_CREATED_SIGNATURE, from_block }
}

/// One log entry as the chain returned it: its topics, and the block
/// that holds it.
#[derive(Clone, Debug, PartialEq, Eq)]
pub struct RawLog {
    pub topics: Vec<[u8; 32]>,
    pub block_number: i32,
}

/// A contract instance that a log entry announced.
#[derive(Clone, Copy, Debug, PartialEq, Eq)]
pub struct Instance {
    pub address: Address,
    pub block_number: i32,
}

/// Mathematical counterpart of [`Instance`].
pub struct InstanceView {
    pub address: Seq<u8>,
    pub block_number: int,
}

impl View for Instance {
    type V = InstanceView;

    open spec fn view(&self) -> InstanceView {
        InstanceView { address: self.address@, block_number: self.block_number as int }
    }
}

/// A log entry that does not have the topic in which the address of the
/// instance is looked for.
#[derive(Clone, Copy, Debug, PartialEq, Eq, Structural)]
pub struct MalformedLog {
    /// Position of the entry among the entries returned.
    pub position: usize,
}

impl RawLog {
    /// Whether the entry has the topic that holds the instance address.
    pub open spec fn names_instance(&self) -> bool {
        self.topics@.len() > INSTANCE_TOPIC
    }

    /// The instance that the entry announces.
    pub open spec fn instance(&self) -> InstanceView {
        InstanceView {
            address: self.topics@[INSTANCE_TOPIC as int]@.subrange(12, 32),
            block_number: self.block_number as int,
        }
    }
}

/// Whether an instance at `address` is among `found`.
pub open spec fn known(found: Seq<InstanceView>, address: Seq<u8>) -> bool {
    exists|i: int| 0 <= i < found.len() && #[trigger] found[i].address == address
}

/// The instances that `logs` announce, each address once, in the order
/// of first announcement and with the block of that announcement.
pub open spec fn distinct_instances(logs: Seq<RawLog>) -> Seq<InstanceView>
    decreases logs.len(),
{
    if logs.len() == 0 {
        Seq::empty()
    } else {
        let before = distinct_instances(logs.drop_last());
        if known(before, logs.last().instance().address) {
            before
        } else {
            before.push(logs.last().instance())
        }
    }
}

/// The views of `instances`, one for one.
pub open spec fn instance_views(instances: Seq<Instance>) -> Seq<InstanceView> {
    Seq::new(instances.len(), |i: int| instances[i]@)
}

/// Whether `address` is the address of one of `found`.
fn is_known(found: &Vec<Instance>, address: &Address) -> (answer: bool)
    ensures
        answer == known(instance_views(found@), address@),
{
    let mut i: usize = 0;
    while i < found.len()
        invariant
            i <= found.len(),
            forall|j: int| 0 <= j < i ==> (#[trigger] instance_views(found@)[j]).address != address@,
        decreases found.len() - i,
    {
        if found[i].address.same_as(address) {
            assert(instance_views(found@)[i as int].address == address@);
            return true;
        }
        i += 1;
    }
    false
}

/// The contract instances that `logs` announce: one per distinct
/// address, in the order of first announcement. A log entry without the
/// topic that holds the address is reported, the first such entry by
/// its position, and nothing is extracted.
pub fn instances(logs: &Vec<RawLog>) -> (outcome: Result<Vec<Instance>, MalformedLog>)
    ensures
        match outcome {
            Ok(found) => {
                &&& forall|i: int| 0 <= i < logs@.len() ==> (#[trigger] logs@[i]).names_instance()
                &&& instance_views(found@) == distinct_instances(logs@)
            },
            Err(malformed) => {
                &&& malformed.position < logs@.len()
                &&& !logs@[malformed.position as int].names_instance()
                &&& forall|i: int|
                    0 <= i < malformed.position ==> (#[trigger] logs@[i]).names_instance()
            },
        },
{
    let mut found: Vec<Instance> = Vec::new();
    let mut i: usize = 0;
    while i < logs.len()
        invariant
            i <= logs.len(),
            forall|j: int| 0 <= j < i ==> (#[trigger] logs@[j]).names_instance(),
            instance_views(found@) == distinct_instances(logs@.take(i as int)),
        decreases logs.len() - i,
    {
        let log = &logs[i];
        if log.topics.len() <= INSTANCE_TOPIC {
            return Err(MalformedLog { position: i });
        }
        let address = Address::from_topic(&log.topics[INSTANCE_TOPIC]);
        assert(logs@.take(i + 1).drop_last() == logs@.take(i as int));
        assert(logs@.take(i + 1).last() == logs@[i as int]);
        if !is_known(&found, &address) {
            let ghost before = instance_views(found@);
            found.push(Instance { address, block_number: log.block_number });
            assert(instance_views(found@) =~= before.push(logs@[i as int].instance()));
        }
        i += 1;
    }
    assert(logs@.take(logs@.len() as int) == logs@);
    Ok(found)
}

/// No address occurs twice among the distinct instances of `logs`, and
/// the address of every entry occurs among them.
pub proof fn lemma_distinct_instances(logs: Seq<RawLog>)
    ensures
        forall|i: int, j: int|
            0 <= i < j < distinct_instances(logs).len() ==> (#[trigger] distinct_instances(
                logs,
            )[i]).address != (#[trigger] distinct_instances(logs)[j]).address,
        forall|k: int|
            0 <= k < logs.len() ==> known(
                distinct_instances(logs),
                (#[trigger] logs[k]).instance().address,
            ),
    decreases logs.len(),
{
    if logs.len() > 0 {
        let earlier = logs.drop_last();
        let before = distinct_instances(earlier);
        let all = distinct_instances(logs);
        lemma_distinct_instances(earlier);
        assert forall|k: int| 0 <= k < logs.len() implies known(
            all,
            (#[trigger] logs[k]).instance().address,
        ) by {
            if k < earlier.len() {
                assert(logs[k] == earlier[k]);
                let at = choose|i: int|
                    0 <= i < before.len() && #[trigger] before[i].address
                        == earlier[k].instance().address;
                assert(all[at].address == logs[k].instance().address);
            } else if known(before, logs.last().instance().address) {
            } else {
                assert(all[all.len() - 1].address == logs[k].instance().address);
            }
        }
        assert forall|i: int, j: int| 0 <= i < j < all.len() implies (#[trigger] all[i]).address
            != (#[trigger] all[j]).address by {
            if j < before.len() {
                assert(all[i] == before[i]);
                assert(all[j] == before[j]);
            } else {
                assert(all[i] == before[i]);
            }
        }
    }
}

/// The instances to fetch next: at most `max_in_flight` of them from
/// position `cursor` on, with the position to go on from. An empty
/// batch says that all have been handed out, or that `max_in_flight` is
/// zero.
pub fn next_batch(instances: &[Instance], cursor: usize, max_in_flight: usize) -> (out: (
    &[Instance],
    usize,
))
    ensures
        out.0@ == window(instances@, cursor as nat, max_in_flight as nat),
        out.1 == window_end(instances@.len(), cursor as nat, max_in_flight as nat),
{
    slice_window(instances, cursor, max_in_flight)
}

/// The state read from one round contract.
#[derive(Clone, Copy, Debug, PartialEq, Eq)]
pub struct Round {
    pub id: Address,
    pub payout_strategy: Address,
    pub voting_strategy: Address,
    pub token: Address,
}

/// The record of the round contract at `round_address`, made of the
/// three addresses that were read from it.
pub fn index_round(
    round_address: &Address,
    token: Address,
    payout_strategy: Address,
    voting_strategy: Address,
) -> (round: Round)
    ensures
        round == (Round { id: *round_address, payout_strategy, voting_strategy, token }),
{
    Round { id: *round_address, payout_strategy, voting_strategy, token }
}

/// What the indexer is told about one chain.
#[derive(Clone, Debug, PartialEq, Eq)]
pub struct ChainConfig {
    /// Number of the chain.
    pub chain_id: i32,
    /// Where the chain's node is reached.
    pub rpc_endpoint: String,
    /// The factory contract that creates rounds.
    pub factory_address: Address,
    /// First block to search; the first of the chain where none is
    /// given.
    pub start_block: Option<u64>,
    /// How many contracts may be read at the same time.
    pub max_in_flight: usize,
}

/// The reading of one contract that failed.
#[derive(Clone, Debug, PartialEq, Eq)]
pub struct FetchFailure<E> {
    /// The contract that could not be read.
    pub address: Address,
    /// What the chain reported.
    pub cause: E,
}

/// The event that records the creation of `instance` by the factory at
/// `factory` on chain `chain_id`.
pub open spec fn round_created(chain_id: int, factory: Seq<u8>, instance: InstanceView) -> EventView {
    EventView {
        chain_id,
        address: address_text(factory),
        block_number: instance.block_number,
        payload: PayloadView::RoundCreated { round_address: address_text(instance.address) },
    }
}

/// The event that records the creation of `instance` by `factory`.
pub fn round_created_event(chain_id: i32, factory: &Address, instance: &Instance) -> (event: Event)
    ensures
        event@ == round_created(chain_id as int, factory@, instance@),
{
    Event {
        chain_id,
        address: factory.to_hex(),
        block_number: instance.block_number,
        payload: EventPayload::RoundCreated { round_address: instance.address.to_hex() },
    }
}

/// What a discovery has brought so far: the rounds that were read, one
/// event for each of them, and the readings that failed. A failed
/// reading costs that one round and no other.
#[derive(Clone, Debug, PartialEq, Eq)]
pub struct Discovery<E> {
    /// The rounds read, in the order in which they were recorded.
    pub rounds: Vec<Round>,
    /// One `RoundCreated` event for each round, in the same order.
    pub events: Vec<Event>,
    /// The readings that failed, in the order in which they were
    /// recorded.
    pub failures: Vec<FetchFailure<E>>,
}

/// One reading of `instance` as recorded on top of what was there: a
/// round that was read is added with its event, a failure with the
/// address of the contract.
pub open spec fn recorded<E>(
    before: Discovery<E>,
    after: Discovery<E>,
    chain_id: int,
    factory: Seq<u8>,
    instance: Instance,
    outcome: Result<Round, E>,
) -> bool {
    match outcome {
        Ok(round) => {
            &&& after.rounds@ == before.rounds@.push(round)
            &&& after.events@.len() == before.events@.len() + 1
            &&& after.events@.drop_last() == before.events@
            &&& after.events@.last()@ == round_created(chain_id, factory, instance@)
            &&& after.failures@ == before.failures@
        },
        Err(cause) => {
            &&& after.rounds@ == before.rounds@
            &&& after.events@ == before.events@
            &&& after.failures@ == before.failures@.push(
                FetchFailure { address: instance.address, cause },
            )
        },
    }
}

impl<E> Discovery<E> {
    /// A discovery that has brought nothing yet.
    pub fn new() -> (discovery: Self)
        ensures
            discovery.rounds@.len() == 0,
            discovery.events@.len() == 0,
            discovery.failures@.len() == 0,
    {
        Discovery { rounds: Vec::new(), events: Vec::new(), failures: Vec::new() }
    }

    /// Whether every reading recorded so far succeeded.
    pub fn is_complete(&self) -> (complete: bool)
        ensures
            complete == (self.failures@.len() == 0),
    {
        self.failures.len() == 0
    }

    /// Records the outcome of reading `instance`.
    pub fn record(
        &mut self,
        chain_id: i32,
        factory: &Address,
        instance: Instance,
        outcome: Result<Round, E>,
    )
        ensures
            recorded(*old(self), *final(self), chain_id as int, factory@, instance, outcome),
    {
        match outcome {
            Ok(round) => {
                self.rounds.push(round);
                self.events.push(round_created_event(chain_id, factory, &instance));
                assert(self.events@.drop_last() =~= old(self).events@);
            },
            Err(cause) => {
                self.failures.push(FetchFailure { address: instance.address, cause });
            },
        }
    }
}

/// The rounds among `readings` that were read, in order.
pub open spec fn rounds_read<E>(readings: Seq<(Instance, Result<Round, E>)>) -> Seq<Round>
    decreases readings.len(),
{
    if readings.len() == 0 {
        Seq::empty()
    } else {
        match readings.last().1 {
            Ok(round) => rounds_read(readings.drop_last()).push(round),
            Err(_) => rounds_read(readings.drop_last()),
        }
    }
}

/// The events for the rounds among `readings` that were read, in order.
pub open spec fn events_read<E>(
    chain_id: int,
    factory: Seq<u8>,
    readings: Seq<(Instance, Result<Round, E>)>,
) -> Seq<EventView>
    decreases readings.len(),
{
    if readings.len() == 0 {
        Seq::empty()
    } else {
        match readings.last().1 {
            Ok(_) => events_read(chain_id, factory, readings.drop_last()).push(
                round_created(chain_id, factory, readings.last().0@),
            ),
            Err(_) => events_read(chain_id, factory, readings.drop_last()),
        }
    }
}

/// The failures among `readings`, in order, each with the address of
/// the contract that could not be read.
pub open spec fn failures_read<E>(readings: Seq<(Instance, Result<Round, E>)>) -> Seq<
    FetchFailure<E>,
>
    decreases readings.len(),
{
    if readings.len() == 0 {
        Seq::empty()
    } else {
        match readings.last().1 {
            Ok(_) => failures_read(readings.drop_last()),
            Err(cause) => failures_read(readings.drop_last()).push(
                FetchFailure { address: readings.last().0.address, cause },
            ),
        }
    }
}

impl<E> Discovery<E> {
    /// Records the outcomes of one batch of readings, in order. Every
    /// round that was read is kept, whatever became of the others.
    pub fn record_batch(
        &mut self,
        chain_id: i32,
        factory: &Address,
        readings: Vec<(Instance, Result<Round, E>)>,
    )
        ensures
            final(self).rounds@ == old(self).rounds@ + rounds_read(readings@),
            event_views(final(self).events@) == event_views(old(self).events@) + events_read(
                chain_id as int,
                factory@,
                readings@,
            ),
            final(self).failures@ == old(self).failures@ + failures_read(readings@),
    {
        let ghost all = readings@;
        let mut readings = readings;
        let mut done: Ghost<int> = Ghost(0);
        assert(all.take(0) =~= Seq::<(Instance, Result<Round, E>)>::empty());
        while readings.len() > 0
            invariant
                0 <= done@ <= all.len(),
                readings@ == all.skip(done@),
                self.rounds@ == old(self).rounds@ + rounds_read(all.take(done@)),
                event_views(self.events@) == event_views(old(self).events@) + events_read(
                    chain_id as int,
                    factory@,
                    all.take(done@),
                ),
                self.failures@ == old(self).failures@ + failures_read(all.take(done@)),
            decreases readings.len(),
        {
            let ghost before = *self;
            let (instance, outcome) = readings.remove(0);
            let ghost reading = outcome;
            self.record(chain_id, factory, instance, outcome);
            proof {
                let next = done@ + 1;
                assert(all.take(next).drop_last() =~= all.take(done@));
                assert(all.take(next).last() == all[done@]);
                assert(all[done@] == (instance, reading));
                match reading {
                    Ok(_) => {
                        let event = round_created(chain_id as int, factory@, instance@);
                        assert(self.events@.drop_last() == before.events@);
                        assert(event_views(self.events@) =~= event_views(before.events@).push(event));
                        assert(events_read(chain_id as int, factory@, all.take(next))
                            == events_read(chain_id as int, factory@, all.take(done@)).push(
                            event,
                        ));
                    },
                    Err(_) => {
                        assert(events_read(chain_id as int, factory@, all.take(next))
                            == events_read(chain_id as int, factory@, all.take(done@)));
                    },
                }
                assert(event_views(self.events@) =~= event_views(old(self).events@) + events_read(
                    chain_id as int,
                    factory@,
                    all.take(next),
                ));
                done@ = next;
            }
        }
        assert(all.take(all.len() as int) =~= all);
    }
}

/// Where the indexing of one factory stands.
#[derive(Clone, Copy, Debug, PartialEq, Eq, Structural)]
pub enum Phase {
    /// Nothing has been asked yet.
    Idle,
    /// The logs of the factory have been asked for.
    AwaitingLogs,
    /// The state of a batch of round contracts has been asked for.
    AwaitingRounds,
    /// Nothing more will be asked.
    Finished,
}

/// What the indexer asks its caller to do next.
#[derive(Clone, Debug, PartialEq, Eq)]
pub enum Request {
    /// Retrieve the log entries that match the query.
    Logs(LogQuery),
    /// Read the state of these round contracts, all at the same time,
    /// and answer with one outcome for each, in the same order.
    Rounds(Vec<Instance>),
    /// Nothing: the discovery is complete.
    Done,
}

/// What the caller hands back to the indexer.
pub enum Reply<E> {
    /// Nothing yet: begin.
    Start,
    /// The log entries that were asked for.
    Logs(Vec<RawLog>),
    /// The outcomes of reading the contracts that were asked for, in
    /// the order in which they were asked for.
    Rounds(Vec<Result<Round, E>>),
}

/// Why an indexing cannot go on.
#[derive(Clone, Copy, Debug, PartialEq, Eq, Structural)]
pub enum IndexingError {
    /// No contract may be read at a time, so none ever would be.
    NoCapacity,
    /// A log entry lacks the topic that holds the instance address.
    MalformedLog { position: usize },
    /// The reply is not an answer to what was asked.
    Unexpected,
}

/// The indexing of the rounds of one factory: what was asked of it,
/// what it has found, and what it is waiting for.
pub struct RoundIndexer<E> {
    /// Number of the chain.
    pub chain_id: i32,
    /// The factory contract that creates rounds.
    pub factory: Address,
    /// First block to search; the first of the chain where none is
    /// given.
    pub from_block: Option<u64>,
    /// How many contracts may be read at the same time.
    pub max_in_flight: usize,
    /// What the indexer is waiting for.
    pub phase: Phase,
    /// The contract instances that the logs announced.
    pub instances: Vec<Instance>,
    /// Position, among the instances, of the batch that is being read.
    pub cursor: usize,
    /// The rounds read, their events, and the readings that failed.
    pub found: Discovery<E>,
}

/// The instances of `batch`, each with the outcome of reading it.
pub open spec fn paired<E>(batch: Seq<Instance>, outcomes: Seq<Result<Round, E>>) -> Seq<
    (Instance, Result<Round, E>),
> {
    Seq::new(batch.len(), |i: int| (batch[i], outcomes[i]))
}

/// Whether `after` is `before` with one more batch recorded: the batch
/// that was in flight, each instance with its outcome.
pub open spec fn batch_recorded<E>(
    before: RoundIndexer<E>,
    after: RoundIndexer<E>,
    outcomes: Seq<Result<Round, E>>,
) -> bool {
    let batch = window(before.instances@, before.cursor as nat, before.max_in_flight as nat);
    let readings = paired(batch, outcomes);
    &&& after.instances@ == before.instances@
    &&& after.cursor == window_end(
        before.instances@.len(),
        before.cursor as nat,
        before.max_in_flight as nat,
    )
    &&& after.found.rounds@ == before.found.rounds@ + rounds_read(readings)
    &&& event_views(after.found.events@) == event_views(before.found.events@) + events_read(
        before.chain_id as int,
        before.factory@,
        readings,
    )
    &&& after.found.failures@ == before.found.failures@ + failures_read(readings)
}

/// Whether `after` asks, with `outcome`, for its next batch: the
/// instances at its cursor, at most as many as may be in flight, or
/// nothing more when none is left.
pub open spec fn asks_next<E>(after: RoundIndexer<E>, outcome: Result<Request, IndexingError>) -> bool {
    let batch = window(after.instances@, after.cursor as nat, after.max_in_flight as nat);
    if batch.len() == 0 {
        after.phase == Phase::Finished && outcome == Ok::<Request, IndexingError>(Request::Done)
    } else {
        &&& after.phase == Phase::AwaitingRounds
        &&& outcome matches Ok(Request::Rounds(asked))
        &&& asked@ == batch
    }
}

/// Whether `after` has the settings of `before`.
pub open spec fn same_settings<E>(before: RoundIndexer<E>, after: RoundIndexer<E>) -> bool {
    &&& after.chain_id == before.chain_id
    &&& after.factory == before.factory
    &&& after.from_block == before.from_block
    &&& after.max_in_flight == before.max_in_flight
}

/// Whether `after` holds what `before` had found, and the same
/// instances at the same cursor.
pub open spec fn same_findings<E>(before: RoundIndexer<E>, after: RoundIndexer<E>) -> bool {
    &&& after.instances@ == before.instances@
    &&& after.cursor == before.cursor
    &&& after.found.rounds@ == before.found.rounds@
    &&& after.found.events@ == before.found.events@
    &&& after.found.failures@ == before.found.failures@
}

/// One step of the indexing: from `before`, on `reply`, to `after`,
/// asking `outcome`.
///
/// * Idle, told to start: the logs of the factory are asked for, from
///   the first block of the chain where no block is set. With room for
///   no contract in flight nothing is asked and the indexing ends.
/// * Awaiting logs, given logs: their distinct instances are kept and
///   the first batch is asked for. A malformed log entry ends the
///   indexing.
/// * Awaiting rounds, given one outcome for each contract in flight:
///   every round read is kept with its event, every failure with its
///   address, and the next batch is asked for.
/// * Any other reply ends the indexing; what was found is kept.
pub open spec fn indexing_stepped<E>(
    before: RoundIndexer<E>,
    reply: Reply<E>,
    after: RoundIndexer<E>,
    outcome: Result<Request, IndexingError>,
) -> bool {
    &&& same_settings(before, after)
    &&& match (before.phase, reply) {
        (Phase::Idle, Reply::Start) => {
            &&& same_findings(before, after)
            &&& if before.max_in_flight == 0 {
                after.phase == Phase::Finished && outcome == Err::<Request, IndexingError>(
                    IndexingError::NoCapacity,
                )
            } else {
                &&& after.phase == Phase::AwaitingLogs
                &&& outcome matches Ok(Request::Logs(query))
                &&& query.address == before.factory
                &&& query.signature@ == ROUND_CREATED_SIGNATURE@
                &&& query.from_block == match before.from_block {
                    Some(block) => block,
                    None => 0,
                }
            }
        },
        (Phase::AwaitingLogs, Reply::Logs(logs)) => {
            if forall|i: int| 0 <= i < logs@.len() ==> (#[trigger] logs@[i]).names_instance() {
                &&& instance_views(after.instances@) == distinct_instances(logs@)
                &&& after.cursor == 0
                &&& after.found.rounds@ == before.found.rounds@
                &&& after.found.events@ == before.found.events@
                &&& after.found.failures@ == before.found.failures@
                &&& asks_next(after, outcome)
            } else {
                &&& same_findings(before, after)
                &&& after.phase == Phase::Finished
                &&& outcome matches Err(IndexingError::MalformedLog { position })
                &&& position < logs@.len()
                &&& !logs@[position as int].names_instance()
                &&& forall|i: int| 0 <= i < position ==> (#[trigger] logs@[i]).names_instance()
            }
        },
        (Phase::AwaitingRounds, Reply::Rounds(outcomes)) => {
            if outcomes@.len() == window(
                before.instances@,
                before.cursor as nat,
                before.max_in_flight as nat,
            ).len() {
                &&& batch_recorded(before, after, outcomes@)
                &&& asks_next(after, outcome)
            } else {
                &&& same_findings(before, after)
                &&& after.phase == Phase::Finished
                &&& outcome == Err::<Request, IndexingError>(IndexingError::Unexpected)
            }
        },
        _ => {
            &&& same_findings(before, after)
            &&& after.phase == Phase::Finished
            &&& outcome == Err::<Request, IndexingError>(IndexingError::Unexpected)
        },
    }
}

impl<E> RoundIndexer<E> {
    /// An indexer for the factory of `config`, idle, with nothing found.
    pub fn new(config: &ChainConfig) -> (indexer: Self)
        ensures
            indexer.chain_id == config.chain_id,
            indexer.factory == config.factory_address,
            indexer.from_block == config.start_block,
            indexer.max_in_flight == config.max_in_flight,
            indexer.phase == Phase::Idle,
            indexer.instances@.len() == 0,
            indexer.cursor == 0,
            indexer.found.rounds@.len() == 0,
            indexer.found.events@.len() == 0,
            indexer.found.failures@.len() == 0,
    {
        RoundIndexer {
            chain_id: config.chain_id,
            factory: config.factory_address,
            from_block: config.start_block,
            max_in_flight: config.max_in_flight,
            phase: Phase::Idle,
            instances: Vec::new(),
            cursor: 0,
            found: Discovery::new(),
        }
    }

    /// Asks for the batch at the cursor, or ends the indexing when no
    /// instance is left.
    fn ask_next(&mut self) -> (outcome: Result<Request, IndexingError>)
        ensures
            same_settings(*old(self), *final(self)),
            same_findings(*old(self), *final(self)),
            asks_next(*final(self), outcome),
    {
        let (batch, _) = next_batch(self.instances.as_slice(), self.cursor, self.max_in_flight);
        if batch.len() == 0 {
            self.phase = Phase::Finished;
            Ok(Request::Done)
        } else {
            let asked = slice_to_vec(batch);
            self.phase = Phase::AwaitingRounds;
            Ok(Request::Rounds(asked))
        }
    }

    /// Ends the indexing and hands out what was found.
    pub fn finish(self) -> (found: Discovery<E>)
        ensures
            found == self.found,
    {
        self.found
    }
}

/// One step of indexing the rounds of a factory: takes the reply to
/// what `indexer` asked last and says what to do next. The caller
/// begins with [`Reply::Start`], does what is asked, hands back the
/// answer, and goes on until [`Request::Done`]. See
/// [`indexing_stepped`].
pub fn index_round_factory<E>(indexer: &mut RoundIndexer<E>, reply: Reply<E>) -> (outcome: Result<
    Request,
    IndexingError,
>)
    ensures
        indexing_stepped(*old(indexer), reply, *final(indexer), outcome),
{
    match (indexer.phase, reply) {
        (Phase::Idle, Reply::Start) => {
            if indexer.max_in_flight == 0 {
                indexer.phase = Phase::Finished;
                Err(IndexingError::NoCapacity)
            } else {
                indexer.phase = Phase::AwaitingLogs;
                Ok(Request::Logs(log_query(indexer.factory, indexer.from_block)))
            }
        },
        (Phase::AwaitingLogs, Reply::Logs(logs)) => {
            match instances(&logs) {
                Ok(found) => {
                    indexer.instances = found;
                    indexer.cursor = 0;
                    indexer.ask_next()
                },
                Err(malformed) => {
                    indexer.phase = Phase::Finished;
                    Err(IndexingError::MalformedLog { position: malformed.position })
                },
            }
        },
        (Phase::AwaitingRounds, Reply::Rounds(outcomes)) => {
            let (batch, next) = next_batch(
                indexer.instances.as_slice(),
                indexer.cursor,
                indexer.max_in_flight,
            );
            if outcomes.len() != batch.len() {
                indexer.phase = Phase::Finished;
                Err(IndexingError::Unexpected)
            } else {
                let readings = pair_up(batch, outcomes);
                indexer.found.record_batch(indexer.chain_id, &indexer.factory, readings);
                indexer.cursor = next;
                indexer.ask_next()
            }
        },
        _ => {
            indexer.phase = Phase::Finished;
            Err(IndexingError::Unexpected)
        },
    }
}

/// Pairs each instance of `batch` with the outcome of reading it.
fn pair_up<E>(batch: &[Instance], outcomes: Vec<Result<Round, E>>) -> (readings: Vec<
    (Instance, Result<Round, E>),
>)
    requires
        outcomes@.len() == batch@.len(),
    ensures
        readings@ == paired(batch@, outcomes@),
{
    let ghost all = outcomes@;
    let mut outcomes = outcomes;
    let mut readings: Vec<(Instance, Result<Round, E>)> = Vec::new();
    let mut i: usize = 0;
    while i < batch.len()
        invariant
            i <= batch@.len(),
            all.len() == batch@.len(),
            outcomes@ == all.skip(i as int),
            readings@ == paired(batch@.take(i as int), all.take(i as int)),
        decreases batch@.len() - i,
    {
        let outcome = outcomes.remove(0);
        readings.push((batch[i], outcome));
        i += 1;
        assert(readings@ =~= paired(batch@.take(i as int), all.take(i as int)));
    }
    assert(batch@.take(i as int) == batch@);
    assert(all.take(i as int) == all);
    readings
}

} // verus!
