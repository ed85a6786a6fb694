//! Instrumentation for tests.
//!
//! A worker emits events. They are retained in order, and a test can arm a latch
//! that pauses the emitter of the next matching event until the latch is
//! released or its time is over. Nothing is recorded while the instrumentation
//! is off.
use crate::operation::CleanupStage;
use crate::outside;
use crate::outside::debug_text_of;
use crate::text;
use crate::text::decimal_text;
use vstd::prelude::*;

verus! {

/// Something that a test can wait for.
#[derive(Clone, Copy, Debug, PartialEq, Eq, Structural)]
pub enum Event {
    BeginCompletion,
    Prepare,
    StepProgress,
    BusyRetry,
    CommitEntry,
    CommitReturn,
    RollbackCompletion,
    RequestHandover,
    AdmissionEnqueue,
    AdmissionDequeue,
    ClosureEntry,
    PostWorkerPrePublication,
    ControlEntry,
    ControlReturn,
    ShutdownRequested,
    ShutdownCleanup,
    ShutdownClosed,
    SchemaVersionRead,
    CreationDescriptorCaptured,
    CreationPreOpenCheckpoint,
    CreationPostOpenCheckpoint,
    CreationPostInitCheckpoint,
    HarnessCommand,
    GuardInstalled,
    FirstSqliteOperation,
    GuardCleared,
}

/// The place of an event among all.
pub open spec fn index_of(event: Event) -> int {
    match event {
        Event::BeginCompletion => 0,
        Event::Prepare => 1,
        Event::StepProgress => 2,
        Event::BusyRetry => 3,
        Event::CommitEntry => 4,
        Event::CommitReturn => 5,
        Event::RollbackCompletion => 6,
        Event::RequestHandover => 7,
        Event::AdmissionEnqueue => 8,
        Event::AdmissionDequeue => 9,
        Event::ClosureEntry => 10,
        Event::PostWorkerPrePublication => 11,
        Event::ControlEntry => 12,
        Event::ControlReturn => 13,
        Event::ShutdownRequested => 14,
        Event::ShutdownCleanup => 15,
        Event::ShutdownClosed => 16,
        Event::SchemaVersionRead => 17,
        Event::CreationDescriptorCaptured => 18,
        Event::CreationPreOpenCheckpoint => 19,
        Event::CreationPostOpenCheckpoint => 20,
        Event::CreationPostInitCheckpoint => 21,
        Event::HarnessCommand => 22,
        Event::GuardInstalled => 23,
        Event::FirstSqliteOperation => 24,
        Event::GuardCleared => 25,
    }
}

/// The name of an event.
pub open spec fn name_of(event: Event) -> Seq<char> {
    match event {
        Event::BeginCompletion => "BeginCompletion"@,
        Event::Prepare => "Prepare"@,
        Event::StepProgress => "StepProgress"@,
        Event::BusyRetry => "BusyRetry"@,
        Event::CommitEntry => "CommitEntry"@,
        Event::CommitReturn => "CommitReturn"@,
        Event::RollbackCompletion => "RollbackCompletion"@,
        Event::RequestHandover => "RequestHandover"@,
        Event::AdmissionEnqueue => "AdmissionEnqueue"@,
        Event::AdmissionDequeue => "AdmissionDequeue"@,
        Event::ClosureEntry => "ClosureEntry"@,
        Event::PostWorkerPrePublication => "PostWorkerPrePublication"@,
        Event::ControlEntry => "ControlEntry"@,
        Event::ControlReturn => "ControlReturn"@,
        Event::ShutdownRequested => "ShutdownRequested"@,
        Event::ShutdownCleanup => "ShutdownCleanup"@,
        Event::ShutdownClosed => "ShutdownClosed"@,
        Event::SchemaVersionRead => "SchemaVersionRead"@,
        Event::CreationDescriptorCaptured => "CreationDescriptorCaptured"@,
        Event::CreationPreOpenCheckpoint => "CreationPreOpenCheckpoint"@,
        Event::CreationPostOpenCheckpoint => "CreationPostOpenCheckpoint"@,
        Event::CreationPostInitCheckpoint => "CreationPostInitCheckpoint"@,
        Event::HarnessCommand => "HarnessCommand"@,
        Event::GuardInstalled => "GuardInstalled"@,
        Event::FirstSqliteOperation => "FirstSqliteOperation"@,
        Event::GuardCleared => "GuardCleared"@,
    }
}

proof fn lemma_index(a: Event, b: Event)
    requires
        index_of(a) == index_of(b),
    ensures
        a == b,
{
}

fn event_index(event: Event) -> (r: usize)
    ensures
        r == index_of(event),
        r < 26,
{
    match event {
        Event::BeginCompletion => 0,
        Event::Prepare => 1,
        Event::StepProgress => 2,
        Event::BusyRetry => 3,
        Event::CommitEntry => 4,
        Event::CommitReturn => 5,
        Event::RollbackCompletion => 6,
        Event::RequestHandover => 7,
        Event::AdmissionEnqueue => 8,
        Event::AdmissionDequeue => 9,
        Event::ClosureEntry => 10,
        Event::PostWorkerPrePublication => 11,
        Event::ControlEntry => 12,
        Event::ControlReturn => 13,
        Event::ShutdownRequested => 14,
        Event::ShutdownCleanup => 15,
        Event::ShutdownClosed => 16,
        Event::SchemaVersionRead => 17,
        Event::CreationDescriptorCaptured => 18,
        Event::CreationPreOpenCheckpoint => 19,
        Event::CreationPostOpenCheckpoint => 20,
        Event::CreationPostInitCheckpoint => 21,
        Event::HarnessCommand => 22,
        Event::GuardInstalled => 23,
        Event::FirstSqliteOperation => 24,
        Event::GuardCleared => 25,
    }
}

fn event_name(event: Event) -> (r: &'static str)
    ensures
        r@ == name_of(event),
{
    match event {
        Event::BeginCompletion => "BeginCompletion",
        Event::Prepare => "Prepare",
        Event::StepProgress => "StepProgress",
        Event::BusyRetry => "BusyRetry",
        Event::CommitEntry => "CommitEntry",
        Event::CommitReturn => "CommitReturn",
        Event::RollbackCompletion => "RollbackCompletion",
        Event::RequestHandover => "RequestHandover",
        Event::AdmissionEnqueue => "AdmissionEnqueue",
        Event::AdmissionDequeue => "AdmissionDequeue",
        Event::ClosureEntry => "ClosureEntry",
        Event::PostWorkerPrePublication => "PostWorkerPrePublication",
        Event::ControlEntry => "ControlEntry",
        Event::ControlReturn => "ControlReturn",
        Event::ShutdownRequested => "ShutdownRequested",
        Event::ShutdownCleanup => "ShutdownCleanup",
        Event::ShutdownClosed => "ShutdownClosed",
        Event::SchemaVersionRead => "SchemaVersionRead",
        Event::CreationDescriptorCaptured => "CreationDescriptorCaptured",
        Event::CreationPreOpenCheckpoint => "CreationPreOpenCheckpoint",
        Event::CreationPostOpenCheckpoint => "CreationPostOpenCheckpoint",
        Event::CreationPostInitCheckpoint => "CreationPostInitCheckpoint",
        Event::HarnessCommand => "HarnessCommand",
        Event::GuardInstalled => "GuardInstalled",
        Event::FirstSqliteOperation => "FirstSqliteOperation",
        Event::GuardCleared => "GuardCleared",
    }
}

/// All events, each at its place.
pub fn all_events() -> (r: Vec<Event>)
    ensures
        r@.len() == 26,
        forall|i: int| 0 <= i < 26 ==> index_of(#[trigger] r@[i]) == i,
{
    vec![
        Event::BeginCompletion,
        Event::Prepare,
        Event::StepProgress,
        Event::BusyRetry,
        Event::CommitEntry,
        Event::CommitReturn,
        Event::RollbackCompletion,
        Event::RequestHandover,
        Event::AdmissionEnqueue,
        Event::AdmissionDequeue,
        Event::ClosureEntry,
        Event::PostWorkerPrePublication,
        Event::ControlEntry,
        Event::ControlReturn,
        Event::ShutdownRequested,
        Event::ShutdownCleanup,
        Event::ShutdownClosed,
        Event::SchemaVersionRead,
        Event::CreationDescriptorCaptured,
        Event::CreationPreOpenCheckpoint,
        Event::CreationPostOpenCheckpoint,
        Event::CreationPostInitCheckpoint,
        Event::HarnessCommand,
        Event::GuardInstalled,
        Event::FirstSqliteOperation,
        Event::GuardCleared,
    ]
}

/// Which operation an event belongs to.
#[derive(Clone, Debug, PartialEq, Eq)]
pub struct EventKey {
    pub operation_id: u64,
    /// Counts the incarnations of an operation.
    pub generation: u64,
    pub worker_id: Option<String>,
    pub creation_id: Option<String>,
}

/// What a key says.
pub type KeyView = (u64, u64, Option<Seq<char>>, Option<Seq<char>>);

pub open spec fn option_text(o: Option<String>) -> Option<Seq<char>> {
    match o {
        Some(s) => Some(s@),
        None => None,
    }
}

fn copy_text(o: &Option<String>) -> (r: Option<String>)
    ensures
        option_text(r) == option_text(*o),
{
    match o {
        Some(s) => Some(s.as_str().to_owned()),
        None => None,
    }
}

impl View for EventKey {
    type V = KeyView;

    open spec fn view(&self) -> KeyView {
        (
            self.operation_id,
            self.generation,
            option_text(self.worker_id),
            option_text(self.creation_id),
        )
    }
}

impl EventKey {
    /// The key of an operation in its first incarnation.
    pub fn operation(operation_id: u64) -> (r: Self)
        ensures
            r@ == (operation_id, 0u64, None::<Seq<char>>, None::<Seq<char>>),
    {
        EventKey { operation_id, generation: 0, worker_id: None, creation_id: None }
    }

    /// The key in another incarnation.
    pub fn with_generation(self, generation: u64) -> (r: Self)
        ensures
            r@ == (self@.0, generation, self@.2, self@.3),
    {
        EventKey {
            operation_id: self.operation_id,
            generation,
            worker_id: self.worker_id,
            creation_id: self.creation_id,
        }
    }

    /// The same key once more.
    pub fn copy(&self) -> (r: Self)
        ensures
            r@ == self@,
    {
        EventKey {
            operation_id: self.operation_id,
            generation: self.generation,
            worker_id: copy_text(&self.worker_id),
            creation_id: copy_text(&self.creation_id),
        }
    }
}

pub open spec fn key_view(key: Option<EventKey>) -> Option<KeyView> {
    match key {
        Some(k) => Some(k@),
        None => None,
    }
}

pub open spec fn key_ref_view(key: Option<&EventKey>) -> Option<KeyView> {
    match key {
        Some(k) => Some(k@),
        None => None,
    }
}

/// One emission.
#[derive(Clone, Debug, PartialEq, Eq)]
pub struct EventRecord {
    /// Counts the emissions of one event.
    pub seq: u64,
    pub event: Event,
    pub key: Option<EventKey>,
    /// Counts all emissions.
    pub order: u64,
}

/// What a record says.
pub type RecordView = (u64, Event, Option<KeyView>, u64);

impl View for EventRecord {
    type V = RecordView;

    open spec fn view(&self) -> RecordView {
        (self.seq, self.event, key_view(self.key), self.order)
    }
}

impl EventRecord {
    /// The same record once more.
    pub fn copy(&self) -> (r: Self)
        ensures
            r@ == self@,
    {
        let key = match &self.key {
            Some(k) => Some(k.copy()),
            None => None,
        };
        EventRecord { seq: self.seq, event: self.event, key, order: self.order }
    }
}

/// A latch that pauses the emitter of the next matching event.
#[derive(Debug)]
pub struct ArmedGate {
    pub key: Option<EventKey>,
    pub released: bool,
    /// Emissions before this one came before the latch.
    pub cursor: u64,
    /// When the emitter goes on at the latest, in milliseconds.
    pub deadline: u64,
}

/// What is known of one event.
#[derive(Debug)]
pub struct Slot {
    pub records: Vec<EventRecord>,
    pub dropped: u64,
    pub next_seq: u64,
    pub armed: Option<ArmedGate>,
}

/// How many records of one event are retained.
pub const RETAINED_PER_EVENT: usize = 4096;

/// How long an emitter is paused at most, in milliseconds.
pub const EMIT_BLOCK_LIMIT: u64 = 10_000;

/// A failure that is injected into a cleanup.
#[derive(Clone, Debug, PartialEq, Eq)]
pub struct CleanupFault {
    pub stage: CleanupStage,
    pub detail: String,
}

/// A fault that is injected into the next commit.
#[derive(Clone, Copy, Debug, PartialEq, Eq, Structural)]
pub enum CommitFault {
    /// The commit fails and the transaction stays open.
    OpenContinuable,
    /// The commit fails and the transaction is gone.
    AutocommitRestoredUnconfirmed,
    /// The commit succeeds and is reported as failed.
    AutocommitRestored,
    /// Nobody can say what the commit did.
    Uncertain,
}

/// The instrumentation of one process.
#[derive(Debug)]
pub struct Registry {
    /// Whether the instrumentation is on.
    pub enabled: bool,
    /// One slot for each event, at its place.
    pub slots: Vec<Slot>,
    /// The number of the next emission.
    pub order: u64,
    /// Injected failures, at most one for each stage.
    pub faults: Vec<CleanupFault>,
    pub commit_fault: Option<CommitFault>,
    /// The injected time in milliseconds; nothing is injected where it is zero.
    pub clock_ms: u64,
}

/// An event that nothing is known of.
pub open spec fn is_fresh(slot: Slot) -> bool {
    slot.records@.len() == 0 && slot.dropped == 0 && slot.next_seq == 0 && slot.armed is None
}

fn fresh_slots() -> (r: Vec<Slot>)
    ensures
        r@.len() == 26,
        forall|i: int| 0 <= i < 26 ==> is_fresh(#[trigger] r@[i]),
{
    let mut slots: Vec<Slot> = Vec::new();
    while slots.len() < 26
        invariant
            slots@.len() <= 26,
            forall|i: int| 0 <= i < slots@.len() ==> is_fresh(#[trigger] slots@[i]),
        decreases 26 - slots.len(),
    {
        slots.push(Slot { records: Vec::new(), dropped: 0, next_seq: 0, armed: None });
    }
    slots
}

/// The records are of the event at this place.
pub open spec fn is_of_event(slot: Slot, place: int) -> bool {
    forall|k: int|
        0 <= k < slot.records@.len() ==> index_of((#[trigger] slot.records@[k]).event) == place
}

/// The records are the newest emissions of an event, in the order in which they
/// came: they are numbered without a gap up to the last one, and the numbers among
/// all emissions rise. `order` is the number of the next emission of any event.
pub open spec fn is_slot_numbered(slot: Slot, order: u64) -> bool {
    let n = slot.records@.len() as int;
    &&& n == if slot.next_seq < RETAINED_PER_EVENT {
        slot.next_seq as int
    } else {
        RETAINED_PER_EVENT as int
    }
    &&& slot.dropped == slot.next_seq - n
    &&& slot.next_seq <= order
    &&& forall|k: int|
        0 <= k < n ==> (#[trigger] slot.records@[k]).seq == slot.next_seq - n + k
            && slot.records@[k].order < order
    &&& forall|j: int, k: int|
        0 <= j < k < n ==> (#[trigger] slot.records@[j]).order < (
        #[trigger] slot.records@[k]).order
}

impl Registry {
    /// The records of every event are its newest emissions. This holds until the
    /// number of an emission no longer fits.
    pub open spec fn is_numbered(self) -> bool {
        forall|i: int| 0 <= i < 26 ==> is_slot_numbered(#[trigger] self.slots@[i], self.order)
    }

    /// The records and their numbers are as in `other`.
    pub open spec fn keeps_records(self, other: Self) -> bool {
        &&& self.order == other.order
        &&& forall|i: int|
            0 <= i < 26 ==> (#[trigger] self.slots@[i]).records == other.slots@[i].records
                && self.slots@[i].next_seq == other.slots@[i].next_seq && self.slots@[i].dropped
                == other.slots@[i].dropped
    }

    pub open spec fn wf(self) -> bool {
        &&& self.slots@.len() == 26
        &&& forall|i: int|
            0 <= i < 26 ==> (#[trigger] self.slots@[i]).records@.len() <= RETAINED_PER_EVENT
        &&& forall|i: int| 0 <= i < 26 ==> is_of_event(#[trigger] self.slots@[i], i)
        &&& forall|i: int, j: int|
            0 <= i < j < self.faults@.len() ==> (#[trigger] self.faults@[i]).stage != (
            #[trigger] self.faults@[j]).stage
    }

    /// What is known of an event.
    pub open spec fn slot(self, event: Event) -> Slot {
        self.slots@[index_of(event)]
    }

    /// Everything but what is known of events is as in `other`.
    pub open spec fn same_but_slots(self, other: Self) -> bool {
        &&& self.enabled == other.enabled
        &&& self.order == other.order
        &&& self.faults == other.faults
        &&& self.commit_fault == other.commit_fault
        &&& self.clock_ms == other.clock_ms
    }

    /// A registry that knows of nothing.
    pub fn new(enabled: bool) -> (r: Self)
        ensures
            r.wf(),
            r.enabled == enabled,
            forall|i: int| 0 <= i < 26 ==> is_fresh(#[trigger] r.slots@[i]),
            r.order == 0,
            r.faults@.len() == 0,
            r.commit_fault is None,
            r.clock_ms == 0,
            r.is_numbered(),
    {
        Registry {
            enabled,
            slots: fresh_slots(),
            order: 0,
            faults: Vec::new(),
            commit_fault: None,
            clock_ms: 0,
        }
    }
}

/// The time: the injected one where the instrumentation is on, else `real_ms`.
pub fn now_ms(registry: &Registry, real_ms: u64) -> (r: u64)
    ensures
        r == if registry.clock_ms != 0 && registry.enabled {
            registry.clock_ms
        } else {
            real_ms
        },
{
    if registry.clock_ms != 0 && registry.enabled {
        registry.clock_ms
    } else {
        real_ms
    }
}

/// Injects a time.
pub fn set_clock_ms(registry: &mut Registry, value: u64)
    ensures
        *final(registry) == (Registry { clock_ms: value, ..*old(registry) }),
{
    registry.clock_ms = value;
}

/// A key that is asked for matches the key of an emission: nothing asked for
/// matches everything, and otherwise operation and generation are the same.
pub open spec fn matches_key(expected: Option<KeyView>, actual: Option<KeyView>) -> bool {
    match expected {
        None => true,
        Some(e) => match actual {
            None => false,
            Some(a) => e.0 == a.0 && e.1 == a.1,
        },
    }
}

fn key_matches(expected: Option<&EventKey>, actual: &Option<EventKey>) -> (r: bool)
    ensures
        r == matches_key(key_ref_view(expected), key_view(*actual)),
{
    match expected {
        None => true,
        Some(e) => match actual {
            None => false,
            Some(a) => e.operation_id == a.operation_id && e.generation == a.generation,
        },
    }
}

/// A latch pauses an emission.
pub open spec fn matches_gate(gate: ArmedGate, seq: u64, key: Option<KeyView>) -> bool {
    seq >= gate.cursor && matches_key(key_view(gate.key), key)
}

/// The latest time at which an emitter that is paused now goes on.
pub open spec fn block_deadline(now: u64) -> u64 {
    if now + EMIT_BLOCK_LIMIT > u64::MAX {
        u64::MAX
    } else {
        (now + EMIT_BLOCK_LIMIT) as u64
    }
}

/// A latch that was armed for a test.
#[derive(Debug, Clone, Copy, PartialEq, Eq, Structural)]
pub struct Barrier {
    pub event: Event,
    /// The test has released the latch.
    pub acknowledged: bool,
}

/// Arms a latch for the next emission of an event, whatever its key.
pub fn arm(registry: &mut Registry, event: Event, now: u64) -> (r: Barrier)
    requires
        old(registry).wf(),
    ensures
        final(registry).wf(),
        final(registry).same_but_slots(*old(registry)),
        final(registry).keeps_records(*old(registry)),
        r == (Barrier { event, acknowledged: false }),
        is_armed(*old(registry), *final(registry), event, None, now),
{
    arm_keyed(registry, event, None, now)
}

/// A latch for the event with this key stands where there may have been another.
pub open spec fn is_armed(
    before: Registry,
    after: Registry,
    event: Event,
    key: Option<KeyView>,
    now: u64,
) -> bool {
    let slot = before.slot(event);
    &&& after.slot(event).records == slot.records
    &&& after.slot(event).dropped == slot.dropped
    &&& after.slot(event).next_seq == slot.next_seq
    &&& after.slot(event).armed matches Some(gate) && key_view(gate.key) == key && !gate.released
        && gate.cursor == slot.next_seq && gate.deadline == block_deadline(now)
    &&& after.slots@ == before.slots@.update(index_of(event), after.slot(event))
}

/// Arms a latch for the next emission of an event with a matching key.
pub fn arm_keyed(registry: &mut Registry, event: Event, key: Option<EventKey>, now: u64) -> (r:
    Barrier)
    requires
        old(registry).wf(),
    ensures
        final(registry).wf(),
        final(registry).same_but_slots(*old(registry)),
        final(registry).keeps_records(*old(registry)),
        r == (Barrier { event, acknowledged: false }),
        is_armed(*old(registry), *final(registry), event, key_view(key), now),
{
    let i: usize = event_index(event);
    let cursor: u64 = registry.slots[i].next_seq;
    let deadline: u64 = if now > u64::MAX - EMIT_BLOCK_LIMIT {
        u64::MAX
    } else {
        now + EMIT_BLOCK_LIMIT
    };
    registry.slots[i].armed = Some(ArmedGate { key, released: false, cursor, deadline });
    Barrier { event, acknowledged: false }
}

/// The records of an event after one more emission: the oldest makes room where
/// there are too many.
pub open spec fn retained_after(records: Seq<EventRecord>, record: EventRecord) -> Seq<EventRecord> {
    if records.len() >= RETAINED_PER_EVENT {
        records.push(record).skip(1)
    } else {
        records.push(record)
    }
}

/// An emission was recorded.
pub open spec fn is_emitted(
    before: Registry,
    after: Registry,
    event: Event,
    key: Option<KeyView>,
) -> bool {
    let slot = before.slot(event);
    let now = after.slot(event);
    let record = now.records@.last();
    &&& record@ == (slot.next_seq, event, key, before.order)
    &&& now.records@ == retained_after(slot.records@, record)
    &&& now.next_seq == if slot.next_seq < u64::MAX {
        slot.next_seq + 1
    } else {
        u64::MAX as int
    }
    &&& now.dropped == if slot.records@.len() >= RETAINED_PER_EVENT && slot.dropped < u64::MAX {
        slot.dropped + 1
    } else {
        slot.dropped as int
    }
    &&& now.armed == slot.armed
    &&& after.slots@ == before.slots@.update(index_of(event), now)
    &&& after.order == if before.order < u64::MAX {
        before.order + 1
    } else {
        0
    }
    &&& after.enabled == before.enabled
    &&& after.faults == before.faults
    &&& after.commit_fault == before.commit_fault
    &&& after.clock_ms == before.clock_ms
}

/// Whether the emitter of this emission is paused.
pub open spec fn pauses(slot: Slot, seq: u64, key: Option<KeyView>) -> bool {
    slot.armed matches Some(gate) && matches_gate(gate, seq, key)
}

/// Emits an event without a key. Returns whether the emitter is paused.
pub fn emit(registry: &mut Registry, event: Event) -> (r: bool)
    requires
        old(registry).wf(),
    ensures
        final(registry).wf(),
        !old(registry).enabled ==> !r && *final(registry) == *old(registry),
        old(registry).enabled ==> is_emitted(*old(registry), *final(registry), event, None) && r
            == pauses(old(registry).slot(event), old(registry).slot(event).next_seq, None),
{
    emit_keyed(registry, event, None)
}

/// Emits an event. Returns whether the emitter is paused.
pub fn emit_keyed(registry: &mut Registry, event: Event, key: Option<EventKey>) -> (r: bool)
    requires
        old(registry).wf(),
    ensures
        final(registry).wf(),
        !old(registry).enabled ==> !r && *final(registry) == *old(registry),
        old(registry).enabled ==> is_emitted(
            *old(registry),
            *final(registry),
            event,
            key_view(key),
        ) && r == pauses(
            old(registry).slot(event),
            old(registry).slot(event).next_seq,
            key_view(key),
        ),
{
    if !registry.enabled {
        return false;
    }
    emit_keyed_always(registry, event, key)
}

/// Emits an event although the instrumentation may be off. Returns whether the
/// emitter is paused.
pub fn emit_keyed_always(registry: &mut Registry, event: Event, key: Option<EventKey>) -> (r: bool)
    requires
        old(registry).wf(),
    ensures
        final(registry).wf(),
        is_emitted(*old(registry), *final(registry), event, key_view(key)),
        r == pauses(
            old(registry).slot(event),
            old(registry).slot(event).next_seq,
            key_view(key),
        ),
{
    let i: usize = event_index(event);
    let ghost before = registry.slots@[i as int];
    let seq: u64 = registry.slots[i].next_seq;
    let paused = match &registry.slots[i].armed {
        Some(gate) => seq >= gate.cursor && key_matches(gate.key.as_ref(), &key),
        None => false,
    };
    let order: u64 = registry.order;
    registry.order = if order < u64::MAX {
        order + 1
    } else {
        0
    };
    let record = EventRecord { seq, event, key, order };
    let ghost added = record;
    registry.slots[i].next_seq = if seq < u64::MAX {
        seq + 1
    } else {
        seq
    };
    registry.slots[i].records.push(record);
    if registry.slots[i].records.len() > RETAINED_PER_EVENT {
        let _oldest = registry.slots[i].records.remove(0);
        let dropped: u64 = registry.slots[i].dropped;
        registry.slots[i].dropped = if dropped < u64::MAX {
            dropped + 1
        } else {
            dropped
        };
        assert(registry.slots@[i as int].records@ =~= before.records@.push(added).skip(1));
    }
    assert(registry.slots@[i as int].records@ == retained_after(before.records@, added));
    assert(registry.slots@ =~= old(registry).slots@.update(i as int, registry.slots@[i as int]));
    paused
}

/// How a paused emitter goes on.
#[derive(Debug, Clone, Copy, PartialEq, Eq, Structural)]
pub enum PauseStep {
    Resume,
    /// Wait this many milliseconds at most, or until something changes.
    Wait(u64),
}

/// The latch of an event is released, or there is none.
pub open spec fn is_open(slot: Slot) -> bool {
    match slot.armed {
        Some(gate) => gate.released,
        None => true,
    }
}

/// The slot with its latch released.
pub open spec fn opened(before: Slot, after: Slot) -> bool {
    &&& after.records == before.records
    &&& after.dropped == before.dropped
    &&& after.next_seq == before.next_seq
    &&& match before.armed {
        None => after.armed is None,
        Some(gate) => after.armed == Some((ArmedGate { released: true, ..gate })),
    }
}

/// Looks once whether a paused emitter goes on. `deadline` is that of the latch
/// that paused it. An emitter whose time is over opens the latch itself.
pub fn pause_step(registry: &mut Registry, event: Event, deadline: u64, now: u64) -> (r: PauseStep)
    requires
        old(registry).wf(),
    ensures
        final(registry).wf(),
        final(registry).same_but_slots(*old(registry)),
        final(registry).keeps_records(*old(registry)),
        if is_open(old(registry).slot(event)) {
            r is Resume && *final(registry) == *old(registry)
        } else if now >= deadline {
            &&& r is Resume
            &&& opened(old(registry).slot(event), final(registry).slot(event))
            &&& final(registry).slots@ == old(registry).slots@.update(
                index_of(event),
                final(registry).slot(event),
            )
        } else {
            r == PauseStep::Wait((deadline - now) as u64) && *final(registry) == *old(registry)
        },
{
    if gate_released(registry, event) {
        return PauseStep::Resume;
    }
    if now >= deadline {
        release_arm(registry, event);
        return PauseStep::Resume;
    }
    PauseStep::Wait(deadline - now)
}

/// Where a wait starts to look: a keyed wait sees everything that is retained,
/// another what comes after the latch or, without one, after now.
pub open spec fn cursor_of(slot: Slot, keyed: bool) -> u64 {
    if keyed {
        0
    } else {
        match slot.armed {
            Some(gate) => gate.cursor,
            None => slot.next_seq,
        }
    }
}

pub fn wait_cursor(registry: &Registry, event: Event, keyed: bool) -> (r: u64)
    requires
        registry.wf(),
    ensures
        r == cursor_of(registry.slot(event), keyed),
{
    let i: usize = event_index(event);
    if keyed {
        return 0;
    }
    match &registry.slots[i].armed {
        Some(gate) => gate.cursor,
        None => registry.slots[i].next_seq,
    }
}

/// A record satisfies a wait.
pub open spec fn satisfies(record: EventRecord, cursor: u64, key: Option<KeyView>) -> bool {
    record.seq >= cursor && matches_key(key, key_view(record.key))
}

/// The first record that satisfies a wait.
pub open spec fn is_first_match(
    records: Seq<EventRecord>,
    cursor: u64,
    key: Option<KeyView>,
    i: int,
) -> bool {
    &&& 0 <= i < records.len()
    &&& satisfies(records[i], cursor, key)
    &&& forall|j: int| 0 <= j < i ==> !satisfies(#[trigger] records[j], cursor, key)
}

/// Nothing satisfies a wait yet.
pub open spec fn is_unmatched(records: Seq<EventRecord>, cursor: u64, key: Option<KeyView>) -> bool {
    forall|j: int| 0 <= j < records.len() ==> !satisfies(#[trigger] records[j], cursor, key)
}

/// What one look for an emission gives.
#[derive(Debug)]
pub enum WaitStep {
    Found(EventRecord),
    TimedOut(String),
    /// Wait this many milliseconds at most, or until something changes.
    Wait(u64),
}

/// An optional text as it is shown.
pub open spec fn shown_option(o: Option<Seq<char>>) -> Seq<char> {
    match o {
        Some(s) => "Some("@ + outside::debug_text(s) + ")"@,
        None => "None"@,
    }
}

/// A key as it is shown.
pub open spec fn shown_key(key: Option<KeyView>) -> Seq<char> {
    match key {
        Some(k) => "Some(EventKey { operation_id: "@ + text::decimal(k.0 as nat) + ", generation: "@
            + text::decimal(k.1 as nat) + ", worker_id: "@ + shown_option(k.2) + ", creation_id: "@
            + shown_option(k.3) + " })"@,
        None => "None"@,
    }
}

/// The thousandths of a second as decimal places, without trailing zeros.
pub open spec fn decimal_places(thousandths: nat) -> Seq<char> {
    if thousandths % 100 == 0 {
        seq![text::digit(thousandths / 100)]
    } else if thousandths % 10 == 0 {
        seq![text::digit(thousandths / 100), text::digit(thousandths / 10 % 10)]
    } else {
        seq![
            text::digit(thousandths / 100),
            text::digit(thousandths / 10 % 10),
            text::digit(thousandths % 10),
        ]
    }
}

/// A time span as text, as `{:?}` shows a `std::time::Duration`: seconds where there
/// is a whole one, else milliseconds, and nanoseconds for none.
pub open spec fn shown_span(milliseconds: u64) -> Seq<char> {
    let seconds = text::decimal((milliseconds / 1000) as nat);
    if milliseconds == 0 {
        "0ns"@
    } else if milliseconds < 1000 {
        text::decimal(milliseconds as nat) + "ms"@
    } else if milliseconds % 1000 == 0 {
        seconds + "s"@
    } else {
        seconds + "."@ + decimal_places((milliseconds % 1000) as nat) + "s"@
    }
}

fn push_digit(s: &mut String, d: u64)
    requires
        d < 10,
    ensures
        final(s)@ == old(s)@.push(text::digit(d as nat)),
{
    s.push((0x30u8 + d as u8) as char);
}

fn span_shown(milliseconds: u64) -> (r: String)
    ensures
        r@ == shown_span(milliseconds),
{
    if milliseconds == 0 {
        return "0ns".to_owned();
    }
    if milliseconds < 1000 {
        let mut m = decimal_text(milliseconds);
        m.append("ms");
        return m;
    }
    let mut m = decimal_text(milliseconds / 1000);
    let places: u64 = milliseconds % 1000;
    if places > 0 {
        m.append(".");
        let ghost head = m@;
        push_digit(&mut m, places / 100);
        if places % 100 > 0 {
            push_digit(&mut m, places / 10 % 10);
        }
        if places % 10 > 0 {
            push_digit(&mut m, places % 10);
        }
        assert(m@ =~= head + decimal_places(places as nat));
    }
    m.append("s");
    m
}

/// The report of a wait that was in vain.
pub open spec fn timeout_text(
    event: Event,
    key: Option<KeyView>,
    limit_ms: u64,
    slot: Slot,
) -> Seq<char> {
    "event "@ + name_of(event) + " (key "@ + shown_key(key) + ") not observed before "@
        + shown_span(limit_ms) + "; retained="@ + text::decimal(slot.records@.len())
        + ", dropped="@ + text::decimal(slot.dropped as nat) + ", armed="@ + if slot.armed is Some {
        "true"@
    } else {
        "false"@
    }
}

fn option_shown(o: &Option<String>) -> (r: String)
    ensures
        r@ == shown_option(option_text(*o)),
{
    match o {
        Some(s) => {
            let mut out = "Some(".to_owned();
            out.append(debug_text_of(s.as_str()).as_str());
            out.append(")");
            out
        },
        None => "None".to_owned(),
    }
}

fn key_shown(key: Option<&EventKey>) -> (r: String)
    ensures
        r@ == shown_key(key_ref_view(key)),
{
    match key {
        Some(k) => {
            let mut out = "Some(EventKey { operation_id: ".to_owned();
            out.append(decimal_text(k.operation_id).as_str());
            out.append(", generation: ");
            out.append(decimal_text(k.generation).as_str());
            out.append(", worker_id: ");
            out.append(option_shown(&k.worker_id).as_str());
            out.append(", creation_id: ");
            out.append(option_shown(&k.creation_id).as_str());
            out.append(" })");
            out
        },
        None => "None".to_owned(),
    }
}

/// Looks once for an emission of an event, whatever its key.
pub fn wait_for(registry: &Registry, event: Event, cursor: u64, elapsed_ms: u64, limit_ms: u64) -> (r:
    WaitStep)
    requires
        registry.wf(),
    ensures
        is_look(registry.slot(event), event, None, cursor, elapsed_ms, limit_ms, r),
        r matches WaitStep::Found(record) ==> record.event == event,
{
    wait_keyed(registry, event, None, cursor, elapsed_ms, limit_ms)
}

/// What one look gives: the first match, else the end of the wait, else the time
/// that is left.
pub open spec fn is_look(
    slot: Slot,
    event: Event,
    key: Option<KeyView>,
    cursor: u64,
    elapsed_ms: u64,
    limit_ms: u64,
    r: WaitStep,
) -> bool {
    match r {
        WaitStep::Found(record) => exists|i: int| #[trigger]
            is_first_match(slot.records@, cursor, key, i) && record@ == slot.records@[i]@,
        WaitStep::TimedOut(m) => is_unmatched(slot.records@, cursor, key) && elapsed_ms >= limit_ms
            && m@ == timeout_text(event, key, limit_ms, slot),
        WaitStep::Wait(left) => is_unmatched(slot.records@, cursor, key) && elapsed_ms < limit_ms
            && left == limit_ms - elapsed_ms,
    }
}

/// Looks once for an emission of an event with a matching key. `cursor` is where
/// the wait started to look, `elapsed_ms` how long it lasts already.
pub fn wait_keyed(
    registry: &Registry,
    event: Event,
    key: Option<&EventKey>,
    cursor: u64,
    elapsed_ms: u64,
    limit_ms: u64,
) -> (r: WaitStep)
    requires
        registry.wf(),
    ensures
        is_look(
            registry.slot(event),
            event,
            key_ref_view(key),
            cursor,
            elapsed_ms,
            limit_ms,
            r,
        ),
        r matches WaitStep::Found(record) ==> record.event == event,
{
    let at: usize = event_index(event);
    let slot = &registry.slots[at];
    let mut i: usize = 0;
    while i < slot.records.len()
        invariant
            *slot == registry.slot(event),
            is_of_event(*slot, index_of(event)),
            i <= slot.records@.len(),
            forall|j: int|
                0 <= j < i ==> !satisfies(#[trigger] slot.records@[j], cursor, key_ref_view(key)),
        decreases slot.records.len() - i,
    {
        let record = &slot.records[i];
        if record.seq >= cursor && key_matches(key, &record.key) {
            assert(is_first_match(slot.records@, cursor, key_ref_view(key), i as int));
            proof {
                lemma_index(slot.records@[i as int].event, event);
            }
            return WaitStep::Found(record.copy());
        }
        i += 1;
    }
    if elapsed_ms < limit_ms {
        return WaitStep::Wait(limit_ms - elapsed_ms);
    }
    let mut m = "event ".to_owned();
    m.append(event_name(event));
    m.append(" (key ");
    m.append(key_shown(key).as_str());
    m.append(") not observed before ");
    m.append(span_shown(limit_ms).as_str());
    m.append("; retained=");
    m.append(decimal_text(slot.records.len() as u64).as_str());
    m.append(", dropped=");
    m.append(decimal_text(slot.dropped).as_str());
    m.append(", armed=");
    if slot.armed.is_some() {
        m.append("true");
    } else {
        m.append("false");
    }
    WaitStep::TimedOut(m)
}

impl Barrier {
    /// Releases the latch, and with it the emitter that is paused.
    pub fn release(&mut self, registry: &mut Registry)
        requires
            old(registry).wf(),
        ensures
            final(registry).wf(),
            final(registry).same_but_slots(*old(registry)),
            final(registry).keeps_records(*old(registry)),
            *final(self) == (Barrier { event: old(self).event, acknowledged: true }),
            opened(old(registry).slot(old(self).event), final(registry).slot(old(self).event)),
            final(registry).slots@ == old(registry).slots@.update(
                index_of(old(self).event),
                final(registry).slot(old(self).event),
            ),
    {
        self.acknowledged = true;
        release_arm(registry, self.event);
    }

    /// Whether the latch is released, or gone.
    pub fn is_released(&self, registry: &Registry) -> (r: bool)
        requires
            registry.wf(),
        ensures
            r == is_open(registry.slot(self.event)),
    {
        gate_released(registry, self.event)
    }

    /// Looks once whether the latch is released: `Ok` once it is, else the time
    /// that is left or, without any, the report.
    pub fn wait(&self, registry: &Registry, elapsed_ms: u64, limit_ms: u64) -> (r: Result<
        Option<u64>,
        String,
    >)
        requires
            registry.wf(),
        ensures
            match r {
                Ok(None) => is_open(registry.slot(self.event)) || self.acknowledged,
                Ok(Some(left)) => !is_open(registry.slot(self.event)) && !self.acknowledged
                    && elapsed_ms < limit_ms && left == limit_ms - elapsed_ms,
                Err(m) => !is_open(registry.slot(self.event)) && !self.acknowledged && elapsed_ms
                    >= limit_ms && m@ == "test barrier "@ + name_of(self.event)
                    + " was not released"@,
            },
    {
        if gate_released(registry, self.event) || self.acknowledged {
            return Ok(None);
        }
        if elapsed_ms < limit_ms {
            return Ok(Some(limit_ms - elapsed_ms));
        }
        let mut m = "test barrier ".to_owned();
        m.append(event_name(self.event));
        m.append(" was not released");
        Err(m)
    }
}

/// A latch would pause an emission with this key.
pub open spec fn would_pause(gate: Option<ArmedGate>, key: Option<KeyView>) -> bool {
    gate matches Some(g) && matches_key(key_view(g.key), key)
}

/// Whether the latch of an event would pause an emission with this key.
pub fn arm_matches_pending(registry: &Registry, event: Event, key: Option<&EventKey>) -> (r: bool)
    requires
        registry.wf(),
    ensures
        r == would_pause(registry.slot(event).armed, key_ref_view(key)),
{
    let i: usize = event_index(event);
    match &registry.slots[i].armed {
        None => false,
        Some(gate) => match &gate.key {
            None => true,
            Some(gk) => match key {
                None => false,
                Some(k) => gk.operation_id == k.operation_id && gk.generation == k.generation,
            },
        },
    }
}

/// Releases the latch of an event, if there is one.
pub fn release_arm(registry: &mut Registry, event: Event)
    requires
        old(registry).wf(),
    ensures
        final(registry).wf(),
        final(registry).same_but_slots(*old(registry)),
        final(registry).keeps_records(*old(registry)),
        opened(old(registry).slot(event), final(registry).slot(event)),
        final(registry).slots@ == old(registry).slots@.update(
            index_of(event),
            final(registry).slot(event),
        ),
{
    let i: usize = event_index(event);
    let armed = registry.slots[i].armed.take();
    registry.slots[i].armed = match armed {
        None => None,
        Some(gate) => Some(
            ArmedGate {
                key: gate.key,
                released: true,
                cursor: gate.cursor,
                deadline: gate.deadline,
            },
        ),
    };
    assert(registry.slots@ =~= old(registry).slots@.update(i as int, registry.slots@[i as int]));
}

/// Whether the latch of an event is released, or there is none.
pub fn gate_released(registry: &Registry, event: Event) -> (r: bool)
    requires
        registry.wf(),
    ensures
        r == is_open(registry.slot(event)),
{
    let i: usize = event_index(event);
    match &registry.slots[i].armed {
        Some(gate) => gate.released,
        None => true,
    }
}

/// How many records of an event are retained.
pub fn count(registry: &Registry, event: Event) -> (r: usize)
    requires
        registry.wf(),
    ensures
        r == registry.slot(event).records@.len(),
{
    let i: usize = event_index(event);
    registry.slots[i].records.len()
}

pub open spec fn record_views(records: Seq<EventRecord>) -> Seq<RecordView> {
    records.map_values(|r: EventRecord| r@)
}

/// The retained records of an event, the oldest first.
pub fn retained_records(registry: &Registry, event: Event) -> (r: Vec<EventRecord>)
    requires
        registry.wf(),
    ensures
        record_views(r@) == record_views(registry.slot(event).records@),
        forall|k: int| 0 <= k < r@.len() ==> (#[trigger] r@[k]).event == event,
{
    let at: usize = event_index(event);
    let slot = &registry.slots[at];
    let mut out: Vec<EventRecord> = Vec::new();
    let mut i: usize = 0;
    while i < slot.records.len()
        invariant
            *slot == registry.slot(event),
            i <= slot.records@.len(),
            out@.len() == i,
            is_of_event(*slot, index_of(event)),
            forall|j: int|
                0 <= j < i ==> (#[trigger] out@[j])@ == slot.records@[j]@ && out@[j].event == event,
        decreases slot.records.len() - i,
    {
        proof {
            lemma_index(slot.records@[i as int].event, event);
        }
        out.push(slot.records[i].copy());
        i += 1;
    }
    assert(record_views(out@) =~= record_views(slot.records@));
    out
}

/// Forgets all records, latches and injected faults, and the injected time.
pub fn reset_registry(registry: &mut Registry)
    ensures
        final(registry).wf(),
        forall|i: int| 0 <= i < 26 ==> is_fresh(#[trigger] final(registry).slots@[i]),
        final(registry).faults@.len() == 0,
        final(registry).commit_fault is None,
        final(registry).clock_ms == 0,
        final(registry).enabled == old(registry).enabled,
        final(registry).order == old(registry).order,
        final(registry).is_numbered(),
{
    registry.slots = fresh_slots();
    registry.faults = Vec::new();
    registry.commit_fault = None;
    set_clock_ms(registry, 0);
}

/// A failure is injected for a stage.
pub open spec fn has_fault(faults: Seq<CleanupFault>, stage: CleanupStage) -> bool {
    exists|i: int| 0 <= i < faults.len() && (#[trigger] faults[i]).stage == stage
}

/// The failures for other stages.
pub open spec fn other_faults(faults: Seq<CleanupFault>, stage: CleanupStage) -> Seq<CleanupFault>
    decreases faults.len(),
{
    if faults.len() == 0 {
        faults
    } else if faults.last().stage == stage {
        other_faults(faults.drop_last(), stage)
    } else {
        other_faults(faults.drop_last(), stage).push(faults.last())
    }
}

proof fn lemma_other_faults_absent(faults: Seq<CleanupFault>, stage: CleanupStage)
    requires
        !has_fault(faults, stage),
    ensures
        other_faults(faults, stage) == faults,
    decreases faults.len(),
{
    if faults.len() > 0 {
        assert(faults.last().stage != stage) by {
            assert(faults[faults.len() - 1] == faults.last());
        }
        assert(!has_fault(faults.drop_last(), stage)) by {
            if has_fault(faults.drop_last(), stage) {
                let i = choose|i: int|
                    0 <= i < faults.drop_last().len() && (#[trigger] faults.drop_last()[i]).stage
                        == stage;
                assert(faults[i].stage == stage);
            }
        }
        lemma_other_faults_absent(faults.drop_last(), stage);
        assert(faults.drop_last().push(faults.last()) =~= faults);
    }
}

proof fn lemma_other_faults_removed(faults: Seq<CleanupFault>, stage: CleanupStage, at: int)
    requires
        0 <= at < faults.len(),
        faults[at].stage == stage,
        forall|i: int, j: int|
            0 <= i < j < faults.len() ==> (#[trigger] faults[i]).stage != (
            #[trigger] faults[j]).stage,
    ensures
        other_faults(faults, stage) == faults.remove(at),
    decreases faults.len(),
{
    let init = faults.drop_last();
    if at == faults.len() - 1 {
        assert(!has_fault(init, stage)) by {
            if has_fault(init, stage) {
                let i = choose|i: int| 0 <= i < init.len() && (#[trigger] init[i]).stage == stage;
                assert(faults[i].stage == faults[at].stage);
            }
        }
        lemma_other_faults_absent(init, stage);
        assert(faults.remove(at) =~= init);
    } else {
        assert(faults[at].stage != faults[faults.len() - 1].stage);
        assert forall|i: int, j: int| 0 <= i < j < init.len() implies (#[trigger] init[i]).stage
            != (#[trigger] init[j]).stage by {
            assert(faults[i].stage != faults[j].stage);
        }
        lemma_other_faults_removed(init, stage, at);
        assert(faults.remove(at) =~= init.remove(at).push(faults.last()));
    }
}

/// Takes the injected failure for a stage, if there is one.
pub fn take_cleanup_fault(registry: &mut Registry, stage: CleanupStage) -> (r: Option<CleanupFault>)
    requires
        old(registry).wf(),
    ensures
        final(registry).wf(),
        r is Some == has_fault(old(registry).faults@, stage),
        r matches Some(fault) ==> fault.stage == stage && old(registry).faults@.contains(fault),
        final(registry).faults@ == other_faults(old(registry).faults@, stage),
        final(registry).slots == old(registry).slots,
        final(registry).enabled == old(registry).enabled,
        final(registry).order == old(registry).order,
        final(registry).commit_fault == old(registry).commit_fault,
        final(registry).clock_ms == old(registry).clock_ms,
{
    let ghost before = registry.faults@;
    let mut i: usize = 0;
    while i < registry.faults.len()
        invariant
            *registry == *old(registry),
            before == registry.faults@,
            registry.wf(),
            i <= before.len(),
            forall|j: int| 0 <= j < i ==> (#[trigger] before[j]).stage != stage,
        decreases registry.faults.len() - i,
    {
        if registry.faults[i].stage == stage {
            proof {
                lemma_other_faults_removed(before, stage, i as int);
                assert(before[i as int].stage == stage);
            }
            let fault = registry.faults.remove(i);
            assert(before.contains(fault)) by {
                assert(before[i as int] == fault);
            }
            assert(registry.faults@ == before.remove(i as int));
            assert forall|a: int, b: int| 0 <= a < b < registry.faults@.len() implies (
            #[trigger] registry.faults@[a]).stage != (#[trigger] registry.faults@[b]).stage by {
                let x = if a < i {
                    a
                } else {
                    a + 1
                };
                let y = if b < i {
                    b
                } else {
                    b + 1
                };
                assert(registry.faults@[a] == before[x] && registry.faults@[b] == before[y]);
            }
            return Some(fault);
        }
        i += 1;
    }
    proof {
        lemma_other_faults_absent(before, stage);
    }
    None
}

/// Injects a failure into the next cleanup of a stage, in place of another one.
pub fn inject_cleanup_fault(registry: &mut Registry, stage: CleanupStage, detail: &str)
    requires
        old(registry).wf(),
    ensures
        final(registry).wf(),
        final(registry).faults@.len() > 0,
        final(registry).faults@.drop_last() == other_faults(old(registry).faults@, stage),
        final(registry).faults@.last().stage == stage,
        final(registry).faults@.last().detail@ == detail@,
        final(registry).slots == old(registry).slots,
        final(registry).enabled == old(registry).enabled,
        final(registry).order == old(registry).order,
        final(registry).commit_fault == old(registry).commit_fault,
        final(registry).clock_ms == old(registry).clock_ms,
{
    let _replaced = take_cleanup_fault(registry, stage);
    let ghost kept = registry.faults@;
    proof {
        lemma_others_differ(old(registry).faults@, stage);
    }
    registry.faults.push(CleanupFault { stage, detail: detail.to_owned() });
    assert(registry.faults@.drop_last() =~= kept);
}

proof fn lemma_others_differ(faults: Seq<CleanupFault>, stage: CleanupStage)
    ensures
        forall|i: int|
            0 <= i < other_faults(faults, stage).len() ==> (#[trigger] other_faults(
                faults,
                stage,
            )[i]).stage != stage,
    decreases faults.len(),
{
    if faults.len() > 0 {
        lemma_others_differ(faults.drop_last(), stage);
    }
}

/// Injects a fault into the next commit. Without instrumentation nothing is
/// injected.
pub fn inject_commit_fault(registry: &mut Registry, fault: CommitFault)
    ensures
        *final(registry) == if old(registry).enabled {
            Registry { commit_fault: Some(fault), ..*old(registry) }
        } else {
            *old(registry)
        },
{
    if registry.enabled {
        registry.commit_fault = Some(fault);
    }
}

/// Takes the fault for the next commit, if there is one.
pub fn take_commit_fault(registry: &mut Registry) -> (r: Option<CommitFault>)
    ensures
        if old(registry).enabled {
            r == old(registry).commit_fault && *final(registry) == (Registry {
                commit_fault: None,
                ..*old(registry)
            })
        } else {
            r is None && *final(registry) == *old(registry)
        },
{
    if !registry.enabled {
        return None;
    }
    let fault = registry.commit_fault;
    registry.commit_fault = None;
    fault
}

/// Nothing is lost between arming a latch and waiting for it: an emission that
/// the latch matches is found by the wait, however long after the emission the
/// wait begins.
pub proof fn armed_emissions_are_found(
    before: Registry,
    armed: Registry,
    emitted: Registry,
    event: Event,
    key: Option<KeyView>,
    emitted_key: Option<KeyView>,
    now: u64,
)
    requires
        before.wf(),
        is_armed(before, armed, event, key, now),
        is_emitted(armed, emitted, event, emitted_key),
    ensures
        exists|i: int|
            is_first_match(
                emitted.slot(event).records@,
                cursor_of(emitted.slot(event), false),
                None,
                i,
            ),
        matches_key(key, emitted_key) ==> pauses(
            armed.slot(event),
            armed.slot(event).next_seq,
            emitted_key,
        ),
        !matches_key(key, emitted_key) ==> !pauses(
            armed.slot(event),
            armed.slot(event).next_seq,
            emitted_key,
        ),
{
    let records = emitted.slot(event).records@;
    let cursor = cursor_of(emitted.slot(event), false);
    assert(satisfies(records[records.len() - 1], cursor, None));
    lemma_first_match(records, cursor, None, records.len() - 1);
}

/// One step in the life of a registry: an emission of an event with a key, or
/// something that leaves the records alone.
pub open spec fn is_registry_step(
    before: Registry,
    after: Registry,
    emission: Option<(Event, Option<KeyView>)>,
) -> bool {
    match emission {
        Some((event, key)) => is_emitted(before, after, event, key),
        None => after.keeps_records(before),
    }
}

/// The states of a registry that knew of nothing at first and went through these
/// steps.
pub open spec fn is_history(
    states: Seq<Registry>,
    steps: Seq<Option<(Event, Option<KeyView>)>>,
) -> bool {
    &&& states.len() == steps.len() + 1
    &&& forall|i: int| 0 <= i < states.len() ==> (#[trigger] states[i]).slots@.len() == 26
    &&& forall|i: int| 0 <= i < 26 ==> is_fresh(#[trigger] states[0].slots@[i])
    &&& forall|i: int|
        0 <= i < steps.len() ==> is_registry_step(states[i], states[i + 1], #[trigger] steps[i])
}

/// How many of the first `n` steps were emissions of an event.
pub open spec fn emissions_of(
    steps: Seq<Option<(Event, Option<KeyView>)>>,
    n: int,
    event: Event,
) -> nat
    decreases n,
{
    if n <= 0 {
        0
    } else {
        emissions_of(steps, n - 1, event) + match steps[n - 1] {
            Some((e, _)) if e == event => 1nat,
            _ => 0nat,
        }
    }
}

proof fn lemma_emission_is_numbered(
    before: Registry,
    after: Registry,
    event: Event,
    key: Option<KeyView>,
)
    requires
        before.slots@.len() == 26,
        before.is_numbered(),
        before.order < u64::MAX,
        is_emitted(before, after, event, key),
    ensures
        after.is_numbered(),
        after.slots@.len() == 26,
        after.order == before.order + 1,
        after.slot(event).next_seq == before.slot(event).next_seq + 1,
        forall|other: Event|
            other != event ==> #[trigger] after.slot(other) == before.slot(other),
{
    let at = index_of(event);
    assert(0 <= at < 26);
    let slot = before.slot(event);
    let now = after.slot(event);
    assert(is_slot_numbered(before.slots@[at], before.order));
    let old_records = slot.records@;
    let records = now.records@;
    let record = records.last();
    assert(record.seq == slot.next_seq && record.order == before.order);
    let shift: int = if old_records.len() >= RETAINED_PER_EVENT {
        1
    } else {
        0
    };
    assert(records.len() == old_records.len() + 1 - shift);
    assert forall|k: int| 0 <= k < records.len() implies records[k] == if k < records.len() - 1 {
        #[trigger] old_records[k + shift]
    } else {
        record
    } by {}
    let n = records.len() as int;
    assert forall|k: int| 0 <= k < n implies (#[trigger] records[k]).seq == now.next_seq - n + k
        && records[k].order < after.order by {
        if k < n - 1 {
            assert(records[k] == old_records[k + shift]);
        }
    }
    assert forall|j: int, k: int| 0 <= j < k < n implies (#[trigger] records[j]).order < (
    #[trigger] records[k]).order by {
        assert(records[j] == old_records[j + shift]);
        if k < n - 1 {
            assert(records[k] == old_records[k + shift]);
        }
    }
    assert(is_slot_numbered(now, after.order));
    assert forall|i: int| 0 <= i < 26 implies is_slot_numbered(
        #[trigger] after.slots@[i],
        after.order,
    ) by {
        if i != at {
            assert(after.slots@[i] == before.slots@[i]);
            assert(is_slot_numbered(before.slots@[i], before.order));
        }
    }
    assert forall|other: Event| other != event implies #[trigger] after.slot(other) == before.slot(
        other,
    ) by {
        if index_of(other) == at {
            lemma_index(other, event);
        }
    }
}

/// What is retained of an event are its newest emissions since everything was
/// forgotten, in the order in which they came, as far as there is room: so many
/// as were emitted, numbered without a gap, the last one by their number less
/// one. `states` are those of a registry that went through `steps`.
pub proof fn the_newest_emissions_are_retained(
    states: Seq<Registry>,
    steps: Seq<Option<(Event, Option<KeyView>)>>,
    n: int,
    event: Event,
)
    requires
        is_history(states, steps),
        0 <= n <= steps.len(),
        states[0].order + steps.len() <= u64::MAX,
    ensures
        states[n].is_numbered(),
        states[n].slot(event).next_seq == emissions_of(steps, n, event),
        states[n].slots@.len() == 26,
        states[n].order <= states[0].order + n,
    decreases n,
{
    if n > 0 {
        the_newest_emissions_are_retained(states, steps, n - 1, event);
        let before = states[n - 1];
        let after = states[n];
        assert(is_registry_step(before, after, steps[n - 1]));
        match steps[n - 1] {
            Some((e, key)) => {
                lemma_emission_is_numbered(before, after, e, key);
                if e != event {
                    assert(after.slot(event) == before.slot(event));
                }
            },
            None => {
                assert forall|i: int| 0 <= i < 26 implies is_slot_numbered(
                    #[trigger] after.slots@[i],
                    after.order,
                ) by {
                    assert(is_slot_numbered(before.slots@[i], before.order));
                }
                assert(0 <= index_of(event) < 26);
                assert(after.slots@[index_of(event)].next_seq
                    == before.slots@[index_of(event)].next_seq);
            },
        }
    } else {
        assert(0 <= index_of(event) < 26);
        assert(is_fresh(states[0].slots@[index_of(event)]));
    }
}

/// A keyed wait loses nothing that is retained: it finds a matching emission
/// whether or not anything was armed before.
pub proof fn keyed_emissions_are_found(
    before: Registry,
    emitted: Registry,
    event: Event,
    key: KeyView,
    emitted_key: Option<KeyView>,
)
    requires
        before.wf(),
        is_emitted(before, emitted, event, emitted_key),
        matches_key(Some(key), emitted_key),
    ensures
        exists|i: int|
            is_first_match(
                emitted.slot(event).records@,
                cursor_of(emitted.slot(event), true),
                Some(key),
                i,
            ),
{
    let records = emitted.slot(event).records@;
    let cursor = cursor_of(emitted.slot(event), true);
    assert(satisfies(records[records.len() - 1], cursor, Some(key)));
    lemma_first_match(records, cursor, Some(key), records.len() - 1);
}

proof fn lemma_first_match(
    records: Seq<EventRecord>,
    cursor: u64,
    key: Option<KeyView>,
    at: int,
)
    requires
        0 <= at < records.len(),
        satisfies(records[at], cursor, key),
    ensures
        exists|i: int| is_first_match(records, cursor, key, i),
    decreases at,
{
    if exists|j: int| 0 <= j < at && satisfies(#[trigger] records[j], cursor, key) {
        let j = choose|j: int| 0 <= j < at && satisfies(#[trigger] records[j], cursor, key);
        lemma_first_match(records, cursor, key, j);
    } else {
        assert(is_first_match(records, cursor, key, at));
    }
}

} // verus!
