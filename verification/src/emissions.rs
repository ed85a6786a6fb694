//! What holds of emissions, of the latches that pause them, and of injected faults.
use crate::operation::CleanupStage;
use crate::test_support;
use crate::test_support::{
    all_events, arm_keyed, arm_matches_pending, count, emit_keyed, emit_keyed_always,
    inject_cleanup_fault, inject_commit_fault, now_ms, pause_step,
    reset_registry, retained_records, set_clock_ms, take_cleanup_fault, take_commit_fault,
    wait_cursor, wait_keyed, Barrier, CleanupFault, CommitFault, Event, EventKey, EventRecord,
    PauseStep, Registry, WaitStep,
};
use crate::text;
use vstd::prelude::*;

verus! {

/// Two keys are of the same operation and incarnation.
pub open spec fn same_operation(a: EventKey, b: EventKey) -> bool {
    a.operation_id == b.operation_id && a.generation == b.generation
}

/// An emission is recorded exactly where the instrumentation is on: behind all earlier
/// ones of its event, under the next numbers and with its key. At most 4096 are kept,
/// and what is known of the other events stays.
pub proof fn emissions_are_recorded(
    registry: &mut Registry,
    event: Event,
    key: Option<EventKey>,
    paused: bool,
    other: Event,
)
    requires
        old(registry).wf(),
        call_ensures(emit_keyed, (registry, event, key), paused),
        other != event,
    ensures
        !old(registry).enabled ==> *final(registry) == *old(registry) && !paused,
        old(registry).enabled ==> {
            let before = old(registry).slot(event);
            let after = final(registry).slot(event);
            let record = after.records@.last();
            &&& record.seq == before.next_seq
            &&& record.event == event
            &&& record.order == old(registry).order
            &&& (record.key is Some <==> key is Some)
            &&& key is Some ==> same_operation(record.key->0, key->0)
            &&& before.records@.len() < 4096 ==> after.records@ == before.records@.push(record)
            &&& before.records@.len() == 4096 ==> after.records@ == before.records@.skip(1).push(
                record,
            ) && (before.dropped < u64::MAX ==> after.dropped == before.dropped + 1)
            &&& before.next_seq < u64::MAX ==> after.next_seq == before.next_seq + 1
            &&& old(registry).order < u64::MAX ==> final(registry).order == old(registry).order + 1
            &&& after.armed == before.armed
        },
        final(registry).slot(other) == old(registry).slot(other),
{
    if old(registry).enabled {
        let before = old(registry).slot(event);
        let record = final(registry).slot(event).records@.last();
        assert(record@ == (
            before.next_seq,
            event,
            test_support::key_view(key),
            old(registry).order,
        ));
        assert(record@.2 == test_support::key_view(record.key));
        if before.records@.len() == 4096 {
            assert(before.records@.push(record).skip(1) =~= before.records@.skip(1).push(record));
        }
        assert(test_support::index_of(other) != test_support::index_of(event));
    }
}

/// An emitter is paused exactly where a latch is armed for its event that the emission
/// does not come before, and the latch asks for no key or for that of the emission.
pub proof fn latches_pause_what_they_ask_for(
    registry: &mut Registry,
    event: Event,
    key: Option<EventKey>,
    paused: bool,
)
    requires
        old(registry).wf(),
        call_ensures(emit_keyed_always, (registry, event, key), paused),
    ensures
        paused <==> (old(registry).slot(event).armed matches Some(latch) && old(registry).slot(
            event,
        ).next_seq >= latch.cursor && (latch.key is None || key is Some && same_operation(
            latch.key->0,
            key->0,
        ))),
{
}

/// A latch that is armed is not released, asks for its key, takes the next emission and
/// holds an emitter for ten seconds at most. Nothing that was recorded is lost.
pub proof fn armed_latches_take_the_next_emission(
    registry: &mut Registry,
    event: Event,
    key: Option<EventKey>,
    now: u64,
    r: Barrier,
)
    requires
        old(registry).wf(),
        call_ensures(arm_keyed, (registry, event, key, now), r),
    ensures
        r.event == event,
        !r.acknowledged,
        final(registry).slot(event).armed matches Some(latch) && {
            &&& !latch.released
            &&& latch.cursor == old(registry).slot(event).next_seq
            &&& (latch.key is Some <==> key is Some)
            &&& key is Some ==> same_operation(latch.key->0, key->0)
            &&& latch.deadline == if now + 10_000 > u64::MAX {
                u64::MAX as int
            } else {
                now + 10_000
            }
        },
        final(registry).slot(event).records == old(registry).slot(event).records,
        final(registry).slot(event).next_seq == old(registry).slot(event).next_seq,
{
    assert(final(registry).slot(event).armed is Some);
    let latch = final(registry).slot(event).armed->0;
    assert(test_support::key_view(latch.key) == test_support::key_view(key));
}

/// A paused emitter goes on exactly where its latch is released or gone, or its time is
/// over; then the latch is open for all. Else it waits for the rest of its time.
pub proof fn paused_emitters_go_on(
    registry: &mut Registry,
    event: Event,
    deadline: u64,
    now: u64,
    r: PauseStep,
)
    requires
        old(registry).wf(),
        call_ensures(pause_step, (registry, event, deadline, now), r),
    ensures
        ({
            let armed = old(registry).slot(event).armed;
            let free = armed is None || armed->0.released;
            &&& r is Resume <==> free || now >= deadline
            &&& r matches PauseStep::Wait(left) ==> now + left == deadline
            &&& free || now < deadline ==> *final(registry) == *old(registry)
            &&& !free && now >= deadline ==> (final(registry).slot(event).armed matches Some(latch)
                && latch.released)
        }),
{
}

/// A release opens the latch of its event and of no other, and loses nothing.
pub proof fn releases_open_their_latch(
    barrier: &mut Barrier,
    registry: &mut Registry,
    noted: (),
    other: Event,
)
    requires
        old(registry).wf(),
        call_ensures(Barrier::release, (barrier, registry), noted),
        other != old(barrier).event,
    ensures
        final(barrier).acknowledged,
        final(barrier).event == old(barrier).event,
        ({
            let before = old(registry).slot(old(barrier).event);
            let after = final(registry).slot(old(barrier).event);
            &&& after.records == before.records
            &&& (after.armed is Some <==> before.armed is Some)
            &&& after.armed is Some ==> after.armed->0.released && after.armed->0.key
                == before.armed->0.key && after.armed->0.cursor == before.armed->0.cursor
        }),
        final(registry).slot(other) == old(registry).slot(other),
{
    assert(test_support::index_of(other) != test_support::index_of(old(barrier).event));
}

/// A latch counts as released exactly where it is, or there is none; a wait for it ends
/// then, or once the test has released it itself, and else with its time.
pub proof fn released_latches_are_told(
    barrier: &Barrier,
    registry: &Registry,
    released: bool,
    elapsed_ms: u64,
    limit_ms: u64,
    r: Result<Option<u64>, String>,
)
    requires
        registry.wf(),
        call_ensures(Barrier::is_released, (barrier, registry), released),
        call_ensures(Barrier::wait, (barrier, registry, elapsed_ms, limit_ms), r),
    ensures
        released <==> registry.slot(barrier.event).armed is None || registry.slot(
            barrier.event,
        ).armed->0.released,
        r matches Ok(None) <==> released || barrier.acknowledged,
        r matches Ok(Some(left)) ==> elapsed_ms + left == limit_ms && left > 0,
        r is Err <==> !released && !barrier.acknowledged && elapsed_ms >= limit_ms,
{
}

/// A record is one that a wait asks for.
pub open spec fn is_wanted(record: EventRecord, cursor: u64, key: Option<&EventKey>) -> bool {
    record.seq >= cursor && (key is None || record.key is Some && same_operation(
        *key->0,
        record.key->0,
    ))
}

/// A wait finds the first emission that it asks for, among those retained; while there
/// is none it goes on for the rest of its time, and then it ends.
pub proof fn waits_find_the_first_emission(
    registry: &Registry,
    event: Event,
    key: Option<&EventKey>,
    cursor: u64,
    elapsed_ms: u64,
    limit_ms: u64,
    r: WaitStep,
)
    requires
        registry.wf(),
        call_ensures(wait_keyed, (registry, event, key, cursor, elapsed_ms, limit_ms), r),
    ensures
        ({
            let records = registry.slot(event).records@;
            &&& r matches WaitStep::Found(found) ==> exists|i: int|
                0 <= i < records.len() && is_wanted(#[trigger] records[i], cursor, key) && found.seq
                    == records[i].seq && found.order == records[i].order && found.event == event
                    && forall|j: int|
                    0 <= j < i ==> !is_wanted(#[trigger] records[j], cursor, key)
            &&& !(r is Found) ==> forall|j: int|
                0 <= j < records.len() ==> !is_wanted(#[trigger] records[j], cursor, key)
            &&& r matches WaitStep::Wait(left) ==> elapsed_ms + left == limit_ms && left > 0
            &&& r is TimedOut ==> elapsed_ms >= limit_ms
        }),
{
    let records = registry.slot(event).records@;
    let asked = test_support::key_ref_view(key);
    assert forall|j: int| 0 <= j < records.len() implies is_wanted(
        #[trigger] records[j],
        cursor,
        key,
    ) == test_support::satisfies(records[j], cursor, asked) by {}
    match r {
        WaitStep::Found(found) => {
            let i = choose|i: int| #[trigger]
                test_support::is_first_match(records, cursor, asked, i) && found@ == records[i]@;
            assert(test_support::satisfies(records[i], cursor, asked));
            assert(is_wanted(records[i], cursor, key));
            assert(found.seq == found@.0 && found.order == found@.3);
            assert forall|j: int| 0 <= j < i implies !is_wanted(
                #[trigger] records[j],
                cursor,
                key,
            ) by {
                assert(!test_support::satisfies(records[j], cursor, asked));
            }
        },
        _ => {
            assert forall|j: int| 0 <= j < records.len() implies !is_wanted(
                #[trigger] records[j],
                cursor,
                key,
            ) by {
                assert(!test_support::satisfies(records[j], cursor, asked));
            }
        },
    }
}

/// A wait with a key looks at everything retained, one without at what comes behind the
/// latch, or behind now where there is none.
pub proof fn waits_start_at_the_latch(
    registry: &Registry,
    event: Event,
    keyed: bool,
    r: u64,
    key: Option<&EventKey>,
    pending: bool,
)
    requires
        registry.wf(),
        call_ensures(wait_cursor, (registry, event, keyed), r),
        call_ensures(arm_matches_pending, (registry, event, key), pending),
    ensures
        keyed ==> r == 0,
        !keyed && registry.slot(event).armed is Some ==> r == registry.slot(event).armed->0.cursor,
        !keyed && registry.slot(event).armed is None ==> r == registry.slot(event).next_seq,
        pending <==> (registry.slot(event).armed matches Some(latch) && (latch.key is None
            || key is Some && same_operation(latch.key->0, *key->0))),
{
}

/// The records that are given out are those that are retained, the oldest first.
pub proof fn retained_emissions_are_given_out(
    registry: &Registry,
    event: Event,
    n: usize,
    r: Vec<EventRecord>,
    k: int,
)
    requires
        registry.wf(),
        call_ensures(count, (registry, event), n),
        call_ensures(retained_records, (registry, event), r),
    ensures
        n == registry.slot(event).records@.len(),
        r@.len() == n,
        0 <= k < n ==> r@[k].seq == registry.slot(event).records@[k].seq && r@[k].order
            == registry.slot(event).records@[k].order && r@[k].event == event,
{
    let shown = test_support::record_views(r@);
    let kept = test_support::record_views(registry.slot(event).records@);
    assert(shown.len() == r@.len());
    assert(kept.len() == registry.slot(event).records@.len());
    if 0 <= k < n {
        assert(shown[k] == r@[k]@);
        assert(kept[k] == registry.slot(event).records@[k]@);
        assert(r@[k]@.0 == registry.slot(event).records@[k]@.0);
        assert(r@[k]@.3 == registry.slot(event).records@[k]@.3);
    }
}

/// A fault that is injected into a cleanup is taken once, by a cleanup of its stage,
/// and those of other stages stay.
pub proof fn cleanup_faults_are_taken_once(
    registry: &mut Registry,
    stage: CleanupStage,
    r: Option<CleanupFault>,
    other: CleanupFault,
)
    requires
        old(registry).wf(),
        call_ensures(take_cleanup_fault, (registry, stage), r),
    ensures
        r is Some <==> exists|i: int|
            0 <= i < old(registry).faults@.len() && (#[trigger] old(registry).faults@[i]).stage
                == stage,
        r matches Some(fault) ==> fault.stage == stage && old(registry).faults@.contains(fault),
        other.stage != stage ==> (final(registry).faults@.contains(other) <==> old(
            registry,
        ).faults@.contains(other)),
        other.stage == stage ==> !final(registry).faults@.contains(other),
{
    lemma_others(old(registry).faults@, stage, other);
}

proof fn lemma_others(faults: Seq<CleanupFault>, stage: CleanupStage, other: CleanupFault)
    ensures
        test_support::other_faults(faults, stage).contains(other) <==> faults.contains(other)
            && other.stage != stage,
    decreases faults.len(),
{
    let left = test_support::other_faults(faults, stage);
    if faults.len() > 0 {
        let init = faults.drop_last();
        lemma_others(init, stage, other);
        let before = test_support::other_faults(init, stage);
        if faults.contains(other) && other.stage != stage {
            let k = choose|k: int| 0 <= k < faults.len() && faults[k] == other;
            if k < init.len() {
                assert(init[k] == other);
                assert(before.contains(other));
                let j = choose|j: int| 0 <= j < before.len() && before[j] == other;
                assert(left[j] == other);
            } else {
                assert(left[left.len() - 1] == other);
            }
        }
        if left.contains(other) {
            let k = choose|k: int| 0 <= k < left.len() && left[k] == other;
            if k < before.len() {
                assert(before[k] == other);
                assert(before.contains(other));
                let j = choose|j: int| 0 <= j < init.len() && init[j] == other;
                assert(faults[j] == other);
            } else {
                assert(faults[faults.len() - 1] == other);
            }
        }
    }
}

/// A fault that is injected into the cleanups of a stage is there, with its detail, in
/// place of any other of that stage.
pub proof fn cleanup_faults_replace_each_other(
    registry: &mut Registry,
    stage: CleanupStage,
    detail: &str,
    noted: (),
    i: int,
)
    requires
        old(registry).wf(),
        call_ensures(inject_cleanup_fault, (registry, stage, detail), noted),
    ensures
        final(registry).faults@.len() > 0,
        final(registry).faults@.last().stage == stage,
        final(registry).faults@.last().detail@ == detail@,
        0 <= i < final(registry).faults@.len() - 1 ==> final(registry).faults@[i].stage != stage
            && old(registry).faults@.contains(final(registry).faults@[i]),
{
    let now = final(registry).faults@;
    if 0 <= i < now.len() - 1 {
        let kept = now.drop_last();
        assert(kept[i] == now[i]);
        assert(kept.contains(now[i]));
        lemma_others(old(registry).faults@, stage, now[i]);
    }
}

/// A fault for the next commit is injected and taken only where the instrumentation is
/// on, and it is taken once. A time is injected likewise.
pub proof fn commit_faults_are_taken_once(
    into: &mut Registry,
    fault: CommitFault,
    noted: (),
    from: &mut Registry,
    r: Option<CommitFault>,
    registry: &Registry,
    real_ms: u64,
    now: u64,
    clock: &mut Registry,
    value: u64,
    set: (),
)
    requires
        call_ensures(inject_commit_fault, (into, fault), noted),
        call_ensures(take_commit_fault, (from,), r),
        call_ensures(now_ms, (registry, real_ms), now),
        call_ensures(set_clock_ms, (clock, value), set),
    ensures
        old(into).enabled ==> final(into).commit_fault == Some(fault),
        !old(into).enabled ==> *final(into) == *old(into),
        old(from).enabled ==> r == old(from).commit_fault && final(from).commit_fault is None,
        !old(from).enabled ==> r is None && *final(from) == *old(from),
        now == if registry.enabled && registry.clock_ms > 0 {
            registry.clock_ms
        } else {
            real_ms
        },
        final(clock).clock_ms == value,
        final(clock).slots == old(clock).slots,
{
}

/// A reset forgets every record, latch and fault, and keeps the instrumentation on or
/// off as it was.
pub proof fn resets_forget_everything(registry: &mut Registry, noted: (), event: Event)
    requires
        call_ensures(reset_registry, (registry,), noted),
    ensures
        final(registry).slot(event).records@.len() == 0,
        final(registry).slot(event).armed is None,
        final(registry).slot(event).next_seq == 0,
        final(registry).slot(event).dropped == 0,
        final(registry).faults@.len() == 0,
        final(registry).commit_fault is None,
        final(registry).clock_ms == 0,
        final(registry).enabled == old(registry).enabled,
{
    assert(test_support::is_fresh(final(registry).slots@[test_support::index_of(event)]));
}

/// Every event is among all events, once.
pub proof fn every_event_is_listed_once(r: Vec<Event>, event: Event)
    requires
        call_ensures(all_events, (), r),
    ensures
        r@.contains(event),
        forall|i: int, j: int|
            0 <= i < j < r@.len() ==> #[trigger] r@[i] != #[trigger] r@[j],
{
    let at = test_support::index_of(event);
    assert(test_support::index_of(r@[at]) == at);
    assert(r@[at] == event);
    assert forall|i: int, j: int| 0 <= i < j < r@.len() implies #[trigger] r@[i]
        != #[trigger] r@[j] by {
        assert(test_support::index_of(r@[i]) == i);
        assert(test_support::index_of(r@[j]) == j);
    }
}

/// A wait that was in vain says what it waited for and for how long, and what is known
/// of the event. Times are told in seconds where there is a whole one, else in
/// milliseconds.
pub proof fn vain_waits_are_reported(
    registry: &Registry,
    event: Event,
    key: Option<&EventKey>,
    cursor: u64,
    elapsed_ms: u64,
    limit_ms: u64,
    m: String,
)
    requires
        registry.wf(),
        call_ensures(
            wait_keyed,
            (registry, event, key, cursor, elapsed_ms, limit_ms),
            WaitStep::TimedOut(m),
        ),
        key is None,
    ensures
        ({
            let slot = registry.slot(event);
            let armed = if slot.armed is Some {
                "true"@
            } else {
                "false"@
            };
            let span = if limit_ms == 0 {
                "0ns"@
            } else if limit_ms < 1000 {
                text::decimal(limit_ms as nat) + "ms"@
            } else if limit_ms % 1000 == 0 {
                text::decimal((limit_ms / 1000) as nat) + "s"@
            } else {
                test_support::shown_span(limit_ms)
            };
            m@ == "event "@ + test_support::name_of(event) + " (key "@ + "None"@
                + ") not observed before "@ + span + "; retained="@ + text::decimal(
                slot.records@.len(),
            ) + ", dropped="@ + text::decimal(slot.dropped as nat) + ", armed="@ + armed
        }),
        limit_ms > 1000 && limit_ms % 1000 > 0 && limit_ms % 100 == 0 ==> test_support::shown_span(
            limit_ms,
        ) == text::decimal((limit_ms / 1000) as nat) + "."@ + text::decimal(
            (limit_ms % 1000 / 100) as nat,
        ) + "s"@,
{
    let tenths = (limit_ms % 1000 / 100) as nat;
    if limit_ms > 1000 && limit_ms % 1000 > 0 && limit_ms % 100 == 0 {
        assert((limit_ms % 1000) % 100 == 0);
        assert(text::decimal(tenths) =~= seq![text::digit(tenths)]);
    }
}

/// Every event goes by its own name.
pub proof fn events_go_by_their_names(event: Event)
    ensures
        event is BeginCompletion ==> test_support::name_of(event) == "BeginCompletion"@,
        event is Prepare ==> test_support::name_of(event) == "Prepare"@,
        event is StepProgress ==> test_support::name_of(event) == "StepProgress"@,
        event is BusyRetry ==> test_support::name_of(event) == "BusyRetry"@,
        event is CommitEntry ==> test_support::name_of(event) == "CommitEntry"@,
        event is CommitReturn ==> test_support::name_of(event) == "CommitReturn"@,
        event is RollbackCompletion ==> test_support::name_of(event) == "RollbackCompletion"@,
        event is RequestHandover ==> test_support::name_of(event) == "RequestHandover"@,
        event is AdmissionEnqueue ==> test_support::name_of(event) == "AdmissionEnqueue"@,
        event is AdmissionDequeue ==> test_support::name_of(event) == "AdmissionDequeue"@,
        event is ClosureEntry ==> test_support::name_of(event) == "ClosureEntry"@,
        event is PostWorkerPrePublication ==> test_support::name_of(event) == "PostWorkerPrePublication"@,
        event is ControlEntry ==> test_support::name_of(event) == "ControlEntry"@,
        event is ControlReturn ==> test_support::name_of(event) == "ControlReturn"@,
        event is ShutdownRequested ==> test_support::name_of(event) == "ShutdownRequested"@,
        event is ShutdownCleanup ==> test_support::name_of(event) == "ShutdownCleanup"@,
        event is ShutdownClosed ==> test_support::name_of(event) == "ShutdownClosed"@,
        event is SchemaVersionRead ==> test_support::name_of(event) == "SchemaVersionRead"@,
        event is CreationDescriptorCaptured ==> test_support::name_of(event) == "CreationDescriptorCaptured"@,
        event is CreationPreOpenCheckpoint ==> test_support::name_of(event) == "CreationPreOpenCheckpoint"@,
        event is CreationPostOpenCheckpoint ==> test_support::name_of(event) == "CreationPostOpenCheckpoint"@,
        event is CreationPostInitCheckpoint ==> test_support::name_of(event) == "CreationPostInitCheckpoint"@,
        event is HarnessCommand ==> test_support::name_of(event) == "HarnessCommand"@,
        event is GuardInstalled ==> test_support::name_of(event) == "GuardInstalled"@,
        event is FirstSqliteOperation ==> test_support::name_of(event) == "FirstSqliteOperation"@,
        event is GuardCleared ==> test_support::name_of(event) == "GuardCleared"@,
{
}

} // verus!
