//! Which operations may start, and when a shutdown is complete.
use vstd::prelude::*;

verus! {

#[derive(Clone, Copy, Debug, PartialEq, Eq, Structural)]
pub enum AdmissionState {
    Running,
    ShuttingDown,
    ShutdownComplete,
}

#[derive(Clone, Copy, Debug, PartialEq, Eq, Structural)]
pub enum ReservationKind {
    Ordinary,
    TransientMerge,
}

/// The right of one operation to run.
#[derive(Clone, Copy, Debug, PartialEq, Eq, Structural)]
pub struct Reservation {
    pub id: u64,
    pub kind: ReservationKind,
    /// The operation was asked to stop.
    pub cancelled: bool,
}

/// The operations that run, and whether more may start.
#[derive(Debug)]
pub struct AdmissionRegistry {
    pub state: AdmissionState,
    pub next_id: u64,
    pub active: Vec<Reservation>,
}

/// The reservations but those with this number.
pub open spec fn without(active: Seq<Reservation>, id: u64) -> Seq<Reservation>
    decreases active.len(),
{
    if active.len() == 0 {
        active
    } else if active.last().id == id {
        without(active.drop_last(), id)
    } else {
        without(active.drop_last(), id).push(active.last())
    }
}

/// The reservations, all asked to stop.
pub open spec fn all_cancelled(active: Seq<Reservation>) -> Seq<Reservation> {
    active.map_values(|r: Reservation| (Reservation { id: r.id, kind: r.kind, cancelled: true }))
}

impl Default for AdmissionRegistry {
    fn default() -> (r: Self)
        ensures
            r.state is Running,
            r.next_id == 1,
            r.active@.len() == 0,
            r.wf(),
    {
        AdmissionRegistry { state: AdmissionState::Running, next_id: 1, active: Vec::new() }
    }
}

impl AdmissionRegistry {
    /// A completed shutdown left no operation behind.
    pub open spec fn wf(self) -> bool {
        self.state is ShutdownComplete ==> self.active@.len() == 0
    }

    /// Admits an operation while the server runs.
    pub fn reserve(&mut self, kind: ReservationKind) -> (r: Result<Reservation, ()>)
        requires
            old(self).wf(),
        ensures
            final(self).wf(),
            final(self).state == old(self).state,
            match r {
                Ok(reservation) => {
                    &&& old(self).state is Running
                    &&& reservation == (Reservation { id: old(self).next_id, kind, cancelled: false })
                    &&& final(self).active@ == old(self).active@.push(reservation)
                    &&& final(self).next_id == if old(self).next_id < u64::MAX {
                        old(self).next_id + 1
                    } else {
                        u64::MAX as int
                    }
                },
                Err(()) => !(old(self).state is Running) && *final(self) == *old(self),
            },
    {
        if self.state != AdmissionState::Running {
            return Err(());
        }
        let reservation = Reservation { id: self.next_id, kind, cancelled: false };
        self.next_id = self.next_id.saturating_add(1);
        self.active.push(reservation);
        Ok(reservation)
    }

    /// Takes back a reservation. The last one to go completes a shutdown.
    pub fn finish(&mut self, id: u64)
        requires
            old(self).wf(),
        ensures
            final(self).wf(),
            final(self).active@ == without(old(self).active@, id),
            final(self).next_id == old(self).next_id,
            final(self).state == if old(self).state is ShuttingDown && without(
                old(self).active@,
                id,
            ).len() == 0 {
                AdmissionState::ShutdownComplete
            } else {
                old(self).state
            },
    {
        let mut kept: Vec<Reservation> = Vec::new();
        let mut i: usize = 0;
        assert(without(self.active@.take(0), id) =~= Seq::<Reservation>::empty());
        while i < self.active.len()
            invariant
                i <= self.active@.len(),
                *self == *old(self),
                kept@ == without(self.active@.take(i as int), id),
            decreases self.active.len() - i,
        {
            assert(self.active@.take(i + 1).drop_last() =~= self.active@.take(i as int));
            let entry = self.active[i];
            if entry.id != id {
                kept.push(entry);
            }
            i += 1;
        }
        assert(self.active@.take(self.active@.len() as int) =~= self.active@);
        proof {
            lemma_without_len(self.active@, id);
        }
        let drained = kept.len() == 0;
        self.active = kept;
        if self.state == AdmissionState::ShuttingDown && drained {
            self.state = AdmissionState::ShutdownComplete;
        }
    }

    /// Stops admission, asks every running operation to stop, and lists them.
    pub fn begin_shutdown(&mut self) -> (r: Vec<Reservation>)
        requires
            old(self).wf(),
        ensures
            final(self).wf(),
            final(self).active@ == all_cancelled(old(self).active@),
            r@ == final(self).active@,
            final(self).next_id == old(self).next_id,
            final(self).state == if old(self).state is Running {
                AdmissionState::ShuttingDown
            } else {
                old(self).state
            },
    {
        let mut stopped: Vec<Reservation> = Vec::new();
        let mut listed: Vec<Reservation> = Vec::new();
        let mut i: usize = 0;
        while i < self.active.len()
            invariant
                i <= self.active@.len(),
                *self == *old(self),
                stopped@ == all_cancelled(self.active@.take(i as int)),
                listed@ == stopped@,
            decreases self.active.len() - i,
        {
            let entry = self.active[i];
            let ended = Reservation { id: entry.id, kind: entry.kind, cancelled: true };
            stopped.push(ended);
            listed.push(ended);
            i += 1;
            assert(stopped@ =~= all_cancelled(self.active@.take(i as int)));
        }
        assert(self.active@.take(self.active@.len() as int) =~= self.active@);
        self.active = stopped;
        if self.state == AdmissionState::Running {
            self.state = AdmissionState::ShuttingDown;
        }
        listed
    }

    /// Completes a shutdown once nothing runs.
    pub fn complete_shutdown(&mut self)
        requires
            old(self).wf(),
        ensures
            final(self).wf(),
            final(self).active@ == old(self).active@,
            final(self).next_id == old(self).next_id,
            final(self).state == if old(self).active@.len() == 0 {
                AdmissionState::ShutdownComplete
            } else {
                old(self).state
            },
    {
        if self.active.len() == 0 {
            self.state = AdmissionState::ShutdownComplete;
        }
    }

    pub fn state(&self) -> (r: AdmissionState)
        ensures
            r == self.state,
    {
        self.state
    }

    pub fn active_len(&self) -> (r: usize)
        ensures
            r == self.active@.len(),
    {
        self.active.len()
    }
}

proof fn lemma_without_len(active: Seq<Reservation>, id: u64)
    ensures
        without(active, id).len() <= active.len(),
    decreases active.len(),
{
    if active.len() > 0 {
        lemma_without_len(active.drop_last(), id);
    }
}

/// The registry after the operations with these numbers finished, one after the
/// other.
pub open spec fn after_finishing(active: Seq<Reservation>, ids: Seq<u64>) -> Seq<Reservation>
    decreases ids.len(),
{
    if ids.len() == 0 {
        active
    } else {
        without(after_finishing(active, ids.drop_last()), ids.last())
    }
}

proof fn lemma_without_subset(active: Seq<Reservation>, id: u64)
    ensures
        forall|k: int|
            0 <= k < without(active, id).len() ==> active.contains(
                #[trigger] without(active, id)[k],
            ) && without(active, id)[k].id != id,
    decreases active.len(),
{
    if active.len() > 0 {
        let init = active.drop_last();
        lemma_without_subset(init, id);
        let w = without(active, id);
        assert forall|k: int| 0 <= k < w.len() implies active.contains(#[trigger] w[k]) && w[k].id
            != id by {
            let wi = without(init, id);
            if k < wi.len() {
                assert(w[k] == wi[k]);
                let j = choose|j: int| 0 <= j < init.len() && init[j] == wi[k];
                assert(active[j] == wi[k]);
            } else {
                assert(active[active.len() - 1] == w[k]);
            }
        }
    }
}

proof fn lemma_after_finishing(active: Seq<Reservation>, ids: Seq<u64>)
    ensures
        forall|k: int|
            0 <= k < after_finishing(active, ids).len() ==> active.contains(
                #[trigger] after_finishing(active, ids)[k],
            ) && !ids.contains(after_finishing(active, ids)[k].id),
    decreases ids.len(),
{
    if ids.len() > 0 {
        let before = after_finishing(active, ids.drop_last());
        lemma_after_finishing(active, ids.drop_last());
        lemma_without_subset(before, ids.last());
        let now = after_finishing(active, ids);
        assert forall|k: int| 0 <= k < now.len() implies active.contains(#[trigger] now[k])
            && !ids.contains(now[k].id) by {
            assert(before.contains(now[k]));
            let j = choose|j: int| 0 <= j < before.len() && before[j] == now[k];
            assert(active.contains(before[j]));
            if ids.contains(now[k].id) {
                let m = choose|m: int| 0 <= m < ids.len() && ids[m] == now[k].id;
                if m < ids.len() - 1 {
                    assert(ids.drop_last()[m] == now[k].id);
                }
            }
        }
    }
}

/// A shutdown drains: once every operation that ran has finished, in whatever
/// order, nothing is left.
pub proof fn shutdown_drains(active: Seq<Reservation>, ids: Seq<u64>)
    requires
        forall|k: int| 0 <= k < active.len() ==> ids.contains((#[trigger] active[k]).id),
    ensures
        after_finishing(active, ids).len() == 0,
{
    lemma_after_finishing(active, ids);
    let left = after_finishing(active, ids);
    if left.len() > 0 {
        assert(active.contains(left[0]));
        let j = choose|j: int| 0 <= j < active.len() && active[j] == left[0];
        assert(ids.contains(active[j].id));
    }
}

/// Exactly the reservations with other numbers are left, each as often as before and
/// in the same order.
pub proof fn others_stay(a: Seq<Reservation>, b: Seq<Reservation>, one: Reservation, id: u64)
    ensures
        without(a + b, id) == without(a, id) + without(b, id),
        one.id == id ==> without(seq![one], id).len() == 0,
        one.id != id ==> without(seq![one], id) == seq![one],
    decreases b.len(),
{
    let single = seq![one];
    assert(single.drop_last() =~= Seq::<Reservation>::empty());
    reveal_with_fuel(without, 2);
    if one.id != id {
        assert(without(single, id) =~= single);
    }
    if b.len() == 0 {
        assert(a + b =~= a);
        assert(without(a, id) + without(b, id) =~= without(a, id));
    } else {
        others_stay(a, b.drop_last(), one, id);
        assert((a + b).drop_last() =~= a + b.drop_last());
        assert(without(a + b, id) =~= without(a, id) + without(b, id));
    }
}

/// An operation is let in exactly while the server runs. It gets the next number, is
/// listed behind all that run, and nobody has asked it to stop.
pub proof fn operations_start_while_running(
    registry: &mut AdmissionRegistry,
    kind: ReservationKind,
    r: Result<Reservation, ()>,
)
    requires
        old(registry).wf(),
        call_ensures(AdmissionRegistry::reserve, (registry, kind), r),
    ensures
        r is Ok <==> old(registry).state is Running,
        r matches Ok(reservation) ==> {
            &&& reservation.id == old(registry).next_id
            &&& reservation.kind == kind
            &&& !reservation.cancelled
            &&& final(registry).active@ == old(registry).active@.push(reservation)
            &&& old(registry).next_id < u64::MAX ==> final(registry).next_id > reservation.id
        },
        r is Err ==> *final(registry) == *old(registry),
        final(registry).state == old(registry).state,
{
}

/// An operation that ends is listed no longer, the others are. A shutdown is complete
/// with the last one, and only a shutdown is.
pub proof fn ended_operations_leave(registry: &mut AdmissionRegistry, id: u64, noted: ())
    requires
        old(registry).wf(),
        call_ensures(AdmissionRegistry::finish, (registry, id), noted),
    ensures
        forall|x: Reservation|
            #[trigger] final(registry).active@.contains(x) <==> old(registry).active@.contains(x)
                && x.id != id,
        final(registry).state is ShutdownComplete && !(old(registry).state is ShutdownComplete)
            <==> old(registry).state is ShuttingDown && final(registry).active@.len() == 0,
        old(registry).state is Running ==> final(registry).state is Running,
{
    let before = old(registry).active@;
    let after = final(registry).active@;
    lemma_without_subset(before, id);
    lemma_others_are_kept(before, id);
    assert forall|x: Reservation| #[trigger] after.contains(x) implies before.contains(x) && x.id
        != id by {
        let k = choose|k: int| 0 <= k < after.len() && after[k] == x;
        assert(without(before, id)[k] == x);
    }
}

proof fn lemma_others_are_kept(active: Seq<Reservation>, id: u64)
    ensures
        forall|x: Reservation|
            active.contains(x) && x.id != id ==> #[trigger] without(active, id).contains(x),
    decreases active.len(),
{
    if active.len() > 0 {
        let init = active.drop_last();
        lemma_others_are_kept(init, id);
        let w = without(active, id);
        assert forall|x: Reservation| active.contains(x) && x.id != id implies #[trigger] w.contains(
            x,
        ) by {
            let k = choose|k: int| 0 <= k < active.len() && active[k] == x;
            if k < init.len() {
                assert(init[k] == x);
                assert(init.contains(x));
                let wi = without(init, id);
                assert(wi.contains(x));
                let j = choose|j: int| 0 <= j < wi.len() && wi[j] == x;
                assert(w[j] == x);
            } else {
                assert(w[w.len() - 1] == x);
            }
        }
    }
}

/// A shutdown lets nothing in any more and asks every operation that runs to stop;
/// it lists each of them, in order, and ends none.
pub proof fn shutdowns_ask_everything_to_stop(
    registry: &mut AdmissionRegistry,
    r: Vec<Reservation>,
)
    requires
        old(registry).wf(),
        call_ensures(AdmissionRegistry::begin_shutdown, (registry,), r),
    ensures
        !(final(registry).state is Running),
        old(registry).state is Running ==> final(registry).state is ShuttingDown,
        r@.len() == old(registry).active@.len(),
        final(registry).active@ == r@,
        forall|i: int|
            0 <= i < r@.len() ==> (#[trigger] r@[i]).cancelled && r@[i].id == old(
                registry,
            ).active@[i].id && r@[i].kind == old(registry).active@[i].kind,
{
}

/// A shutdown completes exactly where nothing runs.
pub proof fn shutdowns_complete_once_idle(
    registry: &mut AdmissionRegistry,
    noted: (),
    asked: &AdmissionRegistry,
    state: AdmissionState,
    running: usize,
)
    requires
        old(registry).wf(),
        call_ensures(AdmissionRegistry::complete_shutdown, (registry,), noted),
        call_ensures(AdmissionRegistry::state, (asked,), state),
        call_ensures(AdmissionRegistry::active_len, (asked,), running),
    ensures
        old(registry).active@.len() == 0 ==> final(registry).state is ShutdownComplete,
        old(registry).active@.len() > 0 ==> final(registry).state == old(registry).state,
        final(registry).active@ == old(registry).active@,
        state == asked.state,
        running == asked.active@.len(),
{
}

} // verus!
