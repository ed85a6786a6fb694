//! Publication of what workers said.
use crate::handles::{Handle, HandleView};
use crate::schema::SchemaInfo;
use crate::server::error;
use crate::server::error::{classify_worker_error, CoreError};
use crate::server::registry;
use crate::server::registry::{lemma_place_range, lemma_update, lifecycle, probe_is_wanted, EntryView, HandleRegistry};
use crate::server::schema_text;
use crate::server::schema_text::schema_text;
use crate::worker::arms::CommitOutcome;
use crate::worker::error::WorkerError;
use vstd::prelude::*;
use vstd::utf8::*;

verus! {

impl HandleRegistry {
    /// What became of a handle that may be unknown.
    pub open spec fn is_settled(self, old: Self, id: Seq<char>, e: EntryView) -> bool {
        if old.has(id) {
            self.is_updated(old, id, e)
        } else {
            self.view() == old.view() && self.files == old.files
        }
    }

    fn restore_at(&mut self, id: &str) -> (r: bool)
        requires
            old(self).wf(),
        ensures
            final(self).wf(),
            r == old(self).has(id@),
            final(self).has(id@) == old(self).has(id@),
            final(self).place(id@) == old(self).place(id@),
            final(self).is_settled(*old(self), id@, registry::restored(old(self).at(id@))),
    {
        let ghost before = self.view();
        match self.find(id) {
            Some(i) => {
                let ghost e = registry::restored(before[i as int]);
                self.entries[i].restore();
                proof {
                    lemma_update(before, id@, e);
                }
                assert(self.view() =~= before.update(i as int, e));
                true
            },
            None => false,
        }
    }

    fn tombstone_at(&mut self, id: &str)
        requires
            old(self).wf(),
        ensures
            final(self).wf(),
            final(self).has(id@) == old(self).has(id@),
            final(self).place(id@) == old(self).place(id@),
            final(self).is_settled(*old(self), id@, registry::tombstoned(old(self).at(id@))),
    {
        let ghost before = self.view();
        if let Some(i) = self.find(id) {
            let ghost e = registry::tombstoned(before[i as int]);
            self.entries[i].tombstone();
            proof {
                lemma_update(before, id@, e);
            }
            assert(self.view() =~= before.update(i as int, e));
        }
    }

    fn change_at(&mut self, id: &str, version: i64)
        requires
            old(self).wf(),
        ensures
            final(self).wf(),
            final(self).has(id@) == old(self).has(id@),
            final(self).place(id@) == old(self).place(id@),
            final(self).is_settled(*old(self), id@, registry::changed(old(self).at(id@), version)),
    {
        let ghost before = self.view();
        if let Some(i) = self.find(id) {
            let ghost e = registry::changed(before[i as int], version);
            self.entries[i].change(version);
            proof {
                lemma_update(before, id@, e);
            }
            assert(self.view() =~= before.update(i as int, e));
        }
    }

    /// Publishes a rollback. A handle that idled away or was lost is noted as
    /// such.
    pub fn publish_rollback(&mut self, id: &str, outcome: Result<(), WorkerError>) -> (r: Result<
        Handle,
        CoreError,
    >)
        requires
            old(self).wf(),
        ensures
            final(self).wf(),
            match outcome {
                Ok(()) => {
                    &&& final(self).is_settled(
                        *old(self),
                        id@,
                        registry::restored(old(self).at(id@)),
                    )
                    &&& match r {
                        Ok(h) => old(self).has(id@) && h@ == registry::restored(
                            old(self).at(id@),
                        ).handle,
                        Err(e) => !old(self).has(id@) && e is UnknownHandle,
                    }
                },
                Err(failure) => if failure.says("handle invalidated"@) {
                    &&& r == Err::<Handle, CoreError>(CoreError::Worker(failure))
                    &&& final(self).is_removed(*old(self), id@)
                } else {
                    &&& r == Err::<Handle, CoreError>(error::classified(failure, true))
                    &&& final(self).is_settled(
                        *old(self),
                        id@,
                        if failure.says("TRANSACTION_EXPIRED"@) {
                            registry::tombstoned(old(self).at(id@))
                        } else {
                            old(self).at(id@)
                        },
                    )
                },
            },
    {
        let ghost before = self.view();
        proof {
            lemma_place_range(before, id@);
        }
        if let Err(failure) = outcome {
            if failure.mentions("TRANSACTION_EXPIRED") {
                self.tombstone_at(id);
            } else {
                assert(old(self).has(id@) ==> before.update(old(self).place(id@), old(self).at(id@))
                    =~= before);
            }
            if failure.mentions("handle invalidated") {
                let ghost noted = self.view();
                let _known = self.invalidate(id);
                assert(old(self).has(id@) ==> noted.remove(old(self).place(id@)) =~= before.remove(
                    old(self).place(id@),
                ));
                return Err(CoreError::Worker(failure));
            }
            return Err(classify_worker_error(failure, true));
        }
        if !self.restore_at(id) {
            return Err(CoreError::UnknownHandle);
        }
        match self.get(id) {
            Some(h) => Ok(h),
            None => Err(CoreError::UnknownHandle),
        }
    }

    /// Checks that a commit can be asked for.
    pub fn check_commit(&self, id: &str) -> (r: Result<(), CoreError>)
        ensures
            match r {
                Ok(()) => self.has(id@) && !self.at(id@).handle.expired,
                Err(e) => if self.has(id@) {
                    self.at(id@).handle.expired && e is TransactionExpired
                } else {
                    e is UnknownHandle
                },
            },
    {
        match self.find(id) {
            Some(i) => if self.entries[i].handle.expired {
                Err(CoreError::TransactionExpired)
            } else {
                Ok(())
            },
            None => Err(CoreError::UnknownHandle),
        }
    }

    /// Publishes a commit. A commit without an answer is reported as uncertain.
    pub fn publish_commit(&mut self, id: &str, outcome: Result<CommitOutcome, WorkerError>) -> (r:
        Result<Handle, CoreError>)
        requires
            old(self).wf(),
        ensures
            final(self).wf(),
            match outcome {
                Err(failure) => {
                    &&& *final(self) == *old(self)
                    &&& r == Err::<Handle, CoreError>(
                        CoreError::CommitLifecycle {
                            error: Box::new(failure),
                            commit_confirmed: false,
                            transaction_open: false,
                            transaction_continuable: false,
                            expired: false,
                            uncertain_or_invalidated: true,
                        },
                    )
                },
                Ok(o) => if o.uncertain_or_invalidated {
                    &&& final(self).is_removed(*old(self), id@)
                    &&& r matches Err(e) && exists|w: WorkerError|
                        registry::is_commit_error(o, "commit state uncertain"@, w) && e
                            == #[trigger] registry::lifecycle_error(o, w)
                } else {
                    &&& final(self).is_settled(
                        *old(self),
                        id@,
                        registry::after_commit(old(self).at(id@), o),
                    )
                    &&& if !o.commit_confirmed {
                        r matches Err(e) && if o.expired {
                            e is TransactionExpired
                        } else {
                            exists|w: WorkerError|
                                registry::is_commit_error(o, "commit was not confirmed"@, w) && e
                                    == #[trigger] registry::lifecycle_error(o, w)
                        }
                    } else {
                        match r {
                            Ok(h) => old(self).has(id@) && o.result is Ok && h@
                                == registry::committed(old(self).at(id@)).handle,
                            Err(e) => if old(self).has(id@) {
                                o.result matches Err(w) && e == registry::lifecycle_error(o, w)
                            } else {
                                e is UnknownHandle
                            },
                        }
                    }
                },
            },
    {
        let ghost before = self.view();
        proof {
            lemma_place_range(before, id@);
        }
        let o = match outcome {
            Ok(o) => o,
            Err(failure) => {
                return Err(
                    CoreError::CommitLifecycle {
                        error: Box::new(failure),
                        commit_confirmed: false,
                        transaction_open: false,
                        transaction_continuable: false,
                        expired: false,
                        uncertain_or_invalidated: true,
                    },
                );
            },
        };
        if o.uncertain_or_invalidated {
            let _known = self.invalidate(id);
            return Err(lifecycle(o, "commit state uncertain"));
        }
        if !o.commit_confirmed {
            if o.expired {
                self.tombstone_at(id);
                return Err(CoreError::TransactionExpired);
            }
            if !o.transaction_open {
                let _known = self.restore_at(id);
            } else {
                assert(old(self).has(id@) ==> before.update(old(self).place(id@), old(self).at(id@))
                    =~= before);
            }
            return Err(lifecycle(o, "commit was not confirmed"));
        }
        match self.find(id) {
            Some(i) => {
                let ghost e = registry::committed(before[i as int]);
                self.entries[i].commit();
                proof {
                    lemma_update(before, id@, e);
                }
                assert(self.view() =~= before.update(i as int, e));
                let h = self.entries[i].handle.copy();
                match &o.result {
                    Ok(_) => Ok(h),
                    Err(_) => Err(lifecycle(o, "commit was not confirmed")),
                }
            },
            None => Err(CoreError::UnknownHandle),
        }
    }

    /// Publishes an expiry that was asked for.
    pub fn publish_expiry(&mut self, id: &str, expired: bool)
        requires
            old(self).wf(),
        ensures
            final(self).wf(),
            final(self).is_settled(
                *old(self),
                id@,
                if expired {
                    registry::tombstoned(old(self).at(id@))
                } else {
                    old(self).at(id@)
                },
            ),
    {
        let ghost before = self.view();
        proof {
            lemma_place_range(before, id@);
        }
        if expired {
            self.tombstone_at(id);
        } else {
            assert(old(self).has(id@) ==> before.update(old(self).place(id@), old(self).at(id@))
                =~= before);
        }
    }

    /// Checks that statements can run on a handle. Returns the schema version
    /// that they have to find.
    pub fn check_query(&self, id: &str) -> (r: Result<i64, CoreError>)
        ensures
            match r {
                Ok(version) => {
                    &&& self.has(id@)
                    &&& self.at(id@).handle.schema_observed && !self.at(id@).handle.expired
                    &&& version == registry::expected_version(self.at(id@))
                },
                Err(e) => if !self.has(id@) {
                    e is UnknownHandle
                } else if !self.at(id@).handle.schema_observed {
                    e is SchemaRequired
                } else {
                    self.at(id@).handle.expired && e is TransactionExpired
                },
            },
    {
        let i: usize = match self.find(id) {
            Some(i) => i,
            None => {
                return Err(CoreError::UnknownHandle);
            },
        };
        let e = &self.entries[i];
        if !e.handle.schema_observed {
            return Err(CoreError::SchemaRequired);
        }
        if e.handle.expired {
            return Err(CoreError::TransactionExpired);
        }
        match &e.transaction {
            Some(t) => Ok(t.expected_version),
            None => Ok(e.handle.schema_version),
        }
    }

    /// Publishes statements that ran. `before` and `after` are the schema
    /// versions around them; `open` tells whether the transaction is still open.
    pub fn publish_query(&mut self, id: &str, before: i64, after: i64, open: bool) -> (r: Result<
        (),
        CoreError,
    >)
        requires
            old(self).wf(),
        ensures
            final(self).wf(),
            if !open {
                *final(self) == *old(self) && (r matches Err(e) && e.is_worker_message(
                    "outer transaction aborted"@,
                ))
            } else if before == after {
                *final(self) == *old(self) && r is Ok
            } else if old(self).has(id@) && old(self).at(id@).transaction is Some {
                final(self).is_updated(
                    *old(self),
                    id@,
                    registry::changed(old(self).at(id@), after),
                ) && r is Ok
            } else {
                *final(self) == *old(self) && (r matches Err(e) && e.is_worker_message(
                    "transaction schema state missing after query"@,
                ))
            },
    {
        if !open {
            return Err(CoreError::worker_message("outer transaction aborted"));
        }
        if before == after {
            return Ok(());
        }
        let known = match self.find(id) {
            Some(i) => self.entries[i].transaction.is_some(),
            None => false,
        };
        if !known {
            return Err(CoreError::worker_message("transaction schema state missing after query"));
        }
        self.change_at(id, after);
        Ok(())
    }

    /// Publishes statements that failed. `expected` is the schema version that
    /// they had to find, `probe` the one that was read after them where that was
    /// wanted.
    pub fn fail_query(
        &mut self,
        id: &str,
        failure: WorkerError,
        ddl_attempted: bool,
        expected: i64,
        probe: Option<i64>,
    ) -> (r: CoreError)
        requires
            old(self).wf(),
        ensures
            final(self).wf(),
            r == registry::query_error(failure),
            if failure.says("handle invalidated"@) && !failure.says("TRANSACTION_EXPIRED"@) {
                final(self).is_removed(*old(self), id@)
            } else {
                final(self).is_settled(
                    *old(self),
                    id@,
                    registry::after_failure(
                        old(self).at(id@),
                        failure,
                        expected,
                        if registry::wants_probe(failure, ddl_attempted) {
                            probe
                        } else {
                            None
                        },
                    ),
                )
            },
    {
        let ghost start = self.view();
        let ghost at = self.place(id@);
        let ghost known = self.has(id@);
        proof {
            lemma_place_range(start, id@);
        }
        assert(known ==> start.update(at, start[at]) =~= start);
        if probe_is_wanted(&failure, ddl_attempted) {
            if let Some(version) = probe {
                if version != expected {
                    self.change_at(id, version);
                }
            }
        }
        let closed = match &failure {
            WorkerError::Interrupted { transaction_open, .. } => !*transaction_open,
            _ => false,
        };
        if closed {
            let _known = self.restore_at(id);
        }
        assert(known ==> self.view() =~= start.update(at, self.view()[at]));
        if failure.mentions("TRANSACTION_EXPIRED") {
            self.tombstone_at(id);
            assert(known ==> self.view() =~= start.update(at, self.view()[at]));
            return CoreError::TransactionExpired;
        }
        if failure.mentions("handle invalidated") {
            let ghost noted = self.view();
            let _known = self.invalidate(id);
            assert(known ==> noted.remove(at) =~= start.remove(at));
        }
        if failure.mentions("SCHEMA_STALE") {
            return CoreError::SchemaStale;
        }
        classify_worker_error(failure, true)
    }

    /// Takes note of a schema that could not be read. `open` tells whether a
    /// transaction was open.
    pub fn fail_schema(&mut self, id: &str, failure: WorkerError, open: bool) -> (r: CoreError)
        requires
            old(self).wf(),
        ensures
            final(self).wf(),
            r == error::classified(failure, open),
            if failure.says("handle invalidated"@) {
                final(self).is_removed(*old(self), id@)
            } else {
                *final(self) == *old(self)
            },
    {
        if failure.mentions("handle invalidated") {
            let _known = self.invalidate(id);
        }
        classify_worker_error(failure, open)
    }

    /// Publishes a schema that was read, unless its JSON is over the limit. Inside a
    /// transaction the schema is only kept for the transaction.
    pub fn publish_schema(&mut self, id: &str, schema: SchemaInfo, byte_limit: usize) -> (r: Result<
        (),
        CoreError,
    >)
        requires
            old(self).wf(),
        ensures
            final(self).wf(),
            match r {
                Ok(()) => {
                    &&& encode_utf8(schema_text::schema_json(schema)).len() <= byte_limit
                    &&& old(self).has(id@)
                    &&& final(self).is_updated(
                        *old(self),
                        id@,
                        registry::observed(old(self).at(id@), schema),
                    )
                },
                Err(e) => {
                    &&& *final(self) == *old(self)
                    &&& if encode_utf8(schema_text::schema_json(schema)).len() > byte_limit {
                        e is SchemaTooLarge
                    } else {
                        !old(self).has(id@) && e is UnknownHandle
                    }
                },
            },
    {
        if schema_text(&schema).as_str().as_bytes().len() > byte_limit {
            return Err(CoreError::SchemaTooLarge);
        }
        let ghost before = self.view();
        match self.find(id) {
            Some(i) => {
                let ghost e = registry::observed(before[i as int], schema);
                self.entries[i].observe(schema);
                proof {
                    lemma_update(before, id@, e);
                }
                assert(self.view() =~= before.update(i as int, e));
                Ok(())
            },
            None => Err(CoreError::UnknownHandle),
        }
    }
}

/// What happens to the schema inside a transaction.
pub enum TransactionStep {
    /// A statement changed it to a version.
    Changed(i64),
    /// It was read.
    Observed(SchemaInfo),
}

/// A database after steps inside its transaction.
pub open spec fn after_steps(e: EntryView, steps: Seq<TransactionStep>) -> EntryView
    decreases steps.len(),
{
    if steps.len() == 0 {
        e
    } else {
        let before = after_steps(e, steps.drop_last());
        match steps.last() {
            TransactionStep::Changed(version) => registry::changed(before, version),
            TransactionStep::Observed(schema) => registry::observed(before, schema),
        }
    }
}

/// One of the steps is a change.
pub open spec fn has_change(steps: Seq<TransactionStep>) -> bool
    decreases steps.len(),
{
    steps.len() > 0 && (steps.last() is Changed || has_change(steps.drop_last()))
}

/// The schema that was read last.
pub open spec fn last_read(steps: Seq<TransactionStep>) -> Option<SchemaInfo>
    decreases steps.len(),
{
    if steps.len() == 0 {
        None
    } else {
        match steps.last() {
            TransactionStep::Observed(schema) => Some(schema),
            TransactionStep::Changed(_) => last_read(steps.drop_last()),
        }
    }
}

proof fn lemma_after_steps(e: EntryView, steps: Seq<TransactionStep>)
    requires
        e.transaction is Some,
    ensures
        after_steps(e, steps).handle == e.handle,
        after_steps(e, steps).transaction matches Some(n) && {
            let t = e.transaction->Some_0;
            &&& n.pre_observed == t.pre_observed
            &&& n.pre_version == t.pre_version
            &&& n.pre_generation == t.pre_generation
            &&& n.pending_schema_change == (t.pending_schema_change || has_change(steps))
            &&& n.overlay == if last_read(steps) is Some {
                last_read(steps)
            } else {
                t.overlay
            }
        },
    decreases steps.len(),
{
    if steps.len() > 0 {
        lemma_after_steps(e, steps.drop_last());
    }
}

/// A transaction keeps the schema that was read last inside it, through every
/// change; a new one has none.
pub proof fn the_last_read_schema_is_kept(
    e: EntryView,
    version: i64,
    mode: Seq<char>,
    name: Seq<char>,
    steps: Seq<TransactionStep>,
)
    ensures
        after_steps(registry::begun(e, version, mode, name), steps).transaction matches Some(t)
            && t.overlay == last_read(steps),
{
    lemma_after_steps(registry::begun(e, version, mode, name), steps);
}

/// A rollback leaves no trace: whatever a transaction did to the schema, the
/// handle is afterwards as it was before it began.
pub proof fn rollback_leaves_no_trace(
    e: EntryView,
    version: i64,
    mode: Seq<char>,
    name: Seq<char>,
    steps: Seq<TransactionStep>,
)
    requires
        e.transaction is None,
        e.handle.transaction_id is None,
        e.handle.transaction_mode is None,
    ensures
        registry::restored(after_steps(registry::begun(e, version, mode, name), steps)) == e,
{
    lemma_after_steps(registry::begun(e, version, mode, name), steps);
}

/// Rolling back again changes nothing.
pub proof fn rollback_is_idempotent(e: EntryView)
    ensures
        registry::restored(registry::restored(e)) == registry::restored(e),
{
}

/// A commit withdraws the observation, once, if the transaction changed the
/// schema, and otherwise leaves it as it is.
pub proof fn commit_withdraws_only_after_a_change(
    e: EntryView,
    version: i64,
    mode: Seq<char>,
    name: Seq<char>,
    steps: Seq<TransactionStep>,
)
    requires
        e.transaction is None,
        e.handle.transaction_id is None,
        e.handle.transaction_mode is None,
    ensures
        registry::committed(after_steps(registry::begun(e, version, mode, name), steps))
            == if !has_change(steps) {
            e
        } else {
            EntryView {
                handle: HandleView {
                    schema_observed: false,
                    observation_generation: registry::next_generation(
                        e.handle.observation_generation,
                    ),
                    ..e.handle
                },
                ..e
            }
        },
{
    lemma_after_steps(registry::begun(e, version, mode, name), steps);
}

/// After a schema change was committed, no transaction begins and no statement
/// runs before the schema was observed once; one observation is enough.
pub proof fn one_observation_follows_a_change(e: EntryView, schema: SchemaInfo, immediate: bool)
    requires
        registry::has_pending_change(e),
        !e.handle.expired,
    ensures
        registry::begin_fault(registry::committed(e).handle, immediate) == Some(
            CoreError::SchemaRequired,
        ),
        registry::begin_fault(
            registry::observed(registry::committed(e), schema).handle,
            immediate,
        ) == if immediate && e.handle.readonly {
            Some(CoreError::ReadonlyImmediate)
        } else {
            None
        },
{
}

/// A schema that is read inside a transaction does not change what the handle
/// says, nor what the transaction does with it at its end.
pub proof fn observation_inside_a_transaction_is_private(e: EntryView, schema: SchemaInfo)
    requires
        e.transaction is Some,
    ensures
        registry::observed(e, schema).handle == e.handle,
        registry::committed(registry::observed(e, schema)) == registry::committed(e),
        registry::restored(registry::observed(e, schema)) == registry::restored(e),
{
}

/// An expired handle refuses everything but an observation, and is as good as
/// new after one.
pub proof fn expiry_lasts_until_observed(e: EntryView, schema: SchemaInfo, immediate: bool)
    ensures
        registry::begin_fault(registry::tombstoned(e).handle, immediate) == Some(
            CoreError::TransactionExpired,
        ),
        registry::tombstoned(e).handle.transaction_id is None,
        registry::begin_fault(
            registry::observed(registry::tombstoned(e), schema).handle,
            false,
        ) is None,
{
}

} // verus!
