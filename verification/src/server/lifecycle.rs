//! How a server starts and stops, and how transient operations are let in.
use crate::admission;
use crate::admission::{AdmissionRegistry, Reservation, ReservationKind};
use crate::config;
use crate::config::Config;
use crate::operation;
use crate::operation::{
    LimitInstallError, ShutdownEntry, ShutdownReport, ShutdownStatus, WorkerShutdownError,
};
use crate::paths::PathError;
use crate::server::error;
use crate::server::error::{bool_str, CoreError};
use crate::text;
use crate::worker::error::WorkerError;
use crate::worker::limits::WorkerLimits;
use vstd::prelude::*;

verus! {

/// The limits of a worker under some settings.
pub open spec fn limits_of(c: Config) -> WorkerLimits {
    WorkerLimits {
        cell_byte_limit: c.cell_byte_limit,
        sql_byte_limit: c.sql_byte_limit,
        column_limit: c.column_limit,
        expression_depth: c.expression_depth,
        compound_terms: c.compound_terms,
        parameter_limit: c.parameter_limit,
    }
}

/// Checks the settings of a server and gives the limits of its workers.
pub fn worker_limits(settings: &Config) -> (r: Result<WorkerLimits, CoreError>)
    ensures
        match r {
            Ok(limits) => config::is_valid(*settings) && limits == limits_of(*settings),
            Err(e) => exists|i: int| #[trigger]
                config::is_first_violation(*settings, i) && (e matches CoreError::Path(
                    PathError::Io(m),
                ) && m@ == "invalid config: "@ + config::violation(config::bounds(*settings)[i])),
        },
{
    if let Err(e) = settings.validate() {
        return Err(CoreError::Path(PathError::Io(e.message())));
    }
    Ok(
        WorkerLimits {
            cell_byte_limit: settings.cell_byte_limit,
            sql_byte_limit: settings.sql_byte_limit,
            column_limit: settings.column_limit,
            expression_depth: settings.expression_depth,
            compound_terms: settings.compound_terms,
            parameter_limit: settings.parameter_limit,
        },
    )
}

/// The error for limits that the engine does not take.
pub fn probe_error(e: &LimitInstallError) -> (r: CoreError)
    ensures
        r matches CoreError::Path(PathError::Io(m)) && m@ == "engine limit probe failed: "@
            + e.text(),
{
    let mut m = "engine limit probe failed: ".to_owned();
    m.append(e.message().as_str());
    CoreError::Path(PathError::Io(m))
}

/// How long a transaction of a handle may idle.
pub fn idle_seconds(settings: &Config, readonly: bool) -> (r: u64)
    ensures
        r == if readonly {
            settings.readonly_idle_seconds
        } else {
            settings.writable_idle_seconds
        },
{
    if readonly {
        settings.readonly_idle_seconds
    } else {
        settings.writable_idle_seconds
    }
}

/// Lets a merge operation in. `cancelled` tells whether its client gave it up
/// meanwhile, in which case its reservation is taken back.
pub fn admit_merge(registry: &mut AdmissionRegistry, cancelled: bool) -> (r: Result<
    Reservation,
    CoreError,
>)
    requires
        old(registry).wf(),
    ensures
        final(registry).wf(),
        final(registry).state == old(registry).state,
        final(registry).next_id == if old(registry).state is Running && old(registry).next_id
            < u64::MAX {
            old(registry).next_id + 1
        } else {
            old(registry).next_id as int
        },
        match r {
            Ok(reservation) => {
                &&& old(registry).state is Running && !cancelled
                &&& reservation == (Reservation {
                    id: old(registry).next_id,
                    kind: ReservationKind::TransientMerge,
                    cancelled: false,
                })
                &&& final(registry).active@ == old(registry).active@.push(reservation)
            },
            Err(e) => if old(registry).state is Running {
                &&& cancelled
                &&& e == (CoreError::Cancelled {
                    transaction_open: false,
                    transaction_continuable: false,
                })
                &&& final(registry).active@ == admission::without(
                    old(registry).active@,
                    old(registry).next_id,
                )
            } else {
                e is ServerShutdown && *final(registry) == *old(registry)
            },
        },
{
    let ghost before = registry.active@;
    match registry.reserve(ReservationKind::TransientMerge) {
        Err(()) => Err(CoreError::ServerShutdown),
        Ok(reservation) => {
            if cancelled {
                assert(before.push(reservation).drop_last() =~= before);
                registry.finish(reservation.id);
                return Err(
                    CoreError::Cancelled {
                        transaction_open: false,
                        transaction_continuable: false,
                    },
                );
            }
            Ok(reservation)
        },
    }
}

/// The error of a task that did not come back.
pub fn join_error(detail: &str) -> (r: CoreError)
    ensures
        r.is_worker_message("merge worker join failed: "@ + detail@),
{
    let mut m = "merge worker join failed: ".to_owned();
    m.append(detail);
    CoreError::Worker(WorkerError::Message(m))
}

/// The answer to a close, once the worker was shut down.
pub fn close_result(shutdown: Result<ShutdownStatus, WorkerShutdownError>) -> (r: Result<
    (),
    CoreError,
>)
    ensures
        match shutdown {
            Ok(status) => if status.connection_closed && status.thread_joined {
                r is Ok
            } else {
                r matches Err(e) && e.is_worker_message(
                    "close cleanup incomplete (connection_closed="@ + error::bool_text(
                        status.connection_closed,
                    ) + ", thread_joined="@ + error::bool_text(status.thread_joined) + ")"@,
                )
            },
            Err(failure) => r matches Err(e) && e.is_worker_message(failure.text()),
        },
{
    match shutdown {
        Ok(status) => {
            if status.is_success() {
                return Ok(());
            }
            let mut m = "close cleanup incomplete (connection_closed=".to_owned();
            m.append(bool_str(status.connection_closed));
            m.append(", thread_joined=");
            m.append(bool_str(status.thread_joined));
            m.append(")");
            Err(CoreError::Worker(WorkerError::Message(m)))
        },
        Err(failure) => Err(CoreError::Worker(WorkerError::Message(failure.message()))),
    }
}

/// How the shutdown of one worker ended.
#[derive(Debug)]
pub enum ShutdownJoin {
    /// The worker of this handle answered.
    Ended { handle: String, result: Result<ShutdownStatus, WorkerShutdownError> },
    /// The task that shut a worker down did not come back.
    Lost(String),
}

/// The handle was shut down among the first `n`.
pub open spec fn is_among(joins: Seq<ShutdownJoin>, n: int, id: Seq<char>) -> bool {
    exists|i: int|
        0 <= i < n && (#[trigger] joins[i] matches ShutdownJoin::Ended { handle, .. } && handle@
            == id)
}

/// The complaints about lost tasks among the first `n`.
pub open spec fn losses(joins: Seq<ShutdownJoin>, n: int) -> Seq<Seq<char>>
    decreases n,
{
    if n <= 0 {
        Seq::empty()
    } else {
        match joins[n - 1] {
            ShutdownJoin::Lost(m) => losses(joins, n - 1).push("shutdown join failed: "@ + m@),
            _ => losses(joins, n - 1),
        }
    }
}

/// The worker ended cleanly.
pub open spec fn ended_cleanly(join: ShutdownJoin) -> bool {
    join matches ShutdownJoin::Ended { result: Ok(status), .. } && status.connection_closed
        && status.thread_joined
}

/// No worker before this one had the same handle.
pub open spec fn comes_first(joins: Seq<ShutdownJoin>, i: int) -> bool {
    joins[i] matches ShutdownJoin::Ended { handle, .. } ==> !is_among(joins, i, handle@)
}

/// The report says this of a handle.
pub open spec fn is_listed(
    entries: Seq<ShutdownEntry>,
    id: Seq<char>,
    result: Result<ShutdownStatus, WorkerShutdownError>,
) -> bool {
    exists|k: int|
        0 <= k < entries.len() && (#[trigger] entries[k]).0@ == id && entries[k].1 == result
}

/// The report holds what the worker of a handle answered, where it is the first
/// one of that handle.
pub open spec fn is_reported(entries: Seq<ShutdownEntry>, joins: Seq<ShutdownJoin>, i: int) -> bool {
    comes_first(joins, i) ==> (joins[i] matches ShutdownJoin::Ended { handle, result } ==> is_listed(
        entries,
        handle@,
        result,
    ))
}

/// Collects the report of a shutdown. The report holds the first answer for each
/// handle and nothing else, and it is a success exactly if each of these workers
/// ended cleanly and no task was lost.
pub fn shutdown_report(joins: Vec<ShutdownJoin>) -> (r: ShutdownReport)
    ensures
        r.wf(),
        forall|id: Seq<char>| #[trigger] r.has(id) == is_among(joins@, joins@.len() as int, id),
        forall|i: int| 0 <= i < joins@.len() ==> #[trigger] is_reported(r.entries@, joins@, i),
        text::views(r.registry_cleanup_errors@) == losses(joins@, joins@.len() as int),
        r.succeeded() == (forall|i: int|
            0 <= i < joins@.len() && #[trigger] comes_first(joins@, i) ==> ended_cleanly(joins@[i])),
{
    let mut report = ShutdownReport::new();
    let ghost all = joins@;
    let total: usize = joins.len();
    let mut rest = joins;
    let mut i: usize = 0;
    assert(text::views(report.registry_cleanup_errors@) =~= Seq::empty());
    assert(all.skip(0) =~= all);
    while i < total
        invariant
            i <= total,
            total == all.len(),
            rest@ == all.skip(i as int),
            report.wf(),
            forall|id: Seq<char>| #[trigger] report.has(id) == is_among(all, i as int, id),
            forall|k: int| 0 <= k < i ==> #[trigger] is_reported(report.entries@, all, k),
            text::views(report.registry_cleanup_errors@) == losses(all, i as int),
            report.succeeded() == (forall|k: int|
                0 <= k < i && #[trigger] comes_first(all, k) ==> ended_cleanly(all[k])),
        decreases total - i,
    {
        let ghost before = report;
        let join = rest.remove(0);
        assert(join == all[i as int]);
        assert(rest@ =~= all.skip(i + 1));
        match join {
            ShutdownJoin::Ended { handle, result } => {
                let ghost added = result;
                report.record(handle.as_str(), result);
                proof {
                    if before.has(handle@) {
                        assert(!comes_first(all, i as int));
                    } else {
                        assert(comes_first(all, i as int));
                        lemma_recorded(before, report, handle@, added);
                        assert forall|k: int| 0 <= k < i implies #[trigger] is_reported(
                            report.entries@,
                            all,
                            k,
                        ) by {
                            assert(is_reported(before.entries@, all, k));
                        }
                    }
                    assert(is_reported(report.entries@, all, i as int));
                    assert forall|id: Seq<char>| #[trigger] report.has(id) == is_among(
                        all,
                        i + 1,
                        id,
                    ) by {
                        lemma_among(all, i as int, id);
                        if before.has(handle@) {
                            lemma_same_entries(before, report, id);
                        }
                    }
                }
            },
            ShutdownJoin::Lost(detail) => {
                let mut m = "shutdown join failed: ".to_owned();
                m.append(detail.as_str());
                let ghost errors = text::views(report.registry_cleanup_errors@);
                report.registry_cleanup_errors.push(m);
                assert(text::views(report.registry_cleanup_errors@) =~= errors.push(m@));
                assert(comes_first(all, i as int));
                assert(!ended_cleanly(all[i as int]));
                assert(!report.succeeded());
                assert forall|k: int| 0 <= k < i + 1 implies #[trigger] is_reported(
                    report.entries@,
                    all,
                    k,
                ) by {
                    if k < i {
                        assert(is_reported(before.entries@, all, k));
                    }
                }
                assert forall|id: Seq<char>| #[trigger] report.has(id) == is_among(
                    all,
                    i + 1,
                    id,
                ) by {
                    lemma_same_entries(before, report, id);
                    lemma_among(all, i as int, id);
                }
            },
        }
        i += 1;
    }
    report
}

proof fn lemma_same_entries(before: ShutdownReport, after: ShutdownReport, id: Seq<char>)
    requires
        after.entries@ == before.entries@,
    ensures
        after.has(id) == before.has(id),
{
    if before.has(id) {
        let k = choose|k: int|
            0 <= k < before.entries@.len() && (#[trigger] before.entries@[k]).0@ == id;
        assert(after.entries@[k].0@ == id);
    }
    if after.has(id) {
        let k = choose|k: int|
            0 <= k < after.entries@.len() && (#[trigger] after.entries@[k]).0@ == id;
        assert(before.entries@[k].0@ == id);
    }
}

proof fn lemma_among(joins: Seq<ShutdownJoin>, n: int, id: Seq<char>)
    requires
        0 <= n < joins.len(),
    ensures
        is_among(joins, n + 1, id) == (is_among(joins, n, id) || (joins[n] matches ShutdownJoin::Ended {
            handle,
            ..
        } && handle@ == id)),
{
    if is_among(joins, n + 1, id) && !is_among(joins, n, id) {
        let k = choose|k: int|
            0 <= k < n + 1 && (#[trigger] joins[k] matches ShutdownJoin::Ended { handle, .. }
                && handle@ == id);
        assert(k == n);
    }
}

proof fn lemma_recorded(
    before: ShutdownReport,
    after: ShutdownReport,
    id: Seq<char>,
    result: Result<ShutdownStatus, WorkerShutdownError>,
)
    requires
        !before.has(id),
        after.registry_cleanup_errors == before.registry_cleanup_errors,
        exists|p: int, e: ShutdownEntry|
            #![trigger before.entries@.insert(p, e)]
            0 <= p <= before.entries@.len() && e.0@ == id && e.1 == result && after.entries@
                == before.entries@.insert(p, e),
    ensures
        forall|x: Seq<char>| #[trigger] after.has(x) == (before.has(x) || x == id),
        after.succeeded() == (before.succeeded() && (result matches Ok(status)
            && status.connection_closed && status.thread_joined)),
        is_listed(after.entries@, id, result),
        forall|x: Seq<char>, y: Result<ShutdownStatus, WorkerShutdownError>|
            is_listed(before.entries@, x, y) ==> #[trigger] is_listed(after.entries@, x, y),
{
    let (p, e) = choose|p: int, e: ShutdownEntry|
        #![trigger before.entries@.insert(p, e)]
        0 <= p <= before.entries@.len() && e.0@ == id && e.1 == result && after.entries@
            == before.entries@.insert(p, e);
    let old = before.entries@;
    let now = after.entries@;
    assert forall|x: Seq<char>| #[trigger] after.has(x) == (before.has(x) || x == id) by {
        if before.has(x) {
            let k = choose|k: int| 0 <= k < old.len() && (#[trigger] old[k]).0@ == x;
            let at = if k < p {
                k
            } else {
                k + 1
            };
            assert(now[at] == old[k]);
        }
        if x == id {
            assert(now[p] == e);
        }
        if after.has(x) && x != id {
            let k = choose|k: int| 0 <= k < now.len() && (#[trigger] now[k]).0@ == x;
            assert(k != p);
            let at = if k < p {
                k
            } else {
                k - 1
            };
            assert(old[at] == now[k]);
        }
    }
    assert(now[p] == e);
    assert forall|x: Seq<char>, y: Result<ShutdownStatus, WorkerShutdownError>|
        is_listed(old, x, y) implies #[trigger] is_listed(now, x, y) by {
        let k = choose|k: int|
            0 <= k < old.len() && (#[trigger] old[k]).0@ == x && old[k].1 == y;
        let at = if k < p {
            k
        } else {
            k + 1
        };
        assert(now[at] == old[k]);
    }
    if before.succeeded() && operation::entry_succeeded(e) {
        assert forall|k: int| 0 <= k < now.len() implies operation::entry_succeeded(
            #[trigger] now[k],
        ) by {
            if k != p {
                let at = if k < p {
                    k
                } else {
                    k - 1
                };
                assert(old[at] == now[k]);
            }
        }
    }
    if after.succeeded() {
        assert(now[p] == e);
        assert forall|k: int| 0 <= k < old.len() implies operation::entry_succeeded(
            #[trigger] old[k],
        ) by {
            let at = if k < p {
                k
            } else {
                k + 1
            };
            assert(now[at] == old[k]);
        }
    }
}

} // verus!
