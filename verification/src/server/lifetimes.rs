//! What becomes of handles and of their transactions.
use crate::handles::Handle;
use crate::schema::SchemaInfo;
use crate::server::error;
use crate::server::error::CoreError;
use crate::server::registry;
use crate::server::registry::{EntryView, FileIdentity, HandleRegistry};
use crate::server::schema_text;
use crate::worker::arms::CommitOutcome;
use crate::worker::error::WorkerError;
use vstd::prelude::*;
use vstd::utf8::*;

verus! {

/// The database with this number has this handle.
pub open spec fn is_known_at(r: HandleRegistry, id: Seq<char>, k: int) -> bool {
    0 <= k < r.view().len() && r.view()[k].handle.id == id
}

/// No database has this handle.
pub open spec fn is_unknown(r: HandleRegistry, id: Seq<char>) -> bool {
    forall|k: int| 0 <= k < r.view().len() ==> (#[trigger] r.view()[k]).handle.id != id
}

/// Only the database with this number is another, and it is this one.
pub open spec fn becomes(post: HandleRegistry, pre: HandleRegistry, k: int, e: EntryView) -> bool {
    &&& post.view().len() == pre.view().len()
    &&& post.files == pre.files
    &&& forall|j: int|
        0 <= j < pre.view().len() ==> #[trigger] post.view()[j] == if j == k {
            e
        } else {
            pre.view()[j]
        }
}

/// The database with this number is gone, and all others are as they were, in their
/// order.
pub open spec fn is_gone(post: HandleRegistry, pre: HandleRegistry, k: int) -> bool {
    &&& post.view().len() == pre.view().len() - 1
    &&& forall|j: int|
        0 <= j < post.view().len() ==> #[trigger] post.view()[j] == pre.view()[if j < k {
            j
        } else {
            j + 1
        }]
}

proof fn lemma_known(r: HandleRegistry, id: Seq<char>, k: int)
    requires
        r.wf(),
        is_known_at(r, id, k),
    ensures
        r.has(id),
        r.place(id) == k,
        r.at(id) == r.view()[k],
{
    assert forall|j: int| 0 <= j < k implies (#[trigger] r.view()[j]).handle.id != id by {
        assert(r.view()[j].handle.id != r.view()[k].handle.id);
    }
    registry::lemma_place(r.view(), id, k);
}

proof fn lemma_unknown(r: HandleRegistry, id: Seq<char>)
    requires
        is_unknown(r, id),
    ensures
        !r.has(id),
{
    registry::lemma_place(r.view(), id, r.view().len() as int);
}

/// A handle is found by its name, and no other is.
pub proof fn handles_are_found_by_name(r: &HandleRegistry, id: &str, found: Option<Handle>, k: int)
    requires
        r.wf(),
        call_ensures(HandleRegistry::get, (r, id), found),
    ensures
        is_known_at(*r, id@, k) ==> (found matches Some(h) && h@ == r.view()[k].handle),
        is_unknown(*r, id@) ==> found is None,
{
    if is_known_at(*r, id@, k) {
        lemma_known(*r, id@, k);
    }
    if is_unknown(*r, id@) {
        lemma_unknown(*r, id@);
    }
}

/// All handles are listed, in the order in which they were opened.
pub proof fn all_handles_are_listed(r: &HandleRegistry, listed: Vec<Handle>)
    requires
        call_ensures(HandleRegistry::list, (r,), listed),
    ensures
        listed@.len() == r.entries@.len(),
        forall|k: int| 0 <= k < listed@.len() ==> (#[trigger] listed@[k])@ == r.entries@[k].handle@,
{
    assert forall|k: int| 0 <= k < listed@.len() implies (#[trigger] listed@[k])@
        == r.entries@[k].handle@ by {
        assert(listed@[k]@ == r.view()[k].handle);
    }
}

/// A file can be opened exactly where neither its path nor the file itself is open and
/// a handle is left.
pub proof fn files_are_opened_once(
    r: &HandleRegistry,
    path: &str,
    identity: FileIdentity,
    max_handles: usize,
    answer: Result<(), CoreError>,
)
    requires
        call_ensures(HandleRegistry::check_open, (r, path, identity, max_handles), answer),
    ensures
        ({
            let named = exists|i: int|
                0 <= i < r.view().len() && (#[trigger] r.view()[i]).handle.path == path@;
            let open = exists|i: int|
                0 <= i < r.files@.len() && (#[trigger] r.files@[i]).identity == identity;
            &&& answer is Ok <==> !named && !open && r.view().len() < max_handles
            &&& named || open ==> (answer matches Err(e) && e is AlreadyOpen)
            &&& !named && !open && r.view().len() >= max_handles ==> (answer matches Err(e)
                && e is HandleLimitReached)
        }),
{
}

/// A handle without a transaction can be closed, and it alone is gone then; one with a
/// transaction cannot.
pub proof fn idle_handles_can_be_closed(
    r: &mut HandleRegistry,
    id: &str,
    answer: Result<(), CoreError>,
    k: int,
)
    requires
        old(r).wf(),
        is_known_at(*old(r), id@, k),
        call_ensures(HandleRegistry::close, (r, id), answer),
    ensures
        answer is Ok <==> old(r).view()[k].handle.transaction_id is None,
        answer is Ok ==> is_gone(*final(r), *old(r), k) && is_unknown(*final(r), id@),
        answer is Err ==> *final(r) == *old(r) && answer->Err_0 is TransactionOpen,
{
    lemma_known(*old(r), id@, k);
    if answer is Ok {
        let pre = old(r).view();
        let post = final(r).view();
        assert(post == pre.remove(k));
        assert forall|j: int| 0 <= j < post.len() implies (#[trigger] post[j]).handle.id != id@ by {
            if j < k {
                assert(pre[j].handle.id != pre[k].handle.id);
            } else {
                assert(post[j] == pre[j + 1]);
                assert(pre[k].handle.id != pre[j + 1].handle.id);
            }
        }
    }
}

/// A transaction begins exactly where the schema was observed, no transaction is open,
/// none idled away since the last observation, and a read-only handle is not asked for
/// an immediate one. It has to find the schema version that was observed.
pub proof fn begins_need_an_observation(
    r: &HandleRegistry,
    id: &str,
    immediate: bool,
    answer: Result<i64, CoreError>,
    k: int,
)
    requires
        r.wf(),
        is_known_at(*r, id@, k),
        call_ensures(HandleRegistry::check_begin, (r, id, immediate), answer),
    ensures
        ({
            let h = r.view()[k].handle;
            &&& answer is Ok <==> !h.expired && h.transaction_id is None && h.schema_observed && !(
            immediate && h.readonly)
            &&& answer is Ok ==> answer->Ok_0 == h.schema_version
            &&& h.expired ==> answer->Err_0 is TransactionExpired
            &&& !h.expired && h.transaction_id is Some ==> answer->Err_0 is TransactionOpen
            &&& !h.expired && h.transaction_id is None && !h.schema_observed ==> answer->Err_0
                is SchemaRequired
        }),
{
    lemma_known(*r, id@, k);
}

/// A transaction that has begun is shown by its handle under its name and mode, with the
/// version that it found; nothing else changes.
pub proof fn begun_transactions_are_shown(
    r: &mut HandleRegistry,
    id: &str,
    version: i64,
    mode: &str,
    name: String,
    answer: Result<Handle, CoreError>,
    k: int,
)
    requires
        old(r).wf(),
        is_known_at(*old(r), id@, k),
        call_ensures(HandleRegistry::publish_begin_as, (r, id, version, mode, name), answer),
    ensures
        ({
            let pre = old(r).view()[k];
            let post = final(r).view()[k];
            &&& becomes(*final(r), *old(r), k, post)
            &&& answer matches Ok(h) && h@ == post.handle
            &&& post.handle.transaction_id == Some(name@)
            &&& post.handle.transaction_mode == Some(mode@)
            &&& post.handle.id == pre.handle.id && post.handle.path == pre.handle.path
            &&& post.handle.readonly == pre.handle.readonly
            &&& post.handle.schema_observed == pre.handle.schema_observed
            &&& post.handle.schema_version == pre.handle.schema_version
            &&& post.handle.observation_generation == pre.handle.observation_generation
            &&& post.handle.expired == pre.handle.expired
            &&& post.transaction matches Some(t) && t.expected_version == version
                && !t.pending_schema_change && t.overlay is None && t.pre_observed
                == pre.handle.schema_observed && t.pre_version == pre.handle.schema_version
                && t.pre_generation == pre.handle.observation_generation
        }),
{
    lemma_known(*old(r), id@, k);
}

/// Statements run exactly where the schema was observed and no transaction idled away
/// since; they have to find the version that the transaction has come to, or else the
/// one that was observed.
pub proof fn statements_need_an_observation(
    r: &HandleRegistry,
    id: &str,
    answer: Result<i64, CoreError>,
    k: int,
)
    requires
        r.wf(),
        is_known_at(*r, id@, k),
        call_ensures(HandleRegistry::check_query, (r, id), answer),
    ensures
        ({
            let e = r.view()[k];
            &&& answer is Ok <==> e.handle.schema_observed && !e.handle.expired
            &&& answer is Ok && e.transaction is Some ==> answer->Ok_0
                == e.transaction->0.expected_version
            &&& answer is Ok && e.transaction is None ==> answer->Ok_0 == e.handle.schema_version
            &&& !e.handle.schema_observed ==> answer->Err_0 is SchemaRequired
            &&& e.handle.schema_observed && e.handle.expired ==> answer->Err_0
                is TransactionExpired
        }),
{
    lemma_known(*r, id@, k);
}

/// Statements that leave the schema as it was change nothing; those that change it move
/// the version that the next ones have to find, and mark the change.
pub proof fn schema_changes_are_noted(
    r: &mut HandleRegistry,
    id: &str,
    before: i64,
    after: i64,
    open: bool,
    answer: Result<(), CoreError>,
    k: int,
)
    requires
        old(r).wf(),
        is_known_at(*old(r), id@, k),
        old(r).view()[k].transaction is Some,
        call_ensures(HandleRegistry::publish_query, (r, id, before, after, open), answer),
    ensures
        answer is Ok <==> open,
        !open || before == after ==> *final(r) == *old(r),
        open && before != after ==> {
            let pre = old(r).view()[k];
            let post = final(r).view()[k];
            &&& becomes(*final(r), *old(r), k, post)
            &&& post.handle == pre.handle
            &&& post.transaction matches Some(t) && {
                let p = pre.transaction->0;
                &&& t.expected_version == after && t.pending_schema_change
                &&& t.pre_observed == p.pre_observed && t.pre_version == p.pre_version
                &&& t.pre_generation == p.pre_generation && t.overlay == p.overlay
            }
        },
{
    lemma_known(*old(r), id@, k);
}

/// A schema that was read outside a transaction is observed under its version, and what
/// idled away is forgiven; inside one nothing is told of it. It is kept only where it is
/// within the limit.
pub proof fn schemas_are_observed(
    r: &mut HandleRegistry,
    id: &str,
    schema: SchemaInfo,
    byte_limit: usize,
    answer: Result<(), CoreError>,
    k: int,
)
    requires
        old(r).wf(),
        is_known_at(*old(r), id@, k),
        call_ensures(HandleRegistry::publish_schema, (r, id, schema, byte_limit), answer),
    ensures
        answer is Ok <==> encode_utf8(schema_text::schema_json(schema)).len() <= byte_limit,
        answer is Err ==> *final(r) == *old(r) && answer->Err_0 is SchemaTooLarge,
        answer is Ok ==> {
            let pre = old(r).view()[k];
            let post = final(r).view()[k];
            &&& becomes(*final(r), *old(r), k, post)
            &&& pre.transaction is None ==> {
                &&& post.transaction is None
                &&& post.handle.schema_observed && !post.handle.expired
                &&& post.handle.schema_version == schema.schema_version
                &&& pre.handle.observation_generation < u64::MAX
                    ==> post.handle.observation_generation == pre.handle.observation_generation + 1
                &&& post.handle.id == pre.handle.id && post.handle.path == pre.handle.path
                &&& post.handle.transaction_id == pre.handle.transaction_id
                &&& post.handle.readonly == pre.handle.readonly
            }
            &&& pre.transaction is Some ==> {
                &&& post.handle == pre.handle
                &&& post.transaction matches Some(t) && t.overlay == Some(schema)
                    && t.expected_version == pre.transaction->0.expected_version
                    && t.pending_schema_change == pre.transaction->0.pending_schema_change
            }
        },
{
    lemma_known(*old(r), id@, k);
}

/// The handle shows no transaction, and of the file it says what it said.
pub open spec fn is_idle_again(post: EntryView, pre: EntryView) -> bool {
    &&& post.transaction is None
    &&& post.handle.transaction_id is None && post.handle.transaction_mode is None
    &&& post.handle.id == pre.handle.id && post.handle.path == pre.handle.path
    &&& post.handle.readonly == pre.handle.readonly
}

/// A rollback closes the transaction and gives the handle back the observation that it
/// had when the transaction began; all other handles stay as they are.
pub proof fn rollbacks_restore_the_observation(
    r: &mut HandleRegistry,
    id: &str,
    answer: Result<Handle, CoreError>,
    k: int,
)
    requires
        old(r).wf(),
        is_known_at(*old(r), id@, k),
        call_ensures(
            HandleRegistry::publish_rollback,
            (r, id, Ok::<(), WorkerError>(())),
            answer,
        ),
    ensures
        ({
            let pre = old(r).view()[k];
            let post = final(r).view()[k];
            &&& becomes(*final(r), *old(r), k, post)
            &&& is_idle_again(post, pre)
            &&& answer matches Ok(h) && h@ == post.handle
            &&& pre.transaction matches Some(t) ==> post.handle.schema_observed == t.pre_observed
                && post.handle.schema_version == t.pre_version
                && post.handle.observation_generation == t.pre_generation
            &&& pre.transaction is None ==> post.handle.schema_observed
                == pre.handle.schema_observed && post.handle.schema_version
                == pre.handle.schema_version
            &&& post.handle.expired == pre.handle.expired
        }),
{
    lemma_known(*old(r), id@, k);
}

/// A rollback that failed tells why: a transaction that idled away leaves an expired
/// handle, a lost handle is gone, and otherwise nothing changes.
pub proof fn failed_rollbacks_are_told(
    r: &mut HandleRegistry,
    id: &str,
    failure: WorkerError,
    answer: Result<Handle, CoreError>,
    k: int,
)
    requires
        old(r).wf(),
        is_known_at(*old(r), id@, k),
        call_ensures(
            HandleRegistry::publish_rollback,
            (r, id, Err::<(), WorkerError>(failure)),
            answer,
        ),
    ensures
        answer is Err,
        failure.says("handle invalidated"@) ==> is_gone(*final(r), *old(r), k),
        !failure.says("handle invalidated"@) && !failure.says("TRANSACTION_EXPIRED"@) ==> becomes(
            *final(r),
            *old(r),
            k,
            old(r).view()[k],
        ),
        !failure.says("handle invalidated"@) && failure.says("TRANSACTION_EXPIRED"@) ==> {
            let post = final(r).view()[k];
            &&& becomes(*final(r), *old(r), k, post)
            &&& is_idle_again(post, old(r).view()[k])
            &&& post.handle.expired
        },
{
    lemma_known(*old(r), id@, k);
}

/// A commit that is confirmed closes the transaction. Where the transaction changed the
/// schema, the observation is withdrawn; where it did not, it stays. The caller is told
/// of it as the worker was.
pub proof fn commits_close_the_transaction(
    r: &mut HandleRegistry,
    id: &str,
    outcome: CommitOutcome,
    answer: Result<Handle, CoreError>,
    k: int,
)
    requires
        old(r).wf(),
        is_known_at(*old(r), id@, k),
        outcome.wf(),
        call_ensures(
            HandleRegistry::publish_commit,
            (r, id, Ok::<CommitOutcome, WorkerError>(outcome)),
            answer,
        ),
    ensures
        answer is Ok <==> outcome.result is Ok,
        outcome.uncertain_or_invalidated ==> is_gone(*final(r), *old(r), k),
        !outcome.uncertain_or_invalidated ==> {
            let pre = old(r).view()[k];
            let post = final(r).view()[k];
            &&& becomes(*final(r), *old(r), k, post)
            &&& outcome.commit_confirmed ==> {
                &&& is_idle_again(post, pre)
                &&& answer is Ok ==> answer->Ok_0@ == post.handle
                &&& pre.transaction is Some && pre.transaction->0.pending_schema_change
                    ==> !post.handle.schema_observed
                &&& !(pre.transaction is Some && pre.transaction->0.pending_schema_change)
                    ==> post.handle.schema_observed == pre.handle.schema_observed
                    && post.handle.observation_generation == pre.handle.observation_generation
                &&& post.handle.schema_version == pre.handle.schema_version
                &&& post.handle.expired == pre.handle.expired
            }
            &&& !outcome.commit_confirmed && outcome.expired ==> is_idle_again(post, pre)
                && post.handle.expired && answer->Err_0 is TransactionExpired
            &&& !outcome.commit_confirmed && !outcome.expired && outcome.transaction_open ==> post
                == pre
            &&& !outcome.commit_confirmed && !outcome.expired && !outcome.transaction_open
                ==> is_idle_again(post, pre) && post.handle.expired == pre.handle.expired
        },
{
    lemma_known(*old(r), id@, k);
}

/// A transaction that idled away leaves a handle without one that says so; where none
/// did, nothing changes.
pub proof fn expiries_are_noted(r: &mut HandleRegistry, id: &str, expired: bool, answer: (), k: int)
    requires
        old(r).wf(),
        is_known_at(*old(r), id@, k),
        call_ensures(HandleRegistry::publish_expiry, (r, id, expired), answer),
    ensures
        !expired ==> becomes(*final(r), *old(r), k, old(r).view()[k]),
        expired ==> {
            let pre = old(r).view()[k];
            let post = final(r).view()[k];
            &&& becomes(*final(r), *old(r), k, post)
            &&& is_idle_again(post, pre)
            &&& post.handle.expired
            &&& pre.transaction matches Some(t) ==> post.handle.schema_observed == t.pre_observed
        },
{
    lemma_known(*old(r), id@, k);
}

/// A statement that failed leaves the transaction as it is, unless the failure says that
/// it is gone: one that idled away leaves an expired handle, one that was rolled back for
/// an interruption an idle one, and a handle that was lost is gone.
pub proof fn failed_statements_leave_the_transaction(
    r: &mut HandleRegistry,
    id: &str,
    failure: WorkerError,
    ddl_attempted: bool,
    expected: i64,
    probe: Option<i64>,
    answer: CoreError,
    k: int,
)
    requires
        old(r).wf(),
        is_known_at(*old(r), id@, k),
        call_ensures(
            HandleRegistry::fail_query,
            (r, id, failure, ddl_attempted, expected, probe),
            answer,
        ),
    ensures
        failure.says("TRANSACTION_EXPIRED"@) ==> {
            let post = final(r).view()[k];
            &&& answer is TransactionExpired
            &&& becomes(*final(r), *old(r), k, post)
            &&& is_idle_again(post, old(r).view()[k]) && post.handle.expired
        },
        !failure.says("TRANSACTION_EXPIRED"@) && failure.says("handle invalidated"@) ==> is_gone(
            *final(r),
            *old(r),
            k,
        ),
        !failure.says("TRANSACTION_EXPIRED"@) && !failure.says("handle invalidated"@) ==> {
            let pre = old(r).view()[k];
            let post = final(r).view()[k];
            &&& becomes(*final(r), *old(r), k, post)
            &&& failure is Interrupted && !failure->transaction_open ==> is_idle_again(post, pre)
            &&& !(failure is Interrupted && !failure->transaction_open) ==> {
                &&& post.handle == pre.handle
                &&& post.transaction is Some == pre.transaction is Some
                &&& !ddl_attempted || probe is None || probe == Some(expected) ==> post == pre
                &&& ddl_attempted && !(failure is Interrupted) && probe is Some && probe
                    != Some(expected) && !failure.says("outer transaction aborted"@)
                    && pre.transaction is Some ==> post.transaction->0.expected_version == probe->0
                    && post.transaction->0.pending_schema_change
            }
        },
        !failure.says("TRANSACTION_EXPIRED"@) && failure.says("SCHEMA_STALE"@) ==> answer
            is SchemaStale,
{
    lemma_known(*old(r), id@, k);
}

/// A new handle is listed last, without a transaction, and its file counts as open; all
/// others stay as they are.
pub proof fn new_handles_are_listed_last(
    r: &mut HandleRegistry,
    handle: Handle,
    identity: FileIdentity,
    max_handles: usize,
    answer: (),
)
    requires
        call_ensures(HandleRegistry::register, (r, handle, identity, max_handles), answer),
    ensures
        final(r).view().len() == old(r).view().len() + 1,
        final(r).view().last().handle == handle@,
        final(r).view().last().transaction is None,
        forall|k: int|
            0 <= k < old(r).view().len() ==> #[trigger] final(r).view()[k] == old(r).view()[k],
        final(r).files@.last().identity == identity,
        final(r).view().len() <= max_handles,
{
}

/// A handle that nobody knows is told to be unknown, and nothing changes.
pub proof fn unknown_handles_are_told(
    r: &HandleRegistry,
    id: &str,
    immediate: bool,
    begun: Result<i64, CoreError>,
    asked: Result<i64, CoreError>,
    commit: Result<(), CoreError>,
    open: Result<bool, CoreError>,
)
    requires
        is_unknown(*r, id@),
        call_ensures(HandleRegistry::check_begin, (r, id, immediate), begun),
        call_ensures(HandleRegistry::check_query, (r, id), asked),
        call_ensures(HandleRegistry::check_commit, (r, id), commit),
        call_ensures(HandleRegistry::transaction_open, (r, id), open),
    ensures
        begun matches Err(e) && e is UnknownHandle,
        asked matches Err(e) && e is UnknownHandle,
        commit matches Err(e) && e is UnknownHandle,
        open matches Err(e) && e is UnknownHandle,
{
    lemma_unknown(*r, id@);
}

/// A commit can be asked for exactly where no transaction idled away, and it is told
/// whether a transaction is open.
pub proof fn commits_need_a_live_transaction(
    r: &HandleRegistry,
    id: &str,
    commit: Result<(), CoreError>,
    open: Result<bool, CoreError>,
    k: int,
)
    requires
        r.wf(),
        is_known_at(*r, id@, k),
        call_ensures(HandleRegistry::check_commit, (r, id), commit),
        call_ensures(HandleRegistry::transaction_open, (r, id), open),
    ensures
        commit is Ok <==> !r.view()[k].handle.expired,
        commit is Err ==> commit->Err_0 is TransactionExpired,
        open == Ok::<bool, CoreError>(r.view()[k].handle.transaction_id is Some),
{
    lemma_known(*r, id@, k);
}

/// A transaction that could not begin leaves everything as it was, unless the handle was
/// lost.
pub proof fn failed_begins_change_nothing(
    r: &mut HandleRegistry,
    id: &str,
    failure: WorkerError,
    answer: CoreError,
    k: int,
)
    requires
        old(r).wf(),
        is_known_at(*old(r), id@, k),
        call_ensures(HandleRegistry::fail_begin, (r, id, failure), answer),
    ensures
        failure.says("SCHEMA_STALE"@) ==> answer is SchemaStale && *final(r) == *old(r),
        !failure.says("SCHEMA_STALE"@) && !failure.says("handle invalidated"@) ==> *final(r)
            == *old(r) && answer == error::classified(failure, false),
        !failure.says("SCHEMA_STALE"@) && failure.says("handle invalidated"@) ==> is_gone(
            *final(r),
            *old(r),
            k,
        ),
{
    lemma_known(*old(r), id@, k);
}

/// A shutdown takes every handle, in order.
pub proof fn shutdowns_take_every_handle(r: &mut HandleRegistry, names: Vec<String>, k: int)
    requires
        call_ensures(HandleRegistry::drain, (r,), names),
    ensures
        final(r).view().len() == 0,
        names@.len() == old(r).view().len(),
        0 <= k < names@.len() ==> names@[k]@ == old(r).view()[k].handle.id,
{
}

/// A handle that is forgotten is gone, whatever its state, and its file with it; no
/// other handle is touched.
pub proof fn forgotten_handles_are_gone(
    r: &mut HandleRegistry,
    id: &str,
    known: bool,
    k: int,
    asked: &HandleRegistry,
    used: bool,
)
    requires
        old(r).wf(),
        call_ensures(HandleRegistry::invalidate, (r, id), known),
        call_ensures(HandleRegistry::is_in_use, (asked, id), used),
    ensures
        is_known_at(*old(r), id@, k) ==> known && is_gone(*final(r), *old(r), k),
        is_unknown(*old(r), id@) ==> !known && final(r).view() == old(r).view(),
        used <==> exists|i: int|
            0 <= i < asked.files@.len() && (#[trigger] asked.files@[i]).handle@ == id@,
{
    if is_known_at(*old(r), id@, k) {
        lemma_known(*old(r), id@, k);
    }
    if is_unknown(*old(r), id@) {
        lemma_unknown(*old(r), id@);
    }
}

/// A schema that could not be read changes nothing, unless the handle was lost with it:
/// then the handle is gone. The caller is told the failure.
pub proof fn unread_schemas_change_nothing(
    r: &mut HandleRegistry,
    id: &str,
    failure: WorkerError,
    open: bool,
    answer: CoreError,
    told: CoreError,
    k: int,
)
    requires
        old(r).wf(),
        is_known_at(*old(r), id@, k),
        call_ensures(HandleRegistry::fail_schema, (r, id, failure, open), answer),
        call_ensures(error::classify_worker_error, (failure, open), told),
    ensures
        answer == told,
        failure.says("handle invalidated"@) ==> is_gone(*final(r), *old(r), k),
        !failure.says("handle invalidated"@) ==> *final(r) == *old(r),
{
    lemma_known(*old(r), id@, k);
}

/// The schema version is read again exactly behind a failed change of the schema whose
/// transaction is still there.
pub proof fn versions_are_read_again_after_changes(
    failure: &WorkerError,
    ddl_attempted: bool,
    r: bool,
)
    requires
        call_ensures(registry::probe_is_wanted, (failure, ddl_attempted), r),
    ensures
        r <==> ddl_attempted && !(*failure is Interrupted) && !failure.says("TRANSACTION_EXPIRED"@)
            && !failure.says("handle invalidated"@) && !failure.says("outer transaction aborted"@),
{
}

/// A failed statement is told as an expired transaction, as a stale schema, or as what
/// failed, in this order.
pub proof fn failed_statements_are_told(
    r: &mut HandleRegistry,
    id: &str,
    failure: WorkerError,
    ddl_attempted: bool,
    expected: i64,
    probe: Option<i64>,
    answer: CoreError,
    told: CoreError,
)
    requires
        old(r).wf(),
        call_ensures(
            HandleRegistry::fail_query,
            (r, id, failure, ddl_attempted, expected, probe),
            answer,
        ),
        call_ensures(error::classify_worker_error, (failure, true), told),
    ensures
        failure.says("TRANSACTION_EXPIRED"@) ==> answer is TransactionExpired,
        !failure.says("TRANSACTION_EXPIRED"@) && failure.says("SCHEMA_STALE"@) ==> answer
            is SchemaStale,
        !failure.says("TRANSACTION_EXPIRED"@) && !failure.says("SCHEMA_STALE"@) ==> answer == told,
{
}

} // verus!
