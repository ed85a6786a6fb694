//! What holds of a whole run of statements, from its start to its end.
use crate::policy::decision::MutationSignal;
use crate::policy::getter::is_approved_getter;
use crate::policy::guard;
use crate::policy::guard::{check_maintenance, check_stored_body, PolicyError};
use crate::server::batch;
use crate::server::batch::{BatchAction, BatchReply, BatchRun, BatchStage};
use crate::server::query::QueryResult;
use crate::text;
use crate::worker::error::{SqliteFailure, WorkerError};
use vstd::prelude::*;

verus! {

/// A step of a run: where it stood, what it was told, where it stands then and what
/// it asks for.
pub struct BatchStep {
    pub run: BatchRun,
    pub reply: BatchReply,
    pub post: BatchRun,
    pub action: BatchAction,
}

/// Where a run stands behind some steps.
pub open spec fn run_after(first: BatchRun, steps: Seq<BatchStep>) -> BatchRun {
    if steps.len() == 0 {
        first
    } else {
        steps.last().post
    }
}

/// The step is one that the run can take.
pub open spec fn is_step(s: BatchStep) -> bool {
    s.run.wf() && s.run.fits(s.reply) && s.run.leads_to(s.reply, s.post, s.action) && s.post.wf()
}

/// The steps follow each other from a start.
pub open spec fn is_history(first: BatchRun, steps: Seq<BatchStep>) -> bool
    decreases steps.len(),
{
    if steps.len() == 0 {
        first.wf() && first.stage is Entering && first.count == 0 && first.results@.len() == 0
            && first.schema_before == first.expected
    } else {
        &&& is_history(first, steps.drop_last())
        &&& steps.last().run == run_after(first, steps.drop_last())
        &&& is_step(steps.last())
    }
}

/// What the statements returned, in the order in which they did.
pub open spec fn returned(steps: Seq<BatchStep>) -> Seq<QueryResult>
    decreases steps.len(),
{
    if steps.len() == 0 {
        Seq::empty()
    } else {
        let before = returned(steps.drop_last());
        match steps.last().reply {
            BatchReply::Returned { result, bytes: _ } => before.push(result),
            _ => before,
        }
    }
}

/// The texts that were asked to be run, in the order in which they were.
pub open spec fn executed(steps: Seq<BatchStep>) -> Seq<Seq<char>>
    decreases steps.len(),
{
    if steps.len() == 0 {
        Seq::empty()
    } else {
        let before = executed(steps.drop_last());
        match steps.last().action {
            BatchAction::Execute { sql, approved_getter: _ } => before.push(sql@),
            _ => before,
        }
    }
}

/// The step before the last asked to look for a statement that is to run.
pub open spec fn was_sought(steps: Seq<BatchStep>) -> bool {
    steps.len() > 1 && steps[steps.len() - 2].action is Seek
}

/// The statements that were found to be run, in the order of the text.
pub open spec fn found(steps: Seq<BatchStep>) -> Seq<Seq<char>>
    decreases steps.len(),
{
    if steps.len() == 0 {
        Seq::empty()
    } else {
        let before = found(steps.drop_last());
        match steps.last().reply {
            BatchReply::Found(Ok(Some(sql))) if was_sought(steps) => before.push(sql@),
            _ => before,
        }
    }
}

/// The schema version that was read last.
pub open spec fn last_version(steps: Seq<BatchStep>) -> Option<i64>
    decreases steps.len(),
{
    if steps.len() == 0 {
        None
    } else {
        match steps.last().reply {
            BatchReply::Version(Ok(v)) => Some(v),
            _ => last_version(steps.drop_last()),
        }
    }
}

/// The savepoints that are open: each is opened for one statement, and closed
/// before the next one is.
pub open spec fn open_savepoints(steps: Seq<BatchStep>) -> int
    decreases steps.len(),
{
    if steps.len() < 2 {
        0
    } else {
        open_savepoints(steps.drop_last()) + if steps.last().reply matches BatchReply::Done(Ok(_)) {
            match steps[steps.len() - 2].action {
                BatchAction::Savepoint => 1int,
                BatchAction::Restore | BatchAction::Release => -1int,
                _ => 0int,
            }
        } else {
            0int
        }
    }
}

/// The settings of the run did not change.
spec fn is_same_run(first: BatchRun, run: BatchRun) -> bool {
    &&& run.single == first.single
    &&& run.statement_limit == first.statement_limit
    &&& run.byte_limit == first.byte_limit
    &&& run.schema_before == first.schema_before
}

spec fn as_sequence<T>(o: Option<T>) -> Seq<T> {
    match o {
        Some(x) => seq![x],
        None => Seq::empty(),
    }
}

spec fn as_text(o: Option<String>) -> Seq<Seq<char>> {
    match o {
        Some(x) => seq![x@],
        None => Seq::empty(),
    }
}

/// What a run knows of its steps while it goes on.
spec fn knows(first: BatchRun, steps: Seq<BatchStep>) -> bool {
    let run = run_after(first, steps);
    &&& is_same_run(first, run)
    &&& first.schema_before == first.expected
    &&& match run.stage {
        BatchStage::Overflowing(bytes) => returned(steps).len() == run.results@.len() + 1
            && returned(steps).drop_last() == run.results@ && bytes > first.byte_limit,
        _ => returned(steps) == run.results@ + as_sequence(run.returned),
    }
    &&& found(steps) == executed(steps) + as_text(run.current)
    &&& executed(steps).len() == run.results@.len() + match run.stage {
        BatchStage::Executing | BatchStage::Overflowing(_) | BatchStage::Recovering
        | BatchStage::Releasing | BatchStage::Settling => 1int,
        _ => 0int,
    }
    &&& open_savepoints(steps) == match run.stage {
        BatchStage::Executing | BatchStage::Overflowing(_) | BatchStage::Recovering
        | BatchStage::Releasing => 1int,
        _ => 0int,
    }
    &&& run.stage is Seeking || run.stage is ValidatingFirst || run.stage is ValidatingSecond
        || run.stage is Checking ==> last_version(steps) == Some(run.expected)
    &&& run.results@.len() == 0 ==> run.expected == first.expected
    &&& steps.len() > 0 ==> match run.stage {
        BatchStage::Seeking => steps.last().action is Seek,
        BatchStage::ValidatingFirst | BatchStage::ValidatingSecond => steps.last().action
            is Validate,
        BatchStage::Saving => steps.last().action is Savepoint,
        BatchStage::Overflowing(_) | BatchStage::Recovering => steps.last().action is Restore,
        BatchStage::Releasing => steps.last().action is Release,
        BatchStage::Executing => steps.last().action is Execute,
        BatchStage::ReadingEntry | BatchStage::Checking | BatchStage::Settling => {
            steps.last().action is ReadVersion
        },
        _ => false,
    }
    &&& steps.len() == 0 ==> run.stage is Entering
}

proof fn lemma_run_knows(first: BatchRun, steps: Seq<BatchStep>)
    requires
        is_history(first, steps),
        !(run_after(first, steps).stage is Ended),
    ensures
        knows(first, steps),
    decreases steps.len(),
{
    if steps.len() == 0 {
        assert(returned(steps) =~= first.results@ + as_sequence(first.returned));
        assert(found(steps) =~= executed(steps) + as_text(first.current));
    } else {
        let init = steps.drop_last();
        let s = steps.last();
        lemma_run_knows(first, init);
        assert(s.run == run_after(first, init));
        if steps.len() > 1 {
            assert(steps[steps.len() - 2] == init.last());
        }
        assert(found(steps) =~= executed(steps) + as_text(s.post.current));
        match s.post.stage {
            BatchStage::Overflowing(_) => {
                assert(returned(steps).drop_last() =~= s.post.results@);
            },
            _ => {
                assert(returned(steps) =~= s.post.results@ + as_sequence(s.post.returned));
            },
        }
    }
}

/// A run that finishes gives one result for each statement of the text, in the
/// order of the text: the statements that ran are those that were found, and result
/// `i` is what statement `i` returned. It reports the schema version from which it
/// started and the one that was read last.
pub proof fn results_belong_to_their_statements(first: BatchRun, steps: Seq<BatchStep>)
    requires
        is_history(first, steps),
        steps.len() > 0,
        steps.last().action is Finish,
    ensures
        steps.last().action matches BatchAction::Finish { results, schema_before, schema_after } && {
            &&& results@ == returned(steps)
            &&& executed(steps) == found(steps)
            &&& results@.len() == executed(steps).len() >= 1
            &&& schema_before == first.expected
            &&& last_version(steps) == Some(schema_after)
            &&& open_savepoints(steps) == 0
            &&& if first.single {
                results@.len() == 1
            } else {
                results@.len() <= first.statement_limit
            }
        },
{
    let init = steps.drop_last();
    let s = steps.last();
    lemma_run_knows(first, init);
    if steps.len() > 1 {
        assert(steps[steps.len() - 2] == init.last());
    }
    assert(returned(steps) =~= s.run.results@);
    assert(found(steps) =~= executed(steps));
}

/// A statement runs only inside a savepoint of its own that was just opened, and
/// never two at once.
pub proof fn statements_run_in_savepoints(first: BatchRun, steps: Seq<BatchStep>)
    requires
        is_history(first, steps),
        steps.len() > 0,
        steps.last().action is Execute,
    ensures
        steps.last().reply matches BatchReply::Done(Ok(_)),
        steps.len() > 1 && steps[steps.len() - 2].action is Savepoint,
        open_savepoints(steps) == 1,
        steps.last().action matches BatchAction::Execute { sql, approved_getter: _ } && sql@
            == found(steps).last(),
        executed(steps).len() == returned(steps).len() + 1,
{
    let init = steps.drop_last();
    lemma_run_knows(first, init);
    lemma_run_knows(first, steps);
    assert(init.len() > 0);
    assert(steps[steps.len() - 2] == init.last());
    assert(found(steps) =~= executed(steps));
}

/// A statement that returns more than is allowed is undone, and the run answers
/// that; one that fails is undone too, and the run answers what SQLite said. In
/// both cases no statement comes after it.
pub proof fn undone_statements_end_the_run(
    first: BatchRun,
    steps: Seq<BatchStep>,
    undone: bool,
)
    requires
        is_history(first, steps),
        steps.len() > 1,
        steps[steps.len() - 2].action is Restore,
        steps.last().reply matches BatchReply::Done(done) && done is Ok == undone,
    ensures
        steps.last().action matches BatchAction::Fail(e) && if !undone {
            e.is_message("savepoint restoration failed; handle invalidated"@)
        } else {
            match steps[steps.len() - 2].reply {
                BatchReply::Returned { result: _, bytes } => bytes > first.byte_limit && e
                    == (WorkerError::ResultTooLarge {
                    retained_bytes: bytes,
                    limit: first.byte_limit,
                }),
                BatchReply::Failed { failure, autocommit } => !autocommit && e
                    == WorkerError::Sqlite(failure),
                _ => false,
            }
        },
{
    let init = steps.drop_last();
    let prior = init.last();
    reveal_with_fuel(is_history, 3);
    assert(steps[steps.len() - 2] == prior);
    assert(is_step(prior));
    assert(steps.last().run == prior.post);
    lemma_run_knows(first, init.drop_last());
    lemma_run_knows(first, init);
}

/// What a statement returned is let through exactly where it is within the limit.
pub proof fn results_within_the_limit_are_kept(first: BatchRun, steps: Seq<BatchStep>)
    requires
        is_history(first, steps),
        steps.len() > 0,
    ensures
        steps.last().reply matches BatchReply::Returned { result: _, bytes } ==> if bytes
            <= first.byte_limit {
            steps.last().action is Release
        } else {
            steps.last().action is Restore
        },
{
    let init = steps.drop_last();
    lemma_run_knows(first, init);
}

/// A statement runs only under the schema version that the statement before it
/// left: a version read before a statement that is another one ends the run.
pub proof fn stale_schemas_stop_the_run(
    first: BatchRun,
    steps: Seq<BatchStep>,
    version: i64,
)
    requires
        is_history(first, steps),
        steps.len() > 1,
        steps.last().reply == BatchReply::Version(Ok::<i64, SqliteFailure>(version)),
        steps[steps.len() - 2].action is ReadVersion,
        !(steps[steps.len() - 2].reply is Done),
    ensures
        ({
            let known = match last_version(steps.drop_last()) {
                Some(v) => v,
                None => first.expected,
            };
            version != known ==> (steps.last().action matches BatchAction::Fail(e)
                && e.is_message("SCHEMA_STALE"@))
        }),
        first.expected != version && last_version(steps.drop_last()) is None ==> steps.last().action is Fail,
{
    let init = steps.drop_last();
    let prior = init.last();
    reveal_with_fuel(is_history, 3);
    assert(steps[steps.len() - 2] == prior);
    assert(is_step(prior));
    lemma_run_knows(first, init);
    lemma_run_knows(first, init.drop_last());
    if prior.run.stage is Entering {
        lemma_no_version(first, init.drop_last());
    }
}

proof fn lemma_no_version(first: BatchRun, steps: Seq<BatchStep>)
    requires
        is_history(first, steps),
        run_after(first, steps).stage is Entering,
    ensures
        last_version(steps) is None,
{
    if steps.len() > 0 {
        lemma_run_knows(first, steps);
    }
}

/// Where the text holds nothing, the answer says so, and where no transaction is
/// open nothing is read.
pub proof fn empty_texts_are_refused(first: BatchRun, steps: Seq<BatchStep>)
    requires
        is_history(first, steps),
        steps.len() > 0,
        steps.last().reply == BatchReply::Found(Ok::<Option<String>, SqliteFailure>(None)),
        found(steps).len() == 0,
        steps.len() > 1 && !(first.single && steps[steps.len() - 2].reply is Found),
    ensures
        steps.last().action matches BatchAction::Fail(e) && e.is_message("SQL is empty"@),
{
    let init = steps.drop_last();
    lemma_run_knows(first, init);
    reveal_with_fuel(is_history, 3);
    assert(steps[steps.len() - 2] == init.last());
    assert(is_step(init.last()));
}

/// Nothing runs outside a transaction.
pub proof fn runs_need_a_transaction(first: BatchRun, steps: Seq<BatchStep>)
    requires
        is_history(first, steps),
        steps.len() > 0,
        steps.last().reply == BatchReply::Autocommit(true),
    ensures
        steps.last().action matches BatchAction::Fail(e) && e.is_message("transaction required"@),
        executed(steps).len() == 0,
{
    lemma_run_knows(first, steps.drop_last());
}

/// Every call of [`BatchRun::step`] is a step of a run.
pub proof fn steps_are_steps_of_runs(
    run: &mut BatchRun,
    reply: BatchReply,
    signal: &mut MutationSignal,
    action: BatchAction,
)
    requires
        old(run).wf(),
        old(run).fits(reply),
        call_ensures(BatchRun::step, (run, reply, signal), action),
    ensures
        is_step(BatchStep { run: *old(run), reply, post: *final(run), action }),
{
}

/// A statement that was found runs exactly where the guards let it through and its
/// schema version is the expected one; what a guard refuses is answered with the
/// refusal, and nothing of it runs.
pub proof fn guards_come_before_statements(
    s: BatchStep,
    sql: &str,
    body_signal: &mut MutationSignal,
    body: Result<(), PolicyError>,
    maintenance: Result<(), PolicyError>,
)
    requires
        is_step(s),
        s.run.stage is Checking,
        s.reply == BatchReply::Version(Ok::<i64, SqliteFailure>(s.run.expected)),
        s.run.current->0@ == sql@,
        call_ensures(check_stored_body, (sql, body_signal), body),
        call_ensures(check_maintenance, (sql,), maintenance),
    ensures
        body is Ok && maintenance is Ok ==> s.action is Savepoint && s.post.current
            == s.run.current,
        body is Err ==> (s.action matches BatchAction::Fail(e) && e.is_message(
            "statement is denied by SQL policy: "@ + "statement is denied by SQL policy"@,
        )),
        body is Ok && maintenance is Err ==> (s.action matches BatchAction::Fail(e) && e.is_message(
            "statement is denied by SQL policy: "@
                + "maintenance operations (ANALYZE, REINDEX) are denied"@,
        )),
{
}

/// A statement runs with its own text, and as the reading of a setting exactly where it
/// is one.
pub proof fn statements_run_as_they_are(s: BatchStep, sql: &str, approved: bool)
    requires
        is_step(s),
        s.run.stage is Saving,
        s.reply == BatchReply::Done(Ok::<(), SqliteFailure>(())),
        s.run.current->0@ == sql@,
        call_ensures(is_approved_getter, (sql,), approved),
    ensures
        s.action matches BatchAction::Execute { sql: text, approved_getter } && text@ == sql@
            && approved_getter == approved,
{
}

/// As many statements run as are allowed and no more: one where only one is asked for,
/// else up to the limit.
pub proof fn statements_are_bounded(first: BatchRun, steps: Seq<BatchStep>, sql: String)
    requires
        is_history(first, steps),
        was_sought(steps),
        steps.last().reply == BatchReply::Found(Ok::<Option<String>, SqliteFailure>(Some(sql))),
        found(steps).len() < usize::MAX,
    ensures
        first.single && found(steps).len() > 1 ==> (steps.last().action matches BatchAction::Fail(e)
            && e.is_message("multiple SQL statements are not allowed"@)),
        !first.single && found(steps).len() > first.statement_limit ==> (
        steps.last().action matches BatchAction::Fail(e) && e.is_message(
            "batch statement limit exceeded (limit "@ + text::decimal(first.statement_limit as nat)
                + ")"@,
        )),
        (if first.single {
            found(steps).len() == 1
        } else {
            found(steps).len() <= first.statement_limit
        }) ==> steps.last().action is ReadVersion,
{
    let init = steps.drop_last();
    lemma_run_knows(first, init);
    assert(steps[steps.len() - 2] == init.last());
    assert(found(steps).len() == found(init).len() + 1);
}

/// Where one statement is asked for, the text is looked through before anything runs,
/// and a second statement, or text behind the first that SQLite refuses, refuses all.
pub proof fn single_statements_stand_alone(s: BatchStep, found: Result<Option<String>, SqliteFailure>)
    requires
        is_step(s),
        s.reply == BatchReply::Found(found),
    ensures
        s.run.stage is ValidatingFirst ==> match found {
            Ok(Some(_)) => s.action is Validate && s.post.stage is ValidatingSecond,
            Ok(None) => s.action matches BatchAction::Fail(e) && e.is_message("SQL is empty"@),
            Err(failure) => s.action == BatchAction::Fail(WorkerError::Sqlite(failure)),
        },
        s.run.stage is ValidatingSecond ==> match found {
            Ok(None) => s.action is Seek,
            _ => s.action matches BatchAction::Fail(e) && e.is_message(
                "multiple SQL statements are not allowed"@,
            ),
        },
        s.run.stage is Seeking ==> (found matches Err(failure) ==> s.action == BatchAction::Fail(
            WorkerError::Sqlite(failure),
        )),
{
}

/// A statement that failed and took the transaction with it ends the run and says so; one
/// that left it is undone.
pub proof fn lost_transactions_end_the_run(s: BatchStep, failure: SqliteFailure, autocommit: bool)
    requires
        is_step(s),
        s.reply == (BatchReply::Failed { failure, autocommit }),
    ensures
        autocommit ==> (s.action matches BatchAction::Fail(e) && e.is_message(
            "outer transaction aborted: "@ + failure.text@,
        )),
        !autocommit ==> s.action is Restore,
{
}

/// A run fails only for a reason: SQLite failed, no transaction is open, a schema is
/// stale, the text is empty or holds too much, a guard refused a statement, or a
/// statement failed or returned too much and was undone.
pub proof fn runs_fail_for_a_reason(s: BatchStep)
    requires
        is_step(s),
        s.action is Fail,
    ensures
        match s.reply {
            BatchReply::Autocommit(autocommit) => autocommit,
            BatchReply::Version(Ok(v)) => v != s.run.expected || s.run.stage is Checking
                && batch::guard_fault(s.run.current->0@) is Some,
            BatchReply::Version(Err(_)) => true,
            BatchReply::Found(Err(_)) => true,
            BatchReply::Found(Ok(None)) => s.run.results@.len() == 0 && !(
            s.run.stage is ValidatingSecond),
            BatchReply::Found(Ok(Some(_))) => s.run.stage is ValidatingSecond || s.run.stage is Seeking
                && (if s.run.single {
                s.run.count >= 1
            } else {
                s.run.count >= s.run.statement_limit || s.run.count == usize::MAX
            }),
            BatchReply::Done(Err(_)) => true,
            BatchReply::Done(Ok(_)) => s.run.stage is Overflowing || s.run.stage is Recovering,
            BatchReply::Failed { autocommit, .. } => autocommit,
            BatchReply::Returned { .. } => false,
        },
{
}

/// A run starts with nothing found and nothing run, under the settings that it is given.
pub proof fn runs_start_empty(
    single: bool,
    statement_limit: usize,
    byte_limit: usize,
    expected: i64,
    r: BatchRun,
)
    requires
        call_ensures(BatchRun::start, (single, statement_limit, byte_limit, expected), r),
    ensures
        is_history(r, Seq::empty()),
        r.single == single,
        r.statement_limit == statement_limit,
        r.byte_limit == byte_limit,
        r.expected == expected,
        r.results@.len() == 0,
{
}

/// A statement that stores a body counts as a change of the schema before it runs, and
/// no other step of a run marks anything.
pub proof fn stored_bodies_are_marked(
    run: &mut BatchRun,
    reply: BatchReply,
    signal: &mut MutationSignal,
    action: BatchAction,
)
    requires
        old(run).wf(),
        old(run).fits(reply),
        call_ensures(BatchRun::step, (run, reply, signal), action),
    ensures
        old(run).stage is Checking && reply == BatchReply::Version(
            Ok::<i64, SqliteFailure>(old(run).expected),
        ) && guard::stored_body(old(run).current->0@) is Some ==> final(signal).attempted
            && final(signal).ddl,
        !(old(run).stage is Checking) || guard::stored_body(old(run).current->0@) is None
            ==> *final(signal) == *old(signal),
{
}

} // verus!
