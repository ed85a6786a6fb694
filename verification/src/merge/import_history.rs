//! What holds of a whole import, from its start to its end.
use crate::merge::error::MergeError;
use crate::merge::import;
use crate::merge::import::{ImportAction, ImportReply, ImportRun, ImportStage};
use crate::merge::results::ImportResult;
use crate::policy::guard::PolicyError;
use vstd::prelude::*;
use vstd::utf8::*;

verus! {

/// A step of an import: where it stood, what it was told, whether the request was
/// cancelled by then, where it stands then and what it asks for.
pub struct ImportStep {
    pub run: ImportRun,
    pub reply: ImportReply,
    pub cancelled: bool,
    pub post: ImportRun,
    pub action: ImportAction,
}

/// Where an import stands behind some steps.
pub open spec fn run_after(first: ImportRun, steps: Seq<ImportStep>) -> ImportRun {
    if steps.len() == 0 {
        first
    } else {
        steps.last().post
    }
}

/// The step is one that the import can take.
pub open spec fn is_step(s: ImportStep) -> bool {
    &&& s.run.wf()
    &&& import::reply_fits(s.run.stage, s.reply)
    &&& s.run.leads_to(s.reply, s.cancelled, s.post, s.action)
    &&& s.post.wf()
}

/// The import asks for more.
pub open spec fn goes_on(action: ImportAction) -> bool {
    action is Perform || action is Execute
}

/// The steps follow each other from a start, and nothing follows the end.
pub open spec fn is_history(first: ImportRun, steps: Seq<ImportStep>) -> bool
    decreases steps.len(),
{
    if steps.len() == 0 {
        first.wf() && first.stage is Open && first.done == 0
    } else {
        let init = steps.drop_last();
        &&& is_history(first, init)
        &&& init.len() > 0 ==> goes_on(init.last().action)
        &&& steps.last().run == run_after(first, init)
        &&& is_step(steps.last())
    }
}

/// The number of planned statements.
pub open spec fn total(first: ImportRun) -> int {
    first.plan.statements@.len() as int
}

/// The planned statement with this number was asked to be run, as it stands in the
/// text, and it ran.
pub open spec fn statement_ran(first: ImportRun, steps: Seq<ImportStep>, k: int) -> bool {
    &&& steps[3 + k].action matches ImportAction::Execute(sql) && sql@ == import::statement_at(
        first.text@,
        first.plan.statements@,
        k,
    )
    &&& steps[4 + k].reply is Done
    &&& !steps[3 + k].cancelled
}

/// What the first `n` steps were told is all right: every statement ran, no foreign
/// key is violated, the database is intact, its image is within the limit, and the
/// output is still the file that was created.
pub open spec fn is_checked(first: ImportRun, steps: Seq<ImportStep>, n: int) -> bool {
    let t = total(first);
    &&& forall|k: int| 0 <= k < t && 4 + k < n ==> #[trigger] statement_ran(first, steps, k)
    &&& n > 4 + t ==> steps[4 + t].reply is Done
    &&& n > 5 + t ==> steps[5 + t].reply is Done
    &&& n > 6 + t ==> steps[6 + t].reply == ImportReply::Count(0)
    &&& n > 7 + t ==> (steps[7 + t].reply matches ImportReply::Text(message) && message@ == "ok"@)
    &&& n > 8 + t ==> (steps[8 + t].reply matches ImportReply::Size(size) && 0 < size
        <= first.image_limit)
    &&& n > 9 + t ==> steps[9 + t].reply is Done && steps[8 + t].action
        == ImportAction::Perform(ImportStage::Create)
    &&& n > 10 + t ==> steps[10 + t].reply is Done && steps[9 + t].action
        == ImportAction::Perform(ImportStage::Capture)
    &&& n > 11 + t ==> steps[11 + t].reply is Done && steps[10 + t].action
        == ImportAction::Perform(ImportStage::Write)
    &&& n > 12 + t ==> steps[12 + t].reply is Done && steps[11 + t].action
        == ImportAction::Perform(ImportStage::Sync)
    &&& n > 13 + t ==> steps[13 + t].reply is Done && steps[12 + t].action
        == ImportAction::Perform(ImportStage::SyncAgain)
    &&& n > 14 + t ==> steps[14 + t].reply == ImportReply::Owned(true)
    &&& n > 15 + t ==> steps[15 + t].reply is Done
    &&& n > 16 + t ==> steps[16 + t].reply is Text
    &&& n > 17 + t ==> steps[17 + t].reply is Count
}

spec fn knows(first: ImportRun, steps: Seq<ImportStep>) -> bool {
    let run = run_after(first, steps);
    let n = steps.len() as int;
    let t = total(first);
    &&& run.same_import(first)
    &&& import::step_number(run.stage, t as nat) == n
    &&& is_checked(first, steps, n)
    &&& n > 0 ==> match run.stage {
        ImportStage::Statement(i) => !steps.last().cancelled && (
        steps.last().action matches ImportAction::Execute(sql) && sql@ == import::statement_at(
            first.text@,
            first.plan.statements@,
            i as int,
        )),
        _ => steps.last().action == ImportAction::Perform(run.stage),
    }
    &&& n > 16 + t ==> (steps[16 + t].reply matches ImportReply::Text(mode) && run.journal_mode
        == mode)
    &&& n > 17 + t ==> (steps[17 + t].reply matches ImportReply::Count(objects) && run.objects
        == objects)
}

proof fn lemma_still_checked(first: ImportRun, init: Seq<ImportStep>, steps: Seq<ImportStep>)
    requires
        steps.len() == init.len() + 1,
        init == steps.drop_last(),
        is_checked(first, init, init.len() as int),
    ensures
        is_checked(first, steps, init.len() as int),
{
    let n = init.len() as int;
    let t = total(first);
    assert forall|i: int| 0 <= i < n implies #[trigger] steps[i] == init[i] by {}
    assert forall|k: int| 0 <= k < t && 4 + k < n implies #[trigger] statement_ran(
        first,
        steps,
        k,
    ) by {
        assert(statement_ran(first, init, k));
    }
}

#[verifier::spinoff_prover]
#[verifier::rlimit(60)]
proof fn lemma_knows(first: ImportRun, steps: Seq<ImportStep>)
    requires
        is_history(first, steps),
        steps.len() > 0 ==> goes_on(steps.last().action),
    ensures
        knows(first, steps),
    decreases steps.len(),
{
    if steps.len() > 0 {
        let init = steps.drop_last();
        let s = steps.last();
        let n = init.len() as int;
        let t = total(first);
        lemma_knows(first, init);
        lemma_still_checked(first, init, steps);
        assert(steps[n] == s);
        if n > 0 {
            assert(steps[n - 1] == init.last());
        }
        assert forall|i: int| 0 <= i < n implies #[trigger] steps[i] == init[i] by {}
        assert forall|k: int| 0 <= k < t && 4 + k < n + 1 implies #[trigger] statement_ran(
            first,
            steps,
            k,
        ) by {
            if 4 + k < n {
                assert(statement_ran(first, steps, k));
            } else {
                assert(s.run.stage == ImportStage::Statement(k as usize));
            }
        }
        assert(is_checked(first, steps, n + 1));
    }
}

/// An import finishes only where everything was done and everything was found in
/// order: every planned statement ran, one after the other and as it stands in the
/// text, the foreign key check counted no violation, the integrity check said that
/// all is well, the image was within its limit, and the output was the file that was
/// created. What it reports of the output is what was read from it.
pub proof fn finished_imports_are_checked(
    first: ImportRun,
    steps: Seq<ImportStep>,
    result: ImportResult,
)
    requires
        is_history(first, steps),
        steps.len() > 0,
        steps.last().action == ImportAction::Finish(result),
    ensures
        ({
            let t = total(first);
            &&& steps.len() == 19 + t
            &&& is_checked(first, steps, 18 + t)
            &&& steps[16 + t].reply matches ImportReply::Text(mode)
                && result.validation.journal_mode == mode
            &&& steps[17 + t].reply matches ImportReply::Count(objects)
                && result.validation.schema_summary.object_count == objects
            &&& steps[18 + t].reply matches ImportReply::Count(tables)
                && result.validation.schema_summary.table_count == tables
            &&& result.statement_count == t
            &&& result.byte_count == first.byte_count
            &&& result.output_path == first.output
            &&& result.output_state@ == "Committed"@
            &&& result.validation.foreign_key_check.ok
            &&& result.validation.foreign_key_check.violations == 0
            &&& result.validation.integrity_check.ok
            &&& result.validation.integrity_check.message@ == "ok"@
        }),
{
    let init = steps.drop_last();
    let t = total(first);
    lemma_knows(first, init);
    lemma_still_checked(first, init, steps);
    assert forall|i: int| 0 <= i < init.len() implies #[trigger] steps[i] == init[i] by {}
}

/// The output is created only behind the checks: no file is made for a database
/// with a violated foreign key, for one that is not intact or for one over its limit.
pub proof fn outputs_are_created_behind_the_checks(first: ImportRun, steps: Seq<ImportStep>)
    requires
        is_history(first, steps),
        steps.len() > 0,
        steps.last().action == ImportAction::Perform(ImportStage::Create),
    ensures
        ({
            let t = total(first);
            &&& steps.len() == 9 + t
            &&& forall|k: int| 0 <= k < t ==> #[trigger] statement_ran(first, steps, k)
            &&& steps[6 + t].reply == ImportReply::Count(0)
            &&& steps[7 + t].reply matches ImportReply::Text(message) && message@ == "ok"@
            &&& steps[8 + t].reply matches ImportReply::Size(size) && 0 < size <= first.image_limit
        }),
{
    lemma_knows(first, steps);
}

/// The step fails with this class and message.
pub open spec fn fails(s: ImportStep, class: Seq<char>, message: Seq<char>) -> bool {
    s.action matches ImportAction::Fail(e) && e.class@ == class && e.message@ == message
}

/// A database that breaks its foreign keys or is not intact is refused, and so is one
/// over its limit, and an output that is another file by then.
pub proof fn broken_databases_are_refused(s: ImportStep, n: u64, message: String, size: usize)
    requires
        is_step(s),
    ensures
        s.run.stage is ForeignKeyCheck && s.reply == ImportReply::Count(n) ==> if n > 0 {
            fails(s, "MERGE_VALIDATION_FAILED"@, "foreign_key_check reported violations"@)
        } else {
            s.action == ImportAction::Perform(ImportStage::IntegrityCheck)
        },
        s.run.stage is IntegrityCheck && s.reply == ImportReply::Text(message) ==> if message@
            != "ok"@ {
            fails(s, "MERGE_VALIDATION_FAILED"@, message@)
        } else {
            s.action == ImportAction::Perform(ImportStage::Serialize)
        },
        s.run.stage is Serialize && s.reply == ImportReply::Size(size) ==> if size == 0 || size
            > s.run.image_limit {
            fails(
                s,
                "MERGE_LIMIT_EXCEEDED"@,
                "serialized SQLite image exceeds configured limit"@,
            )
        } else {
            s.action == ImportAction::Perform(ImportStage::Create)
        },
        s.run.stage is Owned && s.reply == ImportReply::Owned(false) ==> fails(
            s,
            "MERGE_VALIDATION_FAILED"@,
            "output identity changed before validation"@,
        ),
        s.run.stage is Owned && s.reply == ImportReply::Owned(true) ==> s.action
            == ImportAction::Perform(ImportStage::Reopen),
        s.reply == ImportReply::Exists(message) ==> fails(s, "MERGE_OUTPUT_EXISTS"@, message@),
{
}

/// A step that fails ends the import, and what failed is the end of the message.
pub proof fn failed_steps_end_the_import(s: ImportStep, message: String, e: PolicyError)
    requires
        is_step(s),
        s.reply == ImportReply::Failed(message) || s.reply == ImportReply::Refused(e),
    ensures
        s.action matches ImportAction::Fail(error) && {
            &&& error.message@.len() >= (if s.reply is Failed {
                message@
            } else {
                e.message()
            }).len()
            &&& error.message@.skip(
                error.message@.len() - (if s.reply is Failed {
                    message@
                } else {
                    e.message()
                }).len(),
            ) == (if s.reply is Failed {
                message@
            } else {
                e.message()
            })
            &&& s.reply is Refused ==> error.class@ == "MERGE_FORMAT_INVALID"@
            &&& s.reply is Failed && s.run.stage is Statement ==> error.class@
                == "MERGE_POLICY_DENIED"@
            &&& s.reply is Failed && (s.run.stage is Create || s.run.stage is Write
                || s.run.stage is Sync || s.run.stage is SyncAgain) ==> error.class@
                == "MERGE_INPUT_INVALID"@
            &&& s.reply is Failed && (s.run.stage is Commit || s.run.stage is ForeignKeyCheck
                || s.run.stage is IntegrityCheck || s.run.stage is Reopen) ==> error.class@
                == "MERGE_VALIDATION_FAILED"@
        },
        s.post.done == s.run.done,
{
    let told = if s.reply is Failed {
        message@
    } else {
        e.message()
    };
    let said = import::failure_message(s.run.stage, told);
    assert(said.skip(said.len() - told.len()) =~= told);
}

/// A request that was cancelled runs no further statement.
pub proof fn cancelled_imports_run_nothing_more(s: ImportStep)
    requires
        is_step(s),
        s.cancelled,
    ensures
        !(s.action is Execute),
        s.run.stage is Begin && s.reply is Done && s.run.plan.statements@.len() > 0 ==> fails(
            s,
            "MERGE_LIMIT_EXCEEDED"@,
            "merge operation cancelled"@,
        ),
        s.run.stage matches ImportStage::Statement(i) && s.reply is Done && i + 1
            < s.run.plan.statements@.len() ==> fails(
            s,
            "MERGE_LIMIT_EXCEEDED"@,
            "merge operation cancelled"@,
        ),
{
}

/// Every call of [`ImportRun::step`] is a step of an import.
pub proof fn steps_are_steps_of_imports(
    run: &mut ImportRun,
    reply: ImportReply,
    cancelled: bool,
    action: ImportAction,
)
    requires
        old(run).wf(),
        import::reply_fits(old(run).stage, reply),
        call_ensures(ImportRun::step, (run, reply, cancelled), action),
    ensures
        is_step(ImportStep { run: *old(run), reply, cancelled, post: *final(run), action }),
{
}

/// The steps come in their order: the database is opened, guarded and begun, every
/// statement runs, the transaction is committed and its result checked, and only then
/// is the output created, written, looked at again and described.
pub proof fn imports_take_their_steps_in_order(first: ImportRun, steps: Seq<ImportStep>)
    requires
        is_history(first, steps),
        steps.len() > 0,
        goes_on(steps.last().action),
    ensures
        ({
            let t = total(first);
            let n = steps.len() as int;
            let action = steps.last().action;
            &&& n == 1 ==> action == ImportAction::Perform(ImportStage::Authorize)
            &&& n == 2 ==> action == ImportAction::Perform(ImportStage::ForeignKeysOff)
            &&& n == 3 ==> action == ImportAction::Perform(ImportStage::Begin)
            &&& 4 <= n < 4 + t ==> (action matches ImportAction::Execute(sql) && sql@ == decode_utf8(
                encode_utf8(first.text@).subrange(
                    first.plan.statements@[n - 4].0 as int,
                    first.plan.statements@[n - 4].1 as int,
                ),
            ))
            &&& n == 4 + t ==> action == ImportAction::Perform(ImportStage::Commit)
            &&& n == 5 + t ==> action == ImportAction::Perform(ImportStage::ForeignKeysOn)
            &&& n == 6 + t ==> action == ImportAction::Perform(ImportStage::ForeignKeyCheck)
            &&& n == 7 + t ==> action == ImportAction::Perform(ImportStage::IntegrityCheck)
            &&& n == 8 + t ==> action == ImportAction::Perform(ImportStage::Serialize)
            &&& n == 9 + t ==> action == ImportAction::Perform(ImportStage::Create)
            &&& n == 10 + t ==> action == ImportAction::Perform(ImportStage::Capture)
            &&& n == 11 + t ==> action == ImportAction::Perform(ImportStage::Write)
            &&& n == 12 + t ==> action == ImportAction::Perform(ImportStage::Sync)
            &&& n == 13 + t ==> action == ImportAction::Perform(ImportStage::SyncAgain)
            &&& n == 14 + t ==> action == ImportAction::Perform(ImportStage::Owned)
            &&& n == 15 + t ==> action == ImportAction::Perform(ImportStage::Reopen)
            &&& n == 16 + t ==> action == ImportAction::Perform(ImportStage::JournalMode)
            &&& n == 17 + t ==> action == ImportAction::Perform(ImportStage::ObjectCount)
            &&& n == 18 + t ==> action == ImportAction::Perform(ImportStage::TableCount)
            &&& n <= 18 + t
        }),
{
    lemma_knows(first, steps);
}

/// Only admitted statements run: one that is refused ends the import with its refusal,
/// before it runs.
pub proof fn refused_statements_do_not_run(
    s: ImportStep,
    sql: &str,
    i: usize,
    verdict: Result<(), MergeError>,
)
    requires
        is_step(s),
        !s.cancelled,
        s.run.stage is Begin && i == 0 || s.run.stage == ImportStage::Statement((i - 1) as usize)
            && i > 0,
        s.reply is Done,
        i < s.run.plan.statements@.len(),
        sql@ == decode_utf8(
            encode_utf8(s.run.text@).subrange(
                s.run.plan.statements@[i as int].0 as int,
                s.run.plan.statements@[i as int].1 as int,
            ),
        ),
        call_ensures(import::admit_statement, (&s.run.plan.baseline, sql, i as u64), verdict),
    ensures
        verdict is Ok ==> (s.action matches ImportAction::Execute(text) && text@ == sql@),
        verdict matches Err(refusal) ==> fails(s, refusal.class@, refusal.message@),
{
}

/// An import fails only for a reason: a step failed or was refused, the output exists or
/// is another file, a check found a fault, the image is empty or over its limit, the
/// next statement is not admitted, or the request was cancelled before it.
pub proof fn imports_fail_for_a_reason(s: ImportStep)
    requires
        is_step(s),
        s.action is Fail,
    ensures
        match s.reply {
            ImportReply::Failed(_) | ImportReply::Exists(_) | ImportReply::Refused(_) => true,
            ImportReply::Count(n) => s.run.stage is ForeignKeyCheck && n > 0,
            ImportReply::Text(message) => s.run.stage is IntegrityCheck && message@ != "ok"@,
            ImportReply::Size(n) => n == 0 || n > s.run.image_limit,
            ImportReply::Owned(owned) => !owned,
            ImportReply::Done => {
                let i = if s.run.stage is Begin {
                    0
                } else {
                    s.run.stage->Statement_0 + 1
                };
                &&& s.run.stage is Begin || s.run.stage is Statement
                &&& 0 <= i < s.run.plan.statements@.len()
                &&& s.cancelled || import::admission_fault(
                    s.run.plan.baseline@,
                    import::statement_at(s.run.text@, s.run.plan.statements@, i),
                    i as nat,
                ) is Some
            },
        },
{
}

/// The output is the import's own from the step that learns its identity on, and the
/// statements that ran are counted.
pub proof fn outputs_are_owned_once_captured(first: ImportRun, steps: Seq<ImportStep>)
    requires
        is_history(first, steps),
        steps.len() > 0,
        goes_on(steps.last().action),
    ensures
        steps.last().post.owner <==> steps.len() >= 11 + total(first),
        steps.len() <= 4 ==> steps.last().post.done == 0,
        4 <= steps.len() <= 4 + total(first) ==> steps.last().post.done == steps.len() - 4,
        steps.len() > 4 + total(first) ==> steps.last().post.done == total(first),
{
    lemma_knows(first, steps);
}

} // verus!
