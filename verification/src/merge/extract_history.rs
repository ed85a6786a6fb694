//! What holds of a whole extraction, from its start to its end.
use crate::merge::extract;
use crate::merge::extract::{ExtractAction, ExtractReply, ExtractRun, ExtractStage};
use crate::merge::results::{ExtractionResult, SourceObservation};
use crate::merge::schema;
use crate::merge::schema::SchemaStatement;
use crate::merge::snapshot;
use crate::merge::snapshot::TableSource;
use vstd::prelude::*;
use vstd::utf8::*;

verus! {

/// A step of an extraction: where it stood, what it was told, whether the request
/// was cancelled by then, where it stands then and what it asks for.
pub struct ExtractStep {
    pub run: ExtractRun,
    pub reply: ExtractReply,
    pub cancelled: bool,
    pub post: ExtractRun,
    pub action: ExtractAction,
}

/// Where an extraction stands behind some steps.
pub open spec fn run_after(first: ExtractRun, steps: Seq<ExtractStep>) -> ExtractRun {
    if steps.len() == 0 {
        first
    } else {
        steps.last().post
    }
}

/// The step is one that the extraction can take.
pub open spec fn is_step(s: ExtractStep) -> bool {
    &&& s.run.wf()
    &&& extract::extract_reply_fits(s.run, s.reply)
    &&& s.run.leads_to(s.reply, s.cancelled, s.post, s.action)
}

/// The extraction has only begun.
pub open spec fn is_fresh(run: ExtractRun) -> bool {
    &&& run.wf()
    &&& run.stage == ExtractStage::ObserveBefore(0)
}

/// The steps follow each other from a start, and nothing follows the end.
pub open spec fn is_history(first: ExtractRun, steps: Seq<ExtractStep>) -> bool
    decreases steps.len(),
{
    if steps.len() == 0 {
        is_fresh(first)
    } else {
        let init = steps.drop_last();
        &&& is_history(first, init)
        &&& init.len() > 0 ==> init.last().action is Perform
        &&& steps.last().run == run_after(first, init)
        &&& is_step(steps.last())
    }
}

/// What was seen of a source agrees in everything with what was seen of it before.
pub open spec fn saw_the_same(a: SourceObservation, b: SourceObservation) -> bool {
    a.main@ == b.main@ && a.rollback_journal@ == b.rollback_journal@ && a.wal@ == b.wal@ && a.shm@
        == b.shm@
}

/// The text of what was read of a source.
pub open spec fn text_of(
    label: Seq<char>,
    statements: Seq<SchemaStatement>,
    sources: Seq<TableSource>,
    limit: nat,
) -> Option<Seq<char>> {
    match snapshot::snapshot_text(label, schema::statement_views(statements), sources, limit) {
        Ok(v) => Some(v.0),
        Err(_) => None,
    }
}

/// The step at place `p` was told what was read of a source, and the text is the
/// whole of it.
pub open spec fn was_read(
    first: ExtractRun,
    steps: Seq<ExtractStep>,
    p: int,
    label: Seq<char>,
    text: Seq<char>,
) -> bool {
    &&& steps[p].reply matches ExtractReply::Snapshot { statements, sources } && text_of(
        label,
        statements@,
        sources@,
        first.statement_limit as nat,
    ) == Some(text)
    &&& encode_utf8(text).len() <= first.text_limit || steps.len() <= p + 2
}

/// The step at place `p` was told what was seen of a source that was there, which
/// stands at place `k` of all that was seen.
pub open spec fn was_seen(
    run: ExtractRun,
    steps: Seq<ExtractStep>,
    p: int,
    k: int,
) -> bool {
    steps[p].reply matches ExtractReply::Observed(o) && o == run.observations@[k] && (k % 2 == 0
        ==> o.main.present)
}

/// The step at place `p` was told that a file was written.
pub open spec fn was_written(
    steps: Seq<ExtractStep>,
    p: int,
    path: Option<String>,
    bytes: u64,
) -> bool {
    steps[p].reply == (ExtractReply::Written { path, bytes })
}

/// What the steps so far gave: each source is seen, read, let go and seen again, one
/// after the other, then the texts are written, and ours once more.
spec fn knows(first: ExtractRun, steps: Seq<ExtractStep>) -> bool {
    let run = run_after(first, steps);
    let n = steps.len() as int;
    &&& run.wf()
    &&& run.sources == first.sources
    &&& run.text_limit == first.text_limit
    &&& run.statement_limit == first.statement_limit
    &&& n <= 16 ==> extract::extract_step_number(run.stage) == n
    &&& n > 16 ==> extract::extract_step_number(run.stage) >= 16
    &&& n > 0 ==> steps.last().action == ExtractAction::Perform(run.stage)
    &&& n > 0 ==> was_seen(run, steps, 0, 0)
    &&& n > 1 ==> was_read(first, steps, 1, "base"@, run.texts@[0]@)
    &&& n > 2 ==> steps[2].reply is Done
    &&& n > 3 ==> was_seen(run, steps, 3, 1)
    &&& n > 4 ==> was_seen(run, steps, 4, 2)
    &&& n > 5 ==> was_read(first, steps, 5, "ours"@, run.texts@[1]@)
    &&& n > 6 ==> steps[6].reply is Done
    &&& n > 7 ==> was_seen(run, steps, 7, 3)
    &&& n > 8 ==> was_seen(run, steps, 8, 4)
    &&& n > 9 ==> was_read(first, steps, 9, "theirs"@, run.texts@[2]@)
    &&& n > 10 ==> steps[10].reply is Done
    &&& n > 11 ==> was_seen(run, steps, 11, 5)
    &&& n > 12 ==> was_written(steps, 12, run.files.base_sql, run.counts.base_sql)
    &&& n > 13 ==> was_written(steps, 13, run.files.ours_sql, run.counts.ours_sql)
    &&& n > 14 ==> was_written(steps, 14, run.files.theirs_sql, run.counts.theirs_sql)
    &&& n > 15 ==> was_written(steps, 15, run.files.resolved_sql, run.counts.resolved_sql)
}

#[verifier::spinoff_prover]
#[verifier::rlimit(80)]
proof fn lemma_knows(first: ExtractRun, steps: Seq<ExtractStep>)
    requires
        is_history(first, steps),
        steps.len() > 0 ==> steps.last().action is Perform,
    ensures
        knows(first, steps),
    decreases steps.len(),
{
    if steps.len() > 0 {
        let init = steps.drop_last();
        let s = steps.last();
        let n = init.len() as int;
        lemma_knows(first, init);
        assert(steps[n] == s);
        assert forall|i: int| 0 <= i < n implies #[trigger] steps[i] == init[i] by {}
        assert(s.run == run_after(first, init));
        assert(s.run.has_come_this_far());
        assert(s.run.reply_fault(s.reply) is None);
        if s.reply is Snapshot {
            assert forall|k: int| 0 <= k < s.run.texts@.len() implies s.post.texts@[k]
                == #[trigger] s.run.texts@[k] by {
                assert(s.post.texts@.drop_last()[k] == s.post.texts@[k]);
            }
        }
    }
}

/// An extraction finishes only where every source was seen, read and seen again and
/// did not change in between, every text is the whole of what was read of its source
/// and within its limit, and every file was written. What it reports is what it was
/// told: the observations in order, and of each file its path and its size.
pub proof fn finished_extractions_are_complete(
    first: ExtractRun,
    steps: Seq<ExtractStep>,
    workspace_path: String,
    manifest_path: String,
    result: ExtractionResult,
)
    requires
        is_history(first, steps),
        steps.len() > 0,
        steps.last().action is Finish,
        call_ensures(
            ExtractRun::finish,
            (steps.last().post, workspace_path, manifest_path),
            result,
        ),
    ensures
        steps.len() >= 18,
        steps[1].reply matches ExtractReply::Snapshot { statements, sources } && text_of(
            "base"@,
            statements@,
            sources@,
            first.statement_limit as nat,
        ) == Some(steps.last().post.texts@[0]@),
        steps[5].reply matches ExtractReply::Snapshot { statements, sources } && text_of(
            "ours"@,
            statements@,
            sources@,
            first.statement_limit as nat,
        ) == Some(steps.last().post.texts@[1]@),
        steps[9].reply matches ExtractReply::Snapshot { statements, sources } && text_of(
            "theirs"@,
            statements@,
            sources@,
            first.statement_limit as nat,
        ) == Some(steps.last().post.texts@[2]@),
        forall|k: int|
            0 <= k < 3 ==> encode_utf8((#[trigger] steps.last().post.texts@[k])@).len()
                <= first.text_limit,
        result.source_observations@.len() == 6,
        steps[0].reply == ExtractReply::Observed(result.source_observations@[0]),
        steps[3].reply == ExtractReply::Observed(result.source_observations@[1]),
        steps[4].reply == ExtractReply::Observed(result.source_observations@[2]),
        steps[7].reply == ExtractReply::Observed(result.source_observations@[3]),
        steps[8].reply == ExtractReply::Observed(result.source_observations@[4]),
        steps[11].reply == ExtractReply::Observed(result.source_observations@[5]),
        saw_the_same(result.source_observations@[0], result.source_observations@[1]),
        saw_the_same(result.source_observations@[2], result.source_observations@[3]),
        saw_the_same(result.source_observations@[4], result.source_observations@[5]),
        result.source_observations@[0].main.present,
        result.source_observations@[2].main.present,
        result.source_observations@[4].main.present,
        steps[12].reply == (ExtractReply::Written {
            path: result.files.base_sql,
            bytes: result.file_byte_counts.base_sql,
        }),
        steps[13].reply == (ExtractReply::Written {
            path: result.files.ours_sql,
            bytes: result.file_byte_counts.ours_sql,
        }),
        steps[14].reply == (ExtractReply::Written {
            path: result.files.theirs_sql,
            bytes: result.file_byte_counts.theirs_sql,
        }),
        steps[15].reply == (ExtractReply::Written {
            path: result.files.resolved_sql,
            bytes: result.file_byte_counts.resolved_sql,
        }),
        result.file_byte_counts.manifest == steps.last().post.manifest_size(),
        result.file_byte_counts.manifest <= 1_048_576,
        result.workspace_path == workspace_path,
        result.manifest_path == manifest_path,
        result.format_version == 1,
        result.workspace_state@ == "Retained"@,
        steps.last().reply is Done,
{
    let init = steps.drop_last();
    let s = steps.last();
    lemma_knows(first, init);
    assert forall|i: int| 0 <= i < init.len() implies #[trigger] steps[i] == init[i] by {}
    assert(s.run == run_after(first, init));
    assert(s.run.stage is WriteManifest);
    lemma_manifest_fits(first, init);
    extract::extractions_report_what_they_wrote(s.run, 0);
    extract::extractions_report_what_they_wrote(s.run, 1);
    extract::extractions_report_what_they_wrote(s.run, 2);
    assert forall|k: int| 0 <= k < 3 implies encode_utf8((#[trigger] s.post.texts@[k])@).len()
        <= first.text_limit by {
        assert(s.post.texts@[k] == s.run.texts@[k]);
    }
}

proof fn lemma_manifest_fits(first: ExtractRun, steps: Seq<ExtractStep>)
    requires
        is_history(first, steps),
        steps.len() > 0,
        steps.last().action is Perform,
        run_after(first, steps).stage is WriteManifest,
    ensures
        run_after(first, steps).counts.manifest <= 1_048_576,
        steps.len() >= 17,
{
    let init = steps.drop_last();
    lemma_knows(first, init);
    lemma_knows(first, steps);
}

/// The steps come in their order: each source is observed, read, let go and observed
/// again, one source after the other. Only then is anything written, first the texts
/// in the order of their sources, then ours as the resolved text, and the manifest
/// last.
pub proof fn sources_are_taken_one_after_the_other(first: ExtractRun, steps: Seq<ExtractStep>)
    requires
        is_history(first, steps),
        steps.len() > 0,
        steps.last().action is Perform,
    ensures
        steps.last().action == ExtractAction::Perform(
            if steps.len() == 1 {
                ExtractStage::Read(0)
            } else if steps.len() == 2 {
                ExtractStage::Release(0)
            } else if steps.len() == 3 {
                ExtractStage::ObserveAfter(0)
            } else if steps.len() == 4 {
                ExtractStage::ObserveBefore(1)
            } else if steps.len() == 5 {
                ExtractStage::Read(1)
            } else if steps.len() == 6 {
                ExtractStage::Release(1)
            } else if steps.len() == 7 {
                ExtractStage::ObserveAfter(1)
            } else if steps.len() == 8 {
                ExtractStage::ObserveBefore(2)
            } else if steps.len() == 9 {
                ExtractStage::Read(2)
            } else if steps.len() == 10 {
                ExtractStage::Release(2)
            } else if steps.len() == 11 {
                ExtractStage::ObserveAfter(2)
            } else if steps.len() == 12 {
                ExtractStage::Write(0)
            } else if steps.len() == 13 {
                ExtractStage::Write(1)
            } else if steps.len() == 14 {
                ExtractStage::Write(2)
            } else if steps.len() == 15 {
                ExtractStage::Resolve
            } else if steps.len() == 16 {
                ExtractStage::Manifest(0)
            } else {
                steps.last().post.stage
            },
        ),
        steps.len() > 16 ==> steps.last().post.stage is Manifest
            || steps.last().post.stage is WriteManifest,
        steps.last().post.stage matches ExtractStage::Manifest(k) ==> k < 4,
{
    lemma_knows(first, steps);
}

/// A step that failed ends the extraction with its message, one that was refused with
/// the refusal.
pub proof fn failed_steps_end_the_extraction(s: ExtractStep)
    requires
        is_step(s),
    ensures
        s.reply matches ExtractReply::Failed(m) ==> (s.action matches ExtractAction::Fail(e)
            && e.class@ == "MERGE_INPUT_INVALID"@ && e.message@ == m@),
        s.reply matches ExtractReply::Refused(refusal) ==> (s.action matches ExtractAction::Fail(e)
            && e.class@ == refusal.class@ && e.message@ == refusal.message@),
{
}

/// A failure leaves the extraction where it stood: what was read and written until then
/// is what the failure tells of. The sources and the limits never change.
pub proof fn failures_keep_what_was_done(s: ExtractStep)
    requires
        is_step(s),
    ensures
        s.action is Fail && s.run.reply_fault(s.reply) is Some ==> {
            &&& s.post.stage == s.run.stage
            &&& s.post.files == s.run.files
            &&& s.post.counts == s.run.counts
            &&& s.post.texts@ == s.run.texts@
            &&& s.post.observations@ == s.run.observations@
        },
        s.post.sources == s.run.sources,
        s.post.text_limit == s.run.text_limit,
        s.post.statement_limit == s.run.statement_limit,
{
}

/// A source that is gone, one that changed while it was read, and a text or a
/// manifest over its limit end the extraction, each with its own message.
pub proof fn unfit_sources_are_refused(s: ExtractStep)
    requires
        is_step(s),
    ensures
        s.run.stage is ObserveBefore && (s.reply matches ExtractReply::Observed(o)
            && !o.main.present) ==> (s.action matches ExtractAction::Fail(e) && e.class@
            == "MERGE_INPUT_INVALID"@ && e.message@ == "source disappeared before open"@),
        s.run.stage is ObserveAfter && (s.reply matches ExtractReply::Observed(o)
            && !saw_the_same(s.run.observations@.last(), o)) ==> (
        s.action matches ExtractAction::Fail(e) && e.class@ == "MERGE_INPUT_INVALID"@ && e.message@
            == "source "@ + (if s.run.stage == ExtractStage::ObserveAfter(0) {
            "base"@
        } else if s.run.stage == ExtractStage::ObserveAfter(1) {
            "ours"@
        } else {
            "theirs"@
        }) + " changed during extraction"@),
        s.run.stage is Release && s.reply is Done && encode_utf8(s.run.texts@.last()@).len()
            > s.run.text_limit ==> (s.action matches ExtractAction::Fail(e) && e.class@
            == "MERGE_LIMIT_EXCEEDED"@ && e.message@ == (if s.run.stage == ExtractStage::Release(0) {
            "base"@
        } else if s.run.stage == ExtractStage::Release(1) {
            "ours"@
        } else {
            "theirs"@
        }) + ".sql exceeds configured text limit"@),
        (s.reply matches ExtractReply::Size(n) && n > 1_048_576) ==> (
        s.action matches ExtractAction::Fail(e) && e.class@ == "MERGE_LIMIT_EXCEEDED"@ && e.message@
            == "manifest exceeds fixed limit"@),
{
}

/// An extraction ends without a result only for a reason: a step failed or was
/// refused, a source was gone or changed, a statement, a text or the manifest is over
/// its limit, or the request was cancelled.
pub proof fn extractions_fail_for_a_reason(s: ExtractStep)
    requires
        is_step(s),
        s.action is Fail,
    ensures
        match s.reply {
            ExtractReply::Failed(_) | ExtractReply::Refused(_) => true,
            ExtractReply::Observed(o) => s.cancelled || !o.main.present || (
            s.run.stage is ObserveAfter && !saw_the_same(s.run.observations@.last(), o)),
            ExtractReply::Snapshot { statements, sources } => text_of(
                extract::label_of(s.run.stage->Read_0 as int),
                statements@,
                sources@,
                s.run.statement_limit as nat,
            ) is None,
            ExtractReply::Written { .. } => s.cancelled,
            ExtractReply::Size(n) => n > 1_048_576,
            ExtractReply::Done => s.run.stage is Release && encode_utf8(
                s.run.texts@.last()@,
            ).len() > s.run.text_limit,
        },
{
}

/// Of a cancelled request no further source is observed and no further text written.
pub proof fn cancelled_extractions_start_nothing_more(s: ExtractStep)
    requires
        is_step(s),
        s.cancelled,
    ensures
        s.action matches ExtractAction::Perform(next) ==> !(next is ObserveBefore)
            && !(next is Write),
        (s.run.stage is ObserveAfter || s.run.stage == ExtractStage::Write(0) || s.run.stage
            == ExtractStage::Write(1)) && s.action is Fail && !(s.reply is Failed) && !(
        s.reply is Refused) && (s.reply matches ExtractReply::Observed(o) ==> saw_the_same(
            s.run.observations@.last(),
            o,
        )) ==> (s.action matches ExtractAction::Fail(e) && e.class@ == "MERGE_LIMIT_EXCEEDED"@
            && e.message@ == "merge operation cancelled"@),
{
}

/// A manifest is written down again until it says its own size, four times at most.
pub proof fn manifests_are_written_once_settled(s: ExtractStep)
    requires
        is_step(s),
        s.run.stage is Manifest,
        s.reply is Size,
        s.action is Perform,
    ensures
        s.post.counts.manifest == s.reply->Size_0,
        s.action == ExtractAction::Perform(
            if s.run.counts.manifest == s.reply->Size_0 || s.run.stage == ExtractStage::Manifest(
                3,
            ) {
                ExtractStage::WriteManifest
            } else {
                ExtractStage::Manifest((s.run.stage->Manifest_0 + 1) as u8)
            },
        ),
{
}

/// Every step of a run is a step as it is meant here.
pub proof fn steps_are_steps_of_extractions(
    run: &mut ExtractRun,
    reply: ExtractReply,
    cancelled: bool,
    action: ExtractAction,
)
    requires
        old(run).wf(),
        extract::extract_reply_fits(*old(run), reply),
        call_ensures(ExtractRun::step, (run, reply, cancelled), action),
    ensures
        is_step(
            ExtractStep { run: *old(run), reply, cancelled, post: *final(run), action },
        ),
{
}

/// Every extraction starts fresh, and one that is cancelled before does nothing.
pub proof fn extractions_start_fresh(
    sources: Vec<String>,
    text_limit: usize,
    statement_limit: usize,
    cancelled: bool,
    r: (ExtractRun, ExtractAction),
)
    requires
        call_ensures(ExtractRun::start, (sources, text_limit, statement_limit, cancelled), r),
    ensures
        is_history(r.0, Seq::empty()),
        r.0.sources == sources,
        r.0.text_limit == text_limit,
        r.0.statement_limit == statement_limit,
        r.1 is Perform <==> !cancelled,
        !cancelled ==> r.1 == ExtractAction::Perform(ExtractStage::ObserveBefore(0)),
        cancelled ==> (r.1 matches ExtractAction::Fail(e) && e.class@ == "MERGE_LIMIT_EXCEEDED"@
            && e.message@ == "merge operation cancelled"@),
{
}

} // verus!
