//! Extraction of three databases into a merge workspace.
//!
//! An [`ExtractRun`] decides every step. The steps themselves touch databases
//! and the file system; whoever runs them hands each outcome back.
use crate::merge::error::{ExtractionDetails, MergeDetails, MergeError};
use crate::merge::manifest;
use crate::merge::manifest::manifest_text;
use crate::merge::results::{ExtractionResult, FileByteCounts, Files, SourceObservation};
use crate::merge::schema;
use crate::merge::schema::SchemaStatement;
use crate::merge::snapshot;
use crate::merge::snapshot::{extract_one, TableSource};
use crate::merge::source;
use crate::merge::source::is_unchanged;
use crate::text;
use vstd::prelude::*;
use vstd::utf8::*;

verus! {

/// The largest manifest in bytes.
pub const MANIFEST_BYTE_LIMIT: usize = 1024 * 1024;

/// How often the manifest is written down to settle its own size.
pub const MANIFEST_ATTEMPTS: u8 = 4;

/// The name of a source: the common base, ours or theirs.
pub open spec fn label_of(i: int) -> Seq<char> {
    if i == 0 {
        "base"@
    } else if i == 1 {
        "ours"@
    } else {
        "theirs"@
    }
}

/// The name of a source.
pub fn label_text(i: usize) -> (r: &'static str)
    ensures
        r@ == label_of(i as int),
{
    if i == 0 {
        "base"
    } else if i == 1 {
        "ours"
    } else {
        "theirs"
    }
}

/// A step of the extraction. Sources are numbered from zero to two.
#[derive(Debug, Clone, Copy, PartialEq, Eq, Structural)]
pub enum ExtractStage {
    /// Observe the source before it is opened.
    ObserveBefore(usize),
    /// Open the source read-only, begin a transaction and read schema and tables.
    Read(usize),
    /// End the transaction.
    Release(usize),
    /// Observe the source again.
    ObserveAfter(usize),
    /// Write the text of the source.
    Write(usize),
    /// Copy the text of ours to the resolved file.
    Resolve,
    /// Render the manifest with the current sizes and give its size.
    Manifest(u8),
    /// Write the manifest.
    WriteManifest,
}

/// The outcome of a step.
#[derive(Debug)]
pub enum ExtractReply {
    Done,
    /// It failed with this message.
    Failed(String),
    /// It failed with this error.
    Refused(MergeError),
    Observed(SourceObservation),
    Snapshot { statements: Vec<SchemaStatement>, sources: Vec<TableSource> },
    Written { path: Option<String>, bytes: u64 },
    Size(usize),
}

/// What to do next.
#[derive(Debug)]
pub enum ExtractAction {
    Perform(ExtractStage),
    /// Everything is written; see [`ExtractRun::finish`].
    Finish,
    /// The extraction failed; see [`ExtractRun::conclude`].
    Fail(MergeError),
}

/// A running extraction.
#[derive(Debug)]
pub struct ExtractRun {
    /// The canonical paths of the three databases.
    pub sources: Vec<String>,
    pub text_limit: usize,
    pub statement_limit: usize,
    pub stage: ExtractStage,
    /// The texts that were extracted so far.
    pub texts: Vec<String>,
    pub observations: Vec<SourceObservation>,
    pub files: Files,
    pub counts: FileByteCounts,
}

/// The step after a successful one; none after the last.
pub open spec fn extract_stage_after(stage: ExtractStage, settled: bool) -> Option<ExtractStage> {
    match stage {
        ExtractStage::ObserveBefore(i) => Some(ExtractStage::Read(i)),
        ExtractStage::Read(i) => Some(ExtractStage::Release(i)),
        ExtractStage::Release(i) => Some(ExtractStage::ObserveAfter(i)),
        ExtractStage::ObserveAfter(i) => Some(
            if i < 2 {
                ExtractStage::ObserveBefore((i + 1) as usize)
            } else {
                ExtractStage::Write(0)
            },
        ),
        ExtractStage::Write(i) => Some(
            if i < 2 {
                ExtractStage::Write((i + 1) as usize)
            } else {
                ExtractStage::Resolve
            },
        ),
        ExtractStage::Resolve => Some(ExtractStage::Manifest(0)),
        ExtractStage::Manifest(k) => Some(
            if settled || k + 1 >= MANIFEST_ATTEMPTS {
                ExtractStage::WriteManifest
            } else {
                ExtractStage::Manifest((k + 1) as u8)
            },
        ),
        ExtractStage::WriteManifest => None,
    }
}

/// How far a step is from the start.
pub open spec fn extract_step_number(stage: ExtractStage) -> int {
    match stage {
        ExtractStage::ObserveBefore(i) => 4 * i,
        ExtractStage::Read(i) => 4 * i + 1,
        ExtractStage::Release(i) => 4 * i + 2,
        ExtractStage::ObserveAfter(i) => 4 * i + 3,
        ExtractStage::Write(i) => 12 + i,
        ExtractStage::Resolve => 15,
        ExtractStage::Manifest(k) => 16 + k,
        ExtractStage::WriteManifest => 16 + MANIFEST_ATTEMPTS as int,
    }
}

/// An extraction takes its steps one after the other: every source is observed,
/// read and observed again before anything is written, and only a manifest that
/// says its own size early leaves attempts at it out.
pub proof fn extraction_takes_steps_in_order(run: ExtractRun, settled: bool)
    requires
        run.has_come_this_far(),
    ensures
        match extract_stage_after(run.stage, settled) {
            Some(next) => extract_step_number(next) == extract_step_number(run.stage) + 1
                || run.stage is Manifest && next is WriteManifest && settled,
            None => run.stage is WriteManifest,
        },
        0 <= extract_step_number(run.stage) <= extract_step_number(ExtractStage::WriteManifest),
        run.stage is Write || run.stage is Resolve || run.stage is Manifest
            || run.stage is WriteManifest ==> run.texts@.len() == 3 && run.observations@.len() == 6,
{
}

/// What an extraction reports is true of what it wrote: the manifest says its own
/// size, every text is of the size said, and the observations are those of the three
/// sources, before and after each was read.
pub proof fn extractions_report_what_they_wrote(run: ExtractRun, i: int)
    requires
        run.wf(),
        run.stage is WriteManifest,
        0 <= i < 3,
    ensures
        run.counts.manifest == run.manifest_size(),
        run.counts.base_sql == encode_utf8(run.texts@[0]@).len(),
        run.counts.ours_sql == encode_utf8(run.texts@[1]@).len(),
        run.counts.theirs_sql == encode_utf8(run.texts@[2]@).len(),
        run.observations@.len() == 6,
        is_of(run.observations@[2 * i], i, "before"@),
        is_of(run.observations@[2 * i + 1], i, "after"@),
        source::unchanged(run.observations@[2 * i], run.observations@[2 * i + 1]),
{
    assert(is_in_place(run.observations@, 2 * i));
    assert(is_in_place(run.observations@, 2 * i + 1));
    assert(pair_agrees(run.observations@, i));
}

/// A step before which the request's cancellation is looked at.
pub open spec fn looks_at_cancellation(stage: ExtractStage) -> bool {
    stage is ObserveBefore || stage is Write
}

/// What was seen of the given source in the given phase.
pub open spec fn is_of(o: SourceObservation, i: int, phase: Seq<char>) -> bool {
    o.label@ == label_of(i) && o.phase@ == phase
}

/// The outcomes that a step can have.
pub open spec fn extract_reply_fits(run: ExtractRun, reply: ExtractReply) -> bool {
    match reply {
        ExtractReply::Failed(_) | ExtractReply::Refused(_) => true,
        ExtractReply::Observed(o) => match run.stage {
            ExtractStage::ObserveBefore(i) => is_of(o, i as int, "before"@),
            ExtractStage::ObserveAfter(i) => is_of(o, i as int, "after"@),
            _ => false,
        },
        ExtractReply::Snapshot { statements, sources } => run.stage is Read && sources@.len()
            == snapshot::table_count(schema::statement_views(statements@)) && forall|k: int|
            0 <= k < sources@.len() ==> snapshot::names_fit(#[trigger] sources@[k]),
        ExtractReply::Written { bytes, .. } => match run.stage {
            ExtractStage::Write(i) => bytes == encode_utf8(run.texts@[i as int]@).len(),
            ExtractStage::Resolve => true,
            _ => false,
        },
        ExtractReply::Size(n) => run.stage is Manifest && n == run.manifest_size(),
        ExtractReply::Done => run.stage is Release || run.stage is WriteManifest,
    }
}

/// The text that a snapshot reply stands for.
pub open spec fn reply_text(
    stage: ExtractStage,
    statements: Seq<SchemaStatement>,
    sources: Seq<TableSource>,
    limit: nat,
) -> Result<(Seq<char>, nat), (Seq<char>, Seq<char>)> {
    snapshot::snapshot_text(
        label_of(stage->Read_0 as int),
        schema::statement_views(statements),
        sources,
        limit,
    )
}

pub open spec fn invalid_input(message: Seq<char>) -> (Seq<char>, Seq<char>) {
    ("MERGE_INPUT_INVALID"@, message)
}

/// The two observations of a source agree in everything.
pub open spec fn pair_agrees(observations: Seq<SourceObservation>, k: int) -> bool {
    source::unchanged(observations[2 * k], observations[2 * k + 1])
}

/// Every source that was observed twice did not change in between.
pub open spec fn pairs_agree(observations: Seq<SourceObservation>) -> bool {
    forall|k: int| 0 <= k && 2 * k + 1 < observations.len() ==> #[trigger] pair_agrees(observations, k)
}

/// The first `n` texts are within the limit.
pub open spec fn texts_fit(texts: Seq<String>, n: int, limit: usize) -> bool {
    forall|k: int| 0 <= k < n ==> encode_utf8((#[trigger] texts[k])@).len() <= limit
}

/// An observation is that of its place: two for each source, before and after it
/// was read.
pub open spec fn is_in_place(observations: Seq<SourceObservation>, k: int) -> bool {
    is_of(
        observations[k],
        k / 2,
        if k % 2 == 0 {
            "before"@
        } else {
            "after"@
        },
    )
}

/// Every observation is that of its place.
pub open spec fn all_in_place(observations: Seq<SourceObservation>) -> bool {
    forall|k: int| 0 <= k < observations.len() ==> #[trigger] is_in_place(observations, k)
}

impl ExtractRun {
    /// The size in bytes of the manifest as it would be written now.
    pub open spec fn manifest_size(self) -> nat {
        encode_utf8(
            manifest::manifest_json(
                text::views(self.sources@),
                self.observations@,
                self.files,
                self.counts,
            ),
        ).len()
    }

    /// The size that the manifest says of itself after a number of attempts.
    pub open spec fn attempted_size(self, attempts: nat) -> nat {
        manifest::attempted_size(
            text::views(self.sources@),
            self.observations@,
            self.files,
            self.counts,
            attempts,
        )
    }

    /// The sizes are those of the texts written so far. The manifest says nothing of
    /// its size at first, then what the attempts gave, and in the end its own size.
    pub open spec fn sizes_hold(self) -> bool {
        let n = match self.stage {
            ExtractStage::Write(i) => i as int,
            ExtractStage::Resolve | ExtractStage::Manifest(_) | ExtractStage::WriteManifest => 3,
            _ => 0,
        };
        &&& n > 0 ==> self.counts.base_sql == encode_utf8(self.texts@[0]@).len()
        &&& n > 1 ==> self.counts.ours_sql == encode_utf8(self.texts@[1]@).len()
        &&& n > 2 ==> self.counts.theirs_sql == encode_utf8(self.texts@[2]@).len()
        &&& match self.stage {
            ExtractStage::Manifest(k) => self.counts.manifest == self.attempted_size(k as nat),
            ExtractStage::WriteManifest => self.counts.manifest == self.manifest_size(),
            _ => self.counts.manifest == 0,
        }
    }

    /// How many texts were held against the limit.
    pub open spec fn checked_texts(self) -> int {
        match self.stage {
            ExtractStage::ObserveBefore(i) | ExtractStage::Read(i) | ExtractStage::Release(i) => {
                i as int
            },
            ExtractStage::ObserveAfter(i) => i + 1,
            _ => 3,
        }
    }

    /// The texts and observations are those of the steps so far. What was read is
    /// within its limit, no source changed while it was read, and the sizes are those
    /// of what was written.
    pub open spec fn wf(self) -> bool {
        &&& self.has_come_this_far()
        &&& pairs_agree(self.observations@)
        &&& all_in_place(self.observations@)
        &&& self.sizes_hold()
        &&& texts_fit(self.texts@, self.checked_texts(), self.text_limit)
    }

    /// There are as many texts and observations as the steps so far gave.
    pub open spec fn has_come_this_far(self) -> bool {
        match self.stage {
            ExtractStage::ObserveBefore(i) => i < 3 && self.texts@.len() == i
                && self.observations@.len() == 2 * i,
            ExtractStage::Read(i) => i < 3 && self.texts@.len() == i && self.observations@.len()
                == 2 * i + 1,
            ExtractStage::Release(i) | ExtractStage::ObserveAfter(i) => i < 3 && self.texts@.len()
                == i + 1 && self.observations@.len() == 2 * i + 1,
            ExtractStage::Write(i) => i < 3 && self.texts@.len() == 3 && self.observations@.len()
                == 6,
            ExtractStage::Manifest(k) => k < MANIFEST_ATTEMPTS && self.texts@.len() == 3
                && self.observations@.len() == 6,
            _ => self.texts@.len() == 3 && self.observations@.len() == 6,
        }
    }

    /// What is wrong with the outcome of the current step, if anything is.
    pub open spec fn reply_fault(self, reply: ExtractReply) -> Option<(Seq<char>, Seq<char>)> {
        match reply {
            ExtractReply::Failed(m) => Some(invalid_input(m@)),
            ExtractReply::Refused(e) => Some(e.fault()),
            ExtractReply::Observed(o) => match self.stage {
                ExtractStage::ObserveBefore(_) => if o.main.present {
                    None
                } else {
                    Some(invalid_input("source disappeared before open"@))
                },
                ExtractStage::ObserveAfter(i) => if source::unchanged(self.observations@.last(), o) {
                    None
                } else {
                    Some(
                        invalid_input(
                            "source "@ + label_of(i as int) + " changed during extraction"@,
                        ),
                    )
                },
                _ => None,
            },
            ExtractReply::Snapshot { statements, sources } => match reply_text(
                self.stage,
                statements@,
                sources@,
                self.statement_limit as nat,
            ) {
                Err(fault) => Some(fault),
                Ok(_) => None,
            },
            ExtractReply::Size(n) => if n > MANIFEST_BYTE_LIMIT {
                Some(("MERGE_LIMIT_EXCEEDED"@, "manifest exceeds fixed limit"@))
            } else {
                None
            },
            ExtractReply::Done => match self.stage {
                ExtractStage::Release(i) => if encode_utf8(self.texts@.last()@).len()
                    > self.text_limit {
                    Some(
                        (
                            "MERGE_LIMIT_EXCEEDED"@,
                            label_of(i as int) + ".sql exceeds configured text limit"@,
                        ),
                    )
                } else {
                    None
                },
                _ => None,
            },
            ExtractReply::Written { .. } => None,
        }
    }

    /// The sizes after an outcome that is not refused.
    pub open spec fn counts_after(self, reply: ExtractReply) -> FileByteCounts {
        match (self.stage, reply) {
            (ExtractStage::Write(i), ExtractReply::Written { bytes, .. }) => if i == 0 {
                FileByteCounts { base_sql: bytes, ..self.counts }
            } else if i == 1 {
                FileByteCounts { ours_sql: bytes, ..self.counts }
            } else {
                FileByteCounts { theirs_sql: bytes, ..self.counts }
            },
            (ExtractStage::Resolve, ExtractReply::Written { bytes, .. }) => FileByteCounts {
                resolved_sql: bytes,
                ..self.counts
            },
            (ExtractStage::Manifest(_), ExtractReply::Size(n)) => FileByteCounts {
                manifest: n as u64,
                ..self.counts
            },
            _ => self.counts,
        }
    }

    /// The files after an outcome that is not refused.
    pub open spec fn files_after(self, reply: ExtractReply) -> Files {
        match (self.stage, reply) {
            (ExtractStage::Write(i), ExtractReply::Written { path, .. }) => if i == 0 {
                Files { base_sql: path, ..self.files }
            } else if i == 1 {
                Files { ours_sql: path, ..self.files }
            } else {
                Files { theirs_sql: path, ..self.files }
            },
            (ExtractStage::Resolve, ExtractReply::Written { path, .. }) => Files {
                resolved_sql: path,
                ..self.files
            },
            _ => self.files,
        }
    }

    /// The manifest says its own size.
    pub open spec fn is_settled(self, reply: ExtractReply) -> bool {
        reply matches ExtractReply::Size(n) && self.counts.manifest == n
    }

    /// Where an outcome leads from here: to another state, and to what is asked for.
    pub open spec fn leads_to(
        self,
        reply: ExtractReply,
        cancelled: bool,
        post: ExtractRun,
        action: ExtractAction,
    ) -> bool {
        &&& post.sources == self.sources
        &&& post.text_limit == self.text_limit
        &&& post.statement_limit == self.statement_limit
        &&& match self.reply_fault(reply) {
            Some(fault) => {
                &&& action matches ExtractAction::Fail(e) && e.fault() == fault
                &&& post.stage == self.stage
                &&& post.files == self.files
                &&& post.counts == self.counts
                &&& post.texts@ == self.texts@
                &&& post.observations@ == self.observations@
            },
            None => {
                &&& post.wf()
                &&& post.counts == self.counts_after(reply)
                &&& post.files == self.files_after(reply)
                &&& match reply {
                    ExtractReply::Observed(o) => post.observations@ == self.observations@.push(o),
                    _ => post.observations@ == self.observations@,
                }
                &&& match reply {
                    ExtractReply::Snapshot { statements, sources } => {
                        &&& post.texts@.len() == self.texts@.len() + 1
                        &&& post.texts@.drop_last() == self.texts@
                        &&& reply_text(
                            self.stage,
                            statements@,
                            sources@,
                            self.statement_limit as nat,
                        ) matches Ok(v) && post.texts@.last()@ == v.0
                    },
                    _ => post.texts@ == self.texts@,
                }
                &&& match extract_stage_after(self.stage, self.is_settled(reply)) {
                    None => action is Finish && post.stage == self.stage,
                    Some(next) => post.stage == next && if looks_at_cancellation(next)
                        && cancelled {
                        action matches ExtractAction::Fail(e) && e.fault()
                            == cancelled_extraction()
                    } else {
                        action == ExtractAction::Perform(next)
                    },
                }
            },
        }
    }

    /// An attempt at the manifest gives the next size, and the last one settles it.
    proof fn lemma_attempt(self, before: ExtractRun, n: nat)
        requires
            before.wf(),
            before.stage is Manifest,
            n == before.manifest_size(),
            n <= MANIFEST_BYTE_LIMIT,
            self == (ExtractRun {
                counts: FileByteCounts { manifest: n as u64, ..before.counts },
                ..before
            }),
        ensures
            n == self.attempted_size((before.stage->Manifest_0 + 1) as nat),
            before.counts.manifest == n || before.stage->Manifest_0 == 3 ==> n
                == self.manifest_size(),
    {
        let k = before.stage->Manifest_0 as nat;
        let sources = text::views(before.sources@);
        let observations = before.observations@;
        let files = before.files;
        let counts = before.counts;
        manifest::lemma_attempted_size(sources, observations, files, counts, self.counts, k);
        manifest::lemma_attempted_size(sources, observations, files, counts, self.counts, k + 1);
        let said = manifest::attempted_size(sources, observations, files, counts, k);
        assert(manifest::counts_saying(counts, said) == counts);
        assert(n == manifest::attempted_size(sources, observations, files, counts, k + 1));
        assert(manifest::counts_saying(counts, n) == self.counts);
        if k == 3 {
            manifest::manifests_differ_by_digits(sources, observations, files, counts, said);
            assert(text::decimal(said).len() > 0);
            manifest::four_attempts_settle(sources, observations, files, counts);
        }
    }

    /// Starts an extraction. The first step is to observe the base, unless the
    /// request is cancelled by then.
    pub fn start(
        sources: Vec<String>,
        text_limit: usize,
        statement_limit: usize,
        cancelled: bool,
    ) -> (r: (Self, ExtractAction))
        ensures
            r.0.wf(),
            r.0.sources == sources,
            r.0.text_limit == text_limit,
            r.0.statement_limit == statement_limit,
            r.0.stage == ExtractStage::ObserveBefore(0),
            r.0.files == no_files(),
            r.0.counts == no_counts(),
            if cancelled {
                r.1 matches ExtractAction::Fail(e) && e.fault() == cancelled_extraction()
                    && e.details is Null
            } else {
                r.1 == ExtractAction::Perform(ExtractStage::ObserveBefore(0))
            },
    {
        let run = ExtractRun {
            sources,
            text_limit,
            statement_limit,
            stage: ExtractStage::ObserveBefore(0),
            texts: Vec::new(),
            observations: Vec::new(),
            files: Files { base_sql: None, ours_sql: None, theirs_sql: None, resolved_sql: None },
            counts: FileByteCounts {
                base_sql: 0,
                ours_sql: 0,
                theirs_sql: 0,
                resolved_sql: 0,
                manifest: 0,
            },
        };
        let action = if cancelled {
            ExtractAction::Fail(
                MergeError::new("MERGE_LIMIT_EXCEEDED", "merge operation cancelled"),
            )
        } else {
            ExtractAction::Perform(ExtractStage::ObserveBefore(0))
        };
        (run, action)
    }

    /// Takes the outcome of the current step and says what to do next.
    /// `cancelled` says whether the request is cancelled by now; it is looked at
    /// before each source is observed and before each text is written.
    pub fn step(&mut self, reply: ExtractReply, cancelled: bool) -> (r: ExtractAction)
        requires
            old(self).wf(),
            extract_reply_fits(*old(self), reply),
        ensures
            final(self).sources == old(self).sources,
            final(self).text_limit == old(self).text_limit,
            final(self).statement_limit == old(self).statement_limit,
            old(self).leads_to(reply, cancelled, *final(self), r),
            match old(self).reply_fault(reply) {
                Some(fault) => {
                    &&& r matches ExtractAction::Fail(e) && e.fault() == fault
                    &&& final(self).stage == old(self).stage
                    &&& final(self).files == old(self).files
                    &&& final(self).counts == old(self).counts
                    &&& final(self).texts@ == old(self).texts@
                    &&& final(self).observations@ == old(self).observations@
                },
                None => {
                    &&& final(self).counts == old(self).counts_after(reply)
                    &&& final(self).files == old(self).files_after(reply)
                    &&& match reply {
                        ExtractReply::Observed(o) => final(self).observations@ == old(
                            self,
                        ).observations@.push(o),
                        _ => final(self).observations@ == old(self).observations@,
                    }
                    &&& match reply {
                        ExtractReply::Snapshot { statements, sources } => {
                            &&& final(self).texts@.len() == old(self).texts@.len() + 1
                            &&& final(self).texts@.drop_last() == old(self).texts@
                            &&& reply_text(
                                old(self).stage,
                                statements@,
                                sources@,
                                old(self).statement_limit as nat,
                            ) matches Ok(v) && final(self).texts@.last()@ == v.0
                        },
                        _ => final(self).texts@ == old(self).texts@,
                    }
                    &&& match extract_stage_after(old(self).stage, old(self).is_settled(reply)) {
                        None => r is Finish && final(self).stage == old(self).stage && final(
                            self).wf(),
                        Some(next) => final(self).stage == next && final(self).wf()
                            && if looks_at_cancellation(next) && cancelled {
                            r matches ExtractAction::Fail(e) && e.fault() == cancelled_extraction()
                        } else {
                            r == ExtractAction::Perform(next)
                        },
                    }
                },
            },
    {
        let stage = self.stage;
        let mut settled = false;
        match reply {
            ExtractReply::Failed(m) => {
                return ExtractAction::Fail(MergeError::with_message("MERGE_INPUT_INVALID", m));
            },
            ExtractReply::Refused(e) => {
                return ExtractAction::Fail(e);
            },
            ExtractReply::Observed(o) => {
                match stage {
                    ExtractStage::ObserveBefore(_) => {
                        if !o.main.present {
                            return ExtractAction::Fail(
                                MergeError::new(
                                    "MERGE_INPUT_INVALID",
                                    "source disappeared before open",
                                ),
                            );
                        }
                    },
                    ExtractStage::ObserveAfter(i) => {
                        let before = &self.observations[self.observations.len() - 1];
                        if !is_unchanged(before, &o) {
                            let mut m = "source ".to_owned();
                            m.append(label_text(i));
                            m.append(" changed during extraction");
                            return ExtractAction::Fail(
                                MergeError::with_message("MERGE_INPUT_INVALID", m),
                            );
                        }
                    },
                    _ => {},
                }
                let ghost seen = self.observations@;
                self.observations.push(o);
                assert(pairs_agree(self.observations@)) by {
                    assert forall|k: int|
                        0 <= k && 2 * k + 1 < self.observations@.len() implies #[trigger] pair_agrees(
                        self.observations@,
                        k,
                    ) by {
                        if 2 * k + 1 < seen.len() {
                            assert(pair_agrees(seen, k));
                        }
                    }
                }
                assert(all_in_place(self.observations@)) by {
                    assert forall|k: int|
                        0 <= k < self.observations@.len() implies #[trigger] is_in_place(
                        self.observations@,
                        k,
                    ) by {
                        if k < seen.len() {
                            assert(is_in_place(seen, k));
                        }
                    }
                }
            },
            ExtractReply::Snapshot { statements, sources } => {
                let label = match stage {
                    ExtractStage::Read(i) => label_text(i),
                    _ => "",
                };
                let mut out = String::new();
                match extract_one(label, &statements, &sources, &mut out, self.statement_limit) {
                    Err(e) => return ExtractAction::Fail(e),
                    Ok(_) => {},
                }
                proof {
                    let t = reply_text(
                        stage,
                        statements@,
                        sources@,
                        self.statement_limit as nat,
                    )->Ok_0.0;
                    assert(Seq::<char>::empty() + t =~= t);
                }
                let ghost before = self.texts@;
                self.texts.push(out);
                assert(self.texts@.drop_last() =~= before);
            },
            ExtractReply::Written { path, bytes } => match stage {
                ExtractStage::Write(i) => if i == 0 {
                    self.files.base_sql = path;
                    self.counts.base_sql = bytes;
                } else if i == 1 {
                    self.files.ours_sql = path;
                    self.counts.ours_sql = bytes;
                } else {
                    self.files.theirs_sql = path;
                    self.counts.theirs_sql = bytes;
                },
                _ => {
                    self.files.resolved_sql = path;
                    self.counts.resolved_sql = bytes;
                },
            },
            ExtractReply::Size(n) => {
                if n > MANIFEST_BYTE_LIMIT {
                    return ExtractAction::Fail(
                        MergeError::new("MERGE_LIMIT_EXCEEDED", "manifest exceeds fixed limit"),
                    );
                }
                settled = self.counts.manifest == n as u64;
                self.counts.manifest = n as u64;
                proof {
                    self.lemma_attempt(*old(self), n as nat);
                }
            },
            ExtractReply::Done => {
                if let ExtractStage::Release(i) = stage {
                    let text = &self.texts[self.texts.len() - 1];
                    if text.as_str().as_bytes().len() > self.text_limit {
                        let mut m = label_text(i).to_owned();
                        m.append(".sql exceeds configured text limit");
                        return ExtractAction::Fail(
                            MergeError::with_message("MERGE_LIMIT_EXCEEDED", m),
                        );
                    }
                }
            },
        }
        let next = match stage {
            ExtractStage::ObserveBefore(i) => ExtractStage::Read(i),
            ExtractStage::Read(i) => ExtractStage::Release(i),
            ExtractStage::Release(i) => ExtractStage::ObserveAfter(i),
            ExtractStage::ObserveAfter(i) => if i < 2 {
                ExtractStage::ObserveBefore(i + 1)
            } else {
                ExtractStage::Write(0)
            },
            ExtractStage::Write(i) => if i < 2 {
                ExtractStage::Write(i + 1)
            } else {
                ExtractStage::Resolve
            },
            ExtractStage::Resolve => ExtractStage::Manifest(0),
            ExtractStage::Manifest(k) => if settled || k >= MANIFEST_ATTEMPTS - 1 {
                ExtractStage::WriteManifest
            } else {
                ExtractStage::Manifest(k + 1)
            },
            ExtractStage::WriteManifest => return ExtractAction::Finish,
        };
        self.stage = next;
        assert(self.sizes_hold());
        let looks = match next {
            ExtractStage::ObserveBefore(_) | ExtractStage::Write(_) => true,
            _ => false,
        };
        if looks && cancelled {
            return ExtractAction::Fail(
                MergeError::new("MERGE_LIMIT_EXCEEDED", "merge operation cancelled"),
            );
        }
        ExtractAction::Perform(next)
    }

    /// The manifest as it is written now.
    pub fn manifest(&self) -> (r: String)
        requires
            forall|i: int|
                0 <= i < self.observations@.len() ==> manifest::times_fit(
                    #[trigger] self.observations@[i],
                ),
        ensures
            r@ == manifest::manifest_json(
                text::views(self.sources@),
                self.observations@,
                self.files,
                self.counts,
            ),
    {
        manifest_text(&self.sources, &self.observations, &self.files, &self.counts)
    }

    /// The result of a finished extraction.
    pub fn finish(self, workspace_path: String, manifest_path: String) -> (r: ExtractionResult)
        ensures
            r.workspace_path == workspace_path,
            r.manifest_path == manifest_path,
            r.files == self.files,
            r.source_observations == self.observations,
            r.file_byte_counts == self.counts,
            r.format_version == 1,
            r.workspace_state@ == "Retained"@,
    {
        ExtractionResult {
            workspace_path,
            files: self.files,
            manifest_path,
            source_observations: self.observations,
            file_byte_counts: self.counts,
            format_version: 1,
            workspace_state: "Retained".to_owned(),
        }
    }

    /// The error of a failed extraction. `cleanup` is the message of the failed
    /// attempt to remove the workspace, if it failed.
    pub fn conclude(
        self,
        error: MergeError,
        workspace_path: Option<String>,
        manifest_path: Option<String>,
        cleanup: Option<String>,
    ) -> (r: MergeError)
        ensures
            r.class == error.class,
            r.message == error.message,
            r.details matches MergeDetails::Extraction(d) && {
                &&& d.workspace_path == workspace_path
                &&& d.manifest_path == manifest_path
                &&& d.files == self.files
                &&& d.source_observations == self.observations
                &&& d.file_byte_counts == self.counts
                &&& d.format_version == Some(1u8)
                &&& d.root_class is None
                &&& match cleanup {
                    Some(m) => d.workspace_state@ == "Uncertain"@ && d.cleanup_errors@ == seq![m],
                    None => d.workspace_state@ == "Removed"@ && d.cleanup_errors@.len() == 0,
                }
            },
    {
        let mut errors: Vec<String> = Vec::new();
        let state = match cleanup {
            Some(m) => {
                errors.push(m);
                assert(errors@ =~= seq![m]);
                "Uncertain"
            },
            None => "Removed",
        };
        MergeError {
            class: error.class,
            message: error.message,
            details: MergeDetails::Extraction(
                ExtractionDetails {
                    workspace_path,
                    files: self.files,
                    manifest_path,
                    source_observations: self.observations,
                    file_byte_counts: self.counts,
                    format_version: Some(1),
                    workspace_state: state,
                    cleanup_errors: errors,
                    root_class: None,
                },
            ),
        }
    }
}

pub open spec fn no_files() -> Files {
    Files { base_sql: None, ours_sql: None, theirs_sql: None, resolved_sql: None }
}

pub open spec fn no_counts() -> FileByteCounts {
    FileByteCounts { base_sql: 0, ours_sql: 0, theirs_sql: 0, resolved_sql: 0, manifest: 0 }
}

pub open spec fn cancelled_extraction() -> (Seq<char>, Seq<char>) {
    ("MERGE_LIMIT_EXCEEDED"@, "merge operation cancelled"@)
}

/// The error of an extraction whose sources were refused before a workspace was
/// made.
pub fn unstarted_error(error: MergeError) -> (r: MergeError)
    ensures
        r.class == error.class,
        r.message == error.message,
        r.details matches MergeDetails::Extraction(d) && {
            &&& d.workspace_path is None
            &&& d.manifest_path is None
            &&& d.files == no_files()
            &&& d.source_observations@.len() == 0
            &&& d.file_byte_counts == no_counts()
            &&& d.format_version is None
            &&& d.workspace_state@ == "NotCreated"@
            &&& d.cleanup_errors@.len() == 0
            &&& d.root_class is None
        },
{
    MergeError {
        class: error.class,
        message: error.message,
        details: MergeDetails::Extraction(
            ExtractionDetails {
                workspace_path: None,
                files: Files { base_sql: None, ours_sql: None, theirs_sql: None, resolved_sql: None },
                manifest_path: None,
                source_observations: Vec::new(),
                file_byte_counts: FileByteCounts {
                    base_sql: 0,
                    ours_sql: 0,
                    theirs_sql: 0,
                    resolved_sql: 0,
                    manifest: 0,
                },
                format_version: None,
                workspace_state: "NotCreated",
                cleanup_errors: Vec::new(),
                root_class: None,
            },
        ),
    }
}

} // verus!
