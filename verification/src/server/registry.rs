//! The open databases of a server.
//!
//! Operations on one handle come one after the other. Each asks the registry
//! whether it may start, does its work on the handle's worker, and hands what
//! the worker said back for publication.
use crate::handles;
use crate::handles::{Handle, HandleView, TransactionSchemaState};
use crate::outside;
use crate::outside::fresh_id;
use crate::schema::SchemaInfo;
use crate::server::error;
use crate::server::error::{classify_worker_error, CoreError};
use crate::text::same_text;
use crate::worker::arms::CommitOutcome;
use crate::worker::error::WorkerError;
use vstd::prelude::*;

verus! {

/// An open database with what its open transaction remembers.
#[derive(Debug)]
pub struct Entry {
    pub handle: Handle,
    pub transaction: Option<TransactionSchemaState>,
}

/// The file behind a handle.
#[derive(Debug, Clone, Copy, PartialEq, Eq, Structural)]
pub struct FileIdentity {
    pub device: u64,
    pub inode: u64,
}

/// A file that is open.
#[derive(Debug)]
pub struct OpenFile {
    pub identity: FileIdentity,
    /// The name of its handle.
    pub handle: String,
}

/// What a transaction remembers of the schema.
pub struct TransactionView {
    pub pre_observed: bool,
    pub pre_version: i64,
    pub pre_generation: u64,
    pub expected_version: i64,
    pub pending_schema_change: bool,
    /// The schema as it was last read inside the transaction.
    pub overlay: Option<SchemaInfo>,
}

/// An open database.
#[verifier::ext_equal]
pub struct EntryView {
    pub handle: HandleView,
    pub transaction: Option<TransactionView>,
}

pub open spec fn transaction_view(tx: Option<TransactionSchemaState>) -> Option<TransactionView> {
    match tx {
        Some(t) => Some(
            TransactionView {
                pre_observed: t.pre_observed,
                pre_version: t.pre_version,
                pre_generation: t.pre_generation,
                expected_version: t.expected_version,
                pending_schema_change: t.pending_schema_change,
                overlay: t.overlay,
            },
        ),
        None => None,
    }
}

impl View for Entry {
    type V = EntryView;

    open spec fn view(&self) -> EntryView {
        EntryView { handle: self.handle@, transaction: transaction_view(self.transaction) }
    }
}

/// The database once its transaction is gone without a trace: the observation is
/// the one from before the transaction.
pub open spec fn restored(e: EntryView) -> EntryView {
    let h = e.handle;
    let idle = HandleView { transaction_id: None, transaction_mode: None, ..h };
    EntryView {
        handle: match e.transaction {
            Some(t) => HandleView {
                schema_observed: t.pre_observed,
                schema_version: t.pre_version,
                observation_generation: t.pre_generation,
                ..idle
            },
            None => idle,
        },
        transaction: None,
    }
}

/// The database once its transaction idled away.
pub open spec fn tombstoned(e: EntryView) -> EntryView {
    let r = restored(e);
    EntryView { handle: HandleView { expired: true, ..r.handle }, ..r }
}

/// One more observation published or withdrawn.
pub open spec fn next_generation(generation: u64) -> u64 {
    if generation < u64::MAX {
        (generation + 1) as u64
    } else {
        generation
    }
}

/// The transaction changed the schema.
pub open spec fn has_pending_change(e: EntryView) -> bool {
    e.transaction matches Some(t) && t.pending_schema_change
}

/// The database once its transaction is persistent. A schema change withdraws
/// the observation.
pub open spec fn committed(e: EntryView) -> EntryView {
    let idle = HandleView { transaction_id: None, transaction_mode: None, ..e.handle };
    EntryView {
        handle: if has_pending_change(e) {
            HandleView {
                schema_observed: false,
                observation_generation: next_generation(idle.observation_generation),
                ..idle
            }
        } else {
            idle
        },
        transaction: None,
    }
}

/// The database with a transaction that has just begun.
pub open spec fn begun(e: EntryView, version: i64, mode: Seq<char>, id: Seq<char>) -> EntryView {
    EntryView {
        handle: HandleView { transaction_id: Some(id), transaction_mode: Some(mode), ..e.handle },
        transaction: Some(
            TransactionView {
                pre_observed: e.handle.schema_observed,
                pre_version: e.handle.schema_version,
                pre_generation: e.handle.observation_generation,
                expected_version: version,
                pending_schema_change: false,
                overlay: None,
            },
        ),
    }
}

/// The database after its transaction changed the schema to a version.
pub open spec fn changed(e: EntryView, version: i64) -> EntryView {
    EntryView {
        handle: e.handle,
        transaction: match e.transaction {
            Some(t) => Some(
                TransactionView { expected_version: version, pending_schema_change: true, ..t },
            ),
            None => None,
        },
    }
}

/// The database with an observation of its schema published. Inside a
/// transaction nothing is published: the schema is kept for the transaction.
pub open spec fn observed(e: EntryView, schema: SchemaInfo) -> EntryView {
    match e.transaction {
        Some(t) => EntryView {
            handle: e.handle,
            transaction: Some(TransactionView { overlay: Some(schema), ..t }),
        },
        None => EntryView {
            handle: HandleView {
                schema_observed: true,
                schema_version: schema.schema_version,
                observation_generation: next_generation(e.handle.observation_generation),
                expired: false,
                ..e.handle
            },
            transaction: None,
        },
    }
}

impl Entry {
    pub(crate) fn restore(&mut self)
        ensures
            final(self)@ == restored(old(self)@),
    {
        let tx = self.transaction.take();
        if let Some(t) = tx {
            self.handle.schema_observed = t.pre_observed;
            self.handle.schema_version = t.pre_version;
            self.handle.observation_generation = t.pre_generation;
        }
        self.handle.transaction_id = None;
        self.handle.transaction_mode = None;
        self.transaction = None;
    }

    pub(crate) fn tombstone(&mut self)
        ensures
            final(self)@ == tombstoned(old(self)@),
    {
        self.restore();
        self.handle.expired = true;
    }

    pub(crate) fn commit(&mut self)
        ensures
            final(self)@ == committed(old(self)@),
    {
        let tx = self.transaction.take();
        let pending = match &tx {
            Some(t) => t.pending_schema_change,
            None => false,
        };
        self.transaction = None;
        self.handle.transaction_id = None;
        self.handle.transaction_mode = None;
        if pending {
            self.handle.schema_observed = false;
            let generation: u64 = self.handle.observation_generation;
            self.handle.observation_generation = if generation < u64::MAX {
                generation + 1
            } else {
                generation
            };
        }
    }

    fn begin(&mut self, version: i64, mode: &str, id: String)
        ensures
            final(self)@ == begun(old(self)@, version, mode@, id@),
    {
        self.transaction = Some(
            TransactionSchemaState {
                pre_observed: self.handle.schema_observed,
                pre_version: self.handle.schema_version,
                pre_generation: self.handle.observation_generation,
                expected_version: version,
                pending_schema_change: false,
                overlay: None,
            },
        );
        self.handle.transaction_id = Some(id);
        self.handle.transaction_mode = Some(mode.to_owned());
    }

    pub(crate) fn change(&mut self, version: i64)
        ensures
            final(self)@ == changed(old(self)@, version),
    {
        let tx = self.transaction.take();
        self.transaction = match tx {
            Some(t) => Some(
                TransactionSchemaState {
                    pre_observed: t.pre_observed,
                    pre_version: t.pre_version,
                    pre_generation: t.pre_generation,
                    expected_version: version,
                    pending_schema_change: true,
                    overlay: t.overlay,
                },
            ),
            None => None,
        };
    }

    pub(crate) fn observe(&mut self, schema: SchemaInfo)
        ensures
            final(self)@ == observed(old(self)@, schema),
    {
        let tx = self.transaction.take();
        match tx {
            Some(t) => {
                self.transaction = Some(
                    TransactionSchemaState {
                        pre_observed: t.pre_observed,
                        pre_version: t.pre_version,
                        pre_generation: t.pre_generation,
                        expected_version: t.expected_version,
                        pending_schema_change: t.pending_schema_change,
                        overlay: Some(schema),
                    },
                );
            },
            None => {
                self.transaction = None;
                self.handle.schema_observed = true;
                self.handle.schema_version = schema.schema_version;
                let generation: u64 = self.handle.observation_generation;
                self.handle.observation_generation = if generation < u64::MAX {
                    generation + 1
                } else {
                    generation
                };
                self.handle.expired = false;
            },
        }
    }
}

/// All open databases of a server.
#[derive(Debug)]
pub struct HandleRegistry {
    pub entries: Vec<Entry>,
    pub files: Vec<OpenFile>,
}

pub open spec fn entry_views(entries: Seq<Entry>) -> Seq<EntryView> {
    entries.map_values(|e: Entry| e@)
}

/// The place of a handle; behind the end where there is none.
pub open spec fn place_of(entries: Seq<EntryView>, id: Seq<char>) -> int
    decreases entries.len(),
{
    if entries.len() == 0 || entries[0].handle.id == id {
        0
    } else {
        1 + place_of(entries.skip(1), id)
    }
}

/// The open files but for the first that belongs to a handle.
pub open spec fn without_file(files: Seq<OpenFile>, id: Seq<char>) -> Seq<OpenFile>
    decreases files.len(),
{
    if files.len() == 0 {
        files
    } else if files[0].handle@ == id {
        files.skip(1)
    } else {
        seq![files[0]] + without_file(files.skip(1), id)
    }
}

pub(crate) proof fn lemma_place(entries: Seq<EntryView>, id: Seq<char>, i: int)
    requires
        0 <= i <= entries.len(),
        forall|j: int| 0 <= j < i ==> (#[trigger] entries[j]).handle.id != id,
        i < entries.len() ==> entries[i].handle.id == id,
    ensures
        place_of(entries, id) == i,
    decreases i,
{
    if i > 0 {
        assert(entries[0].handle.id != id);
        assert forall|j: int| 0 <= j < i - 1 implies (#[trigger] entries.skip(1)[j]).handle.id
            != id by {
            assert(entries.skip(1)[j] == entries[j + 1]);
        }
        lemma_place(entries.skip(1), id, i - 1);
    }
}

pub proof fn lemma_place_range(entries: Seq<EntryView>, id: Seq<char>)
    ensures
        0 <= place_of(entries, id) <= entries.len(),
        place_of(entries, id) < entries.len() ==> entries[place_of(entries, id)].handle.id == id,
    decreases entries.len(),
{
    if entries.len() > 0 && entries[0].handle.id != id {
        lemma_place_range(entries.skip(1), id);
    }
}

/// No name and no path stands for two handles.
pub open spec fn names_distinct(entries: Seq<EntryView>) -> bool {
    forall|i: int, j: int|
        0 <= i < j < entries.len() ==> (#[trigger] entries[i]).handle.id != (
        #[trigger] entries[j]).handle.id && entries[i].handle.path != entries[j].handle.path
}

/// No file is open twice, and no handle has two files.
pub open spec fn files_distinct(files: Seq<OpenFile>) -> bool {
    forall|i: int, j: int|
        0 <= i < j < files.len() ==> (#[trigger] files[i]).identity != (
        #[trigger] files[j]).identity && files[i].handle@ != files[j].handle@
}

/// A file is marked as open under this name.
pub open spec fn is_marked(files: Seq<OpenFile>, id: Seq<char>) -> bool {
    exists|i: int| 0 <= i < files.len() && (#[trigger] files[i]).handle@ == id
}

/// Every handle has a file.
pub open spec fn all_marked(entries: Seq<EntryView>, files: Seq<OpenFile>) -> bool {
    forall|k: int| 0 <= k < entries.len() ==> is_marked(files, (#[trigger] entries[k]).handle.id)
}

pub proof fn lemma_update(entries: Seq<EntryView>, id: Seq<char>, e: EntryView)
    requires
        names_distinct(entries),
        place_of(entries, id) < entries.len(),
        e.handle.id == entries[place_of(entries, id)].handle.id,
        e.handle.path == entries[place_of(entries, id)].handle.path,
    ensures
        names_distinct(entries.update(place_of(entries, id), e)),
        place_of(entries.update(place_of(entries, id), e), id) == place_of(entries, id),
        forall|files: Seq<OpenFile>|
            all_marked(entries, files) ==> #[trigger] all_marked(
                entries.update(place_of(entries, id), e),
                files,
            ),
{
    lemma_place_range(entries, id);
    let at = place_of(entries, id);
    let now = entries.update(at, e);
    assert forall|files: Seq<OpenFile>| all_marked(entries, files) implies #[trigger] all_marked(
        now,
        files,
    ) by {
        assert forall|k: int| 0 <= k < now.len() implies is_marked(
            files,
            (#[trigger] now[k]).handle.id,
        ) by {
            assert(now[k].handle.id == entries[k].handle.id);
        }
    }
    assert forall|i: int, j: int| 0 <= i < j < now.len() implies (#[trigger] now[i]).handle.id != (
    #[trigger] now[j]).handle.id && now[i].handle.path != now[j].handle.path by {
        assert(entries[i].handle.id != entries[j].handle.id);
    }
    assert forall|j: int| 0 <= j < at implies (#[trigger] now[j]).handle.id != id by {
        assert(entries[j].handle.id != entries[at].handle.id);
    }
    lemma_place(now, id, at);
}

/// Why a file cannot be opened now.
pub open spec fn open_fault(
    registry: HandleRegistry,
    path: Seq<char>,
    identity: FileIdentity,
    max_handles: nat,
) -> Option<CoreError> {
    if (exists|i: int|
        0 <= i < registry.view().len() && (#[trigger] registry.view()[i]).handle.path == path) || (
    exists|i: int|
        0 <= i < registry.files@.len() && (#[trigger] registry.files@[i]).identity == identity) {
        Some(CoreError::AlreadyOpen)
    } else if registry.view().len() >= max_handles {
        Some(CoreError::HandleLimitReached)
    } else {
        None
    }
}

/// Why a transaction cannot begin.
pub open spec fn begin_fault(h: HandleView, immediate: bool) -> Option<CoreError> {
    if h.expired {
        Some(CoreError::TransactionExpired)
    } else if h.transaction_id is Some {
        Some(CoreError::TransactionOpen)
    } else if !h.schema_observed {
        Some(CoreError::SchemaRequired)
    } else if immediate && h.readonly {
        Some(CoreError::ReadonlyImmediate)
    } else {
        None
    }
}

/// The schema version that the next statement expects.
pub open spec fn expected_version(e: EntryView) -> i64 {
    match e.transaction {
        Some(t) => t.expected_version,
        None => e.handle.schema_version,
    }
}

/// After a failed statement the schema version has to be read once more: the
/// statements before it may have changed the schema.
pub open spec fn wants_probe(error: WorkerError, ddl_attempted: bool) -> bool {
    &&& ddl_attempted
    &&& !(error is Interrupted)
    &&& !error.says("TRANSACTION_EXPIRED"@)
    &&& !error.says("handle invalidated"@)
    &&& !error.says("outer transaction aborted"@)
}

pub fn probe_is_wanted(error: &WorkerError, ddl_attempted: bool) -> (r: bool)
    ensures
        r == wants_probe(*error, ddl_attempted),
{
    let interrupted = match error {
        WorkerError::Interrupted { .. } => true,
        _ => false,
    };
    ddl_attempted && !interrupted && !error.mentions("TRANSACTION_EXPIRED") && !error.mentions(
        "handle invalidated",
    ) && !error.mentions("outer transaction aborted")
}

/// What a failed statement leaves of its database. `probe` is the schema version
/// that was read after it, where one was.
pub open spec fn after_failure(
    e: EntryView,
    error: WorkerError,
    expected: i64,
    probe: Option<i64>,
) -> EntryView {
    let probed = match probe {
        Some(v) => if v != expected {
            changed(e, v)
        } else {
            e
        },
        None => e,
    };
    let closed = match error {
        WorkerError::Interrupted { transaction_open: false, .. } => restored(probed),
        _ => probed,
    };
    if error.says("TRANSACTION_EXPIRED"@) {
        tombstoned(closed)
    } else {
        closed
    }
}

/// What the caller of a failed statement is told.
pub open spec fn query_error(error: WorkerError) -> CoreError {
    if error.says("TRANSACTION_EXPIRED"@) {
        CoreError::TransactionExpired
    } else if error.says("SCHEMA_STALE"@) {
        CoreError::SchemaStale
    } else {
        error::classified(error, true)
    }
}

/// The error of a commit with the state that it left.
pub open spec fn lifecycle_error(outcome: CommitOutcome, error: WorkerError) -> CoreError {
    CoreError::CommitLifecycle {
        error: Box::new(error),
        commit_confirmed: outcome.commit_confirmed,
        transaction_open: outcome.transaction_open,
        transaction_continuable: outcome.transaction_continuable,
        expired: outcome.expired,
        uncertain_or_invalidated: outcome.uncertain_or_invalidated,
    }
}

/// The error that a commit reported, or `otherwise` where it reported none.
pub open spec fn is_commit_error(
    outcome: CommitOutcome,
    otherwise: Seq<char>,
    error: WorkerError,
) -> bool {
    match outcome.result {
        Err(e) => error == e,
        Ok(_) => error.is_message(otherwise),
    }
}

pub(crate) fn lifecycle(outcome: CommitOutcome, otherwise: &str) -> (r: CoreError)
    ensures
        exists|e: WorkerError|
            is_commit_error(outcome, otherwise@, e) && r == #[trigger] lifecycle_error(outcome, e),
{
    let error = match outcome.result {
        Err(e) => e,
        Ok(_) => WorkerError::because(otherwise),
    };
    let ghost shown = error;
    assert(is_commit_error(outcome, otherwise@, shown));
    let r = CoreError::CommitLifecycle {
        error: Box::new(error),
        commit_confirmed: outcome.commit_confirmed,
        transaction_open: outcome.transaction_open,
        transaction_continuable: outcome.transaction_continuable,
        expired: outcome.expired,
        uncertain_or_invalidated: outcome.uncertain_or_invalidated,
    };
    assert(r == lifecycle_error(outcome, shown));
    r
}

/// What a commit leaves of its database.
pub open spec fn after_commit(e: EntryView, outcome: CommitOutcome) -> EntryView {
    if outcome.commit_confirmed {
        committed(e)
    } else if outcome.expired {
        tombstoned(e)
    } else if !outcome.transaction_open {
        restored(e)
    } else {
        e
    }
}

impl HandleRegistry {
    /// The open databases.
    pub open spec fn view(self) -> Seq<EntryView> {
        entry_views(self.entries@)
    }

    /// No name and no path stands for two handles, no file is open twice, and
    /// every handle has exactly one file.
    pub open spec fn wf(self) -> bool {
        &&& names_distinct(self.view())
        &&& files_distinct(self.files@)
        &&& all_marked(self.view(), self.files@)
    }

    /// The place of a handle; behind the end where there is none.
    pub open spec fn place(self, id: Seq<char>) -> int {
        place_of(self.view(), id)
    }

    pub open spec fn has(self, id: Seq<char>) -> bool {
        self.place(id) < self.view().len()
    }

    /// The database behind a handle.
    pub open spec fn at(self, id: Seq<char>) -> EntryView {
        self.view()[self.place(id)]
    }

    /// The registry is `old` but for what became of one handle.
    pub open spec fn is_updated(self, old: Self, id: Seq<char>, e: EntryView) -> bool {
        self.view() == old.view().update(old.place(id), e) && self.files == old.files
    }

    /// The registry is `old` without one handle.
    pub open spec fn is_removed(self, old: Self, id: Seq<char>) -> bool {
        &&& self.view() == if old.has(id) {
            old.view().remove(old.place(id))
        } else {
            old.view()
        }
        &&& self.files@ == without_file(old.files@, id)
    }

    /// A registry without handles.
    pub fn new() -> (r: Self)
        ensures
            r.wf(),
            r.view().len() == 0,
            r.files@.len() == 0,
    {
        HandleRegistry { entries: Vec::new(), files: Vec::new() }
    }

    pub(crate) fn find(&self, id: &str) -> (r: Option<usize>)
        ensures
            match r {
                Some(i) => self.has(id@) && i == self.place(id@) && i < self.entries@.len(),
                None => !self.has(id@),
            },
    {
        let mut i: usize = 0;
        while i < self.entries.len()
            invariant
                i <= self.entries@.len(),
                forall|j: int| 0 <= j < i ==> (#[trigger] self.view()[j]).handle.id != id@,
            decreases self.entries.len() - i,
        {
            if same_text(self.entries[i].handle.id.as_str(), id) {
                proof {
                    assert(self.view()[i as int].handle.id == id@);
                    lemma_place(self.view(), id@, i as int);
                }
                return Some(i);
            }
            assert(self.view()[i as int].handle.id != id@);
            i += 1;
        }
        proof {
            lemma_place(self.view(), id@, i as int);
        }
        None
    }

    fn remove_file(&mut self, id: &str)
        ensures
            final(self).entries == old(self).entries,
            final(self).files@ == without_file(old(self).files@, id@),
    {
        let mut i: usize = 0;
        let ghost all = self.files@;
        assert(all.take(0) + without_file(all.skip(0), id@) =~= without_file(all, id@)) by {
            assert(all.skip(0) =~= all);
        }
        while i < self.files.len()
            invariant
                *self == *old(self),
                all == self.files@,
                i <= all.len(),
                all.take(i as int) + without_file(all.skip(i as int), id@) == without_file(all, id@),
            decreases self.files.len() - i,
        {
            let ghost tail = all.skip(i as int);
            assert(tail[0] == all[i as int]);
            if same_text(self.files[i].handle.as_str(), id) {
                assert(all.remove(i as int) =~= all.take(i as int) + tail.skip(1));
                let _removed = self.files.remove(i);
                return ;
            }
            assert(all.take(i + 1) + without_file(all.skip(i + 1), id@) =~= all.take(i as int) + (
            seq![tail[0]] + without_file(tail.skip(1), id@))) by {
                assert(tail.skip(1) =~= all.skip(i + 1));
                assert(all.take(i + 1) =~= all.take(i as int) + seq![tail[0]]);
            }
            i += 1;
        }
        assert(all.take(i as int) + without_file(all.skip(i as int), id@) =~= all) by {
            assert(all.skip(i as int) =~= Seq::empty());
            assert(without_file(all.skip(i as int), id@) =~= Seq::empty());
        }
    }

    /// Checks that a file can be opened now.
    pub fn check_open(&self, path: &str, identity: FileIdentity, max_handles: usize) -> (r: Result<
        (),
        CoreError,
    >)
        ensures
            match r {
                Ok(()) => open_fault(*self, path@, identity, max_handles as nat) is None,
                Err(e) => open_fault(*self, path@, identity, max_handles as nat) == Some(e),
            },
    {
        let mut i: usize = 0;
        while i < self.entries.len()
            invariant
                i <= self.entries@.len(),
                forall|j: int| 0 <= j < i ==> (#[trigger] self.view()[j]).handle.path != path@,
            decreases self.entries.len() - i,
        {
            if same_text(self.entries[i].handle.path.as_str(), path) {
                assert(self.view()[i as int].handle.path == path@);
                return Err(CoreError::AlreadyOpen);
            }
            assert(self.view()[i as int].handle.path != path@);
            i += 1;
        }
        let mut k: usize = 0;
        while k < self.files.len()
            invariant
                k <= self.files@.len(),
                forall|j: int| 0 <= j < k ==> (#[trigger] self.files@[j]).identity != identity,
            decreases self.files.len() - k,
        {
            if self.files[k].identity == identity {
                return Err(CoreError::AlreadyOpen);
            }
            k += 1;
        }
        if self.entries.len() >= max_handles {
            return Err(CoreError::HandleLimitReached);
        }
        Ok(())
    }

    /// Whether a file is marked as open under a name.
    pub fn is_in_use(&self, id: &str) -> (r: bool)
        ensures
            r == is_marked(self.files@, id@),
    {
        let mut i: usize = 0;
        while i < self.files.len()
            invariant
                i <= self.files@.len(),
                forall|j: int| 0 <= j < i ==> (#[trigger] self.files@[j]).handle@ != id@,
            decreases self.files.len() - i,
        {
            if same_text(self.files[i].handle.as_str(), id) {
                assert(self.files@[i as int].handle@ == id@);
                return true;
            }
            i += 1;
        }
        false
    }

    /// Registers a handle for a file that can be opened, under a name that is not
    /// in use.
    pub fn register(&mut self, handle: Handle, identity: FileIdentity, max_handles: usize)
        requires
            old(self).wf(),
            !is_marked(old(self).files@, handle.id@),
            open_fault(*old(self), handle.path@, identity, max_handles as nat) is None,
        ensures
            final(self).wf(),
            final(self).view() == old(self).view().push(
                EntryView { handle: handle@, transaction: None },
            ),
            final(self).files@.len() == old(self).files@.len() + 1,
            final(self).files@.drop_last() == old(self).files@,
            final(self).files@.last().identity == identity,
            final(self).files@.last().handle@ == handle.id@,
            final(self).view().len() <= max_handles,
    {
        let ghost before = self.view();
        let ghost files = self.files@;
        let ghost named = handle@;
        proof {
            assert forall|i: int| 0 <= i < before.len() implies (#[trigger] before[i]).handle.id
                != named.id by {
                assert(is_marked(files, before[i].handle.id));
            }
        }
        let file = OpenFile { identity, handle: handle.id.as_str().to_owned() };
        self.files.push(file);
        self.entries.push(Entry { handle, transaction: None });
        assert(self.view() =~= before.push(EntryView { handle: named, transaction: None }));
        assert(self.files@.drop_last() =~= files);
        assert forall|i: int, j: int| 0 <= i < j < self.files@.len() implies (
        #[trigger] self.files@[i]).identity != (#[trigger] self.files@[j]).identity
            && self.files@[i].handle@ != self.files@[j].handle@ by {
            assert(self.files@[i] == files[i]);
            if j < files.len() {
                assert(self.files@[j] == files[j]);
            }
        }
        assert forall|k: int| 0 <= k < self.view().len() implies is_marked(
            self.files@,
            (#[trigger] self.view()[k]).handle.id,
        ) by {
            if k < before.len() {
                assert(is_marked(files, before[k].handle.id));
                let i = choose|i: int|
                    0 <= i < files.len() && (#[trigger] files[i]).handle@ == before[k].handle.id;
                assert(self.files@[i] == files[i]);
            } else {
                assert(self.files@[files.len() as int].handle@ == named.id);
            }
        }
    }

    /// Closes a handle. An open transaction keeps it open.
    pub fn close(&mut self, id: &str) -> (r: Result<(), CoreError>)
        requires
            old(self).wf(),
        ensures
            final(self).wf(),
            match r {
                Ok(()) => {
                    &&& old(self).has(id@)
                    &&& old(self).at(id@).handle.transaction_id is None
                    &&& final(self).is_removed(*old(self), id@)
                },
                Err(e) => {
                    &&& *final(self) == *old(self)
                    &&& if old(self).has(id@) {
                        e is TransactionOpen && old(self).at(id@).handle.transaction_id is Some
                    } else {
                        e is UnknownHandle
                    }
                },
            },
    {
        let i: usize = match self.find(id) {
            Some(i) => i,
            None => {
                return Err(CoreError::UnknownHandle);
            },
        };
        if self.entries[i].handle.transaction_id.is_some() {
            return Err(CoreError::TransactionOpen);
        }
        self.invalidate(id);
        Ok(())
    }

    /// Forgets a handle, whatever state it is in. Returns whether there was one.
    pub fn invalidate(&mut self, id: &str) -> (r: bool)
        requires
            old(self).wf(),
        ensures
            final(self).wf(),
            r == old(self).has(id@),
            final(self).is_removed(*old(self), id@),
    {
        let ghost files = self.files@;
        let ghost before = self.view();
        let found = self.find(id);
        self.remove_file(id);
        proof {
            lemma_without_file(files, id@);
            lemma_place_range(before, id@);
        }
        match found {
            Some(i) => {
                let _removed = self.entries.remove(i);
                assert(self.view() =~= before.remove(i as int));
                proof {
                    lemma_removal_keeps_names(before, i as int);
                    let now = self.view();
                    assert forall|k: int| 0 <= k < now.len() implies is_marked(
                        self.files@,
                        (#[trigger] now[k]).handle.id,
                    ) by {
                        let j = if k < i {
                            k
                        } else {
                            k + 1
                        };
                        assert(now[k] == before[j]);
                        assert(is_marked(files, before[j].handle.id));
                        if k < i {
                            assert(before[j].handle.id != before[i as int].handle.id);
                        } else {
                            assert(before[i as int].handle.id != before[j].handle.id);
                        }
                    }
                }
                true
            },
            None => {
                proof {
                    assert(self.view() =~= before);
                    assert forall|k: int| 0 <= k < before.len() implies is_marked(
                        self.files@,
                        (#[trigger] before[k]).handle.id,
                    ) by {
                        lemma_absent(before, id@, k);
                        assert(is_marked(files, before[k].handle.id));
                    }
                }
                false
            },
        }
    }

    /// Takes all handles for a shutdown and lists their names. The files stay
    /// marked as open.
    pub fn drain(&mut self) -> (r: Vec<String>)
        requires
            old(self).wf(),
        ensures
            final(self).wf(),
            final(self).view().len() == 0,
            final(self).files == old(self).files,
            r@.len() == old(self).view().len(),
            forall|i: int| 0 <= i < r@.len() ==> (#[trigger] r@[i])@ == old(self).view()[i].handle.id,
    {
        let mut names: Vec<String> = Vec::new();
        let mut i: usize = 0;
        while i < self.entries.len()
            invariant
                *self == *old(self),
                i <= self.entries@.len(),
                names@.len() == i,
                forall|j: int|
                    0 <= j < i ==> (#[trigger] names@[j])@ == old(self).view()[j].handle.id,
            decreases self.entries.len() - i,
        {
            names.push(self.entries[i].handle.id.as_str().to_owned());
            i += 1;
        }
        self.entries = Vec::new();
        names
    }

    /// The handles, in the order in which they were opened.
    pub fn list(&self) -> (r: Vec<Handle>)
        ensures
            r@.len() == self.view().len(),
            forall|i: int| 0 <= i < r@.len() ==> (#[trigger] r@[i])@ == self.view()[i].handle,
    {
        let mut out: Vec<Handle> = Vec::new();
        let mut i: usize = 0;
        while i < self.entries.len()
            invariant
                i <= self.entries@.len(),
                out@.len() == i,
                forall|j: int| 0 <= j < i ==> (#[trigger] out@[j])@ == self.view()[j].handle,
            decreases self.entries.len() - i,
        {
            out.push(self.entries[i].handle.copy());
            i += 1;
        }
        out
    }

    /// A handle.
    pub fn get(&self, id: &str) -> (r: Option<Handle>)
        ensures
            match r {
                Some(h) => self.has(id@) && h@ == self.at(id@).handle,
                None => !self.has(id@),
            },
    {
        match self.find(id) {
            Some(i) => Some(self.entries[i].handle.copy()),
            None => None,
        }
    }

    /// Whether a transaction is open on a handle.
    pub fn transaction_open(&self, id: &str) -> (r: Result<bool, CoreError>)
        ensures
            match r {
                Ok(open) => self.has(id@) && open == (self.at(id@).handle.transaction_id is Some),
                Err(e) => !self.has(id@) && e is UnknownHandle,
            },
    {
        match self.find(id) {
            Some(i) => Ok(self.entries[i].handle.transaction_id.is_some()),
            None => Err(CoreError::UnknownHandle),
        }
    }

    /// Checks that a transaction can begin. Returns the schema version that it
    /// has to find.
    pub fn check_begin(&self, id: &str, immediate: bool) -> (r: Result<i64, CoreError>)
        ensures
            match r {
                Ok(version) => {
                    &&& self.has(id@)
                    &&& begin_fault(self.at(id@).handle, immediate) is None
                    &&& version == self.at(id@).handle.schema_version
                },
                Err(e) => if self.has(id@) {
                    begin_fault(self.at(id@).handle, immediate) == Some(e)
                } else {
                    e is UnknownHandle
                },
            },
    {
        let i: usize = match self.find(id) {
            Some(i) => i,
            None => {
                return Err(CoreError::UnknownHandle);
            },
        };
        let h = &self.entries[i].handle;
        if h.expired {
            return Err(CoreError::TransactionExpired);
        }
        if h.transaction_id.is_some() {
            return Err(CoreError::TransactionOpen);
        }
        if !h.schema_observed {
            return Err(CoreError::SchemaRequired);
        }
        if immediate && h.readonly {
            return Err(CoreError::ReadonlyImmediate);
        }
        Ok(h.schema_version)
    }

    /// Takes note of a transaction that could not begin.
    pub fn fail_begin(&mut self, id: &str, failure: WorkerError) -> (r: CoreError)
        requires
            old(self).wf(),
        ensures
            final(self).wf(),
            if failure.says("SCHEMA_STALE"@) {
                r is SchemaStale && *final(self) == *old(self)
            } else {
                &&& r == error::classified(failure, false)
                &&& if failure.says("handle invalidated"@) {
                    final(self).is_removed(*old(self), id@)
                } else {
                    *final(self) == *old(self)
                }
            },
    {
        if failure.mentions("SCHEMA_STALE") {
            return CoreError::SchemaStale;
        }
        if failure.mentions("handle invalidated") {
            let _known = self.invalidate(id);
        }
        classify_worker_error(failure, false)
    }

    /// Publishes a transaction that has begun, under a new random name.
    pub fn publish_begin(&mut self, id: &str, version: i64, mode: &str) -> (r: Result<
        Handle,
        CoreError,
    >)
        requires
            old(self).wf(),
        ensures
            final(self).wf(),
            match r {
                Ok(h) => {
                    &&& old(self).has(id@)
                    &&& h@.transaction_id matches Some(name) && {
                        &&& name.len() == 36
                        &&& forall|i: int|
                            0 <= i < name.len() ==> outside::is_id_char(#[trigger] name[i])
                        &&& final(self).is_updated(
                            *old(self),
                            id@,
                            begun(old(self).at(id@), version, mode@, name),
                        )
                    }
                    &&& h@ == final(self).at(id@).handle
                },
                Err(e) => !old(self).has(id@) && e is UnknownHandle && *final(self) == *old(self),
            },
    {
        self.publish_begin_as(id, version, mode, fresh_id())
    }

    /// Publishes a transaction that has begun, under a given name.
    pub fn publish_begin_as(&mut self, id: &str, version: i64, mode: &str, name: String) -> (r: Result<
        Handle,
        CoreError,
    >)
        requires
            old(self).wf(),
        ensures
            final(self).wf(),
            match r {
                Ok(h) => {
                    &&& old(self).has(id@)
                    &&& final(self).is_updated(
                        *old(self),
                        id@,
                        begun(old(self).at(id@), version, mode@, name@),
                    )
                    &&& h@ == begun(old(self).at(id@), version, mode@, name@).handle
                    &&& h@ == final(self).at(id@).handle
                },
                Err(e) => !old(self).has(id@) && e is UnknownHandle && *final(self) == *old(self),
            },
    {
        let ghost before = self.view();
        match self.find(id) {
            Some(i) => {
                let ghost e = begun(before[i as int], version, mode@, name@);
                self.entries[i].begin(version, mode, name);
                proof {
                    lemma_update(before, id@, e);
                }
                assert(self.view() =~= before.update(i as int, e));
                Ok(self.entries[i].handle.copy())
            },
            None => Err(CoreError::UnknownHandle),
        }
    }
}

pub(crate) proof fn lemma_absent(entries: Seq<EntryView>, id: Seq<char>, i: int)
    requires
        place_of(entries, id) >= entries.len(),
        0 <= i < entries.len(),
    ensures
        entries[i].handle.id != id,
    decreases entries.len(),
{
    if i > 0 && entries[0].handle.id != id {
        lemma_absent(entries.skip(1), id, i - 1);
        assert(entries.skip(1)[i - 1] == entries[i]);
    }
}

proof fn lemma_other_marks_stay(files: Seq<OpenFile>, id: Seq<char>)
    ensures
        forall|x: Seq<char>|
            x != id && is_marked(files, x) ==> #[trigger] is_marked(without_file(files, id), x),
    decreases files.len(),
{
    let w = without_file(files, id);
    if files.len() > 0 {
        let rest = files.skip(1);
        lemma_other_marks_stay(rest, id);
        assert forall|x: Seq<char>| x != id && is_marked(files, x) implies #[trigger] is_marked(
            w,
            x,
        ) by {
            let i = choose|i: int| 0 <= i < files.len() && (#[trigger] files[i]).handle@ == x;
            if files[0].handle@ == id {
                assert(w[i - 1].handle@ == x);
            } else if i == 0 {
                assert(w[0].handle@ == x);
            } else {
                assert(rest[i - 1].handle@ == x);
                let wr = without_file(rest, id);
                assert(is_marked(wr, x));
                let k = choose|k: int| 0 <= k < wr.len() && (#[trigger] wr[k]).handle@ == x;
                assert(w[k + 1] == wr[k]);
            }
        }
    }
}

proof fn lemma_without_file(files: Seq<OpenFile>, id: Seq<char>)
    requires
        files_distinct(files),
    ensures
        files_distinct(without_file(files, id)),
        forall|i: int|
            0 <= i < without_file(files, id).len() ==> files.contains(
                #[trigger] without_file(files, id)[i],
            ),
        forall|x: Seq<char>|
            x != id && is_marked(files, x) ==> #[trigger] is_marked(without_file(files, id), x),
    decreases files.len(),
{
    let w = without_file(files, id);
    lemma_other_marks_stay(files, id);
    if files.len() > 0 {
        let rest = files.skip(1);
        if files[0].handle@ == id {
            assert forall|i: int| 0 <= i < w.len() implies files.contains(#[trigger] w[i]) by {
                assert(files[i + 1] == w[i]);
            }
            assert forall|i: int, j: int| 0 <= i < j < w.len() implies (#[trigger] w[i]).identity
                != (#[trigger] w[j]).identity && w[i].handle@ != w[j].handle@ by {
                assert(files[i + 1] == w[i] && files[j + 1] == w[j]);
            }
        } else {
            assert forall|i: int, j: int| 0 <= i < j < rest.len() implies (
            #[trigger] rest[i]).identity != (#[trigger] rest[j]).identity && rest[i].handle@
                != rest[j].handle@ by {
                assert(files[i + 1] == rest[i] && files[j + 1] == rest[j]);
            }
            lemma_without_file(rest, id);
            let wr = without_file(rest, id);
            assert forall|i: int| 0 <= i < w.len() implies files.contains(#[trigger] w[i]) by {
                if i == 0 {
                    assert(files[0] == w[0]);
                } else {
                    assert(w[i] == wr[i - 1]);
                    let k = choose|k: int| 0 <= k < rest.len() && rest[k] == wr[i - 1];
                    assert(files[k + 1] == w[i]);
                }
            }
            assert forall|i: int, j: int| 0 <= i < j < w.len() implies (#[trigger] w[i]).identity
                != (#[trigger] w[j]).identity && w[i].handle@ != w[j].handle@ by {
                assert(w[j] == wr[j - 1]);
                if i == 0 {
                    assert(rest.contains(wr[j - 1]));
                    let k = choose|k: int| 0 <= k < rest.len() && rest[k] == wr[j - 1];
                    assert(files[k + 1] == w[j]);
                } else {
                    assert(w[i] == wr[i - 1]);
                }
            }
        }
    }
}

proof fn lemma_removal_keeps_names(entries: Seq<EntryView>, at: int)
    requires
        0 <= at < entries.len(),
        names_distinct(entries),
    ensures
        names_distinct(entries.remove(at)),
{
    let r = entries.remove(at);
    assert forall|i: int, j: int| 0 <= i < j < r.len() implies (#[trigger] r[i]).handle.id != (
    #[trigger] r[j]).handle.id && r[i].handle.path != r[j].handle.path by {
        let a = if i < at {
            i
        } else {
            i + 1
        };
        let b = if j < at {
            j
        } else {
            j + 1
        };
        assert(r[i] == entries[a] && r[j] == entries[b]);
    }
}

/// An open file is not opened a second time, whatever path leads to it.
pub proof fn open_files_are_not_opened_again(
    registry: HandleRegistry,
    i: int,
    path: Seq<char>,
    max_handles: nat,
)
    requires
        0 <= i < registry.files@.len(),
    ensures
        open_fault(registry, path, registry.files@[i].identity, max_handles) == Some(
            CoreError::AlreadyOpen,
        ),
{
}

proof fn lemma_without_only_file(files: Seq<OpenFile>, id: Seq<char>, at: int)
    requires
        files_distinct(files),
        0 <= at < files.len(),
        forall|i: int| 0 <= i < files.len() ==> ((#[trigger] files[i]).handle@ == id) == (i == at),
    ensures
        without_file(files, id) == files.remove(at),
    decreases at,
{
    assert(files[0].handle@ == id <==> at == 0);
    if at > 0 {
        let rest = files.skip(1);
        assert forall|i: int| 0 <= i < rest.len() implies ((#[trigger] rest[i]).handle@ == id) == (i
            == at - 1) by {
            assert(rest[i] == files[i + 1]);
        }
        assert(files_distinct(rest)) by {
            assert forall|i: int, j: int| 0 <= i < j < rest.len() implies (
            #[trigger] rest[i]).identity != (#[trigger] rest[j]).identity && rest[i].handle@
                != rest[j].handle@ by {
                assert(rest[i] == files[i + 1] && rest[j] == files[j + 1]);
            }
        }
        lemma_without_only_file(rest, id, at - 1);
        assert(seq![files[0]] + rest.remove(at - 1) =~= files.remove(at));
    } else {
        assert(files.skip(1) =~= files.remove(0));
    }
}

/// Closing a handle frees its file and its path: both can be opened again.
pub proof fn closing_frees_the_file(
    before: HandleRegistry,
    after: HandleRegistry,
    id: Seq<char>,
    max_handles: nat,
)
    requires
        before.wf(),
        before.has(id),
        after.is_removed(before, id),
        before.view().len() <= max_handles,
    ensures
        exists|at: int|
            0 <= at < before.files@.len() && (#[trigger] before.files@[at]).handle@ == id
                && open_fault(
                after,
                before.at(id).handle.path,
                before.files@[at].identity,
                max_handles,
            ) is None,
{
    let place = before.place(id);
    lemma_place_range(before.view(), id);
    assert(is_marked(before.files@, before.view()[place].handle.id));
    let at = choose|at: int|
        0 <= at < before.files@.len() && (#[trigger] before.files@[at]).handle@ == id;
    assert forall|i: int| 0 <= i < before.files@.len() implies ((
    #[trigger] before.files@[i]).handle@ == id) == (i == at) by {
        if i < at {
            assert(before.files@[i].handle@ != before.files@[at].handle@);
        } else if i > at {
            assert(before.files@[at].handle@ != before.files@[i].handle@);
        }
    }
    lemma_without_only_file(before.files@, id, at);
    assert forall|i: int| 0 <= i < after.view().len() implies (
    #[trigger] after.view()[i]).handle.path != before.at(id).handle.path by {
        let j = if i < place {
            i
        } else {
            i + 1
        };
        assert(after.view()[i] == before.view()[j]);
        if j < place {
            assert(before.view()[j].handle.path != before.view()[place].handle.path);
        } else {
            assert(before.view()[place].handle.path != before.view()[j].handle.path);
        }
    }
    assert forall|i: int| 0 <= i < after.files@.len() implies (
    #[trigger] after.files@[i]).identity != before.files@[at].identity by {
        let j = if i < at {
            i
        } else {
            i + 1
        };
        assert(after.files@[i] == before.files@[j]);
        if j < at {
            assert(before.files@[j].identity != before.files@[at].identity);
        } else {
            assert(before.files@[at].identity != before.files@[j].identity);
        }
    }
}

} // verus!
