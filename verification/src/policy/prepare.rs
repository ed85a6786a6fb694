//! The statements of a text, and the rule that it holds exactly one.
//!
//! Statement boundaries are SQLite's own: the text is prepared piece by piece
//! on the real connection, and each outcome is handed to a [`PrepareScan`] or a
//! [`TailCursor`].
use crate::policy::guard::PolicyError;
use crate::text;
use crate::text::is_space_char;
use crate::worker::error::SqliteFailure;
use vstd::prelude::*;
use vstd::utf8::*;

verus! {

/// What preparing the text from the current position on gave.
#[derive(Debug, Clone, PartialEq, Eq)]
pub enum PrepareEvent {
    /// SQLite refused it.
    Failed(SqliteFailure),
    /// SQLite took `consumed` bytes. They held a statement, or only white space
    /// and comments.
    Prepared { statement: bool, consumed: usize },
}

/// What to do next.
#[derive(Debug, Clone, Copy, PartialEq, Eq)]
pub enum PrepareStep {
    /// Prepare the text from this byte on.
    PrepareAt(usize),
    /// The scan is over.
    Done(Result<(), PolicyError>),
}

/// A scan of a text for its statements.
#[derive(Debug, Clone, Copy, PartialEq, Eq, Structural)]
pub struct PrepareScan {
    /// The byte to prepare from.
    pub at: usize,
    /// The length of the text in bytes.
    pub len: usize,
    /// A statement was found.
    pub compiled: bool,
}

/// Why a text is not worth preparing, if it is not.
pub open spec fn unprepared_fault(sql: Seq<char>) -> Option<PolicyError> {
    if sql.contains('\0') {
        Some(PolicyError::Denied)
    } else if text::blank(sql) {
        Some(PolicyError::Empty)
    } else {
        None
    }
}

/// The verdict of a scan that has seen the whole text.
pub open spec fn verdict(compiled: bool) -> Result<(), PolicyError> {
    if compiled {
        Ok(())
    } else {
        Err(PolicyError::Empty)
    }
}

impl PrepareScan {
    pub open spec fn wf(self) -> bool {
        self.at <= self.len
    }

    /// Whether an event can come up in this state.
    pub open spec fn admits(self, event: PrepareEvent) -> bool {
        event matches PrepareEvent::Prepared { consumed, .. } ==> consumed <= self.len - self.at
    }

    /// The state after an event, and what to do then.
    pub open spec fn after(self, event: PrepareEvent) -> (PrepareScan, PrepareStep) {
        match event {
            PrepareEvent::Failed(_) => (self, PrepareStep::Done(Err(PolicyError::Denied))),
            PrepareEvent::Prepared { statement, consumed } => {
                let compiled = self.compiled || statement;
                let at = (self.at + consumed) as usize;
                let next = PrepareScan { at, len: self.len, compiled };
                if statement && self.compiled {
                    (self, PrepareStep::Done(Err(PolicyError::Multiple)))
                } else if consumed == 0 || at >= self.len {
                    (next, PrepareStep::Done(verdict(compiled)))
                } else {
                    (next, PrepareStep::PrepareAt(at))
                }
            },
        }
    }

    /// Starts a scan. A text with NUL and a blank text are refused at once.
    pub fn start(sql: &str) -> (r: Result<Self, PolicyError>)
        ensures
            match r {
                Ok(scan) => unprepared_fault(sql@) is None && scan.at == 0 && scan.len
                    == encode_utf8(sql@).len() && !scan.compiled && scan.wf(),
                Err(e) => unprepared_fault(sql@) == Some(e),
            },
    {
        let mut blank = true;
        for c in it: sql.chars()
            invariant
                it.seq() == sql@,
                forall|i: int| 0 <= i < it.index() ==> sql@[i] != '\0',
                blank == text::blank(sql@.take(it.index() as int)),
        {
            let ghost seen = sql@.take(it.index() as int);
            let ghost more = sql@.take(it.index() + 1);
            assert(more =~= seen.push(c));
            if c == '\0' {
                assert(sql@[it.index() as int] == '\0');
                return Err(PolicyError::Denied);
            }
            if !is_space_char(c) {
                blank = false;
                assert(!text::is_space(more[it.index() as int]));
            } else {
                assert(text::blank(seen) ==> text::blank(more));
                assert(text::blank(more) ==> text::blank(seen)) by {
                    if text::blank(more) {
                        assert forall|i: int| 0 <= i < seen.len() implies text::is_space(
                            #[trigger] seen[i],
                        ) by {
                            assert(seen[i] == more[i]);
                        }
                    }
                }
            }
        }
        assert(sql@.take(sql@.len() as int) =~= sql@);
        if blank {
            return Err(PolicyError::Empty);
        }
        Ok(PrepareScan { at: 0, len: sql.as_bytes().len(), compiled: false })
    }

    /// Takes the outcome of one preparation and says what to do next.
    pub fn step(&mut self, event: PrepareEvent) -> (r: PrepareStep)
        requires
            old(self).wf(),
            old(self).admits(event),
        ensures
            (*final(self), r) == old(self).after(event),
            final(self).wf(),
    {
        match event {
            PrepareEvent::Failed(_) => PrepareStep::Done(Err(PolicyError::Denied)),
            PrepareEvent::Prepared { statement, consumed } => {
                if statement {
                    if self.compiled {
                        return PrepareStep::Done(Err(PolicyError::Multiple));
                    }
                    self.compiled = true;
                }
                self.at = self.at + consumed;
                if consumed == 0 || self.at >= self.len {
                    if self.compiled {
                        PrepareStep::Done(Ok(()))
                    } else {
                        PrepareStep::Done(Err(PolicyError::Empty))
                    }
                } else {
                    PrepareStep::PrepareAt(self.at)
                }
            },
        }
    }
}

/// How many of the first `n` outcomes held a statement.
pub open spec fn statements_in(events: Seq<PrepareEvent>, n: int) -> nat
    decreases n,
{
    if n <= 0 {
        0
    } else {
        statements_in(events, n - 1) + match events[n - 1] {
            PrepareEvent::Prepared { statement: true, .. } => 1nat,
            _ => 0nat,
        }
    }
}

/// The state and the step after the first `n` outcomes, all but the last of
/// which asked for more.
pub open spec fn scan_of(len: usize, events: Seq<PrepareEvent>, n: int) -> (PrepareScan, PrepareStep)
    decreases n,
{
    if n <= 0 {
        (PrepareScan { at: 0, len, compiled: false }, PrepareStep::PrepareAt(0))
    } else {
        scan_of(len, events, n - 1).0.after(events[n - 1])
    }
}

/// All outcomes but the last ask for more.
pub open spec fn is_run(len: usize, events: Seq<PrepareEvent>) -> bool {
    &&& events.len() > 0
    &&& forall|k: int|
        0 <= k < events.len() ==> (#[trigger] scan_of(len, events, k)).1 is PrepareAt && scan_of(
            len,
            events,
            k,
        ).0.admits(events[k])
}

proof fn lemma_scan_counts(len: usize, events: Seq<PrepareEvent>, n: int)
    requires
        is_run(len, events),
        0 <= n < events.len(),
    ensures
        scan_of(len, events, n).0.compiled == (statements_in(events, n) == 1),
        statements_in(events, n) <= 1,
        scan_of(len, events, n).0.wf(),
        scan_of(len, events, n).0.len == len,
    decreases n,
{
    if n > 0 {
        lemma_scan_counts(len, events, n - 1);
        assert(scan_of(len, events, n).1 is PrepareAt);
        assert(scan_of(len, events, n - 1).0.admits(events[n - 1]));
    }
}

/// A scan that ends accepts the text exactly when no preparation failed and
/// exactly one of them held a statement.
pub proof fn accepts_exactly_one_statement(len: usize, events: Seq<PrepareEvent>)
    requires
        is_run(len, events),
        scan_of(len, events, events.len() as int).1 is Done,
    ensures
        (scan_of(len, events, events.len() as int).1 == PrepareStep::Done(Ok(()))) == (!(
        events.last() is Failed) && statements_in(events, events.len() as int) == 1),
{
    let n = events.len() as int;
    lemma_scan_counts(len, events, n - 1);
}

/// A walk over the statements of a text, one at a time.
#[derive(Debug, Clone, Copy, PartialEq, Eq, Structural)]
pub struct TailCursor {
    /// The byte behind the last statement.
    pub at: usize,
    /// The length of the text in bytes.
    pub len: usize,
}

/// What to do on the way to the next statement.
#[derive(Debug, Clone, PartialEq, Eq)]
pub enum CursorStep {
    /// Prepare the text from this byte on.
    PrepareAt(usize),
    /// The next statement stands between these bytes.
    Found(usize, usize),
    /// There is no more.
    End,
    /// SQLite refused the text, and this is what it says of it.
    Refused(SqliteFailure),
}

impl TailCursor {
    pub open spec fn wf(self) -> bool {
        self.at <= self.len
    }

    /// Whether an event can come up in this state. A statement is not empty.
    pub open spec fn admits(self, event: PrepareEvent) -> bool {
        event matches PrepareEvent::Prepared { statement, consumed } ==> consumed <= self.len
            - self.at && (statement ==> consumed > 0)
    }

    /// What looking for the next statement starts with.
    pub open spec fn goes_on(self) -> CursorStep {
        if self.at < self.len {
            CursorStep::PrepareAt(self.at)
        } else {
            CursorStep::End
        }
    }

    /// The state after an event, and what to do then.
    pub open spec fn after(self, event: PrepareEvent) -> (TailCursor, CursorStep) {
        match event {
            PrepareEvent::Failed(failure) => (self, CursorStep::Refused(failure)),
            PrepareEvent::Prepared { statement, consumed } => {
                let next = TailCursor { at: (self.at + consumed) as usize, len: self.len };
                if statement {
                    (next, CursorStep::Found(self.at, next.at))
                } else if consumed == 0 {
                    (next, CursorStep::End)
                } else {
                    (next, next.goes_on())
                }
            },
        }
    }

    /// Starts at the beginning of a text. A text with NUL is refused.
    pub fn new(sql: &str) -> (r: Result<Self, PolicyError>)
        ensures
            match r {
                Ok(cursor) => !sql@.contains('\0') && cursor.at == 0 && cursor.len == encode_utf8(
                    sql@,
                ).len(),
                Err(e) => sql@.contains('\0') && e is Denied,
            },
    {
        for c in it: sql.chars()
            invariant
                it.seq() == sql@,
                forall|i: int| 0 <= i < it.index() ==> sql@[i] != '\0',
        {
            if c == '\0' {
                assert(sql@[it.index() as int] == '\0');
                return Err(PolicyError::Denied);
            }
        }
        Ok(TailCursor { at: 0, len: sql.as_bytes().len() })
    }

    /// What looking for the next statement starts with.
    pub fn next(&self) -> (r: CursorStep)
        ensures
            r == self.goes_on(),
    {
        if self.at < self.len {
            CursorStep::PrepareAt(self.at)
        } else {
            CursorStep::End
        }
    }

    /// Takes the outcome of one preparation and says what to do next.
    pub fn step(&mut self, event: PrepareEvent) -> (r: CursorStep)
        requires
            old(self).wf(),
            old(self).admits(event),
        ensures
            (*final(self), r) == old(self).after(event),
            final(self).wf(),
    {
        match event {
            PrepareEvent::Failed(failure) => CursorStep::Refused(failure),
            PrepareEvent::Prepared { statement, consumed } => {
                let start: usize = self.at;
                self.at = self.at + consumed;
                if statement {
                    CursorStep::Found(start, self.at)
                } else if consumed == 0 {
                    CursorStep::End
                } else {
                    self.next()
                }
            },
        }
    }
}

/// Statements come one behind the other: the next one starts where the last one
/// ended or later, and every one moves the cursor on.
pub proof fn statements_follow_each_other(cursor: TailCursor, event: PrepareEvent)
    requires
        cursor.wf(),
        cursor.admits(event),
    ensures
        cursor.at <= cursor.after(event).0.at <= cursor.len,
        cursor.after(event).1 matches CursorStep::Found(start, end) ==> start == cursor.at && start
            < end && end == cursor.after(event).0.at,
        cursor.after(event).1 matches CursorStep::PrepareAt(at) ==> at == cursor.after(event).0.at
            && cursor.at < at,
{
}

/// A scan starts exactly where the text holds something to prepare and no NUL, and at
/// its first byte.
pub proof fn scans_start_at_the_first_byte(
    sql: &str,
    r: Result<PrepareScan, PolicyError>,
    walk: Result<TailCursor, PolicyError>,
)
    requires
        call_ensures(PrepareScan::start, (sql,), r),
        call_ensures(TailCursor::new, (sql,), walk),
    ensures
        r is Ok <==> !sql@.contains('\0') && !text::blank(sql@),
        r matches Ok(scan) ==> scan.at == 0 && !scan.compiled && scan.len == encode_utf8(sql@).len(),
        r matches Err(e) ==> if sql@.contains('\0') {
            e is Denied
        } else {
            e is Empty
        },
        walk is Ok <==> !sql@.contains('\0'),
        walk matches Ok(cursor) ==> cursor.at == 0 && cursor.len == encode_utf8(sql@).len(),
        walk matches Err(e) ==> e is Denied,
{
}

/// A scan goes on exactly where SQLite took something and left something, and no
/// second statement came up. It ends with a refusal where a preparation failed, where
/// a second statement came up and where there was none.
pub proof fn scans_end_with_the_text(scan: &mut PrepareScan, event: PrepareEvent, r: PrepareStep)
    requires
        old(scan).wf(),
        old(scan).admits(event),
        call_ensures(PrepareScan::step, (scan, event), r),
    ensures
        event is Failed ==> r == PrepareStep::Done(Err::<(), PolicyError>(PolicyError::Denied)),
        event matches PrepareEvent::Prepared { statement, consumed } ==> {
            let rest = old(scan).len - old(scan).at - consumed;
            &&& statement && old(scan).compiled ==> r == PrepareStep::Done(
                Err::<(), PolicyError>(PolicyError::Multiple),
            )
            &&& !(statement && old(scan).compiled) && consumed > 0 && rest > 0 ==> r
                == PrepareStep::PrepareAt((old(scan).at + consumed) as usize) && final(scan).at
                == old(scan).at + consumed
            &&& !(statement && old(scan).compiled) && (consumed == 0 || rest == 0) ==> r
                == PrepareStep::Done(
                if statement || old(scan).compiled {
                    Ok::<(), PolicyError>(())
                } else {
                    Err::<(), PolicyError>(PolicyError::Empty)
                },
            )
            &&& final(scan).compiled <==> statement || old(scan).compiled
        },
        final(scan).len == old(scan).len,
{
}

/// A walk finds every statement that SQLite takes, with the bytes that it took, passes
/// over what holds none, and ends with the text or where SQLite takes nothing.
pub proof fn walks_find_every_statement(cursor: &mut TailCursor, event: PrepareEvent, r: CursorStep)
    requires
        old(cursor).wf(),
        old(cursor).admits(event),
        call_ensures(TailCursor::step, (cursor, event), r),
    ensures
        event matches PrepareEvent::Failed(failure) ==> r == CursorStep::Refused(failure)
            && final(cursor).at == old(cursor).at,
        event matches PrepareEvent::Prepared { statement, consumed } ==> {
            &&& final(cursor).at == old(cursor).at + consumed
            &&& statement ==> r == CursorStep::Found(old(cursor).at, final(cursor).at)
            &&& !statement && consumed > 0 && final(cursor).at < old(cursor).len ==> r
                == CursorStep::PrepareAt(final(cursor).at)
            &&& !statement && (consumed == 0 || final(cursor).at == old(cursor).len) ==> r is End
        },
        final(cursor).len == old(cursor).len,
{
}

/// A walk goes on where it stands, as long as there is text left.
pub proof fn walks_go_on_where_they_stand(cursor: &TailCursor, r: CursorStep)
    requires
        call_ensures(TailCursor::next, (cursor,), r),
    ensures
        cursor.at < cursor.len ==> r == CursorStep::PrepareAt(cursor.at),
        cursor.at >= cursor.len ==> r is End,
{
}

} // verus!
