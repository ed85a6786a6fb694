//! The authorizer's decision for one action of a statement.
use crate::text;
use crate::text::{chars_of, lowercase_text, same_chars, same_text};
use vstd::prelude::*;

verus! {

/// What the authorizer saw while a request ran.
///
/// The marks are classifications only. Whether a schema observation is still
/// fresh follows from the schema version, not from them. A signal has no copies:
/// those who mark it and those who read it share the one value.
#[derive(Debug, PartialEq, Eq, Structural)]
pub struct MutationSignal {
    /// A statement tried to change data or schema.
    pub attempted: bool,
    /// A statement tried to change the schema.
    pub ddl: bool,
}

pub type MutationFlag = MutationSignal;

/// A call on a signal.
#[derive(Debug, Clone, Copy, PartialEq, Eq, Structural)]
pub enum SignalCall {
    Reset,
    MarkAttempt,
    MarkDdlAttempt,
    TakeAttempt,
    TakeDdl,
}

impl Default for MutationSignal {
    fn default() -> (r: Self)
        ensures
            !r.attempted && !r.ddl,
    {
        MutationSignal { attempted: false, ddl: false }
    }
}

impl MutationSignal {
    /// The signal with a mutation attempt marked.
    pub open spec fn with_attempt(self) -> Self {
        MutationSignal { attempted: true, ddl: self.ddl }
    }

    /// The signal with a schema change marked.
    pub open spec fn with_ddl_attempt(self) -> Self {
        MutationSignal { attempted: true, ddl: true }
    }

    /// The signal after a call.
    pub open spec fn after(self, call: SignalCall) -> Self {
        match call {
            SignalCall::Reset => MutationSignal { attempted: false, ddl: false },
            SignalCall::MarkAttempt => self.with_attempt(),
            SignalCall::MarkDdlAttempt => self.with_ddl_attempt(),
            SignalCall::TakeAttempt => MutationSignal { attempted: false, ddl: self.ddl },
            SignalCall::TakeDdl => MutationSignal { attempted: self.attempted, ddl: false },
        }
    }

    /// The signal after calls, by whoever shares it.
    pub open spec fn after_all(self, calls: Seq<SignalCall>) -> Self
        decreases calls.len(),
    {
        if calls.len() == 0 {
            self
        } else {
            self.after_all(calls.drop_last()).after(calls.last())
        }
    }

    /// A signal without marks.
    pub fn new() -> (r: Self)
        ensures
            !r.attempted && !r.ddl,
    {
        MutationSignal { attempted: false, ddl: false }
    }

    /// Clears both marks before a request.
    pub fn reset_for_request(&mut self)
        ensures
            *final(self) == old(self).after(SignalCall::Reset),
            !final(self).attempted && !final(self).ddl,
    {
        self.attempted = false;
        self.ddl = false;
    }

    /// Marks a mutation attempt.
    pub fn mark_attempt(&mut self)
        ensures
            *final(self) == old(self).after(SignalCall::MarkAttempt),
            final(self).attempted && final(self).ddl == old(self).ddl,
    {
        self.attempted = true;
    }

    /// Marks a schema change, which is a mutation attempt too.
    pub fn mark_ddl_attempt(&mut self)
        ensures
            *final(self) == old(self).after(SignalCall::MarkDdlAttempt),
            final(self).attempted && final(self).ddl,
    {
        self.ddl = true;
        self.attempted = true;
    }

    /// Whether a mutation was attempted; clears that mark.
    pub fn take_after_request(&mut self) -> (r: bool)
        ensures
            r == old(self).attempted,
            *final(self) == old(self).after(SignalCall::TakeAttempt),
            !final(self).attempted && final(self).ddl == old(self).ddl,
    {
        let r = self.attempted;
        self.attempted = false;
        r
    }

    /// Whether a schema change was attempted; clears that mark.
    pub fn take_ddl_after_request(&mut self) -> (r: bool)
        ensures
            r == old(self).ddl,
            *final(self) == old(self).after(SignalCall::TakeDdl),
            !final(self).ddl && final(self).attempted == old(self).attempted,
    {
        let r = self.ddl;
        self.ddl = false;
        r
    }
}

/// The call marks a mutation attempt or, where `ddl` is asked for, a schema
/// change.
pub open spec fn marks(call: SignalCall, ddl: bool) -> bool {
    call is MarkDdlAttempt || !ddl && call is MarkAttempt
}

/// The call takes that mark or clears the signal.
pub open spec fn clears(call: SignalCall, ddl: bool) -> bool {
    call is Reset || if ddl {
        call is TakeDdl
    } else {
        call is TakeAttempt
    }
}

/// The mark is not taken or cleared after the call at `i`.
pub open spec fn is_kept_after(calls: Seq<SignalCall>, i: int, ddl: bool) -> bool {
    forall|j: int| i < j < calls.len() ==> !clears(#[trigger] calls[j], ddl)
}

/// The mark was made, and it was not taken or cleared since.
pub open spec fn is_pending(calls: Seq<SignalCall>, ddl: bool) -> bool {
    exists|i: int|
        0 <= i < calls.len() && marks(calls[i], ddl) && #[trigger] is_kept_after(calls, i, ddl)
}

proof fn lemma_pending_after(init: Seq<SignalCall>, last: SignalCall, ddl: bool)
    ensures
        is_pending(init.push(last), ddl) == (marks(last, ddl) || is_pending(init, ddl) && !clears(
            last,
            ddl,
        )),
{
    let calls = init.push(last);
    let n = init.len() as int;
    if marks(last, ddl) {
        assert(calls[n] == last);
        assert(is_kept_after(calls, n, ddl));
    } else if is_pending(init, ddl) && !clears(last, ddl) {
        let i = choose|i: int|
            0 <= i < init.len() && marks(init[i], ddl) && #[trigger] is_kept_after(init, i, ddl);
        assert(calls[i] == init[i]);
        assert forall|j: int| i < j < calls.len() implies !clears(#[trigger] calls[j], ddl) by {
            if j < n {
                assert(calls[j] == init[j]);
            }
        }
        assert(is_kept_after(calls, i, ddl));
    } else if is_pending(calls, ddl) {
        let i = choose|i: int|
            0 <= i < calls.len() && marks(calls[i], ddl) && #[trigger] is_kept_after(calls, i, ddl);
        assert(i != n);
        assert(!clears(calls[n], ddl));
        assert(init[i] == calls[i]);
        assert forall|j: int| i < j < init.len() implies !clears(#[trigger] init[j], ddl) by {
            assert(calls[j] == init[j]);
        }
        assert(is_kept_after(init, i, ddl));
    }
}

/// A mark lasts until it is taken or the signal is cleared, whatever else is
/// called in between: after any calls on a new signal, a take gives what was marked
/// since the last take of its kind and the last reset.
pub proof fn marks_last_until_taken(signal: MutationSignal, calls: Seq<SignalCall>)
    requires
        !signal.attempted && !signal.ddl,
    ensures
        signal.after_all(calls).attempted == is_pending(calls, false),
        signal.after_all(calls).ddl == is_pending(calls, true),
    decreases calls.len(),
{
    if calls.len() > 0 {
        let init = calls.drop_last();
        marks_last_until_taken(signal, init);
        lemma_pending_after(init, calls.last(), false);
        lemma_pending_after(init, calls.last(), true);
        assert(init.push(calls.last()) =~= calls);
    }
}

/// A marked schema change is a mutation attempt: both takes give it, in either
/// order, and each gives it once.
pub proof fn ddl_marks_are_attempts(signal: MutationSignal)
    ensures
        ({
            let marked = signal.after(SignalCall::MarkDdlAttempt);
            let taken = marked.after(SignalCall::TakeAttempt);
            let ddl_taken = marked.after(SignalCall::TakeDdl);
            &&& marked.attempted && marked.ddl
            &&& taken.ddl && !taken.attempted
            &&& ddl_taken.attempted && !ddl_taken.ddl
        }),
{
}

/// Whether the statements that run now are the server's own.
#[derive(Debug, Clone, Copy, PartialEq, Eq, Structural)]
pub struct TrustScope {
    pub active: bool,
}

/// Runs `f` with trust and restores the scope afterwards. `f` is told the trust
/// that it runs with.
pub fn trusted<F, R>(scope: &mut TrustScope, f: F) -> (r: R) where F: FnOnce(bool) -> R
    requires
        f.requires((true,)),
    ensures
        f.ensures((true,), r),
        *final(scope) == *old(scope),
{
    let old_value = scope.active;
    scope.active = true;
    let r = f(scope.active);
    scope.active = old_value;
    r
}

/// An action that SQLite asks the authorizer about.
#[derive(Debug, Clone, Copy)]
pub enum ActionKind<'a> {
    Insert,
    Update,
    Delete,
    CreateIndex,
    CreateTable,
    CreateTrigger,
    CreateView,
    DropIndex,
    DropTable,
    DropTrigger,
    DropView,
    /// SQLite names the database of an altered table in the action itself.
    AlterTable { database: &'a str },
    Unknown,
    Pragma,
    Attach,
    Detach,
    Transaction,
    Savepoint,
    CreateTempIndex,
    CreateTempTable,
    CreateTempTrigger,
    CreateTempView,
    DropTempIndex,
    DropTempTable,
    DropTempTrigger,
    DropTempView,
    CreateVtable,
    DropVtable,
    Analyze,
    Reindex,
    Select,
    Read,
    Function { name: &'a str },
    Recursive,
    /// An action that this code does not know.
    Unmapped,
}

/// The authorizer's answer.
#[derive(Debug, Clone, Copy, PartialEq, Eq, Structural)]
pub enum Authorization {
    Allow,
    Deny,
}

impl<'a> ActionKind<'a> {
    /// The action changes data.
    pub open spec fn changes_data(self) -> bool {
        self is Insert || self is Update || self is Delete
    }

    /// The action changes the schema.
    pub open spec fn changes_schema(self) -> bool {
        self is CreateIndex || self is CreateTable || self is CreateTrigger || self is CreateView
            || self is DropIndex || self is DropTable || self is DropTrigger || self is DropView
            || self is AlterTable
    }

    /// The action names an object, which may stand in a schema other than
    /// `main`.
    pub open spec fn names_object(self) -> bool {
        self.changes_data() || self.changes_schema() || self is Read
    }

    /// The function is one that an agent may call.
    pub open spec fn is_safe_function(self) -> bool {
        match self {
            ActionKind::Function { name } => !"pragma_"@.is_prefix_of(text::lowercase(name@))
                && text::lowercase(name@) != "load_extension"@,
            _ => false,
        }
    }

    /// The action is allowed as such: a read, a call of a safe function, or a
    /// change. A reindex is allowed because every created index reports one.
    pub open spec fn is_benign(self) -> bool {
        self is Select || self is Read || self is Recursive || self is Reindex
            || self.is_safe_function() || self.changes_data() || self.changes_schema()
    }

    pub fn is_dml(self) -> (r: bool)
        ensures
            r == self.changes_data(),
    {
        matches!(self, ActionKind::Insert | ActionKind::Update | ActionKind::Delete)
    }

    pub fn is_ddl(self) -> (r: bool)
        ensures
            r == self.changes_schema(),
    {
        matches!(
            self,
            ActionKind::CreateIndex
                | ActionKind::CreateTable
                | ActionKind::CreateTrigger
                | ActionKind::CreateView
                | ActionKind::DropIndex
                | ActionKind::DropTable
                | ActionKind::DropTrigger
                | ActionKind::DropView
                | ActionKind::AlterTable { .. }
        )
    }

    pub fn is_object_scoped(self) -> (r: bool)
        ensures
            r == self.names_object(),
    {
        self.is_dml() || self.is_ddl() || matches!(self, ActionKind::Read)
    }
}

/// The schema of the object that an action names.
pub open spec fn object_database(kind: ActionKind<'_>, database: Option<&str>) -> Option<Seq<char>> {
    match kind {
        ActionKind::AlterTable { database } => Some(database@),
        _ => match database {
            Some(name) => Some(name@),
            None => None,
        },
    }
}

/// No schema is named, or `main` is.
pub open spec fn is_main(database: Option<Seq<char>>) -> bool {
    database is None || database == Some("main"@)
}

/// The decision for one action: changes are denied on a read-only handle,
/// objects outside `main` are denied, and whatever is not known to be benign is
/// denied.
pub open spec fn decision(kind: ActionKind<'_>, database: Option<&str>, readonly: bool) -> Authorization {
    let changes = kind.changes_data() || kind.changes_schema();
    if changes && readonly {
        Authorization::Deny
    } else if kind.names_object() && !is_main(object_database(kind, database)) {
        Authorization::Deny
    } else if kind.is_benign() {
        Authorization::Allow
    } else {
        Authorization::Deny
    }
}

/// The marks that an action leaves, whatever the decision.
pub open spec fn marked(signal: MutationSignal, kind: ActionKind<'_>) -> MutationSignal {
    if kind.changes_data() {
        signal.with_attempt()
    } else if kind.changes_schema() {
        signal.with_ddl_attempt()
    } else {
        signal
    }
}

fn database_is_main(database: Option<&str>) -> (r: bool)
    ensures
        r == (database matches Some(name) ==> name@ == "main"@),
{
    match database {
        None => true,
        Some(name) => same_text(name, "main"),
    }
}

fn is_safe_function_name(name: &str) -> (r: bool)
    ensures
        r == (!"pragma_"@.is_prefix_of(text::lowercase(name@)) && text::lowercase(name@)
            != "load_extension"@),
{
    let low = lowercase_text(&chars_of(name));
    let prefix = chars_of("pragma_");
    let extension = chars_of("load_extension");
    if same_chars(&low, &extension) {
        return false;
    }
    if low.len() < prefix.len() {
        return true;
    }
    let mut i: usize = 0;
    while i < prefix.len()
        invariant
            i <= prefix@.len() <= low@.len(),
            forall|j: int| 0 <= j < i ==> low@[j] == prefix@[j],
            low@ == text::lowercase(name@),
            prefix@ == "pragma_"@,
            low@ != "load_extension"@,
        decreases prefix.len() - i,
    {
        if low[i] != prefix[i] {
            assert(low@.subrange(0, prefix@.len() as int)[i as int] != prefix@[i as int]);
            return true;
        }
        i += 1;
    }
    assert(low@.subrange(0, prefix@.len() as int) =~= prefix@);
    false
}

/// Decides one action and marks what it attempts.
///
/// The marks are set before anything is denied, so that a denied change is
/// still seen as an attempt.
pub fn decide_kind(
    kind: ActionKind<'_>,
    database: Option<&str>,
    readonly: bool,
    mutation_seen: &mut MutationSignal,
) -> (r: Authorization)
    ensures
        r == decision(kind, database, readonly),
        *final(mutation_seen) == marked(*old(mutation_seen), kind),
{
    if kind.is_dml() {
        mutation_seen.mark_attempt();
    } else if kind.is_ddl() {
        mutation_seen.mark_ddl_attempt();
    }
    if (kind.is_dml() || kind.is_ddl()) && readonly {
        return Authorization::Deny;
    }
    if kind.is_object_scoped() {
        let named = match kind {
            ActionKind::AlterTable { database } => Some(database),
            _ => database,
        };
        if !database_is_main(named) {
            return Authorization::Deny;
        }
    }
    match kind {
        ActionKind::Reindex | ActionKind::Select | ActionKind::Read | ActionKind::Recursive => {
            Authorization::Allow
        },
        ActionKind::Function { name } => if is_safe_function_name(name) {
            Authorization::Allow
        } else {
            Authorization::Deny
        },
        _ => if kind.is_dml() || kind.is_ddl() {
            Authorization::Allow
        } else {
            Authorization::Deny
        },
    }
}

/// The authorizer: the server's own statements are allowed without marks, and so
/// is the reading of a setting by a statement that is nothing else; all others
/// are decided. `approved_getter` tells whether the statement is such a reading.
pub fn authorize(
    scope: TrustScope,
    approved_getter: bool,
    kind: ActionKind<'_>,
    database: Option<&str>,
    readonly: bool,
    mutation_seen: &mut MutationSignal,
) -> (r: Authorization)
    ensures
        scope.active || approved_getter && kind is Pragma ==> r is Allow && *final(mutation_seen)
            == *old(mutation_seen),
        !scope.active && !(approved_getter && kind is Pragma) ==> r == decision(
            kind,
            database,
            readonly,
        ) && *final(mutation_seen) == marked(*old(mutation_seen), kind),
{
    if scope.active {
        return Authorization::Allow;
    }
    if approved_getter {
        if let ActionKind::Pragma = kind {
            return Authorization::Allow;
        }
    }
    decide_kind(kind, database, readonly, mutation_seen)
}

/// Fail closed: what is denied stays denied on a read-only handle, and a
/// read-only handle never allows a change.
pub proof fn readonly_only_narrows(kind: ActionKind<'_>, database: Option<&str>)
    ensures
        decision(kind, database, false) is Deny ==> decision(kind, database, true) is Deny,
        kind.changes_data() || kind.changes_schema() ==> decision(kind, database, true) is Deny,
{
}

/// Every change that the authorizer allows is marked, and nothing clears a
/// mark.
pub proof fn allowed_changes_are_marked(
    signal: MutationSignal,
    kind: ActionKind<'_>,
    database: Option<&str>,
    readonly: bool,
)
    ensures
        decision(kind, database, readonly) is Allow && kind.changes_data() ==> marked(
            signal,
            kind,
        ).attempted,
        decision(kind, database, readonly) is Allow && kind.changes_schema() ==> marked(
            signal,
            kind,
        ).ddl,
        signal.attempted ==> marked(signal, kind).attempted,
        signal.ddl ==> marked(signal, kind).ddl,
{
}

/// The action inserts, updates or deletes rows, or creates, drops or alters a lasting
/// object.
pub open spec fn is_change(kind: ActionKind<'_>) -> bool {
    match kind {
        ActionKind::Insert | ActionKind::Update | ActionKind::Delete => true,
        ActionKind::CreateIndex
        | ActionKind::CreateTable
        | ActionKind::CreateTrigger
        | ActionKind::CreateView => true,
        ActionKind::DropIndex
        | ActionKind::DropTable
        | ActionKind::DropTrigger
        | ActionKind::DropView => true,
        ActionKind::AlterTable { database: _ } => true,
        _ => false,
    }
}

/// Read-only access takes nothing away but changes: every other action is decided as
/// on a writable handle, and every change is denied.
pub proof fn readonly_takes_nothing_but_changes(kind: ActionKind<'_>, database: Option<&str>)
    ensures
        !is_change(kind) ==> decision(kind, database, true) == decision(kind, database, false),
        is_change(kind) ==> decision(kind, database, true) is Deny,
{
}

/// Data can be read on every handle: selecting and recursing are allowed, and so is
/// reading what stands in `main` or in no named schema. Nothing else is read.
pub proof fn reads_are_allowed(database: Option<&str>, readonly: bool)
    ensures
        decision(ActionKind::Select, database, readonly) is Allow,
        decision(ActionKind::Recursive, database, readonly) is Allow,
        decision(ActionKind::Reindex, database, readonly) is Allow,
        decision(ActionKind::Read, database, readonly) is Allow <==> match database {
            Some(name) => name@ == "main"@,
            None => true,
        },
{
}

/// A writable handle can change what stands in `main` or in no named schema, in every
/// way there is, and nothing else.
pub proof fn changes_of_main_are_allowed(kind: ActionKind<'_>, database: Option<&str>)
    requires
        is_change(kind),
    ensures
        decision(kind, database, false) is Allow <==> match kind {
            ActionKind::AlterTable { database: own } => own@ == "main"@,
            _ => match database {
                Some(name) => name@ == "main"@,
                None => true,
            },
        },
{
}

/// What reaches out of the database, or lasts beyond the statement, is never allowed:
/// settings, other files, transactions, temporary objects, virtual tables and whatever
/// is not known.
pub proof fn everything_else_is_denied(
    kind: ActionKind<'_>,
    database: Option<&str>,
    readonly: bool,
)
    requires
        !is_change(kind),
        !(kind is Select || kind is Recursive || kind is Reindex || kind is Read
            || kind is Function),
    ensures
        decision(kind, database, readonly) is Deny,
{
}

/// A function is allowed unless it loads an extension or reads a setting, however its
/// name is written and on every handle.
pub proof fn functions_are_allowed_by_name(name: &str, database: Option<&str>, readonly: bool)
    ensures
        decision(ActionKind::Function { name }, database, readonly) is Deny <==> text::lowercase(
            name@,
        ) == "load_extension"@ || (name@.len() >= 7 && text::lowercase(name@.take(7))
            == "pragma_"@),
{
    reveal_strlit("pragma_");
    let low = text::lowercase(name@);
    if name@.len() >= 7 {
        assert(low.subrange(0, 7) =~= text::lowercase(name@.take(7)));
    }
}

/// Every change is marked when it is decided, a change of the schema as such, and
/// nothing else is marked.
pub proof fn exactly_changes_are_marked(signal: MutationSignal, kind: ActionKind<'_>)
    ensures
        ({
            let after = marked(signal, kind);
            let data = kind is Insert || kind is Update || kind is Delete;
            &&& after.attempted == (signal.attempted || is_change(kind))
            &&& after.ddl == (signal.ddl || is_change(kind) && !data)
        }),
{
}

/// What is decided by [`decide_kind`] and [`authorize`] is this: the server's own
/// statements run without marks, the reading of an approved setting too, and all
/// others are decided by their action.
pub proof fn authorizations_follow_the_decision(
    scope: TrustScope,
    approved_getter: bool,
    kind: ActionKind<'_>,
    database: Option<&str>,
    readonly: bool,
    signal: &mut MutationSignal,
    r: Authorization,
)
    requires
        call_ensures(
            authorize,
            (scope, approved_getter, kind, database, readonly, signal),
            r,
        ),
    ensures
        scope.active ==> r is Allow && *final(signal) == *old(signal),
        !scope.active && kind is Pragma ==> r is Allow == approved_getter && *final(signal)
            == *old(signal),
        !scope.active && !(kind is Pragma) ==> r == decision(kind, database, readonly)
            && *final(signal) == marked(*old(signal), kind),
{
}

/// A decision marks exactly what is attempted, whether it is allowed or denied, and
/// allows what [`decision`] allows.
pub proof fn decisions_mark_what_is_attempted(
    kind: ActionKind<'_>,
    database: Option<&str>,
    readonly: bool,
    signal: &mut MutationSignal,
    r: Authorization,
)
    requires
        call_ensures(decide_kind, (kind, database, readonly, signal), r),
    ensures
        final(signal).attempted <==> old(signal).attempted || is_change(kind),
        final(signal).ddl <==> old(signal).ddl || is_change(kind) && !(kind is Insert
            || kind is Update || kind is Delete),
        is_change(kind) && readonly ==> r is Deny,
        kind is Select || kind is Recursive || kind is Reindex ==> r is Allow,
        kind is Read ==> (r is Allow <==> (database matches Some(name) ==> name@ == "main"@)),
        is_change(kind) && !(kind is AlterTable) && !readonly ==> (r is Allow <==> (
        database matches Some(name) ==> name@ == "main"@)),
        kind is Attach || kind is Detach || kind is Pragma || kind is Transaction
            || kind is Savepoint || kind is Unknown || kind is Unmapped || kind is Analyze ==> r is Deny,
{
}

/// A reset clears both marks, each mark is made by its own call, and a take gives its
/// mark and clears it alone.
pub proof fn marks_are_taken_one_by_one(
    cleared: &mut MutationSignal,
    a: (),
    marked: &mut MutationSignal,
    b: (),
    changed: &mut MutationSignal,
    c: (),
    taken: &mut MutationSignal,
    attempted: bool,
    ddl_taken: &mut MutationSignal,
    ddl: bool,
)
    requires
        call_ensures(MutationSignal::reset_for_request, (cleared,), a),
        call_ensures(MutationSignal::mark_attempt, (marked,), b),
        call_ensures(MutationSignal::mark_ddl_attempt, (changed,), c),
        call_ensures(MutationSignal::take_after_request, (taken,), attempted),
        call_ensures(MutationSignal::take_ddl_after_request, (ddl_taken,), ddl),
    ensures
        !final(cleared).attempted && !final(cleared).ddl,
        final(marked).attempted && final(marked).ddl == old(marked).ddl,
        final(changed).attempted && final(changed).ddl,
        attempted == old(taken).attempted && !final(taken).attempted && final(taken).ddl == old(
            taken,
        ).ddl,
        ddl == old(ddl_taken).ddl && !final(ddl_taken).ddl && final(ddl_taken).attempted == old(
            ddl_taken,
        ).attempted,
{
}

/// Changes of data, changes of the schema and what names an object are told apart.
pub proof fn kinds_are_told_apart(kind: ActionKind<'_>, dml: bool, ddl: bool, scoped: bool)
    requires
        call_ensures(ActionKind::is_dml, (kind,), dml),
        call_ensures(ActionKind::is_ddl, (kind,), ddl),
        call_ensures(ActionKind::is_object_scoped, (kind,), scoped),
    ensures
        dml <==> kind is Insert || kind is Update || kind is Delete,
        ddl <==> is_change(kind) && !dml,
        scoped <==> is_change(kind) || kind is Read,
{
}

} // verus!
