//! Handles of open databases.
use crate::outside;
use crate::outside::fresh_id;
use crate::schema::SchemaInfo;
use vstd::prelude::*;

verus! {

/// An open database, as its users see it.
#[derive(Debug, Clone)]
pub struct Handle {
    pub id: String,
    pub path: String,
    pub readonly: bool,
    pub journal_mode: String,
    pub transaction_id: Option<String>,
    pub transaction_mode: Option<String>,
    /// The schema was observed and the observation still holds.
    pub schema_observed: bool,
    pub schema_version: i64,
    /// How often an observation was published or withdrawn.
    pub observation_generation: u64,
    /// A transaction idled away, and the schema was not observed since.
    pub expired: bool,
}

/// What a handle says.
#[verifier::ext_equal]
pub struct HandleView {
    pub id: Seq<char>,
    pub path: Seq<char>,
    pub readonly: bool,
    pub journal_mode: Seq<char>,
    pub transaction_id: Option<Seq<char>>,
    pub transaction_mode: Option<Seq<char>>,
    pub schema_observed: bool,
    pub schema_version: i64,
    pub observation_generation: u64,
    pub expired: bool,
}

/// An optional text.
pub open spec fn option_view(o: Option<String>) -> Option<Seq<char>> {
    match o {
        Some(s) => Some(s@),
        None => None,
    }
}

pub fn copy_option(o: &Option<String>) -> (r: Option<String>)
    ensures
        option_view(r) == option_view(*o),
{
    match o {
        Some(s) => Some(s.as_str().to_owned()),
        None => None,
    }
}

impl View for Handle {
    type V = HandleView;

    open spec fn view(&self) -> HandleView {
        HandleView {
            id: self.id@,
            path: self.path@,
            readonly: self.readonly,
            journal_mode: self.journal_mode@,
            transaction_id: option_view(self.transaction_id),
            transaction_mode: option_view(self.transaction_mode),
            schema_observed: self.schema_observed,
            schema_version: self.schema_version,
            observation_generation: self.observation_generation,
            expired: self.expired,
        }
    }
}

/// A handle that nothing was done with yet.
pub open spec fn fresh_handle(
    id: Seq<char>,
    path: Seq<char>,
    readonly: bool,
    journal_mode: Seq<char>,
) -> HandleView {
    HandleView {
        id,
        path,
        readonly,
        journal_mode,
        transaction_id: None,
        transaction_mode: None,
        schema_observed: false,
        schema_version: -1i64,
        observation_generation: 0,
        expired: false,
    }
}

impl Handle {
    /// A handle under a new random name.
    pub fn new(path: String, readonly: bool, journal_mode: String) -> (r: Self)
        ensures
            r@ == fresh_handle(r.id@, path@, readonly, journal_mode@),
            r.id@.len() == 36,
            forall|i: int| 0 <= i < r.id@.len() ==> outside::is_id_char(#[trigger] r.id@[i]),
    {
        Self::with_id(fresh_id(), path, readonly, journal_mode)
    }

    /// A handle under a given name.
    pub fn with_id(id: String, path: String, readonly: bool, journal_mode: String) -> (r: Self)
        ensures
            r@ == fresh_handle(id@, path@, readonly, journal_mode@),
    {
        Handle {
            id,
            path,
            readonly,
            journal_mode,
            transaction_id: None,
            transaction_mode: None,
            schema_observed: false,
            schema_version: -1i64,
            observation_generation: 0,
            expired: false,
        }
    }

    /// The same handle once more.
    pub fn copy(&self) -> (r: Self)
        ensures
            r@ == self@,
    {
        Handle {
            id: self.id.as_str().to_owned(),
            path: self.path.as_str().to_owned(),
            readonly: self.readonly,
            journal_mode: self.journal_mode.as_str().to_owned(),
            transaction_id: copy_option(&self.transaction_id),
            transaction_mode: copy_option(&self.transaction_mode),
            schema_observed: self.schema_observed,
            schema_version: self.schema_version,
            observation_generation: self.observation_generation,
            expired: self.expired,
        }
    }
}

/// What is remembered of the schema while a transaction is open.
#[derive(Debug)]
pub struct TransactionSchemaState {
    /// The observation as it was when the transaction began.
    pub pre_observed: bool,
    pub pre_version: i64,
    pub pre_generation: u64,
    /// The schema version that the next statement expects.
    pub expected_version: i64,
    /// The transaction changed the schema.
    pub pending_schema_change: bool,
    /// The schema as it was last read inside the transaction.
    pub overlay: Option<SchemaInfo>,
}

/// A new handle has its path and access, no transaction and no observation. A copy
/// says the same in everything.
pub proof fn new_handles_are_idle(
    id: String,
    path: String,
    readonly: bool,
    journal_mode: String,
    r: Handle,
    other: &Handle,
    copied: Handle,
)
    requires
        call_ensures(Handle::with_id, (id, path, readonly, journal_mode), r),
        call_ensures(Handle::copy, (other,), copied),
    ensures
        r.id@ == id@,
        r.path@ == path@,
        r.readonly == readonly,
        r.journal_mode@ == journal_mode@,
        r.transaction_id is None,
        r.transaction_mode is None,
        !r.schema_observed,
        r.schema_version == -1,
        r.observation_generation == 0,
        !r.expired,
        copied.id@ == other.id@,
        copied.path@ == other.path@,
        copied.readonly == other.readonly,
        copied.journal_mode@ == other.journal_mode@,
        copied.transaction_id is Some <==> other.transaction_id is Some,
        copied.transaction_id is Some ==> copied.transaction_id->0@ == other.transaction_id->0@,
        copied.transaction_mode is Some <==> other.transaction_mode is Some,
        copied.transaction_mode is Some ==> copied.transaction_mode->0@
            == other.transaction_mode->0@,
        copied.schema_observed == other.schema_observed,
        copied.schema_version == other.schema_version,
        copied.observation_generation == other.observation_generation,
        copied.expired == other.expired,
{
    assert(r@ == fresh_handle(id@, path@, readonly, journal_mode@));
    assert(r@.transaction_id == option_view(r.transaction_id));
    assert(copied@ == other@);
    assert(copied@.transaction_id == other@.transaction_id);
    assert(copied@.transaction_mode == other@.transaction_mode);
}

} // verus!
