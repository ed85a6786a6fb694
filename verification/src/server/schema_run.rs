//! The reading of a whole schema, step by step.
//!
//! The steps need the connection; whoever runs them hands each outcome back. The
//! first failure ends the reading, and a transaction that was begun for it is
//! ended before anything is answered.
use crate::schema::{SchemaColumn, SchemaForeignKey, SchemaIndex, SchemaInfo, SchemaObject, SchemaTable};
use crate::server::schema_read;
use crate::server::schema_read::{
    schema_cleanup, schema_index, schema_query, schema_table, settle_schema, user_version,
    IndexInfo, SchemaCleanup, SchemaPragma,
};
use crate::merge::values;
use crate::worker::error::{SqliteFailure, WorkerError};
use vstd::prelude::*;

verus! {

/// A row of the list of tables.
#[derive(Debug)]
pub struct TableRow {
    pub name: String,
    pub without_rowid: i64,
    pub strict: i64,
}

/// A row of the list of a table's indexes.
#[derive(Debug)]
pub struct IndexRow {
    pub name: String,
    pub unique: i64,
    pub origin: String,
}

/// Where a reading stands.
#[derive(Debug, Clone, Copy, PartialEq, Eq, Structural)]
pub enum SchemaStage {
    Entering,
    Beginning,
    /// Makes the connection see one state of the database.
    TakingSnapshot,
    ReadingVersion,
    ReadingUserVersion,
    ReadingObjects,
    ListingTables,
    ReadingColumns,
    ListingIndexes,
    ReadingIndex,
    ReadingForeignKeys,
    CleaningUp,
    Ended,
}

/// What came of a step.
#[derive(Debug)]
pub enum SchemaReply {
    /// Whether no transaction is open.
    Autocommit(bool),
    Done(Result<(), SqliteFailure>),
    Version(Result<i64, SqliteFailure>),
    /// The number of columns, the value of the first row and whether there is
    /// another.
    UserVersion(Result<(usize, Option<i64>, bool), SqliteFailure>),
    /// The path of the database and its objects.
    Objects { identity: String, objects: Result<Vec<SchemaObject>, SqliteFailure> },
    Tables(Result<Vec<TableRow>, SqliteFailure>),
    Columns(Result<Vec<SchemaColumn>, SqliteFailure>),
    Indexes(Result<Vec<IndexRow>, SqliteFailure>),
    IndexColumns(Result<Vec<Option<String>>, SqliteFailure>),
    ForeignKeys(Result<Vec<SchemaForeignKey>, SqliteFailure>),
    CleanedUp { succeeded: bool, autocommit: bool },
}

/// What to do next.
#[derive(Debug)]
pub enum SchemaAction {
    Begin,
    TakeSnapshot,
    ReadVersion,
    ReadUserVersion,
    ReadObjects,
    ListTables,
    /// Ask this about the current table or index.
    Ask(String),
    CleanUp(SchemaCleanup),
    Answer(Result<SchemaInfo, WorkerError>),
}

/// A reading of a schema.
#[derive(Debug)]
pub struct SchemaRun {
    /// A transaction is begun for the reading.
    pub managed: bool,
    pub schema_version: i64,
    pub user_version: i64,
    pub identity: String,
    pub objects: Vec<SchemaObject>,
    /// The tables that have not been read yet, but for the current one.
    pub table_rows: Vec<TableRow>,
    pub table: Option<TableRow>,
    pub columns: Vec<SchemaColumn>,
    /// The indexes of the current table that have not been read yet, but for the
    /// current one.
    pub index_rows: Vec<IndexRow>,
    pub index: Option<IndexRow>,
    pub indexes: Vec<SchemaIndex>,
    pub tables: Vec<SchemaTable>,
    pub result: Option<Result<SchemaInfo, WorkerError>>,
    pub stage: SchemaStage,
}

/// The question about a table or an index.
pub open spec fn question(pragma: SchemaPragma, name: Seq<char>) -> Seq<char> {
    "PRAGMA "@ + schema_read::pragma_word(pragma) + "("@ + values::quoted(name, '\'') + ")"@
}

/// The step asks this.
pub open spec fn asks(action: SchemaAction, pragma: SchemaPragma, name: Seq<char>) -> bool {
    action matches SchemaAction::Ask(s) && s@ == question(pragma, name)
}

impl SchemaRun {
    /// There is a current table and a current index exactly while they are read,
    /// and a result exactly while it waits for the cleanup.
    pub open spec fn wf(self) -> bool {
        &&& self.table is Some == (self.stage is ReadingColumns || self.stage is ListingIndexes
            || self.stage is ReadingIndex || self.stage is ReadingForeignKeys)
        &&& self.index is Some == (self.stage is ReadingIndex)
        &&& self.result is Some == (self.stage is CleaningUp)
        &&& self.stage is CleaningUp ==> self.managed
        &&& self.stage is Beginning ==> self.managed
    }

    /// A reply is one to what was asked for.
    pub open spec fn fits(self, reply: SchemaReply) -> bool {
        match self.stage {
            SchemaStage::Entering => reply is Autocommit,
            SchemaStage::Beginning | SchemaStage::TakingSnapshot => reply is Done,
            SchemaStage::ReadingVersion => reply is Version,
            SchemaStage::ReadingUserVersion => reply is UserVersion,
            SchemaStage::ReadingObjects => reply is Objects,
            SchemaStage::ListingTables => reply is Tables,
            SchemaStage::ReadingColumns => reply is Columns,
            SchemaStage::ListingIndexes => reply is Indexes,
            SchemaStage::ReadingIndex => reply is IndexColumns,
            SchemaStage::ReadingForeignKeys => reply is ForeignKeys,
            SchemaStage::CleaningUp => reply is CleanedUp,
            SchemaStage::Ended => false,
        }
    }

    /// The reading is over with this result, which is answered at once or waits
    /// for the cleanup.
    pub open spec fn concludes(
        self,
        post: SchemaRun,
        action: SchemaAction,
        result: Result<SchemaInfo, WorkerError>,
    ) -> bool {
        if self.managed {
            &&& post.stage is CleaningUp && post.managed
            &&& post.result == Some(result)
            &&& action == SchemaAction::CleanUp(
                if result is Ok {
                    SchemaCleanup::Commit
                } else {
                    SchemaCleanup::Rollback
                },
            )
        } else {
            post.stage is Ended && action == SchemaAction::Answer(result)
        }
    }

    /// The reading is over with a failure of SQLite.
    pub open spec fn fails(self, post: SchemaRun, action: SchemaAction, e: SqliteFailure) -> bool {
        self.concludes(post, action, Err(WorkerError::Sqlite(e)))
    }

    /// All tables are read, or the next one comes.
    pub open spec fn goes_on(self, post: SchemaRun, action: SchemaAction) -> bool {
        if self.table_rows@.len() == 0 {
            self.concludes(
                post,
                action,
                Ok(
                    SchemaInfo {
                        schema_version: self.schema_version,
                        user_version: self.user_version,
                        identity: self.identity,
                        objects: self.objects,
                        tables: self.tables,
                    },
                ),
            )
        } else {
            &&& post.table_rows@ == self.table_rows@.skip(1)
            &&& post.columns@.len() == 0 && post.indexes@.len() == 0 && post.index_rows@.len() == 0
            &&& post == (SchemaRun {
                table: Some(self.table_rows@[0]),
                table_rows: post.table_rows,
                columns: post.columns,
                indexes: post.indexes,
                index_rows: post.index_rows,
                index: None,
                stage: SchemaStage::ReadingColumns,
                ..self
            })
            &&& asks(action, SchemaPragma::TableColumns, self.table_rows@[0].name@)
        }
    }

    /// All indexes of the current table are read, or the next one comes.
    pub open spec fn goes_on_with_indexes(self, post: SchemaRun, action: SchemaAction) -> bool {
        if self.index_rows@.len() == 0 {
            &&& post == (SchemaRun {
                index: None,
                stage: SchemaStage::ReadingForeignKeys,
                ..self
            })
            &&& asks(action, SchemaPragma::ForeignKeys, self.table->0.name@)
        } else {
            &&& post.index_rows@ == self.index_rows@.skip(1)
            &&& post == (SchemaRun {
                index: Some(self.index_rows@[0]),
                index_rows: post.index_rows,
                stage: SchemaStage::ReadingIndex,
                ..self
            })
            &&& asks(action, SchemaPragma::IndexColumns, self.index_rows@[0].name@)
        }
    }

    /// What a reply leads to.
    pub open spec fn leads_to(
        self,
        reply: SchemaReply,
        post: SchemaRun,
        action: SchemaAction,
    ) -> bool {
        match reply {
            SchemaReply::Autocommit(autocommit) => if autocommit {
                action is Begin && post == (SchemaRun {
                    managed: true,
                    stage: SchemaStage::Beginning,
                    ..self
                })
            } else {
                action is TakeSnapshot && post == (SchemaRun {
                    managed: false,
                    stage: SchemaStage::TakingSnapshot,
                    ..self
                })
            },
            SchemaReply::Done(done) => match done {
                Err(e) => if self.stage is Beginning {
                    post.stage is Ended && action == SchemaAction::Answer(
                        Err(WorkerError::Sqlite(e)),
                    )
                } else {
                    self.fails(post, action, e)
                },
                Ok(()) => if self.stage is Beginning {
                    action is TakeSnapshot && post == (SchemaRun {
                        stage: SchemaStage::TakingSnapshot,
                        ..self
                    })
                } else {
                    action is ReadVersion && post == (SchemaRun {
                        stage: SchemaStage::ReadingVersion,
                        ..self
                    })
                },
            },
            SchemaReply::Version(version) => match version {
                Err(e) => self.fails(post, action, e),
                Ok(v) => action is ReadUserVersion && post == (SchemaRun {
                    schema_version: v,
                    stage: SchemaStage::ReadingUserVersion,
                    ..self
                }),
            },
            SchemaReply::UserVersion(version) => match version {
                Err(e) => self.fails(post, action, e),
                Ok((columns, first, more)) => if columns == 1 && first is Some && !more {
                    action is ReadObjects && post == (SchemaRun {
                        user_version: first->0,
                        stage: SchemaStage::ReadingObjects,
                        ..self
                    })
                } else {
                    exists|e: SqliteFailure| #[trigger]
                        self.fails(post, action, e) && e.code is None && e.text@ == if columns == 1
                            && first is None {
                            "Query returned no rows"@
                        } else {
                            "Query is not read-only"@
                        }
                },
            },
            SchemaReply::Objects { identity, objects } => match objects {
                Err(e) => self.fails(post, action, e),
                Ok(found) => action is ListTables && post == (SchemaRun {
                    identity,
                    objects: found,
                    stage: SchemaStage::ListingTables,
                    ..self
                }),
            },
            SchemaReply::Tables(tables) => match tables {
                Err(e) => self.fails(post, action, e),
                Ok(rows) => (SchemaRun { table_rows: rows, ..self }).goes_on(post, action),
            },
            SchemaReply::Columns(columns) => match columns {
                Err(e) => self.fails(post, action, e),
                Ok(found) => asks(action, SchemaPragma::TableIndexes, self.table->0.name@) && post
                    == (SchemaRun { columns: found, stage: SchemaStage::ListingIndexes, ..self }),
            },
            SchemaReply::Indexes(indexes) => match indexes {
                Err(e) => self.fails(post, action, e),
                Ok(rows) => (SchemaRun { index_rows: rows, ..self }).goes_on_with_indexes(
                    post,
                    action,
                ),
            },
            SchemaReply::IndexColumns(columns) => match columns {
                Err(e) => self.fails(post, action, e),
                Ok(found) => exists|indexes: Vec<SchemaIndex>|
                    indexes@.len() == self.indexes@.len() + 1 && indexes@.drop_last()
                        == self.indexes@ && schema_read::reports_index(
                        indexes@.last(),
                        IndexInfo {
                            name: self.index->0.name,
                            unique: self.index->0.unique,
                            origin: self.index->0.origin,
                            columns: found,
                        },
                    ) && #[trigger] (SchemaRun { indexes, ..self }).goes_on_with_indexes(
                        post,
                        action,
                    ),
            },
            SchemaReply::ForeignKeys(keys) => match keys {
                Err(e) => self.fails(post, action, e),
                Ok(found) => exists|tables: Vec<SchemaTable>|
                    tables@ == self.tables@.push(
                        SchemaTable {
                            name: self.table->0.name,
                            strict: self.table->0.strict != 0,
                            without_rowid: self.table->0.without_rowid != 0,
                            columns: self.columns,
                            indexes: self.indexes,
                            foreign_keys: found,
                        },
                    ) && #[trigger] (SchemaRun { tables, table: None, ..self }).goes_on(
                        post,
                        action,
                    ),
            },
            SchemaReply::CleanedUp { succeeded, autocommit } => {
                &&& post.stage is Ended
                &&& action matches SchemaAction::Answer(answer) && if succeeded && (
                self.result->0 is Ok || autocommit) {
                    answer == self.result->0
                } else {
                    answer matches Err(e) && e.is_message(
                        "managed schema cleanup failed; handle invalidated"@,
                    )
                }
            },
        }
    }

    /// A reading that has yet to ask whether a transaction is open.
    pub fn start() -> (r: Self)
        ensures
            r.wf(),
            r.stage is Entering,
            r.tables@.len() == 0,
    {
        SchemaRun {
            managed: false,
            schema_version: 0,
            user_version: 0,
            identity: String::new(),
            objects: Vec::new(),
            table_rows: Vec::new(),
            table: None,
            columns: Vec::new(),
            index_rows: Vec::new(),
            index: None,
            indexes: Vec::new(),
            tables: Vec::new(),
            result: None,
            stage: SchemaStage::Entering,
        }
    }

    fn conclude(&mut self, result: Result<SchemaInfo, WorkerError>) -> (r: SchemaAction)
        ensures
            final(self).wf(),
            old(self).concludes(*final(self), r, result),
    {
        self.table = None;
        self.index = None;
        if self.managed {
            let cleanup = schema_cleanup(true, result.is_ok());
            self.result = Some(result);
            self.stage = SchemaStage::CleaningUp;
            SchemaAction::CleanUp(cleanup)
        } else {
            self.result = None;
            self.stage = SchemaStage::Ended;
            SchemaAction::Answer(result)
        }
    }

    fn fail(&mut self, e: SqliteFailure) -> (r: SchemaAction)
        ensures
            final(self).wf(),
            old(self).fails(*final(self), r, e),
    {
        self.conclude(Err(WorkerError::Sqlite(e)))
    }

    fn next_table(&mut self) -> (r: SchemaAction)
        requires
            old(self).result is None,
        ensures
            final(self).wf(),
            old(self).goes_on(*final(self), r),
    {
        if self.table_rows.len() == 0 {
            let mut identity = String::new();
            std::mem::swap(&mut identity, &mut self.identity);
            let mut objects: Vec<SchemaObject> = Vec::new();
            std::mem::swap(&mut objects, &mut self.objects);
            let mut tables: Vec<SchemaTable> = Vec::new();
            std::mem::swap(&mut tables, &mut self.tables);
            let info = SchemaInfo {
                schema_version: self.schema_version,
                user_version: self.user_version,
                identity,
                objects,
                tables,
            };
            return self.conclude(Ok(info));
        }
        let ghost rows = self.table_rows@;
        let row = self.table_rows.remove(0);
        assert(self.table_rows@ =~= rows.skip(1));
        let question = schema_query(SchemaPragma::TableColumns, row.name.as_str());
        self.table = Some(row);
        self.columns = Vec::new();
        self.indexes = Vec::new();
        self.index_rows = Vec::new();
        self.index = None;
        self.stage = SchemaStage::ReadingColumns;
        SchemaAction::Ask(question)
    }

    fn next_index(&mut self) -> (r: SchemaAction)
        requires
            old(self).table is Some,
            old(self).result is None,
        ensures
            final(self).wf(),
            old(self).goes_on_with_indexes(*final(self), r),
    {
        if self.index_rows.len() == 0 {
            let question = match &self.table {
                Some(table) => schema_query(SchemaPragma::ForeignKeys, table.name.as_str()),
                None => String::new(),
            };
            self.index = None;
            self.stage = SchemaStage::ReadingForeignKeys;
            return SchemaAction::Ask(question);
        }
        let ghost rows = self.index_rows@;
        let row = self.index_rows.remove(0);
        assert(self.index_rows@ =~= rows.skip(1));
        let question = schema_query(SchemaPragma::IndexColumns, row.name.as_str());
        self.index = Some(row);
        self.stage = SchemaStage::ReadingIndex;
        SchemaAction::Ask(question)
    }

    fn index_read(&mut self, found: Vec<Option<String>>) -> (r: SchemaAction)
        requires
            old(self).wf(),
            old(self).stage is ReadingIndex,
        ensures
            final(self).wf(),
            old(self).leads_to(SchemaReply::IndexColumns(Ok(found)), *final(self), r),
    {
        let ghost pre = *self;
        let current = self.index.take();
        let ghost row = pre.index->0;
        match current {
            Some(row) => {
                let built = schema_index(
                    IndexInfo {
                        name: row.name,
                        unique: row.unique,
                        origin: row.origin,
                        columns: found,
                    },
                );
                self.indexes.push(built);
            },
            None => {},
        }
        assert(self.indexes@.drop_last() =~= pre.indexes@);
        let ghost indexes = self.indexes;
        let ghost mid = *self;
        let r = self.next_index();
        proof {
            let with = SchemaRun { indexes, ..pre };
            assert(mid.goes_on_with_indexes(*self, r));
            assert(with.goes_on_with_indexes(*self, r));
        }
        r
    }

    fn table_read(&mut self, found: Vec<SchemaForeignKey>) -> (r: SchemaAction)
        requires
            old(self).wf(),
            old(self).stage is ReadingForeignKeys,
        ensures
            final(self).wf(),
            old(self).leads_to(SchemaReply::ForeignKeys(Ok(found)), *final(self), r),
    {
        let ghost pre = *self;
        let current = self.table.take();
        match current {
            Some(row) => {
                let mut columns: Vec<SchemaColumn> = Vec::new();
                std::mem::swap(&mut columns, &mut self.columns);
                let mut indexes: Vec<SchemaIndex> = Vec::new();
                std::mem::swap(&mut indexes, &mut self.indexes);
                let table = schema_table(
                    row.name,
                    row.without_rowid,
                    row.strict,
                    columns,
                    indexes,
                    found,
                );
                self.tables.push(table);
            },
            None => {},
        }
        let ghost tables = self.tables;
        let ghost mid = *self;
        let r = self.next_table();
        proof {
            let with = SchemaRun { tables, table: None, ..pre };
            assert(mid.goes_on(*self, r));
            assert(with.goes_on(*self, r));
        }
        r
    }

    /// Takes the outcome of a step and says what to do next.
    pub fn step(&mut self, reply: SchemaReply) -> (r: SchemaAction)
        requires
            old(self).wf(),
            old(self).fits(reply),
        ensures
            final(self).wf(),
            old(self).leads_to(reply, *final(self), r),
    {
        match reply {
            SchemaReply::Autocommit(autocommit) => {
                self.managed = autocommit;
                if autocommit {
                    self.stage = SchemaStage::Beginning;
                    SchemaAction::Begin
                } else {
                    self.stage = SchemaStage::TakingSnapshot;
                    SchemaAction::TakeSnapshot
                }
            },
            SchemaReply::Done(done) => {
                if let SchemaStage::Beginning = self.stage {
                    if let Err(e) = done {
                        self.stage = SchemaStage::Ended;
                        return SchemaAction::Answer(Err(WorkerError::Sqlite(e)));
                    }
                    self.stage = SchemaStage::TakingSnapshot;
                    return SchemaAction::TakeSnapshot;
                }
                if let Err(e) = done {
                    return self.fail(e);
                }
                self.stage = SchemaStage::ReadingVersion;
                SchemaAction::ReadVersion
            },
            SchemaReply::Version(version) => match version {
                Err(e) => self.fail(e),
                Ok(v) => {
                    self.schema_version = v;
                    self.stage = SchemaStage::ReadingUserVersion;
                    SchemaAction::ReadUserVersion
                },
            },
            SchemaReply::UserVersion(version) => match version {
                Err(e) => self.fail(e),
                Ok((columns, first, more)) => match user_version(columns, first, more) {
                    Ok(v) => {
                        self.user_version = v;
                        self.stage = SchemaStage::ReadingObjects;
                        SchemaAction::ReadObjects
                    },
                    Err(e) => match e {
                        WorkerError::Sqlite(f) => self.fail(f),
                        _ => self.conclude(Err(e)),
                    },
                },
            },
            SchemaReply::Objects { identity, objects } => match objects {
                Err(e) => self.fail(e),
                Ok(found) => {
                    self.identity = identity;
                    self.objects = found;
                    self.stage = SchemaStage::ListingTables;
                    SchemaAction::ListTables
                },
            },
            SchemaReply::Tables(tables) => match tables {
                Err(e) => self.fail(e),
                Ok(rows) => {
                    self.table_rows = rows;
                    self.next_table()
                },
            },
            SchemaReply::Columns(columns) => match columns {
                Err(e) => self.fail(e),
                Ok(found) => {
                    let question = match &self.table {
                        Some(table) => schema_query(
                            SchemaPragma::TableIndexes,
                            table.name.as_str(),
                        ),
                        None => String::new(),
                    };
                    self.columns = found;
                    self.stage = SchemaStage::ListingIndexes;
                    SchemaAction::Ask(question)
                },
            },
            SchemaReply::Indexes(indexes) => match indexes {
                Err(e) => self.fail(e),
                Ok(rows) => {
                    self.index_rows = rows;
                    self.next_index()
                },
            },
            SchemaReply::IndexColumns(columns) => match columns {
                Err(e) => self.fail(e),
                Ok(found) => self.index_read(found),
            },
            SchemaReply::ForeignKeys(keys) => match keys {
                Err(e) => self.fail(e),
                Ok(found) => self.table_read(found),
            },
            SchemaReply::CleanedUp { succeeded, autocommit } => {
                let waiting = self.result.take();
                self.result = None;
                self.stage = SchemaStage::Ended;
                match waiting {
                    Some(result) => SchemaAction::Answer(
                        settle_schema(true, result, succeeded, autocommit),
                    ),
                    None => SchemaAction::Answer(Err(WorkerError::Closed)),
                }
            },
        }
    }
}

/// A transaction that was begun for a reading is ended before the answer, unless
/// it could not begin.
pub proof fn readings_clean_up(
    run: SchemaRun,
    reply: SchemaReply,
    post: SchemaRun,
    action: SchemaAction,
)
    requires
        run.wf(),
        run.managed,
        run.fits(reply),
        !(run.stage is Entering),
        run.leads_to(reply, post, action),
        action is Answer,
    ensures
        run.stage is CleaningUp || run.stage is Beginning,
{
}

} // verus!
