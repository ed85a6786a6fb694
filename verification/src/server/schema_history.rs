//! What holds of a whole reading of a schema, from its start to its answer.
use crate::merge::values;
use crate::schema::{SchemaColumn, SchemaForeignKey, SchemaIndex, SchemaInfo, SchemaTable};
use crate::server::schema_read;
use crate::server::schema_read::SchemaCleanup;
use crate::server::schema_run::{
    IndexRow, SchemaAction, SchemaReply, SchemaRun, SchemaStage, TableRow,
};
use crate::worker::error::{SqliteFailure, WorkerError};
use vstd::prelude::*;

verus! {

/// A step of a reading: where it stood, what it was told, where it stands then and
/// what it asks for.
pub struct SchemaStep {
    pub run: SchemaRun,
    pub reply: SchemaReply,
    pub post: SchemaRun,
    pub action: SchemaAction,
}

/// Where a reading stands behind some steps.
pub open spec fn run_after(first: SchemaRun, steps: Seq<SchemaStep>) -> SchemaRun {
    if steps.len() == 0 {
        first
    } else {
        steps.last().post
    }
}

/// The step is one that the reading can take.
pub open spec fn is_step(s: SchemaStep) -> bool {
    s.run.wf() && s.run.fits(s.reply) && s.run.leads_to(s.reply, s.post, s.action) && s.post.wf()
}

/// The steps follow each other from a start.
pub open spec fn is_history(first: SchemaRun, steps: Seq<SchemaStep>) -> bool
    decreases steps.len(),
{
    if steps.len() == 0 {
        first.wf() && first.stage is Entering && first.tables@.len() == 0
    } else {
        &&& is_history(first, steps.drop_last())
        &&& steps.last().run == run_after(first, steps.drop_last())
        &&& is_step(steps.last())
    }
}

/// The rows of the list of tables.
pub open spec fn listed(steps: Seq<SchemaStep>) -> Seq<TableRow>
    decreases steps.len(),
{
    if steps.len() == 0 {
        Seq::empty()
    } else {
        match steps.last().reply {
            SchemaReply::Tables(Ok(rows)) => rows@,
            _ => listed(steps.drop_last()),
        }
    }
}

/// The columns that were read, table by table.
pub open spec fn columns_read(steps: Seq<SchemaStep>) -> Seq<Seq<SchemaColumn>>
    decreases steps.len(),
{
    if steps.len() == 0 {
        Seq::empty()
    } else {
        let before = columns_read(steps.drop_last());
        match steps.last().reply {
            SchemaReply::Columns(Ok(rows)) => before.push(rows@),
            _ => before,
        }
    }
}

/// The foreign keys that were read, table by table.
pub open spec fn keys_read(steps: Seq<SchemaStep>) -> Seq<Seq<SchemaForeignKey>>
    decreases steps.len(),
{
    if steps.len() == 0 {
        Seq::empty()
    } else {
        let before = keys_read(steps.drop_last());
        match steps.last().reply {
            SchemaReply::ForeignKeys(Ok(rows)) => before.push(rows@),
            _ => before,
        }
    }
}

/// The lists of indexes that were read, table by table.
pub open spec fn indexes_read(steps: Seq<SchemaStep>) -> Seq<Seq<IndexRow>>
    decreases steps.len(),
{
    if steps.len() == 0 {
        Seq::empty()
    } else {
        let before = indexes_read(steps.drop_last());
        match steps.last().reply {
            SchemaReply::Indexes(Ok(rows)) => before.push(rows@),
            _ => before,
        }
    }
}

/// The columns of the indexes that were read, table by table and index by index.
pub open spec fn index_columns_read(steps: Seq<SchemaStep>) -> Seq<Seq<Seq<Option<String>>>>
    decreases steps.len(),
{
    if steps.len() == 0 {
        Seq::empty()
    } else {
        let before = index_columns_read(steps.drop_last());
        match steps.last().reply {
            SchemaReply::Indexes(Ok(_)) => before.push(Seq::empty()),
            SchemaReply::IndexColumns(Ok(rows)) => before.drop_last().push(
                before.last().push(rows@),
            ),
            _ => before,
        }
    }
}

/// An index is reported as it was listed, with the names among its columns.
pub open spec fn is_index(index: SchemaIndex, row: IndexRow, columns: Seq<Option<String>>) -> bool {
    &&& index.name == row.name
    &&& index.unique == (row.unique != 0)
    &&& index.origin == row.origin
    &&& index.columns@ == schema_read::named(columns)
}

/// Every index of a table is reported.
pub open spec fn are_indexes(
    indexes: Seq<SchemaIndex>,
    rows: Seq<IndexRow>,
    columns: Seq<Seq<Option<String>>>,
) -> bool {
    &&& indexes.len() == rows.len() == columns.len()
    &&& forall|j: int|
        0 <= j < indexes.len() ==> is_index(#[trigger] indexes[j], rows[j], columns[j])
}

/// A table is reported as it was listed, with everything that was read of it.
pub open spec fn is_table(
    table: SchemaTable,
    row: TableRow,
    columns: Seq<SchemaColumn>,
    keys: Seq<SchemaForeignKey>,
    indexes: Seq<IndexRow>,
    index_columns: Seq<Seq<Option<String>>>,
) -> bool {
    &&& table.name == row.name
    &&& table.strict == (row.strict != 0)
    &&& table.without_rowid == (row.without_rowid != 0)
    &&& table.columns@ == columns
    &&& table.foreign_keys@ == keys
    &&& are_indexes(table.indexes@, indexes, index_columns)
}

/// The table with this number is reported as it was read.
pub open spec fn is_read(tables: Seq<SchemaTable>, steps: Seq<SchemaStep>, i: int) -> bool {
    is_table(
        tables[i],
        listed(steps)[i],
        columns_read(steps)[i],
        keys_read(steps)[i],
        indexes_read(steps)[i],
        index_columns_read(steps)[i],
    )
}

/// The version that was read.
pub open spec fn version_read(steps: Seq<SchemaStep>) -> Option<i64>
    decreases steps.len(),
{
    if steps.len() == 0 {
        None
    } else {
        match steps.last().reply {
            SchemaReply::Version(Ok(v)) => Some(v),
            _ => version_read(steps.drop_last()),
        }
    }
}

/// The user version that was read: the only value of the only row.
pub open spec fn user_version_read(steps: Seq<SchemaStep>) -> Option<i64>
    decreases steps.len(),
{
    if steps.len() == 0 {
        None
    } else {
        match steps.last().reply {
            SchemaReply::UserVersion(Ok((columns, Some(v), more))) if columns == 1 && !more => Some(
                v,
            ),
            _ => user_version_read(steps.drop_last()),
        }
    }
}

/// The answer holds the path and the objects that were read.
pub open spec fn has_objects(info: SchemaInfo, steps: Seq<SchemaStep>) -> bool
    decreases steps.len(),
{
    if steps.len() == 0 {
        false
    } else {
        match steps.last().reply {
            SchemaReply::Objects { identity, objects } => info.identity == identity && objects
                == Ok::<_, SqliteFailure>(info.objects),
            _ => has_objects(info, steps.drop_last()),
        }
    }
}

/// An answer that holds everything that was read: every table of the list, in its
/// order and with all its parts, and the objects and versions.
pub open spec fn is_complete(info: SchemaInfo, steps: Seq<SchemaStep>) -> bool {
    let n = listed(steps).len();
    &&& info.tables@.len() == n
    &&& columns_read(steps).len() == n
    &&& keys_read(steps).len() == n
    &&& indexes_read(steps).len() == n
    &&& index_columns_read(steps).len() == n
    &&& forall|i: int| 0 <= i < n ==> #[trigger] is_read(info.tables@, steps, i)
    &&& version_read(steps) == Some(info.schema_version)
    &&& user_version_read(steps) == Some(info.user_version)
    &&& has_objects(info, steps)
}

/// The reading is among the tables.
spec fn is_among_tables(stage: SchemaStage) -> bool {
    stage is ReadingColumns || stage is ListingIndexes || stage is ReadingIndex
        || stage is ReadingForeignKeys
}

/// What is held of versions and objects.
spec fn holds_head(run: SchemaRun, steps: Seq<SchemaStep>) -> bool {
    let info = SchemaInfo {
        schema_version: run.schema_version,
        user_version: run.user_version,
        identity: run.identity,
        objects: run.objects,
        tables: run.tables,
    };
    match run.stage {
        SchemaStage::ReadingUserVersion => version_read(steps) == Some(run.schema_version),
        SchemaStage::ReadingObjects => version_read(steps) == Some(run.schema_version)
            && user_version_read(steps) == Some(run.user_version),
        SchemaStage::ListingTables | SchemaStage::ReadingColumns | SchemaStage::ListingIndexes
        | SchemaStage::ReadingIndex | SchemaStage::ReadingForeignKeys => version_read(steps)
            == Some(run.schema_version) && user_version_read(steps) == Some(run.user_version)
            && has_objects(info, steps),
        _ => true,
    }
}

/// What is held of the tables that are done.
spec fn holds_tables(run: SchemaRun, steps: Seq<SchemaStep>) -> bool {
    let done = run.tables@.len();
    let rows = listed(steps);
    &&& forall|i: int| 0 <= i < done ==> #[trigger] is_read(run.tables@, steps, i)
    &&& rows.len() == done + 1 + run.table_rows@.len()
    &&& run.table == Some(rows[done as int])
    &&& rows.skip(done as int + 1) == run.table_rows@
    &&& columns_read(steps).len() == done + if run.stage is ReadingColumns {
        0int
    } else {
        1int
    }
    &&& !(run.stage is ReadingColumns) ==> columns_read(steps).last() == run.columns@
    &&& keys_read(steps).len() == done
    &&& indexes_read(steps).len() == index_columns_read(steps).len() == done
        + if run.stage is ReadingColumns || run.stage is ListingIndexes {
        0int
    } else {
        1int
    }
}

/// What is held of the indexes of the current table.
spec fn holds_indexes(run: SchemaRun, steps: Seq<SchemaStep>) -> bool {
    let done = run.indexes@.len();
    let rows = indexes_read(steps).last();
    let columns = index_columns_read(steps).last();
    match run.stage {
        SchemaStage::ReadingColumns | SchemaStage::ListingIndexes => done == 0,
        SchemaStage::ReadingIndex => {
            &&& rows.len() == done + 1 + run.index_rows@.len()
            &&& run.index == Some(rows[done as int])
            &&& rows.skip(done as int + 1) == run.index_rows@
            &&& are_indexes(run.indexes@, rows.take(done as int), columns)
        },
        _ => are_indexes(run.indexes@, rows, columns),
    }
}

/// What a reading holds of its steps while it goes on.
spec fn holds(run: SchemaRun, steps: Seq<SchemaStep>) -> bool {
    &&& holds_head(run, steps)
    &&& match run.stage {
        SchemaStage::CleaningUp => run.result matches Some(Ok(info)) ==> is_complete(info, steps),
        SchemaStage::Ended => true,
        _ => if is_among_tables(run.stage) {
            holds_tables(run, steps) && holds_indexes(run, steps)
        } else {
            &&& run.tables@.len() == 0
            &&& listed(steps).len() == 0
            &&& columns_read(steps).len() == 0
            &&& keys_read(steps).len() == 0
            &&& indexes_read(steps).len() == 0
            &&& index_columns_read(steps).len() == 0
        },
    }
}

/// The reading behind a list of tables or behind a table.
proof fn lemma_goes_on(run: SchemaRun, steps: Seq<SchemaStep>, s: SchemaStep)
    requires
        run.goes_on(s.post, s.action),
        holds_head(SchemaRun { stage: SchemaStage::ListingTables, ..run }, steps),
        ({
            let done = run.tables@.len();
            let rows = listed(steps);
            &&& forall|i: int| 0 <= i < done ==> #[trigger] is_read(run.tables@, steps, i)
            &&& rows.len() == done + run.table_rows@.len()
            &&& rows.skip(done as int) == run.table_rows@
            &&& columns_read(steps).len() == done
            &&& keys_read(steps).len() == done
            &&& indexes_read(steps).len() == done
            &&& index_columns_read(steps).len() == done
        }),
    ensures
        run.table_rows@.len() > 0 ==> holds(s.post, steps),
        run.table_rows@.len() == 0 ==> holds(s.post, steps) && (
        s.action matches SchemaAction::Answer(Ok(info)) ==> is_complete(info, steps)),
{
    let done = run.tables@.len() as int;
    let rows = listed(steps);
    let info = SchemaInfo {
        schema_version: run.schema_version,
        user_version: run.user_version,
        identity: run.identity,
        objects: run.objects,
        tables: run.tables,
    };
    if run.table_rows@.len() > 0 {
        assert(rows.skip(done)[0] == rows[done]);
        assert(rows.skip(done + 1) =~= rows.skip(done).skip(1));
        lemma_same_objects(
            info,
            SchemaInfo {
                schema_version: s.post.schema_version,
                user_version: s.post.user_version,
                identity: s.post.identity,
                objects: s.post.objects,
                tables: s.post.tables,
            },
            steps,
        );
        assert(holds_tables(s.post, steps));
        assert(holds_indexes(s.post, steps));
        assert(holds_head(s.post, steps));
    } else {
        assert(is_complete(info, steps));
    }
}

proof fn lemma_same_objects(a: SchemaInfo, b: SchemaInfo, steps: Seq<SchemaStep>)
    requires
        a.identity == b.identity,
        a.objects == b.objects,
        has_objects(a, steps),
    ensures
        has_objects(b, steps),
    decreases steps.len(),
{
    if steps.len() > 0 {
        match steps.last().reply {
            SchemaReply::Objects { identity, objects } => {},
            _ => lemma_same_objects(a, b, steps.drop_last()),
        }
    }
}

/// Where nothing was read that concerns them, tables stay as they were read.
proof fn lemma_still_read(tables: Seq<SchemaTable>, init: Seq<SchemaStep>, steps: Seq<SchemaStep>, n: int)
    requires
        forall|i: int| 0 <= i < n ==> #[trigger] is_read(tables, init, i),
        listed(steps) == listed(init),
        forall|i: int|
            0 <= i < n ==> columns_read(steps)[i] == columns_read(init)[i] && keys_read(steps)[i]
                == keys_read(init)[i] && indexes_read(steps)[i] == indexes_read(init)[i]
                && #[trigger] index_columns_read(steps)[i] == index_columns_read(init)[i],
    ensures
        forall|i: int| 0 <= i < n ==> #[trigger] is_read(tables, steps, i),
{
    assert forall|i: int| 0 <= i < n implies #[trigger] is_read(tables, steps, i) by {
        assert(is_read(tables, init, i));
        assert(index_columns_read(steps)[i] == index_columns_read(init)[i]);
    }
}

proof fn lemma_indexes_go_on(run: SchemaRun, steps: Seq<SchemaStep>, s: SchemaStep)
    requires
        run.goes_on_with_indexes(s.post, s.action),
        run.stage is ListingIndexes || run.stage is ReadingIndex,
        holds_head(run, steps),
        holds_tables(SchemaRun { stage: SchemaStage::ReadingIndex, ..run }, steps),
        ({
            let done = run.indexes@.len();
            let rows = indexes_read(steps).last();
            let columns = index_columns_read(steps).last();
            &&& rows.len() == done + run.index_rows@.len()
            &&& rows.skip(done as int) == run.index_rows@
            &&& are_indexes(run.indexes@, rows.take(done as int), columns)
        }),
    ensures
        holds(s.post, steps),
{
    let done = run.indexes@.len() as int;
    let rows = indexes_read(steps).last();
    let info = SchemaInfo {
        schema_version: run.schema_version,
        user_version: run.user_version,
        identity: run.identity,
        objects: run.objects,
        tables: run.tables,
    };
    if run.index_rows@.len() == 0 {
        assert(rows.take(done) =~= rows);
    } else {
        assert(rows.skip(done)[0] == rows[done]);
        assert(rows.skip(done + 1) =~= rows.skip(done).skip(1));
    }
    assert(holds_tables(s.post, steps));
    assert(holds_indexes(s.post, steps));
    assert(holds_head(s.post, steps));
}

#[verifier::spinoff_prover]
#[verifier::rlimit(60)]
proof fn lemma_holds(first: SchemaRun, steps: Seq<SchemaStep>)
    requires
        is_history(first, steps),
    ensures
        holds(run_after(first, steps), steps),
        steps.len() > 0 ==> (steps.last().action matches SchemaAction::Answer(Ok(info))
            ==> is_complete(info, steps)),
    decreases steps.len(),
{
    if steps.len() > 0 {
        let init = steps.drop_last();
        let s = steps.last();
        lemma_holds(first, init);
        let run = s.run;
        match s.reply {
            SchemaReply::Tables(Ok(rows)) => {
                let with = SchemaRun { table_rows: rows, ..run };
                assert(rows@.skip(0) =~= rows@);
                lemma_goes_on(with, steps, s);
            },
            SchemaReply::Columns(Ok(found)) => {
                lemma_still_read(run.tables@, init, steps, run.tables@.len() as int);
                assert(holds_tables(s.post, steps));
            },
            SchemaReply::Indexes(Ok(rows)) => {
                let with = SchemaRun { index_rows: rows, ..run };
                assert(rows@.skip(0) =~= rows@);
                assert(rows@.take(0) =~= Seq::<IndexRow>::empty());
                lemma_still_read(run.tables@, init, steps, run.tables@.len() as int);
                lemma_indexes_go_on(with, steps, s);
            },
            SchemaReply::IndexColumns(Ok(found)) => {
                let indexes = choose|indexes: Vec<SchemaIndex>|
                    indexes@.len() == run.indexes@.len() + 1 && indexes@.drop_last()
                        == run.indexes@ && schema_read::reports_index(
                        indexes@.last(),
                        schema_read::IndexInfo {
                            name: run.index->0.name,
                            unique: run.index->0.unique,
                            origin: run.index->0.origin,
                            columns: found,
                        },
                    ) && #[trigger] (SchemaRun { indexes, ..run }).goes_on_with_indexes(
                        s.post,
                        s.action,
                    );
                let with = SchemaRun { indexes, ..run };
                let done = run.indexes@.len() as int;
                let rows = indexes_read(init).last();
                let before = index_columns_read(init).last();
                let after = index_columns_read(steps).last();
                assert(after == before.push(found@));
                assert(rows.skip(done + 1) == run.index_rows@);
                lemma_still_read(run.tables@, init, steps, run.tables@.len() as int);
                assert forall|j: int| 0 <= j < indexes@.len() implies is_index(
                    #[trigger] indexes@[j],
                    rows.take(done + 1)[j],
                    after[j],
                ) by {
                    if j < done {
                        assert(indexes@[j] == indexes@.drop_last()[j]);
                        assert(is_index(run.indexes@[j], rows.take(done)[j], before[j]));
                    }
                }
                lemma_indexes_go_on(with, steps, s);
            },
            SchemaReply::ForeignKeys(Ok(found)) => {
                let tables = choose|tables: Vec<SchemaTable>|
                    tables@ == run.tables@.push(
                        SchemaTable {
                            name: run.table->0.name,
                            strict: run.table->0.strict != 0,
                            without_rowid: run.table->0.without_rowid != 0,
                            columns: run.columns,
                            indexes: run.indexes,
                            foreign_keys: found,
                        },
                    ) && #[trigger] (SchemaRun { tables, table: None, ..run }).goes_on(
                        s.post,
                        s.action,
                    );
                let with = SchemaRun { tables, table: None, ..run };
                let done = run.tables@.len() as int;
                lemma_still_read(run.tables@, init, steps, done);
                assert forall|i: int| 0 <= i < done + 1 implies #[trigger] is_read(
                    tables@,
                    steps,
                    i,
                ) by {
                    if i < done {
                        assert(is_read(run.tables@, steps, i));
                        assert(tables@[i] == run.tables@[i]);
                    }
                }
                lemma_same_objects(
                    SchemaInfo {
                        schema_version: run.schema_version,
                        user_version: run.user_version,
                        identity: run.identity,
                        objects: run.objects,
                        tables: run.tables,
                    },
                    SchemaInfo {
                        schema_version: run.schema_version,
                        user_version: run.user_version,
                        identity: run.identity,
                        objects: run.objects,
                        tables,
                    },
                    steps,
                );
                lemma_goes_on(with, steps, s);
            },
            SchemaReply::CleanedUp { succeeded: _, autocommit: _ } => {
                if let SchemaAction::Answer(Ok(info)) = s.action {
                    assert(is_complete(info, init));
                    assert forall|i: int| 0 <= i < listed(steps).len() implies #[trigger] is_read(
                        info.tables@,
                        steps,
                        i,
                    ) by {
                        assert(is_read(info.tables@, init, i));
                    }
                }
            },
            _ => {},
        }
    }
}

/// A reading that answers with a schema answers with all of it: one table for each
/// row of the list, in its order, each with the columns, the indexes and the foreign
/// keys that were read of it, and the objects and the versions that were read.
pub proof fn schemas_are_complete(first: SchemaRun, steps: Seq<SchemaStep>, info: SchemaInfo)
    requires
        is_history(first, steps),
        steps.len() > 0,
        steps.last().action == SchemaAction::Answer(Ok::<SchemaInfo, WorkerError>(info)),
    ensures
        is_complete(info, steps),
{
    lemma_holds(first, steps);
}

/// A question: the word of a pragma and a name in single quotes.
pub open spec fn is_question(action: SchemaAction, word: Seq<char>, name: Seq<char>) -> bool {
    action matches SchemaAction::Ask(s) && s@ == "PRAGMA "@ + word + "("@ + values::quoted(
        name,
        '\'',
    ) + ")"@
}

/// Every table of the list is asked for its columns, its indexes and its foreign
/// keys, and every index of a list for its columns.
pub proof fn every_part_is_asked_for(first: SchemaRun, steps: Seq<SchemaStep>)
    requires
        is_history(first, steps),
        steps.len() > 0,
    ensures
        ({
            let s = steps.last();
            let k = keys_read(steps).len() as int;
            let n = listed(steps).len();
            match s.reply {
                SchemaReply::Tables(Ok(_)) | SchemaReply::ForeignKeys(Ok(_)) => k < n
                    ==> is_question(s.action, "table_xinfo"@, listed(steps)[k].name@),
                SchemaReply::Columns(Ok(_)) => k < n && is_question(
                    s.action,
                    "index_list"@,
                    listed(steps)[k].name@,
                ),
                SchemaReply::Indexes(Ok(_)) | SchemaReply::IndexColumns(Ok(_)) => {
                    let rows = indexes_read(steps).last();
                    let j = index_columns_read(steps).last().len() as int;
                    if j < rows.len() {
                        is_question(s.action, "index_xinfo"@, rows[j].name@)
                    } else {
                        k < n && is_question(s.action, "foreign_key_list"@, listed(steps)[k].name@)
                    }
                },
                _ => true,
            }
        }),
{
    let s = steps.last();
    lemma_holds(first, steps);
    lemma_holds(first, steps.drop_last());
}

/// The failure that a reply tells of.
pub open spec fn failure_of(reply: SchemaReply) -> Option<SqliteFailure> {
    match reply {
        SchemaReply::Done(Err(e)) => Some(e),
        SchemaReply::Version(Err(e)) => Some(e),
        SchemaReply::UserVersion(Err(e)) => Some(e),
        SchemaReply::Objects { identity: _, objects: Err(e) } => Some(e),
        SchemaReply::Tables(Err(e)) => Some(e),
        SchemaReply::Columns(Err(e)) => Some(e),
        SchemaReply::Indexes(Err(e)) => Some(e),
        SchemaReply::IndexColumns(Err(e)) => Some(e),
        SchemaReply::ForeignKeys(Err(e)) => Some(e),
        _ => None,
    }
}

/// The first failure ends a reading: it is answered at once, or, where a
/// transaction was begun for the reading, once that is rolled back.
pub proof fn failures_end_the_reading(s: SchemaStep)
    requires
        is_step(s),
        failure_of(s.reply) is Some,
    ensures
        ({
            let e = WorkerError::Sqlite(failure_of(s.reply)->0);
            ||| s.action == SchemaAction::Answer(Err::<SchemaInfo, WorkerError>(e))
            ||| {
                &&& s.run.managed
                &&& s.action == SchemaAction::CleanUp(SchemaCleanup::Rollback)
                &&& s.post.result == Some(Err::<SchemaInfo, WorkerError>(e))
            }
        }),
        s.action is Answer == (!s.run.managed || s.run.stage is Beginning),
{
}

/// A transaction that was begun for a reading is ended by a commit where a schema was
/// read, and by a rollback where none was. What was read is answered where that
/// succeeded; otherwise the handle is lost.
pub proof fn cleanups_decide_the_answer(s: SchemaStep, succeeded: bool, autocommit: bool)
    requires
        is_step(s),
    ensures
        s.action matches SchemaAction::CleanUp(how) ==> s.run.managed && (s.post.result matches Some(
            result,
        ) && how == if result is Ok {
            SchemaCleanup::Commit
        } else {
            SchemaCleanup::Rollback
        }),
        s.reply == (SchemaReply::CleanedUp { succeeded, autocommit }) ==> (
        s.action matches SchemaAction::Answer(answer) && {
            &&& succeeded && s.run.result is Some && (s.run.result->0 is Ok || autocommit) ==> answer
                == s.run.result->0
            &&& !succeeded ==> (answer matches Err(e) && e.is_message(
                "managed schema cleanup failed; handle invalidated"@,
            ))
            &&& s.run.result->0 is Err && !autocommit ==> (answer matches Err(e) && e.is_message(
                "managed schema cleanup failed; handle invalidated"@,
            ))
        }),
        s.reply == SchemaReply::Autocommit(autocommit) ==> s.action is Begin == autocommit
            && s.action is TakeSnapshot == !autocommit && s.post.managed == autocommit,
{
}

/// Every call of [`SchemaRun::step`] is a step of a reading.
pub proof fn steps_are_steps_of_readings(run: &mut SchemaRun, reply: SchemaReply, action: SchemaAction)
    requires
        old(run).wf(),
        old(run).fits(reply),
        call_ensures(SchemaRun::step, (run, reply), action),
    ensures
        is_step(SchemaStep { run: *old(run), reply, post: *final(run), action }),
{
}

/// A reading is made in a transaction: in the one that is open, or in one begun for it.
/// Within it the versions, the objects and the tables are read one after the other, and
/// each answer is kept as it came. A user version that is no single value ends the
/// reading.
pub proof fn readings_take_their_steps_in_order(s: SchemaStep)
    requires
        is_step(s),
    ensures
        s.reply matches SchemaReply::Autocommit(autocommit) ==> if autocommit {
            s.action is Begin && s.post.managed && s.post.stage is Beginning
        } else {
            s.action is TakeSnapshot && !s.post.managed && s.post.stage is TakingSnapshot
        },
        s.reply is Done && s.run.stage is Beginning ==> match s.reply->Done_0 {
            Ok(()) => s.action is TakeSnapshot && s.post.stage is TakingSnapshot
                && s.post.managed == s.run.managed,
            Err(e) => s.post.stage is Ended && s.action == SchemaAction::Answer(
                Err::<SchemaInfo, WorkerError>(WorkerError::Sqlite(e)),
            ),
        },
        s.reply == SchemaReply::Done(Ok::<(), SqliteFailure>(())) && s.run.stage is TakingSnapshot
            ==> s.action is ReadVersion && s.post.stage is ReadingVersion && s.post.managed
            == s.run.managed,
        s.reply matches SchemaReply::Version(Ok(v)) ==> s.action is ReadUserVersion
            && s.post.schema_version == v && s.post.stage is ReadingUserVersion && s.post.managed
            == s.run.managed,
        s.reply matches SchemaReply::UserVersion(Ok((columns, value, more))) ==> {
            &&& columns == 1 && value is Some && !more ==> s.action is ReadObjects
                && s.post.user_version == value->0 && s.post.stage is ReadingObjects
                && s.post.managed == s.run.managed && s.post.schema_version == s.run.schema_version
            &&& columns != 1 || value is None || more ==> (s.action matches SchemaAction::Answer(
                answer,
            ) && answer is Err && !s.run.managed) || (s.action == SchemaAction::CleanUp(
                SchemaCleanup::Rollback,
            ) && s.run.managed && s.post.result is Some && s.post.result->0 is Err)
        },
        s.reply matches SchemaReply::Objects { identity, objects: Ok(objects) } ==> s.action is ListTables
            && s.post.identity == identity && s.post.objects == objects
            && s.post.stage is ListingTables && s.post.managed == s.run.managed
            && s.post.schema_version == s.run.schema_version && s.post.user_version
            == s.run.user_version,
{
}

} // verus!
