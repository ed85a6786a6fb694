//! The canonical order of schema statements, and what merge text needs to know
//! of each table.
use crate::merge::error::MergeError;
use crate::merge::values;
use crate::merge::values::quoted_identifier;
use crate::outside;
use crate::outside::debug_text_of;
use crate::text;
use crate::text::{chars_of, lowercase_text, same_chars, same_text, string_of};
use vstd::prelude::*;
use vstd::utf8::*;

verus! {

/// One row of the schema table: the kind of an object, its name and the
/// statement that created it.
#[derive(Debug)]
pub struct SchemaRow {
    pub kind: String,
    pub name: String,
    pub sql: String,
}

/// The kinds of objects that merge text carries, in the order in which it
/// carries them.
#[derive(Clone, Copy, PartialEq, Eq, Structural, Debug)]
pub enum SchemaClass {
    Table,
    Index,
    View,
    Trigger,
}

impl SchemaClass {
    /// The word that the schema table uses for the kind.
    pub open spec fn word(self) -> Seq<char> {
        match self {
            SchemaClass::Table => "table"@,
            SchemaClass::Index => "index"@,
            SchemaClass::View => "view"@,
            SchemaClass::Trigger => "trigger"@,
        }
    }

    /// The place of the kind in the canonical order.
    pub open spec fn rank(self) -> int {
        match self {
            SchemaClass::Table => 0,
            SchemaClass::Index => 1,
            SchemaClass::View => 2,
            SchemaClass::Trigger => 3,
        }
    }

    /// The word that the schema table uses for the kind.
    pub fn as_str(self) -> (r: &'static str)
        ensures
            r@ == self.word(),
    {
        match self {
            SchemaClass::Table => "table",
            SchemaClass::Index => "index",
            SchemaClass::View => "view",
            SchemaClass::Trigger => "trigger",
        }
    }
}

/// The kind that a word of the schema table stands for.
pub open spec fn class_of(kind: Seq<char>) -> Option<SchemaClass> {
    if kind == "table"@ {
        Some(SchemaClass::Table)
    } else if kind == "index"@ {
        Some(SchemaClass::Index)
    } else if kind == "view"@ {
        Some(SchemaClass::View)
    } else if kind == "trigger"@ {
        Some(SchemaClass::Trigger)
    } else {
        None
    }
}

/// The place of a kind in the canonical order.
pub fn class_rank(class: SchemaClass) -> (r: u8)
    ensures
        r == class.rank(),
{
    match class {
        SchemaClass::Table => 0,
        SchemaClass::Index => 1,
        SchemaClass::View => 2,
        SchemaClass::Trigger => 3,
    }
}

/// A schema statement in the form that merge text uses: one semicolon at its
/// end.
#[derive(Debug)]
pub struct SchemaStatement {
    pub class: SchemaClass,
    pub name: String,
    pub sql: String,
}

/// A schema statement as plain values: kind, name and text.
pub type StatementView = (SchemaClass, Seq<char>, Seq<char>);

impl View for SchemaStatement {
    type V = StatementView;

    open spec fn view(&self) -> StatementView {
        (self.class, self.name@, self.sql@)
    }
}

/// The views of a list of statements.
pub open spec fn statement_views(v: Seq<SchemaStatement>) -> Seq<StatementView> {
    v.map_values(|s: SchemaStatement| s@)
}

/// `s` without the semicolons at its end.
pub open spec fn without_semicolons(s: Seq<char>) -> Seq<char>
    decreases s.len(),
{
    if s.len() > 0 && s.last() == ';' {
        without_semicolons(s.drop_last())
    } else {
        s
    }
}

/// The statement of a row whose kind merge text carries.
pub open spec fn statement_of(row: SchemaRow) -> Option<StatementView> {
    match class_of(row.kind@) {
        Some(class) => Some((class, row.name@, without_semicolons(row.sql@).push(';'))),
        None => None,
    }
}

/// Byte strings in lexicographic order.
pub open spec fn bytes_leq(a: Seq<u8>, b: Seq<u8>) -> bool
    decreases a.len(),
{
    if a.len() == 0 {
        true
    } else if b.len() == 0 {
        false
    } else if a[0] != b[0] {
        a[0] < b[0]
    } else {
        bytes_leq(a.skip(1), b.skip(1))
    }
}

/// The canonical order: by kind, then by the bytes of the name, then by the
/// bytes of the statement.
pub open spec fn statement_leq(a: StatementView, b: StatementView) -> bool {
    if a.0 != b.0 {
        a.0.rank() < b.0.rank()
    } else if a.1 != b.1 {
        bytes_leq(encode_utf8(a.1), encode_utf8(b.1))
    } else {
        bytes_leq(encode_utf8(a.2), encode_utf8(b.2))
    }
}

/// `s` with `x` behind the last element that does not come after it.
pub open spec fn insert_statement(s: Seq<StatementView>, x: StatementView) -> Seq<StatementView>
    decreases s.len(),
{
    if s.len() > 0 && !statement_leq(s.last(), x) {
        insert_statement(s.drop_last(), x).push(s.last())
    } else {
        s.push(x)
    }
}

/// The statements of the rows in canonical order.
pub open spec fn canonical(rows: Seq<SchemaRow>) -> Seq<StatementView>
    decreases rows.len(),
{
    if rows.len() == 0 {
        Seq::empty()
    } else {
        let before = canonical(rows.drop_last());
        match statement_of(rows.last()) {
            Some(x) => insert_statement(before, x),
            None => before,
        }
    }
}

pub fn is_bytes_leq(a: &[u8], b: &[u8]) -> (r: bool)
    ensures
        r == bytes_leq(a@, b@),
{
    let mut i: usize = 0;
    assert(a@.skip(0) =~= a@ && b@.skip(0) =~= b@);
    loop
        invariant
            i <= a@.len() && i <= b@.len(),
            bytes_leq(a@.skip(i as int), b@.skip(i as int)) == bytes_leq(a@, b@),
        decreases a.len() - i,
    {
        if i == a.len() {
            return true;
        }
        if i == b.len() {
            return false;
        }
        if a[i] != b[i] {
            return a[i] < b[i];
        }
        assert(a@.skip(i as int).skip(1) =~= a@.skip(i + 1));
        assert(b@.skip(i as int).skip(1) =~= b@.skip(i + 1));
        i += 1;
    }
}

fn is_statement_leq(a: &SchemaStatement, b: &SchemaStatement) -> (r: bool)
    ensures
        r == statement_leq(a@, b@),
{
    if a.class != b.class {
        class_rank(a.class) < class_rank(b.class)
    } else if !same_text(a.name.as_str(), b.name.as_str()) {
        is_bytes_leq(a.name.as_str().as_bytes(), b.name.as_str().as_bytes())
    } else {
        is_bytes_leq(a.sql.as_str().as_bytes(), b.sql.as_str().as_bytes())
    }
}

fn class_for(kind: &str) -> (r: Option<SchemaClass>)
    ensures
        r == class_of(kind@),
{
    if same_text(kind, "table") {
        Some(SchemaClass::Table)
    } else if same_text(kind, "index") {
        Some(SchemaClass::Index)
    } else if same_text(kind, "view") {
        Some(SchemaClass::View)
    } else if same_text(kind, "trigger") {
        Some(SchemaClass::Trigger)
    } else {
        None
    }
}

fn terminated(sql: &str) -> (r: String)
    ensures
        r@ == without_semicolons(sql@).push(';'),
{
    let cs = chars_of(sql);
    let mut n: usize = cs.len();
    assert(cs@.take(n as int) =~= cs@);
    while n > 0 && cs[n - 1] == ';'
        invariant
            n <= cs@.len(),
            without_semicolons(cs@.take(n as int)) == without_semicolons(cs@),
        decreases n,
    {
        assert(cs@.take(n as int).drop_last() =~= cs@.take(n - 1));
        n -= 1;
    }
    let mut out = string_of(&cs, 0, n);
    assert(cs@.subrange(0, n as int) =~= cs@.take(n as int));
    out.push(';');
    out
}

proof fn lemma_insert_at(s: Seq<StatementView>, x: StatementView, p: int)
    requires
        0 <= p <= s.len(),
        forall|j: int| p <= j < s.len() ==> !statement_leq(#[trigger] s[j], x),
        p > 0 ==> statement_leq(s[p - 1], x),
    ensures
        insert_statement(s, x) == s.insert(p, x),
    decreases s.len(),
{
    if p < s.len() {
        lemma_insert_at(s.drop_last(), x, p);
        assert(s.insert(p, x) =~= s.drop_last().insert(p, x).push(s.last()));
    } else {
        assert(s.insert(p, x) =~= s.push(x));
    }
}

/// The statements of the schema rows in canonical order.
///
/// Rows of other kinds are left out. Each statement ends in exactly one
/// semicolon.
pub fn canonical_schema_rows(rows: Vec<SchemaRow>) -> (r: Vec<SchemaStatement>)
    ensures
        statement_views(r@) == canonical(rows@),
{
    let mut out: Vec<SchemaStatement> = Vec::new();
    let mut i: usize = 0;
    assert(statement_views(out@) =~= Seq::<StatementView>::empty());
    while i < rows.len()
        invariant
            i <= rows@.len(),
            statement_views(out@) == canonical(rows@.take(i as int)),
        decreases rows.len() - i,
    {
        assert(rows@.take(i + 1).drop_last() =~= rows@.take(i as int));
        let row = &rows[i];
        match class_for(row.kind.as_str()) {
            None => {},
            Some(class) => {
                let new = SchemaStatement {
                    class,
                    name: row.name.clone(),
                    sql: terminated(row.sql.as_str()),
                };
                let ghost views = statement_views(out@);
                let mut p: usize = out.len();
                while p > 0 && !is_statement_leq(&out[p - 1], &new)
                    invariant
                        p <= out@.len(),
                        views == statement_views(out@),
                        forall|j: int| p <= j < views.len() ==> !statement_leq(#[trigger] views[j], new@),
                    decreases p,
                {
                    p -= 1;
                }
                proof {
                    lemma_insert_at(views, new@, p as int);
                }
                out.insert(p, new);
                assert(statement_views(out@) =~= views.insert(p as int, new@));
            },
        }
        i += 1;
    }
    assert(rows@.take(rows@.len() as int) =~= rows@);
    out
}

/// One row of the table list: name, kind and whether the table has no row id.
#[derive(Debug)]
pub struct TableListRow {
    pub name: String,
    pub kind: String,
    pub without_rowid: i64,
}

/// One column of a table: its name, its declared type, its place in the primary
/// key or zero, and how it is hidden.
#[derive(Debug)]
pub struct ColumnRow {
    pub name: String,
    pub declared_type: String,
    pub pk: i64,
    pub hidden: i64,
}

/// Rows in the order in which a query gave them, and the message of the error
/// that ended it, if one did.
#[derive(Debug)]
pub struct RowStream<T> {
    pub rows: Vec<T>,
    pub failure: Option<String>,
}

/// What merge text needs to know of a table.
#[derive(Debug)]
pub struct TableMetadata {
    pub without_rowid: bool,
    pub columns: Vec<String>,
    pub integer_primary_key: bool,
    pub primary_key: Vec<String>,
}

/// The first row of the table list with this name.
pub open spec fn find_table(rows: Seq<TableListRow>, table: Seq<char>) -> Option<TableListRow>
    decreases rows.len(),
{
    if rows.len() == 0 {
        None
    } else if rows[0].name@ == table {
        Some(rows[0])
    } else {
        find_table(rows.skip(1), table)
    }
}

/// The names of the columns that are not hidden.
pub open spec fn visible_names(cols: Seq<ColumnRow>) -> Seq<Seq<char>>
    decreases cols.len(),
{
    if cols.len() == 0 {
        Seq::empty()
    } else if cols.last().hidden == 0 {
        visible_names(cols.drop_last()).push(cols.last().name@)
    } else {
        visible_names(cols.drop_last())
    }
}

/// `order` with the column `i` behind the last one that does not come after it
/// in the key.
pub open spec fn insert_key(order: Seq<int>, cols: Seq<ColumnRow>, i: int) -> Seq<int>
    decreases order.len(),
{
    if order.len() > 0 && cols[order.last()].pk > cols[i].pk {
        insert_key(order.drop_last(), cols, i).push(order.last())
    } else {
        order.push(i)
    }
}

/// The columns of the primary key among the first `n`, by their place in it.
pub open spec fn key_order(cols: Seq<ColumnRow>, n: int) -> Seq<int>
    decreases n,
{
    if n <= 0 {
        Seq::empty()
    } else if cols[n - 1].pk > 0 {
        insert_key(key_order(cols, n - 1), cols, n - 1)
    } else {
        key_order(cols, n - 1)
    }
}

/// The names of the primary key's columns, by their place in it.
pub open spec fn key_names(cols: Seq<ColumnRow>) -> Seq<Seq<char>> {
    key_order(cols, cols.len() as int).map_values(|i: int| cols[i].name@)
}

/// A visible first key column that is declared `INTEGER`.
pub open spec fn is_integer_key(col: ColumnRow) -> bool {
    col.pk == 1 && col.hidden == 0 && text::lowercase(text::trim(col.declared_type@)) == "integer"@
}

pub open spec fn has_integer_key(cols: Seq<ColumnRow>) -> bool {
    exists|i: int| 0 <= i < cols.len() && is_integer_key(#[trigger] cols[i])
}

/// What merge text needs to know of a table, as plain values: whether it has no
/// row id, its visible columns, whether a column stands for the row id, and the
/// columns of its primary key.
pub type TableShape = (bool, Seq<Seq<char>>, bool, Seq<Seq<char>>);

impl View for TableMetadata {
    type V = TableShape;

    open spec fn view(&self) -> TableShape {
        (
            self.without_rowid,
            text::views(self.columns@),
            self.integer_primary_key,
            text::views(self.primary_key@),
        )
    }
}

/// The shape of a table from its row of the table list and its columns.
pub open spec fn shape_of(row: TableListRow, cols: Seq<ColumnRow>) -> TableShape {
    (row.without_rowid != 0, visible_names(cols), has_integer_key(cols), key_names(cols))
}

/// What is wrong with reading a table's description, if anything is.
pub open spec fn metadata_fault(
    table: Seq<char>,
    list: RowStream<TableListRow>,
    columns: RowStream<ColumnRow>,
) -> Option<(Seq<char>, Seq<char>)> {
    match find_table(list.rows@, table) {
        None => match list.failure {
            Some(m) => Some(("MERGE_INPUT_INVALID"@, m@)),
            None => Some(
                (
                    "MERGE_INPUT_INVALID"@,
                    "table "@ + outside::debug_text(table) + " is missing from table_list"@,
                ),
            ),
        },
        Some(row) => if row.kind@ != "table"@ {
            Some(
                (
                    "MERGE_UNREPRESENTABLE_CONTENT"@,
                    "virtual table "@ + outside::debug_text(table) + " is unsupported"@,
                ),
            )
        } else if values::has_nul(table) {
            Some(values::nul_identifier(table))
        } else {
            match columns.failure {
                Some(m) => Some(("MERGE_INPUT_INVALID"@, m@)),
                None => None,
            }
        },
    }
}

fn text_between(a: &str, quoted: &str, b: &str) -> (r: String)
    ensures
        r@ == a@ + outside::debug_text(quoted@) + b@,
{
    let mut s = a.to_owned();
    s.append(debug_text_of(quoted).as_str());
    s.append(b);
    s
}

fn trimmed_lowercase(s: &str) -> (r: Vec<char>)
    ensures
        r@ == text::lowercase(text::trim(s@)),
{
    let cs = chars_of(s);
    let mut lo: usize = 0;
    assert(cs@.skip(0) =~= cs@);
    while lo < cs.len() && text::is_space_char(cs[lo])
        invariant
            lo <= cs@.len(),
            text::trim_start(cs@.skip(lo as int)) == text::trim_start(cs@),
        decreases cs.len() - lo,
    {
        assert(cs@.skip(lo as int).skip(1) =~= cs@.skip(lo + 1));
        lo += 1;
    }
    let ghost rest = cs@.skip(lo as int);
    let mut hi: usize = cs.len();
    assert(cs@.subrange(lo as int, hi as int) =~= rest);
    while hi > lo && text::is_space_char(cs[hi - 1])
        invariant
            lo <= hi <= cs@.len(),
            text::trim_end(cs@.subrange(lo as int, hi as int)) == text::trim_end(rest),
        decreases hi,
    {
        assert(cs@.subrange(lo as int, hi as int).drop_last() =~= cs@.subrange(lo as int, hi - 1));
        hi -= 1;
    }
    let mut out: Vec<char> = Vec::new();
    let mut i: usize = lo;
    while i < hi
        invariant
            lo <= i <= hi <= cs@.len(),
            out@ == text::lowercase(cs@.subrange(lo as int, i as int)),
        decreases hi - i,
    {
        out.push(text::lower_char(cs[i]));
        i += 1;
        assert(out@ =~= text::lowercase(cs@.subrange(lo as int, i as int)));
    }
    out
}

/// Finds the first row of the table list with this name.
fn find_table_row<'a>(rows: &'a Vec<TableListRow>, table: &str) -> (r: Option<&'a TableListRow>)
    ensures
        match r {
            Some(row) => find_table(rows@, table@) == Some(*row),
            None => find_table(rows@, table@) is None,
        },
{
    let mut i: usize = 0;
    assert(rows@.skip(0) =~= rows@);
    while i < rows.len()
        invariant
            i <= rows@.len(),
            find_table(rows@.skip(i as int), table@) == find_table(rows@, table@),
        decreases rows.len() - i,
    {
        assert(rows@.skip(i as int).skip(1) =~= rows@.skip(i + 1));
        if same_text(rows[i].name.as_str(), table) {
            return Some(&rows[i]);
        }
        i += 1;
    }
    None
}

proof fn lemma_insert_key_at(order: Seq<int>, cols: Seq<ColumnRow>, i: int, p: int)
    requires
        0 <= p <= order.len(),
        forall|j: int| p <= j < order.len() ==> cols[#[trigger] order[j]].pk > cols[i].pk,
        p > 0 ==> cols[order[p - 1]].pk <= cols[i].pk,
    ensures
        insert_key(order, cols, i) == order.insert(p, i),
    decreases order.len(),
{
    if p < order.len() {
        lemma_insert_key_at(order.drop_last(), cols, i, p);
        assert(order.insert(p, i) =~= order.drop_last().insert(p, i).push(order.last()));
    } else {
        assert(order.insert(p, i) =~= order.push(i));
    }
}

/// The columns of the primary key, by their place in it.
fn primary_key_order(cols: &Vec<ColumnRow>) -> (r: Vec<usize>)
    ensures
        r@.map_values(|i: usize| i as int) == key_order(cols@, cols@.len() as int),
        forall|k: int| 0 <= k < r@.len() ==> #[trigger] r@[k] < cols@.len(),
{
    let mut order: Vec<usize> = Vec::new();
    let mut n: usize = 0;
    assert(order@.map_values(|i: usize| i as int) =~= Seq::<int>::empty());
    while n < cols.len()
        invariant
            n <= cols@.len(),
            order@.map_values(|i: usize| i as int) == key_order(cols@, n as int),
            forall|k: int| 0 <= k < order@.len() ==> #[trigger] order@[k] < n,
        decreases cols.len() - n,
    {
        if cols[n].pk > 0 {
            let ghost prior = order@.map_values(|i: usize| i as int);
            let mut p: usize = order.len();
            while p > 0 && cols[order[p - 1]].pk > cols[n].pk
                invariant
                    p <= order@.len(),
                    n < cols@.len(),
                    prior == order@.map_values(|i: usize| i as int),
                    forall|k: int| 0 <= k < order@.len() ==> #[trigger] order@[k] < n,
                    forall|j: int|
                        p <= j < prior.len() ==> cols@[#[trigger] prior[j]].pk > cols@[n as int].pk,
                decreases p,
            {
                p -= 1;
            }
            proof {
                if p > 0 {
                    assert(prior[p - 1] == order@[p - 1] as int);
                }
                lemma_insert_key_at(prior, cols@, n as int, p as int);
            }
            let ghost before = order@;
            order.insert(p, n);
            assert(order@.map_values(|i: usize| i as int) =~= prior.insert(p as int, n as int));
            assert forall|k: int| 0 <= k < order@.len() implies #[trigger] order@[k] < n + 1 by {
                if k < p {
                    assert(order@[k] == before[k]);
                } else if k > p {
                    assert(order@[k] == before[k - 1]);
                }
            }
        }
        n += 1;
    }
    order
}

/// What merge text needs to know of a table, from the table list and the
/// table's columns.
pub fn table_metadata(
    table: &str,
    list: &RowStream<TableListRow>,
    columns: &RowStream<ColumnRow>,
) -> (r: Result<TableMetadata, MergeError>)
    ensures
        match metadata_fault(table@, *list, *columns) {
            Some(fault) => r matches Err(e) && e.fault() == fault && e.details is Null,
            None => r matches Ok(m) && m@ == shape_of(
                find_table(list.rows@, table@)->0,
                columns.rows@,
            ),
        },
{
    let row = match find_table_row(&list.rows, table) {
        Some(row) => row,
        None => {
            return match &list.failure {
                Some(m) => Err(MergeError::new("MERGE_INPUT_INVALID", m.as_str())),
                None => Err(
                    MergeError::with_message(
                        "MERGE_INPUT_INVALID",
                        text_between("table ", table, " is missing from table_list"),
                    ),
                ),
            };
        },
    };
    if !same_text(row.kind.as_str(), "table") {
        return Err(
            MergeError::with_message(
                "MERGE_UNREPRESENTABLE_CONTENT",
                text_between("virtual table ", table, " is unsupported"),
            ),
        );
    }
    match quoted_identifier(table) {
        Err(e) => return Err(e),
        Ok(_) => {},
    }
    if let Some(m) = &columns.failure {
        return Err(MergeError::new("MERGE_INPUT_INVALID", m.as_str()));
    }
    let cols = &columns.rows;
    let expected = chars_of("integer");
    let mut names: Vec<String> = Vec::new();
    let mut integer_primary_key = false;
    let mut i: usize = 0;
    assert(text::views(names@) =~= Seq::<Seq<char>>::empty());
    while i < cols.len()
        invariant
            i <= cols@.len(),
            expected@ == "integer"@,
            text::views(names@) == visible_names(cols@.take(i as int)),
            integer_primary_key == has_integer_key(cols@.take(i as int)),
        decreases cols.len() - i,
    {
        let col = &cols[i];
        let ghost seen = cols@.take(i as int);
        assert(cols@.take(i + 1).drop_last() =~= seen);
        assert(cols@.take(i + 1) =~= seen.push(*col));
        if col.hidden == 0 {
            let ghost prior = text::views(names@);
            names.push(col.name.clone());
            assert(text::views(names@) =~= prior.push(col.name@));
        }
        let integer = col.pk == 1 && col.hidden == 0 && same_chars(
            &trimmed_lowercase(col.declared_type.as_str()),
            &expected,
        );
        proof {
            lemma_integer_key_push(seen, *col);
        }
        if integer {
            integer_primary_key = true;
        }
        i += 1;
    }
    assert(cols@.take(cols@.len() as int) =~= cols@);
    let order = primary_key_order(cols);
    let mut primary_key: Vec<String> = Vec::new();
    let mut k: usize = 0;
    while k < order.len()
        invariant
            k <= order@.len(),
            forall|j: int| 0 <= j < order@.len() ==> #[trigger] order@[j] < cols@.len(),
            text::views(primary_key@) == order@.take(k as int).map_values(
                |x: usize| cols@[x as int].name@,
            ),
        decreases order.len() - k,
    {
        let ghost prior = text::views(primary_key@);
        let x: usize = order[k];
        primary_key.push(cols[x].name.clone());
        assert(text::views(primary_key@) =~= prior.push(cols@[x as int].name@));
        assert(order@.take(k + 1).map_values(|x: usize| cols@[x as int].name@) =~= prior.push(
            cols@[x as int].name@,
        ));
        k += 1;
    }
    assert(text::views(primary_key@) =~= key_names(cols@)) by {
        assert(order@.take(order@.len() as int) =~= order@);
        let ints = order@.map_values(|x: usize| x as int);
        assert(order@.map_values(|x: usize| cols@[x as int].name@) =~= ints.map_values(
            |x: int| cols@[x].name@,
        ));
    }
    Ok(
        TableMetadata {
            without_rowid: row.without_rowid != 0,
            columns: names,
            integer_primary_key,
            primary_key,
        },
    )
}

proof fn lemma_integer_key_push(cols: Seq<ColumnRow>, col: ColumnRow)
    ensures
        has_integer_key(cols.push(col)) == (has_integer_key(cols) || is_integer_key(col)),
{
    let all = cols.push(col);
    if has_integer_key(cols) {
        let i = choose|i: int| 0 <= i < cols.len() && is_integer_key(#[trigger] cols[i]);
        assert(all[i] == cols[i]);
    }
    if is_integer_key(col) {
        assert(all[cols.len() as int] == col);
    }
    if has_integer_key(all) {
        let i = choose|i: int| 0 <= i < all.len() && is_integer_key(#[trigger] all[i]);
        if i < cols.len() {
            assert(cols[i] == all[i]);
        }
    }
}

} // verus!
