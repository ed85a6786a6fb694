//! Why the canonical order of schema statements is one.
use crate::merge::schema;
use crate::merge::schema::{SchemaRow, StatementView};
use vstd::multiset::Multiset;
use vstd::prelude::*;
use vstd::seq_lib::*;
use vstd::utf8::*;

verus! {

pub proof fn lemma_bytes_total(a: Seq<u8>, b: Seq<u8>)
    ensures
        schema::bytes_leq(a, b) || schema::bytes_leq(b, a),
    decreases a.len(),
{
    if a.len() > 0 && b.len() > 0 && a[0] == b[0] {
        lemma_bytes_total(a.skip(1), b.skip(1));
    }
}

pub proof fn lemma_bytes_antisymmetric(a: Seq<u8>, b: Seq<u8>)
    requires
        schema::bytes_leq(a, b),
        schema::bytes_leq(b, a),
    ensures
        a == b,
    decreases a.len(),
{
    if a.len() > 0 && b.len() > 0 {
        lemma_bytes_antisymmetric(a.skip(1), b.skip(1));
        assert(a =~= seq![a[0]] + a.skip(1));
        assert(b =~= seq![b[0]] + b.skip(1));
    } else {
        assert(a =~= b);
    }
}

pub proof fn lemma_bytes_transitive(a: Seq<u8>, b: Seq<u8>, c: Seq<u8>)
    requires
        schema::bytes_leq(a, b),
        schema::bytes_leq(b, c),
    ensures
        schema::bytes_leq(a, c),
    decreases a.len(),
{
    if a.len() > 0 && b.len() > 0 && c.len() > 0 && a[0] == b[0] && b[0] == c[0] {
        lemma_bytes_transitive(a.skip(1), b.skip(1), c.skip(1));
    }
}

pub proof fn lemma_utf8_injective(a: Seq<char>, b: Seq<char>)
    requires
        encode_utf8(a) == encode_utf8(b),
    ensures
        a == b,
{
    encode_utf8_decode_utf8(a);
    encode_utf8_decode_utf8(b);
}

proof fn lemma_total(a: StatementView, b: StatementView)
    ensures
        schema::statement_leq(a, b) || schema::statement_leq(b, a),
{
    lemma_bytes_total(encode_utf8(a.1), encode_utf8(b.1));
    lemma_bytes_total(encode_utf8(a.2), encode_utf8(b.2));
}

proof fn lemma_antisymmetric(a: StatementView, b: StatementView)
    requires
        schema::statement_leq(a, b),
        schema::statement_leq(b, a),
    ensures
        a == b,
{
    if a.0 == b.0 && a.1 != b.1 {
        lemma_bytes_antisymmetric(encode_utf8(a.1), encode_utf8(b.1));
        lemma_utf8_injective(a.1, b.1);
    }
    if a.0 == b.0 && a.1 == b.1 {
        lemma_bytes_antisymmetric(encode_utf8(a.2), encode_utf8(b.2));
        lemma_utf8_injective(a.2, b.2);
    }
}

proof fn lemma_transitive(a: StatementView, b: StatementView, c: StatementView)
    requires
        schema::statement_leq(a, b),
        schema::statement_leq(b, c),
    ensures
        schema::statement_leq(a, c),
{
    if a.0 == b.0 && b.0 == c.0 {
        if a.1 != b.1 && b.1 != c.1 {
            lemma_bytes_transitive(encode_utf8(a.1), encode_utf8(b.1), encode_utf8(c.1));
            if a.1 == c.1 {
                lemma_bytes_antisymmetric(encode_utf8(a.1), encode_utf8(b.1));
                lemma_utf8_injective(a.1, b.1);
            }
        } else if a.1 == b.1 && b.1 == c.1 {
            lemma_bytes_transitive(encode_utf8(a.2), encode_utf8(b.2), encode_utf8(c.2));
        }
    }
}

/// The statements stand in canonical order.
pub open spec fn is_ordered(s: Seq<StatementView>) -> bool {
    forall|i: int, j: int|
        0 <= i <= j < s.len() ==> schema::statement_leq(#[trigger] s[i], #[trigger] s[j])
}

proof fn lemma_reflexive(a: StatementView)
    ensures
        schema::statement_leq(a, a),
{
    lemma_total(a, a);
}

proof fn lemma_push_ordered(s: Seq<StatementView>, x: StatementView)
    requires
        is_ordered(s),
        s.len() > 0 ==> schema::statement_leq(s.last(), x),
    ensures
        is_ordered(s.push(x)),
{
    let all = s.push(x);
    assert forall|i: int, j: int| 0 <= i <= j < all.len() implies schema::statement_leq(
        #[trigger] all[i],
        #[trigger] all[j],
    ) by {
        if j < s.len() {
            assert(schema::statement_leq(s[i], s[j]));
        } else if i < s.len() {
            assert(schema::statement_leq(s[i], s[s.len() - 1]));
            lemma_transitive(s[i], s.last(), x);
        } else {
            lemma_reflexive(x);
        }
    }
}

proof fn lemma_insert(s: Seq<StatementView>, x: StatementView)
    requires
        is_ordered(s),
    ensures
        is_ordered(schema::insert_statement(s, x)),
        schema::insert_statement(s, x).to_multiset() == s.to_multiset().insert(x),
        schema::insert_statement(s, x).len() > 0,
        schema::insert_statement(s, x).last() == if s.len() > 0 && !schema::statement_leq(
            s.last(),
            x,
        ) {
            s.last()
        } else {
            x
        },
    decreases s.len(),
{
    broadcast use group_to_multiset_ensures;

    if s.len() > 0 && !schema::statement_leq(s.last(), x) {
        let init = s.drop_last();
        assert forall|i: int, j: int| 0 <= i <= j < init.len() implies schema::statement_leq(
            #[trigger] init[i],
            #[trigger] init[j],
        ) by {
            assert(schema::statement_leq(s[i], s[j]));
        }
        lemma_insert(init, x);
        let inner = schema::insert_statement(init, x);
        lemma_total(s.last(), x);
        if init.len() > 0 {
            assert(schema::statement_leq(s[s.len() - 2], s[s.len() - 1]));
        }
        lemma_push_ordered(inner, s.last());
        assert(init.push(s.last()) =~= s);
        assert(s.to_multiset() =~= init.to_multiset().insert(s.last()));
        assert(inner.push(s.last()).to_multiset() =~= inner.to_multiset().insert(s.last()));
        assert(init.to_multiset().insert(x).insert(s.last()) =~= init.to_multiset().insert(
            s.last(),
        ).insert(x));
    } else {
        lemma_push_ordered(s, x);
    }
}

/// The statements of the rows as a multiset.
pub open spec fn statements_of(rows: Seq<SchemaRow>) -> Multiset<StatementView>
    decreases rows.len(),
{
    if rows.len() == 0 {
        Multiset::empty()
    } else {
        match schema::statement_of(rows.last()) {
            Some(x) => statements_of(rows.drop_last()).insert(x),
            None => statements_of(rows.drop_last()),
        }
    }
}

/// The canonical statements are those of the rows, each as often as the rows
/// have it, in canonical order.
pub proof fn canonical_is_ordered(rows: Seq<SchemaRow>)
    ensures
        is_ordered(schema::canonical(rows)),
        schema::canonical(rows).to_multiset() == statements_of(rows),
    decreases rows.len(),
{
    broadcast use group_to_multiset_ensures;

    if rows.len() > 0 {
        canonical_is_ordered(rows.drop_last());
        if let Some(x) = schema::statement_of(rows.last()) {
            lemma_insert(schema::canonical(rows.drop_last()), x);
        }
    } else {
        assert(Seq::<StatementView>::empty().to_multiset() =~= Multiset::empty());
    }
}

proof fn lemma_unique(a: Seq<StatementView>, b: Seq<StatementView>)
    requires
        is_ordered(a),
        is_ordered(b),
        a.to_multiset() == b.to_multiset(),
    ensures
        a == b,
    decreases a.len(),
{
    broadcast use group_to_multiset_ensures;

    assert(a.to_multiset().len() == a.len());
    assert(b.to_multiset().len() == b.len());
    if a.len() == 0 {
        assert(a =~= b);
    } else {
        let x = a.last();
        let y = b.last();
        assert(a.contains(x) && a.to_multiset().count(x) > 0);
        assert(b.to_multiset().count(x) > 0 && b.contains(x));
        assert(b.contains(y) && b.to_multiset().count(y) > 0);
        assert(a.to_multiset().count(y) > 0 && a.contains(y));
        let i = choose|i: int| 0 <= i < b.len() && b[i] == x;
        let j = choose|j: int| 0 <= j < a.len() && a[j] == y;
        assert(schema::statement_leq(b[i], b[b.len() - 1]));
        assert(schema::statement_leq(a[j], a[a.len() - 1]));
        lemma_antisymmetric(x, y);
        let ai = a.drop_last();
        let bi = b.drop_last();
        assert(ai.push(x) =~= a);
        assert(bi.push(x) =~= b);
        assert(a.to_multiset() =~= ai.to_multiset().insert(x));
        assert(b.to_multiset() =~= bi.to_multiset().insert(x));
        assert(ai.to_multiset() =~= a.to_multiset().remove(x));
        assert(bi.to_multiset() =~= b.to_multiset().remove(x));
        assert forall|p: int, q: int| 0 <= p <= q < ai.len() implies schema::statement_leq(
            #[trigger] ai[p],
            #[trigger] ai[q],
        ) by {
            assert(schema::statement_leq(a[p], a[q]));
        }
        assert forall|p: int, q: int| 0 <= p <= q < bi.len() implies schema::statement_leq(
            #[trigger] bi[p],
            #[trigger] bi[q],
        ) by {
            assert(schema::statement_leq(b[p], b[q]));
        }
        lemma_unique(ai, bi);
    }
}

/// The order in which the database lists its objects does not matter: the same
/// statements give the same canonical order.
pub proof fn canonical_ignores_row_order(a: Seq<SchemaRow>, b: Seq<SchemaRow>)
    requires
        statements_of(a) == statements_of(b),
    ensures
        schema::canonical(a) == schema::canonical(b),
{
    canonical_is_ordered(a);
    canonical_is_ordered(b);
    lemma_unique(schema::canonical(a), schema::canonical(b));
}

/// The columns of the primary key stand by their place in it.
pub proof fn key_columns_are_ordered(cols: Seq<schema::ColumnRow>, n: int)
    requires
        0 <= n <= cols.len(),
    ensures
        forall|i: int, j: int|
            0 <= i <= j < schema::key_order(cols, n).len() ==> cols[#[trigger] schema::key_order(
                cols,
                n,
            )[i]].pk <= cols[#[trigger] schema::key_order(cols, n)[j]].pk,
    decreases n,
{
    if n > 0 {
        key_columns_are_ordered(cols, n - 1);
        if cols[n - 1].pk > 0 {
            lemma_insert_key_ordered(schema::key_order(cols, n - 1), cols, n - 1);
        }
    }
}

pub open spec fn keys_ordered(order: Seq<int>, cols: Seq<schema::ColumnRow>) -> bool {
    forall|i: int, j: int|
        0 <= i <= j < order.len() ==> cols[#[trigger] order[i]].pk <= cols[#[trigger] order[j]].pk
}

proof fn lemma_insert_key_ordered(order: Seq<int>, cols: Seq<schema::ColumnRow>, i: int)
    requires
        keys_ordered(order, cols),
    ensures
        keys_ordered(schema::insert_key(order, cols, i), cols),
        schema::insert_key(order, cols, i).len() > 0,
        cols[schema::insert_key(order, cols, i).last()].pk == if order.len() > 0
            && cols[order.last()].pk > cols[i].pk {
            cols[order.last()].pk
        } else {
            cols[i].pk
        },
    decreases order.len(),
{
    if order.len() > 0 && cols[order.last()].pk > cols[i].pk {
        let init = order.drop_last();
        assert forall|p: int, q: int| 0 <= p <= q < init.len() implies cols[#[trigger] init[p]].pk
            <= cols[#[trigger] init[q]].pk by {
            assert(cols[order[p]].pk <= cols[order[q]].pk);
        }
        lemma_insert_key_ordered(init, cols, i);
        let inner = schema::insert_key(init, cols, i);
        let all = inner.push(order.last());
        if init.len() > 0 {
            assert(cols[order[order.len() - 2]].pk <= cols[order[order.len() - 1]].pk);
        }
        assert forall|p: int, q: int| 0 <= p <= q < all.len() implies cols[#[trigger] all[p]].pk
            <= cols[#[trigger] all[q]].pk by {
            if q < inner.len() {
                assert(cols[inner[p]].pk <= cols[inner[q]].pk);
            } else if p < inner.len() {
                assert(cols[inner[p]].pk <= cols[inner[inner.len() - 1]].pk);
            }
        }
    } else {
        let all = order.push(i);
        assert forall|p: int, q: int| 0 <= p <= q < all.len() implies cols[#[trigger] all[p]].pk
            <= cols[#[trigger] all[q]].pk by {
            if q < order.len() {
                assert(cols[order[p]].pk <= cols[order[q]].pk);
            } else if p < order.len() {
                assert(cols[order[p]].pk <= cols[order[order.len() - 1]].pk);
            }
        }
    }
}

} // verus!
