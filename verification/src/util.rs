//! Turning rows of values into columns.

use vstd::prelude::*;

verus! {

/// Column `w` of some rows: the value at place `w` of each row that is long
/// enough, from the first row on.
pub open spec fn column<T>(rows: Seq<Vec<T>>, w: int) -> Seq<T>
    decreases rows.len(),
{
    if rows.len() == 0 {
        Seq::<T>::empty()
    } else if w < rows.last()@.len() {
        column(rows.drop_last(), w).push(rows.last()@[w])
    } else {
        column(rows.drop_last(), w)
    }
}

/// The length of the longest of some rows.
pub open spec fn widest<T>(rows: Seq<Vec<T>>) -> nat
    decreases rows.len(),
{
    if rows.len() == 0 {
        0
    } else if rows.last()@.len() > widest(rows.drop_last()) {
        rows.last()@.len()
    } else {
        widest(rows.drop_last())
    }
}

/// Gathers the columns of some rows, which need not be of one length: there
/// are as many columns as the longest row has values, and each column holds
/// the values of the rows that reach it, from the first row on.
pub fn columns_of<T: Copy>(rows: &Vec<Vec<T>>) -> (columns: Vec<Vec<T>>)
    ensures
        columns@.len() == widest(rows@),
        forall|w: int| 0 <= w < columns@.len() ==> (#[trigger] columns@[w])@ == column(rows@, w),
{
    let mut columns: Vec<Vec<T>> = Vec::new();
    let mut r: usize = 0;
    while r < rows.len()
        invariant
            r <= rows@.len(),
            columns@.len() == widest(rows@.take(r as int)),
            forall|w: int|
                0 <= w < columns@.len() ==> (#[trigger] columns@[w])@ == column(
                    rows@.take(r as int),
                    w,
                ),
        decreases rows@.len() - r,
    {
        let row = &rows[r];
        let ghost before = columns@;
        let ghost seen = rows@.take(r as int);
        assert(rows@.take(r + 1).drop_last() =~= seen);
        assert(rows@.take(r + 1).last() == rows@[r as int]);
        let mut w: usize = 0;
        while w < row.len()
            invariant
                w <= row@.len(),
                row == rows@[r as int],
                before.len() == widest(seen),
                forall|k: int|
                    0 <= k < before.len() ==> (#[trigger] before[k])@ == column(seen, k),
                columns@.len() == (if w > before.len() {
                    w as nat
                } else {
                    before.len()
                }),
                forall|k: int|
                    0 <= k < w ==> (#[trigger] columns@[k])@ == (if k < before.len() {
                        before[k]@.push(row@[k])
                    } else {
                        seq![row@[k]]
                    }),
                forall|k: int|
                    w <= k < columns@.len() ==> (#[trigger] columns@[k])@ == before[k]@,
            decreases row@.len() - w,
        {
            if columns.len() <= w {
                columns.push(Vec::new());
            }
            columns[w].push(row[w]);
            w = w + 1;
        }
        proof {
            lemma_column_past_the_widest(seen);
            assert forall|k: int| 0 <= k < columns@.len() implies (#[trigger] columns@[k])@
                == column(rows@.take(r + 1), k) by {
                if k < row@.len() && k >= before.len() {
                    assert(column(seen, k) =~= Seq::<T>::empty());
                    assert(seq![row@[k]] =~= Seq::<T>::empty().push(row@[k]));
                }
            }
        }
        r = r + 1;
    }
    assert(rows@.take(r as int) =~= rows@);
    columns
}

/// No row reaches a column past the length of the longest row.
pub proof fn lemma_column_past_the_widest<T>(rows: Seq<Vec<T>>)
    ensures
        forall|w: int| w >= widest(rows) ==> (#[trigger] column(rows, w)).len() == 0,
    decreases rows.len(),
{
    if rows.len() > 0 {
        lemma_column_past_the_widest(rows.drop_last());
        assert forall|w: int| w >= widest(rows) implies (#[trigger] column(rows, w)).len()
            == 0 by {
            assert(widest(rows) >= widest(rows.drop_last()));
            assert(column(rows.drop_last(), w).len() == 0);
        }
    }
}

} // verus!
