//! Rows of one entity type and the logical operations on them: adding a
//! field to existing rows, reads through the policies in force, creation and
//! upsert.

use vstd::prelude::*;
use crate::filter::{eval_predicate, eval_spec, Predicate};
use crate::policy::{present_cells, presented_cells, FieldPolicy, ResolvedPolicy};
use crate::types::{cell_value, Cell, Field, Row, Value};

verus! {

#[derive(Clone, Copy, Debug, PartialEq, Eq, Structural)]
pub enum StoreError {
    /// A restriction policy denies the operation.
    PolicyViolation,
    /// An upsert restriction selects more than one row.
    Ambiguous,
}

#[derive(Clone, Copy, Debug, PartialEq, Eq, Structural)]
pub enum Upserted {
    /// A row was created at this index.
    Created(usize),
    /// The row at this index was updated.
    Updated(usize),
}

/// Whether `cells` holds a value for field `f`.
pub open spec fn has_cell(cells: Seq<Cell>, f: u64) -> bool {
    exists|j: int| 0 <= j < cells.len() && cells[j].field == f
}

pub fn find_cell(cells: &Vec<Cell>, f: u64) -> (r: bool)
    ensures
        r == has_cell(cells@, f),
{
    let mut i: usize = 0;
    while i < cells.len()
        invariant
            i <= cells@.len(),
            forall|j: int| 0 <= j < i ==> cells@[j].field != f,
        decreases cells.len() - i,
    {
        if cells[i].field == f {
            return true;
        }
        i = i + 1;
    }
    false
}

proof fn lemma_absent_is_null(s: Seq<Cell>, g: u64)
    requires
        !has_cell(s, g),
    ensures
        cell_value(s, g) == Value::Null,
    decreases s.len(),
{
    if s.len() > 0 {
        assert forall|j: int| 0 <= j < s.drop_first().len() implies s.drop_first()[j].field != g by {
            assert(s.drop_first()[j] == s[j + 1]);
        }
        lemma_absent_is_null(s.drop_first(), g);
    }
}

proof fn lemma_cell_value_concat(a: Seq<Cell>, b: Seq<Cell>, g: u64)
    ensures
        cell_value(a + b, g) == if has_cell(a, g) {
            cell_value(a, g)
        } else {
            cell_value(b, g)
        },
    decreases a.len(),
{
    if a.len() == 0 {
        assert(a + b == b);
    } else {
        assert((a + b).drop_first() == a.drop_first() + b);
        lemma_cell_value_concat(a.drop_first(), b, g);
        if a[0].field != g {
            if has_cell(a, g) {
                let j = choose|j: int| 0 <= j < a.len() && a[j].field == g;
                assert(a.drop_first()[j - 1] == a[j]);
            }
            if has_cell(a.drop_first(), g) {
                let j = choose|j: int| 0 <= j < a.drop_first().len() && a.drop_first()[j].field == g;
                assert(a[j + 1] == a.drop_first()[j]);
            }
        }
    }
}

proof fn lemma_cell_value_push(s: Seq<Cell>, c: Cell, g: u64)
    ensures
        cell_value(s.push(c), g) == if has_cell(s, g) {
            cell_value(s, g)
        } else if c.field == g {
            c.value
        } else {
            Value::Null
        },
{
    lemma_cell_value_concat(s, seq![c], g);
    assert(s + seq![c] == s.push(c));
    assert(seq![c].drop_first() =~= Seq::<Cell>::empty());
    assert(seq![c][0] == c);
    assert(cell_value(seq![c].drop_first(), g) == Value::Null);
}

/// A row after field `f` is added to its type: a row without a value for it
/// gets the field's default, or null.
pub open spec fn with_field(cells: Seq<Cell>, f: Field) -> Seq<Cell> {
    if has_cell(cells, f.name) {
        cells
    } else {
        cells.push(
            Cell {
                field: f.name,
                value: match f.default {
                    Some(d) => d,
                    None => Value::Null,
                },
            },
        )
    }
}

/// Adding a field leaves every other field of a row as it was.
pub proof fn lemma_added_field_keeps_others(cells: Seq<Cell>, f: Field, g: u64)
    requires
        g != f.name,
    ensures
        cell_value(with_field(cells, f), g) == cell_value(cells, g),
{
    if !has_cell(cells, f.name) {
        lemma_cell_value_push(cells, with_field(cells, f).last(), g);
        assert(with_field(cells, f) == cells.push(with_field(cells, f).last()));
        if !has_cell(cells, g) {
            lemma_absent_is_null(cells, g);
        }
    }
}

/// The cells of `cells` whose field `upd` does not set.
pub open spec fn cells_not_in(cells: Seq<Cell>, upd: Seq<Cell>) -> Seq<Cell>
    decreases cells.len(),
{
    if cells.len() == 0 {
        seq![]
    } else if has_cell(upd, cells.last().field) {
        cells_not_in(cells.drop_last(), upd)
    } else {
        cells_not_in(cells.drop_last(), upd).push(cells.last())
    }
}

/// A row after an update: the update's values, then the row's other values.
pub open spec fn updated_cells(cells: Seq<Cell>, upd: Seq<Cell>) -> Seq<Cell> {
    upd + cells_not_in(cells, upd)
}

proof fn lemma_cells_not_in(cells: Seq<Cell>, upd: Seq<Cell>, g: u64)
    ensures
        has_cell(upd, g) ==> !has_cell(cells_not_in(cells, upd), g),
        !has_cell(upd, g) ==> has_cell(cells_not_in(cells, upd), g) == has_cell(cells, g)
            && cell_value(cells_not_in(cells, upd), g) == cell_value(cells, g),
    decreases cells.len(),
{
    if cells.len() > 0 {
        let dl = cells.drop_last();
        let c = cells.last();
        let w = cells_not_in(dl, upd);
        lemma_cells_not_in(dl, upd, g);
        assert(cells == dl.push(c));
        lemma_cell_value_push(dl, c, g);
        lemma_cell_value_push(w, c, g);
        assert(has_cell(cells, g) == (has_cell(dl, g) || c.field == g)) by {
            if has_cell(cells, g) {
                let j = choose|j: int| 0 <= j < cells.len() && cells[j].field == g;
                if j < dl.len() {
                    assert(dl[j] == cells[j]);
                }
            }
            if has_cell(dl, g) {
                let j = choose|j: int| 0 <= j < dl.len() && dl[j].field == g;
                assert(dl[j] == cells[j]);
            }
        }
        if !has_cell(upd, c.field) {
            let wc = w.push(c);
            assert(has_cell(wc, g) == (has_cell(w, g) || c.field == g)) by {
                if has_cell(wc, g) {
                    let j = choose|j: int| 0 <= j < wc.len() && wc[j].field == g;
                    if j < w.len() {
                        assert(w[j] == wc[j]);
                    }
                }
                if has_cell(w, g) {
                    let j = choose|j: int| 0 <= j < w.len() && w[j].field == g;
                    assert(w[j] == wc[j]);
                }
                assert(wc[w.len() as int] == c);
            }
        }
        if !has_cell(dl, g) {
            lemma_absent_is_null(dl, g);
        }
    }
}

/// After an update, a field that the update sets reads the update's value;
/// every other field reads as before.
pub proof fn lemma_update_reads(cells: Seq<Cell>, upd: Seq<Cell>, g: u64)
    ensures
        cell_value(updated_cells(cells, upd), g) == if has_cell(upd, g) {
            cell_value(upd, g)
        } else {
            cell_value(cells, g)
        },
{
    lemma_cell_value_concat(upd, cells_not_in(cells, upd), g);
    lemma_cells_not_in(cells, upd, g);
}

pub fn update_cells(cells: &Vec<Cell>, upd: &Vec<Cell>) -> (r: Vec<Cell>)
    ensures
        r@ == updated_cells(cells@, upd@),
{
    let mut out: Vec<Cell> = Vec::new();
    let mut i: usize = 0;
    while i < upd.len()
        invariant
            i <= upd@.len(),
            out@ == upd@.subrange(0, i as int),
        decreases upd.len() - i,
    {
        out.push(upd[i]);
        i = i + 1;
        assert(out@ =~= upd@.subrange(0, i as int));
    }
    assert(upd@.subrange(0, upd@.len() as int) == upd@);
    let mut k: usize = 0;
    while k < cells.len()
        invariant
            k <= cells@.len(),
            out@ == upd@ + cells_not_in(cells@.subrange(0, k as int), upd@),
        decreases cells.len() - k,
    {
        assert(cells@.subrange(0, k + 1).drop_last() == cells@.subrange(0, k as int));
        if !find_cell(upd, cells[k].field) {
            out.push(cells[k]);
        }
        k = k + 1;
        assert(out@ =~= upd@ + cells_not_in(cells@.subrange(0, k as int), upd@));
    }
    assert(cells@.subrange(0, cells@.len() as int) == cells@);
    out
}

/// Whether a row passes the query's predicate and every policy filter.
pub open spec fn visible(cells: Seq<Cell>, q: Predicate, filters: Seq<Predicate>) -> bool {
    eval_spec(q, cells) && forall|k: int| 0 <= k < filters.len() ==> eval_spec(#[trigger] filters[k], cells)
}

pub fn passes_all(filters: &Vec<Predicate>, cells: &Vec<Cell>) -> (r: bool)
    ensures
        r == forall|k: int| 0 <= k < filters@.len() ==> eval_spec(#[trigger] filters@[k], cells@),
{
    let mut i: usize = 0;
    while i < filters.len()
        invariant
            i <= filters@.len(),
            forall|k: int| 0 <= k < i ==> eval_spec(#[trigger] filters@[k], cells@),
        decreases filters.len() - i,
    {
        if !eval_predicate(&filters[i], cells) {
            return false;
        }
        i = i + 1;
    }
    true
}

/// What a read returns: the visible rows, in order, with transforms applied.
pub open spec fn query_result(rows: Seq<Row>, q: Predicate, filters: Seq<Predicate>, ts: Seq<FieldPolicy>) -> Seq<Seq<Cell>>
    decreases rows.len(),
{
    if rows.len() == 0 {
        seq![]
    } else {
        let prev = query_result(rows.drop_last(), q, filters, ts);
        if visible(rows.last().cells@, q, filters) {
            prev.push(presented_cells(rows.last().cells@, ts))
        } else {
            prev
        }
    }
}

/// The number of rows that satisfy `p`.
pub open spec fn match_count(rows: Seq<Row>, p: Predicate) -> nat
    decreases rows.len(),
{
    if rows.len() == 0 {
        0
    } else {
        match_count(rows.drop_last(), p) + if eval_spec(p, rows.last().cells@) {
            1nat
        } else {
            0nat
        }
    }
}

pub open spec fn cells_of(rows: Seq<Row>) -> Seq<Seq<Cell>> {
    rows.map_values(|r: Row| r.cells@)
}

/// The rows of `rows` that do not satisfy `p`, in order.
pub open spec fn kept_rows(rows: Seq<Row>, p: Predicate) -> Seq<Row>
    decreases rows.len(),
{
    if rows.len() == 0 {
        seq![]
    } else if eval_spec(p, rows[0].cells@) {
        kept_rows(rows.drop_first(), p)
    } else {
        seq![rows[0]] + kept_rows(rows.drop_first(), p)
    }
}

/// The stored rows of one entity type.
pub struct Table {
    pub rows: Vec<Row>,
}

impl Table {
    pub fn new() -> (r: Table)
        ensures
            r.rows@.len() == 0,
    {
        Table { rows: Vec::new() }
    }

    /// Gives every row a value for the newly added field `f`; values of the
    /// other fields stay as they were.
    pub fn add_field(&mut self, f: Field)
        ensures
            final(self).rows@.len() == old(self).rows@.len(),
            forall|i: int|
                0 <= i < old(self).rows@.len() ==> #[trigger] final(self).rows@[i].cells@ == with_field(
                    old(self).rows@[i].cells@,
                    f,
                ),
    {
        let n = self.rows.len();
        let mut i: usize = 0;
        while i < n
            invariant
                n == old(self).rows@.len(),
                self.rows@.len() == n,
                i <= n,
                forall|k: int| 0 <= k < i ==> #[trigger] self.rows@[k].cells@ == with_field(old(self).rows@[k].cells@, f),
                forall|k: int| i <= k < n ==> #[trigger] self.rows@[k] == old(self).rows@[k],
            decreases n - i,
        {
            let mut cells = self.rows[i].cells.clone();
            assert(cells@ == old(self).rows@[i as int].cells@);
            if !find_cell(&cells, f.name) {
                let v = match f.default {
                    Some(d) => d,
                    None => Value::Null,
                };
                cells.push(Cell { field: f.name, value: v });
            }
            self.rows.set(i, Row { cells });
            i = i + 1;
        }
    }

    /// The rows that satisfy `q` and the policy filters, as the caller sees
    /// them; fails when the policy denies reads. The stored rows are not
    /// touched.
    pub fn find_many(&self, q: &Predicate, policy: &ResolvedPolicy) -> (r: Result<Vec<Row>, StoreError>)
        ensures
            policy.deny_read ==> r == Err::<Vec<Row>, StoreError>(StoreError::PolicyViolation),
            !policy.deny_read ==> (r matches Ok(v) && cells_of(v@) == query_result(
                self.rows@,
                *q,
                policy.filters@,
                policy.transforms@,
            )),
    {
        if policy.deny_read {
            return Err(StoreError::PolicyViolation);
        }
        let mut out: Vec<Row> = Vec::new();
        let mut i: usize = 0;
        while i < self.rows.len()
            invariant
                i <= self.rows@.len(),
                cells_of(out@) == query_result(
                    self.rows@.subrange(0, i as int),
                    *q,
                    policy.filters@,
                    policy.transforms@,
                ),
            decreases self.rows.len() - i,
        {
            assert(self.rows@.subrange(0, i + 1).drop_last() == self.rows@.subrange(0, i as int));
            let cells = &self.rows[i].cells;
            if eval_predicate(q, cells) && passes_all(&policy.filters, cells) {
                let shown = present_cells(cells, &policy.transforms);
                let ghost before = out@;
                out.push(Row { cells: shown });
                assert(cells_of(out@) =~= cells_of(before).push(shown@));
            }
            i = i + 1;
        }
        assert(self.rows@.subrange(0, self.rows@.len() as int) == self.rows@);
        Ok(out)
    }

    /// Stores a new row, unless the policy denies writes.
    pub fn create(&mut self, policy: &ResolvedPolicy, cells: Vec<Cell>) -> (r: Result<usize, StoreError>)
        ensures
            policy.deny_write ==> r == Err::<usize, StoreError>(StoreError::PolicyViolation) && final(self).rows@
                == old(self).rows@,
            !policy.deny_write ==> r == Ok::<usize, StoreError>(old(self).rows@.len() as usize)
                && final(self).rows@ == old(self).rows@.push(Row { cells }),
    {
        if policy.deny_write {
            return Err(StoreError::PolicyViolation);
        }
        let at = self.rows.len();
        self.rows.push(Row { cells });
        Ok(at)
    }

    /// Updates the one row that `restriction` selects with `update`, or,
    /// when it selects none, stores a row made of `create`. The restriction
    /// itself is never stored.
    pub fn upsert(&mut self, policy: &ResolvedPolicy, restriction: &Predicate, create: Vec<Cell>, update: Vec<Cell>) -> (r: Result<Upserted, StoreError>)
        ensures
            policy.deny_write ==> r == Err::<Upserted, StoreError>(StoreError::PolicyViolation),
            !policy.deny_write && match_count(old(self).rows@, *restriction) == 0 ==> r == Ok::<Upserted, StoreError>(
                Upserted::Created(old(self).rows@.len() as usize),
            ) && final(self).rows@ == old(self).rows@.push(Row { cells: create }),
            !policy.deny_write && match_count(old(self).rows@, *restriction) == 1 ==> (r matches Ok(
                Upserted::Updated(i),
            ) && i < old(self).rows@.len() && eval_spec(*restriction, old(self).rows@[i as int].cells@)
                && final(self).rows@.len() == old(self).rows@.len() && final(self).rows@[i as int].cells@
                == updated_cells(old(self).rows@[i as int].cells@, update@) && forall|j: int|
                0 <= j < old(self).rows@.len() && j != i ==> #[trigger] final(self).rows@[j] == old(self).rows@[j]),
            !policy.deny_write && match_count(old(self).rows@, *restriction) > 1 ==> r == Err::<Upserted, StoreError>(
                StoreError::Ambiguous,
            ),
            r is Err ==> final(self).rows@ == old(self).rows@,
    {
        if policy.deny_write {
            return Err(StoreError::PolicyViolation);
        }
        let mut count: usize = 0;
        let mut at: usize = 0;
        let mut i: usize = 0;
        while i < self.rows.len()
            invariant
                i <= self.rows@.len(),
                count == match_count(self.rows@.subrange(0, i as int), *restriction),
                count <= i,
                count > 0 ==> at < i && eval_spec(*restriction, self.rows@[at as int].cells@),
            decreases self.rows.len() - i,
        {
            assert(self.rows@.subrange(0, i + 1).drop_last() == self.rows@.subrange(0, i as int));
            if eval_predicate(restriction, &self.rows[i].cells) {
                if count == 0 {
                    at = i;
                }
                count = count + 1;
            }
            i = i + 1;
        }
        assert(self.rows@.subrange(0, self.rows@.len() as int) == self.rows@);
        if count == 0 {
            let n = self.rows.len();
            self.rows.push(Row { cells: create });
            Ok(Upserted::Created(n))
        } else if count == 1 {
            let cells = update_cells(&self.rows[at].cells, &update);
            self.rows.set(at, Row { cells });
            Ok(Upserted::Updated(at))
        } else {
            Err(StoreError::Ambiguous)
        }
    }

    /// The first row that satisfies `q` and the policy filters, as the
    /// caller sees it; fails when the policy denies reads.
    pub fn find_one(&self, q: &Predicate, policy: &ResolvedPolicy) -> (r: Result<Option<Row>, StoreError>)
        ensures
            policy.deny_read ==> r == Err::<Option<Row>, StoreError>(StoreError::PolicyViolation),
            !policy.deny_read ==> (r matches Ok(found) && match found {
                None => query_result(self.rows@, *q, policy.filters@, policy.transforms@).len() == 0,
                Some(row) => query_result(self.rows@, *q, policy.filters@, policy.transforms@).len() > 0
                    && row.cells@ == query_result(self.rows@, *q, policy.filters@, policy.transforms@)[0],
            }),
    {
        match self.find_many(q, policy) {
            Err(e) => Err(e),
            Ok(mut rows) => {
                if rows.len() == 0 {
                    Ok(None)
                } else {
                    let ghost all = rows@;
                    let first = rows.remove(0);
                    assert(cells_of(all)[0] == all[0].cells@);
                    Ok(Some(first))
                }
            },
        }
    }

    /// Removes every row that satisfies `p`, unless the policy denies
    /// writes, and returns how many were removed.
    pub fn delete(&mut self, policy: &ResolvedPolicy, p: &Predicate) -> (r: Result<usize, StoreError>)
        ensures
            policy.deny_write ==> r == Err::<usize, StoreError>(StoreError::PolicyViolation) && final(self).rows@
                == old(self).rows@,
            !policy.deny_write ==> final(self).rows@ == kept_rows(old(self).rows@, *p) && r == Ok::<usize, StoreError>(
                (old(self).rows@.len() - final(self).rows@.len()) as usize,
            ),
    {
        if policy.deny_write {
            return Err(StoreError::PolicyViolation);
        }
        let n = self.rows.len();
        let mut removed: usize = 0;
        let mut i: usize = n;
        assert(old(self).rows@.subrange(n as int, n as int) =~= Seq::<Row>::empty());
        assert(old(self).rows@.subrange(0, n as int) == old(self).rows@);
        assert(self.rows@ =~= old(self).rows@.subrange(0, n as int) + kept_rows(Seq::<Row>::empty(), *p));
        while i > 0
            invariant
                n == old(self).rows@.len(),
                i <= n,
                self.rows@ == old(self).rows@.subrange(0, i as int) + kept_rows(
                    old(self).rows@.subrange(i as int, n as int),
                    *p,
                ),
                removed as int == n - self.rows@.len(),
                self.rows@.len() <= n,
            decreases i,
        {
            let ghost tail = old(self).rows@.subrange(i as int, n as int);
            let ghost longer = old(self).rows@.subrange(i - 1, n as int);
            assert(longer.drop_first() == tail);
            assert(longer[0] == old(self).rows@[i - 1]);
            assert(self.rows@[i - 1] == old(self).rows@[i - 1]);
            if eval_predicate(p, &self.rows[i - 1].cells) {
                self.rows.remove(i - 1);
                removed = removed + 1;
                assert(self.rows@ =~= old(self).rows@.subrange(0, i - 1) + kept_rows(longer, *p));
            } else {
                assert(self.rows@ =~= old(self).rows@.subrange(0, i - 1) + kept_rows(longer, *p));
            }
            i = i - 1;
        }
        assert(old(self).rows@.subrange(0, 0) + kept_rows(old(self).rows@.subrange(0, n as int), *p) =~= kept_rows(
            old(self).rows@,
            *p,
        ));
        Ok(removed)
    }
}

} // verus!
