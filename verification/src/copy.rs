//! The copy engine's part of one table job: what is run for it, the query
//! that reads its rows, and the batches in which the rows are written.

use crate::model::{TableConfig, TableInfo};
use crate::schema::{sync_plan, sync_statements, SyncPlan};
use crate::text::{
    decimal, escaped, join, joined, push_decimal, push_escaped, push_quoted, quoted, texts,
};
use vstd::prelude::*;
use vstd::string::StringSliceAdditionalSpecFns;
use vstd::utf8::encode_utf8;

verus! {

/// The number of rows that one insert statement carries at most.
pub const BATCH_ROWS: usize = 1000;

/// Each name with its double quotes doubled.
pub open spec fn escaped_all(names: Seq<Seq<char>>) -> Seq<Seq<char>> {
    Seq::new(names.len(), |i: int| escaped(names[i]))
}

/// The column names as a list of delimited identifiers.
pub open spec fn column_list(names: Seq<Seq<char>>) -> Seq<char> {
    seq!['"'] + joined(escaped_all(names), "\", \""@) + seq!['"']
}

/// The query that reads exactly the listed columns of the table.
pub open spec fn select_text(table: Seq<char>, names: Seq<Seq<char>>) -> Seq<char> {
    "SELECT "@ + column_list(names) + " FROM "@ + quoted(table)
}

/// The part of an insert statement before its row groups.
pub open spec fn insert_head(table: Seq<char>, names: Seq<Seq<char>>) -> Seq<char> {
    "INSERT INTO "@ + quoted(table) + " ("@ + column_list(names) + ") VALUES"@
}

/// The placeholder of the parameter with the given number.
pub open spec fn placeholder(n: nat) -> Seq<char> {
    seq!['$'] + decimal(n)
}

/// The group of one row: `width` placeholders numbered from `first`,
/// separated by commas, in parentheses.
pub open spec fn row_group(first: nat, width: nat) -> Seq<char> {
    seq!['('] + joined(Seq::new(width, |i: int| placeholder(first + i as nat)), ", "@) + seq![')']
}

/// The values of the rows, row after row.
pub open spec fn flat(rows: Seq<Seq<Seq<char>>>) -> Seq<Seq<char>>
    decreases rows.len(),
{
    if rows.len() == 0 {
        Seq::empty()
    } else {
        flat(rows.drop_last()) + rows.last()
    }
}

/// The bytes that the values take in UTF-8.
pub open spec fn total_bytes(values: Seq<Seq<char>>) -> nat
    decreases values.len(),
{
    if values.len() == 0 {
        0
    } else {
        total_bytes(values.drop_last()) + encode_utf8(values.last()).len()
    }
}

/// A byte count as the counter holds it: it stops at the largest value.
pub open spec fn capped(n: nat) -> nat {
    if n > usize::MAX {
        usize::MAX as nat
    } else {
        n
    }
}

/// The row groups of a batch: the placeholders are numbered from one,
/// through the rows.
pub open spec fn groups_of(rows: Seq<Seq<Seq<char>>>) -> Seq<Seq<char>> {
    Seq::new(rows.len(), |i: int| row_group(flat(rows.take(i)).len() + 1, rows[i].len()))
}

/// The insert statement of a batch.
pub open spec fn insert_text(
    table: Seq<char>,
    names: Seq<Seq<char>>,
    rows: Seq<Seq<Seq<char>>>,
) -> Seq<char> {
    insert_head(table, names) + " "@ + joined(groups_of(rows), ", "@)
}

/// The views of the rows.
pub open spec fn row_texts(rows: Seq<Vec<String>>) -> Seq<Seq<Seq<char>>> {
    Seq::new(rows.len(), |i: int| texts(rows[i]@))
}

/// One insert statement with its parameters and the bytes they buffer.
#[derive(Clone, Debug, PartialEq, Eq)]
pub struct InsertBatch {
    pub sql: String,
    pub params: Vec<String>,
    pub bytes: usize,
}

/// What contracts read of a batch.
pub struct InsertBatchView {
    pub sql: Seq<char>,
    pub params: Seq<Seq<char>>,
    pub bytes: nat,
}

impl View for InsertBatch {
    type V = InsertBatchView;

    open spec fn view(&self) -> InsertBatchView {
        InsertBatchView { sql: self.sql@, params: texts(self.params@), bytes: self.bytes as nat }
    }
}

/// The batch that writes the given rows: the statement, the values in the
/// order of their placeholders, and the bytes of the values.
pub open spec fn batch_of(
    table: Seq<char>,
    names: Seq<Seq<char>>,
    rows: Seq<Seq<Seq<char>>>,
) -> InsertBatchView {
    InsertBatchView {
        sql: insert_text(table, names, rows),
        params: flat(rows),
        bytes: capped(total_bytes(flat(rows))),
    }
}

/// The number of batches for `n` rows.
pub open spec fn batch_count(n: nat) -> nat {
    (n + BATCH_ROWS - 1) as nat / (BATCH_ROWS as nat)
}

/// The end of the batch that begins at row `from`, of `n` rows.
pub open spec fn batch_end(from: int, n: int) -> int {
    if from + BATCH_ROWS < n {
        from + BATCH_ROWS
    } else {
        n
    }
}

/// The values of the first `k` batches of the rows, batch after batch.
pub open spec fn batched_values(rows: Seq<Seq<Seq<char>>>, k: nat) -> Seq<Seq<char>>
    decreases k,
{
    if k == 0 {
        Seq::empty()
    } else {
        let from = (k - 1) * BATCH_ROWS;
        batched_values(rows, (k - 1) as nat) + flat(
            rows.subrange(from, batch_end(from, rows.len() as int)),
        )
    }
}

/// The values of two runs of rows, one after the other, are the values of
/// the first followed by those of the second.
pub proof fn lemma_flat_concat(a: Seq<Seq<Seq<char>>>, b: Seq<Seq<Seq<char>>>)
    ensures
        flat(a + b) == flat(a) + flat(b),
    decreases b.len(),
{
    if b.len() == 0 {
        assert(a + b =~= a);
        assert(flat(a) + flat(b) =~= flat(a));
    } else {
        lemma_flat_concat(a, b.drop_last());
        assert((a + b).drop_last() =~= a + b.drop_last());
        assert((a + b).last() == b.last());
        assert(flat(a + b) =~= flat(a) + flat(b));
    }
}

/// The batches carry every value of every row exactly once and in order:
/// their parameters, batch after batch, are the values of the rows.
pub proof fn lemma_batches_carry_every_value(rows: Seq<Seq<Seq<char>>>)
    ensures
        batched_values(rows, batch_count(rows.len())) == flat(rows),
{
    let n = rows.len() as int;
    let total = batch_count(rows.len());
    if total == 0 {
        assert(rows =~= Seq::empty());
    } else {
        lemma_batched_prefix(rows, total);
        assert(batch_end((total * BATCH_ROWS) as int - BATCH_ROWS, n) == n);
        assert(rows.subrange(0, n) =~= rows);
    }
}

proof fn lemma_batched_prefix(rows: Seq<Seq<Seq<char>>>, k: nat)
    requires
        k <= batch_count(rows.len()),
    ensures
        k > 0 ==> batched_values(rows, k) == flat(
            rows.subrange(0, batch_end((k * BATCH_ROWS) as int - BATCH_ROWS, rows.len() as int)),
        ),
    decreases k,
{
    let n = rows.len() as int;
    if k == 1 {
        assert(batched_values(rows, 0) =~= Seq::empty());
        assert(batched_values(rows, 1) =~= flat(rows.subrange(0, batch_end(0, n))));
    } else if k > 1 {
        lemma_batched_prefix(rows, (k - 1) as nat);
        let from = (k - 1) * BATCH_ROWS;
        assert(batch_end(from - BATCH_ROWS, n) == from);
        let head = rows.subrange(0, from);
        let tail = rows.subrange(from, batch_end(from, n));
        lemma_flat_concat(head, tail);
        assert(head + tail =~= rows.subrange(0, batch_end(from, n)));
    }
}

fn column_list_text(job: &TableConfig) -> (out: String)
    ensures
        out@ == column_list(job.column_names()),
{
    let mut names: Vec<String> = Vec::new();
    let mut i: usize = 0;
    while i < job.columns.len()
        invariant
            i <= job.columns.len(),
            names@.len() == i,
            forall|k: int| 0 <= k < i ==> #[trigger] names@[k]@ == escaped(job.column_names()[k]),
        decreases job.columns.len() - i,
    {
        let mut name = String::new();
        push_escaped(&mut name, job.columns[i].name.as_str());
        proof {
            assert(name@ =~= escaped(job.column_names()[i as int]));
        }
        names.push(name);
        i += 1;
    }
    proof {
        assert(texts(names@) =~= escaped_all(job.column_names()));
    }
    let mut out = String::new();
    out.push('"');
    out.append(join(&names, "\", \"").as_str());
    out.push('"');
    proof {
        assert(out@ =~= column_list(job.column_names()));
    }
    out
}

/// The query that reads exactly the listed columns of the job's table.
pub fn select_statement(job: &TableConfig) -> (out: String)
    ensures
        out@ == select_text(job.name@, job.column_names()),
{
    let mut out = "SELECT ".to_owned();
    out.append(column_list_text(job).as_str());
    out.append(" FROM ");
    push_quoted(&mut out, job.name.as_str());
    out
}

fn insert_head_text(job: &TableConfig) -> (out: String)
    ensures
        out@ == insert_head(job.name@, job.column_names()),
{
    let mut out = "INSERT INTO ".to_owned();
    push_quoted(&mut out, job.name.as_str());
    out.append(" (");
    out.append(column_list_text(job).as_str());
    out.append(") VALUES");
    out
}

fn group_text(first: usize, width: usize) -> (out: String)
    requires
        width > 0 ==> first + width - 1 <= usize::MAX,
    ensures
        out@ == row_group(first as nat, width as nat),
{
    let mut marks: Vec<String> = Vec::new();
    let mut i: usize = 0;
    while i < width
        invariant
            i <= width,
            width > 0 ==> first + width - 1 <= usize::MAX,
            marks@.len() == i,
            forall|k: int| 0 <= k < i ==> #[trigger] marks@[k]@ == placeholder((first + k) as nat),
        decreases width - i,
    {
        let mut mark = String::new();
        mark.push('$');
        push_decimal(&mut mark, first + i);
        proof {
            assert(mark@ =~= placeholder((first + i) as nat));
        }
        marks.push(mark);
        i += 1;
    }
    proof {
        assert(texts(marks@) =~= Seq::new(
            width as nat,
            |i: int| placeholder(first as nat + i as nat),
        ));
    }
    let mut out = String::new();
    out.push('(');
    out.append(join(&marks, ", ").as_str());
    out.push(')');
    proof {
        assert(out@ =~= row_group(first as nat, width as nat));
    }
    out
}

/// The statement that writes one row of the job's columns: one placeholder
/// for each listed column, numbered from one.
pub fn row_insert_statement(job: &TableConfig) -> (out: String)
    ensures
        out@ == insert_head(job.name@, job.column_names()) + " "@ + row_group(
            1,
            job.columns@.len(),
        ),
{
    let mut out = insert_head_text(job);
    out.append(" ");
    out.append(group_text(1, job.columns.len()).as_str());
    out
}

fn build_batch(head: &str, rows: &Vec<Vec<String>>, from: usize, to: usize) -> (batch: InsertBatch)
    requires
        from <= to <= rows@.len(),
    ensures
        batch@.sql == head@ + " "@ + joined(
            groups_of(row_texts(rows@).subrange(from as int, to as int)),
            ", "@,
        ),
        batch@.params == flat(row_texts(rows@).subrange(from as int, to as int)),
        batch@.bytes == capped(total_bytes(batch@.params)),
{
    let ghost all = row_texts(rows@);
    let mut groups: Vec<String> = Vec::new();
    let mut params: Vec<String> = Vec::new();
    let mut bytes: usize = 0;
    let mut r: usize = from;
    proof {
        assert(all.subrange(from as int, from as int) =~= Seq::empty());
        assert(texts(params@) =~= flat(all.subrange(from as int, from as int)));
    }
    while r < to
        invariant
            from <= r <= to <= rows@.len(),
            all == row_texts(rows@),
            groups@.len() == r - from,
            forall|k: int|
                0 <= k < r - from ==> #[trigger] groups@[k]@ == row_group(
                    flat(all.subrange(from as int, from + k)).len() + 1,
                    all[from + k].len(),
                ),
            texts(params@) == flat(all.subrange(from as int, r as int)),
            bytes == capped(total_bytes(texts(params@))),
        decreases to - r,
    {
        let row = &rows[r];
        let before = params.len();
        let ghost done = flat(all.subrange(from as int, r as int));
        let mut c: usize = 0;
        proof {
            assert(done + all[r as int].take(0) =~= done);
        }
        while c < row.len()
            invariant
                c <= row.len(),
                row@ == rows@[r as int]@,
                r < rows@.len(),
                all == row_texts(rows@),
                params@.len() == before + c,
                texts(params@) == done + all[r as int].take(c as int),
                bytes == capped(total_bytes(texts(params@))),
            decreases row.len() - c,
        {
            let value = row[c].clone();
            let size = value.as_str().as_bytes().len();
            let ghost held = texts(params@);
            params.push(value);
            proof {
                assert(texts(params@) =~= held.push(row@[c as int]@));
                assert(texts(params@).drop_last() =~= held);
                assert(all[r as int][c as int] == row@[c as int]@);
                assert(texts(params@) =~= done + all[r as int].take(c + 1));
                assert(texts(params@).last() == value@);
                assert(size == encode_utf8(value@).len());
                assert(total_bytes(texts(params@)) == total_bytes(held) + size);
            }
            bytes = if size <= usize::MAX - bytes {
                bytes + size
            } else {
                usize::MAX
            };
            c += 1;
        }
        let width = row.len();
        let end = params.len();
        assert(end == before + width);
        let first = if width == 0 {
            1
        } else {
            before + 1
        };
        let group = group_text(first, width);
        proof {
            let next = all.subrange(from as int, r + 1);
            assert(next.drop_last() =~= all.subrange(from as int, r as int));
            assert(next.last() == all[r as int]);
            assert(all[r as int].take(width as int) =~= all[r as int]);
            assert(texts(params@) =~= flat(next));
            assert(done.len() == before);
            if width == 0 {
                assert(Seq::new(0 as nat, |i: int| placeholder(1 + i as nat)) =~= Seq::new(
                    0 as nat,
                    |i: int| placeholder((done.len() + 1) as nat + i as nat),
                ));
            }
            assert(group@ == row_group(done.len() + 1, all[r as int].len()));
        }
        groups.push(group);
        r += 1;
    }
    let mut sql = head.to_owned();
    sql.append(" ");
    sql.append(join(&groups, ", ").as_str());
    proof {
        let chunk = all.subrange(from as int, to as int);
        assert forall|k: int| 0 <= k < chunk.len() implies texts(groups@)[k] == groups_of(
            chunk,
        )[k] by {
            assert(chunk.take(k) =~= all.subrange(from as int, from + k));
            assert(chunk[k] == all[from + k]);
        }
        assert(texts(groups@) =~= groups_of(chunk));
    }
    InsertBatch { sql, params, bytes }
}

/// The batches that write the rows to the job's table: every `BATCH_ROWS`
/// rows make one statement, the rows that are left make the last, and no
/// rows make none. Each statement numbers its placeholders from one and
/// carries the values of its rows, in order, as its parameters.
pub fn insert_batches(job: &TableConfig, rows: &Vec<Vec<String>>) -> (out: Vec<InsertBatch>)
    ensures
        out@.len() == batch_count(rows@.len()),
        forall|k: int|
            0 <= k < out@.len() ==> #[trigger] out@[k]@ == batch_of(
                job.name@,
                job.column_names(),
                row_texts(rows@).subrange(k * BATCH_ROWS, batch_end(k * BATCH_ROWS, rows@.len() as int)),
            ),
{
    let head = insert_head_text(job);
    let mut out: Vec<InsertBatch> = Vec::new();
    let mut from: usize = 0;
    while from < rows.len()
        invariant
            from <= rows@.len(),
            head@ == insert_head(job.name@, job.column_names()),
            from == rows@.len() || from == out@.len() * BATCH_ROWS,
            out@.len() == batch_count(from as nat),
            forall|k: int|
                0 <= k < out@.len() ==> #[trigger] out@[k]@ == batch_of(
                    job.name@,
                    job.column_names(),
                    row_texts(rows@).subrange(
                        k * BATCH_ROWS,
                        batch_end(k * BATCH_ROWS, rows@.len() as int),
                    ),
                ),
        decreases rows@.len() - from,
    {
        let to = if rows.len() - from > BATCH_ROWS {
            from + BATCH_ROWS
        } else {
            rows.len()
        };
        let batch = build_batch(head.as_str(), rows, from, to);
        proof {
            assert(to == batch_end(from as int, rows@.len() as int));
            assert(batch@ == batch_of(
                job.name@,
                job.column_names(),
                row_texts(rows@).subrange(from as int, to as int),
            ));
        }
        out.push(batch);
        from = to;
    }
    out
}

/// What is run for one table job.
#[derive(Clone, Debug, PartialEq, Eq)]
pub struct CopyPlan {
    /// The statements that rebuild the table at the target.
    pub sync: SyncPlan,
    /// The query that reads the rows, unless only the structure is copied.
    pub select: Option<String>,
}

/// What is run for one table job, given the inspected definition of its
/// table: nothing for a job that is to be skipped; else the statements that
/// rebuild the table and, unless only the structure is copied, the query
/// that reads the rows. Without that query no row is read or written.
pub fn copy_plan(job: &TableConfig, info: &TableInfo) -> (plan: Option<CopyPlan>)
    ensures
        plan is None <==> job.ignore,
        plan is Some ==> plan->Some_0.sync@ == sync_plan(info@, job.ignore_foreign_keys),
        plan is Some ==> (plan->Some_0.select is None <==> job.structure_only),
        plan is Some && !job.structure_only ==> plan->Some_0.select->Some_0@ == select_text(
            job.name@,
            job.column_names(),
        ),
{
    if job.ignore {
        return None;
    }
    let sync = sync_statements(info, job.ignore_foreign_keys);
    let select = if job.structure_only {
        None
    } else {
        Some(select_statement(job))
    };
    Some(CopyPlan { sync, select })
}

} // verus!
