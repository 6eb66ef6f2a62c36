//! Batching rows into multi-row INSERT statements.

use vstd::prelude::*;
use crate::error::BackupError;
use crate::progress::{table_event, ProgressEvent};
use crate::value::{cell, get_escaped_value, literal, Row};

verus! {

broadcast use vstd::string::to_string_from_display_ensures_for_str;

/// The most rows one INSERT statement carries.
pub const BATCH_ROWS: usize = 1000;

/// A name quoted as a MySQL identifier.
pub open spec fn backticked(name: Seq<char>) -> Seq<char> {
    seq!['`'] + name + seq!['`']
}

/// The items separated by `, `.
pub open spec fn joined(items: Seq<Seq<char>>) -> Seq<char>
    decreases items.len(),
{
    if items.len() == 0 {
        seq![]
    } else if items.len() == 1 {
        items[0]
    } else {
        joined(items.drop_last()) + seq![',', ' '] + items.last()
    }
}

/// The parts one after another.
pub open spec fn concat(parts: Seq<Seq<char>>) -> Seq<char>
    decreases parts.len(),
{
    if parts.len() == 0 {
        seq![]
    } else {
        concat(parts.drop_last()) + parts.last()
    }
}

/// The views of a list of strings.
pub open spec fn views(v: Seq<String>) -> Seq<Seq<char>> {
    v.map_values(|s: String| s@)
}

/// `INSERT INTO `table` (`c1`, `c2`) VALUES` and a line break.
pub open spec fn insert_header(table: Seq<char>, columns: Seq<Seq<char>>) -> Seq<char> {
    "INSERT INTO "@ + backticked(table) + " ("@ + joined(columns.map_values(|c: Seq<char>| backticked(c)))
        + ") VALUES\n"@
}

/// The literals of one row, in the order of `columns`.
pub open spec fn row_literals(row: Row, columns: Seq<Seq<char>>) -> Seq<Seq<char>> {
    Seq::new(columns.len(), |j: int| literal(cell(row, columns[j])->0))
}

/// Every one of `columns` has a value in the row.
pub open spec fn row_complete(row: Row, columns: Seq<Seq<char>>) -> bool {
    forall|j: int| 0 <= j < columns.len() ==> (#[trigger] cell(row, columns[j])) is Some
}

/// `(v1, v2, ...)`.
pub open spec fn row_tuple(literals: Seq<Seq<char>>) -> Seq<char> {
    seq!['('] + joined(literals) + seq![')']
}

/// A row line ends with a comma, the last of a statement with a semicolon.
pub open spec fn row_terminator(last: bool) -> Seq<char> {
    if last {
        seq![';', '\n']
    } else {
        seq![',', '\n']
    }
}

/// The lines of one statement's rows.
pub open spec fn row_lines(batch: Seq<Seq<char>>) -> Seq<Seq<char>> {
    Seq::new(batch.len(), |j: int| batch[j] + row_terminator(j == batch.len() - 1))
}

/// One INSERT statement carrying `batch`.
pub open spec fn insert_statement(header: Seq<char>, batch: Seq<Seq<char>>) -> Seq<char> {
    header + concat(row_lines(batch))
}

/// Where the last batch of `n` rows starts.
pub open spec fn last_batch_start(n: nat) -> nat {
    if n == 0 {
        0
    } else {
        ((n - 1) as nat / BATCH_ROWS as nat) * BATCH_ROWS as nat
    }
}

/// The rows cut into batches of `BATCH_ROWS` from the front; the last one may
/// be shorter.
pub open spec fn batches(rows: Seq<Seq<char>>) -> Seq<Seq<Seq<char>>>
    decreases rows.len(),
{
    if rows.len() == 0 {
        seq![]
    } else {
        let k = last_batch_start(rows.len());
        batches(rows.take(k as int)).push(rows.skip(k as int))
    }
}

/// The INSERT statements of all the rows.
pub open spec fn statements(header: Seq<char>, rows: Seq<Seq<char>>) -> Seq<char> {
    concat(batches(rows).map_values(|b: Seq<Seq<char>>| insert_statement(header, b)))
}

/// The statement that closes a table's data.
pub open spec fn unlock_text() -> Seq<char> {
    "UNLOCK TABLES;\n"@
}

proof fn lemma_last_batch_start(q: nat, r: nat)
    requires
        1 <= r <= 1000,
    ensures
        last_batch_start(1000 * q + r) == 1000 * q,
{
    assert(((1000 * q + r - 1) as nat) / 1000 == q) by (nonlinear_arith)
        requires
            1 <= r <= 1000,
    ;
}

/// Appending a full batch to rows that fill whole batches appends one
/// statement.
proof fn lemma_statements_extend(header: Seq<char>, done: Seq<Seq<char>>, batch: Seq<Seq<char>>)
    requires
        done.len() % 1000 == 0,
        1 <= batch.len() <= 1000,
    ensures
        statements(header, done + batch) == statements(header, done) + insert_statement(header, batch),
{
    let rows = done + batch;
    let q = done.len() / 1000;
    assert(done.len() == 1000 * q);
    lemma_last_batch_start(q, batch.len());
    assert(rows.take(done.len() as int) =~= done);
    assert(rows.skip(done.len() as int) =~= batch);
    let f = |b: Seq<Seq<char>>| insert_statement(header, b);
    assert(batches(rows).map_values(f) =~= batches(done).map_values(f).push(f(batch)));
    assert(batches(rows).map_values(f).drop_last() =~= batches(done).map_values(f));
}

/// The rows fall into `ceil(n / 1000)` batches, batch `i` holding rows
/// `1000 * i` up to `1000 * (i + 1)` or the end: every batch but the last has
/// exactly 1000 rows, and the last between 1 and 1000.
pub proof fn lemma_batch_shape(rows: Seq<Seq<char>>)
    ensures
        batches(rows).len() == (rows.len() + 999) / 1000,
        forall|i: int|
            0 <= i < batches(rows).len() ==> #[trigger] batches(rows)[i] == rows.subrange(
                1000 * i,
                if 1000 * i + 1000 <= rows.len() {
                    1000 * i + 1000
                } else {
                    rows.len() as int
                },
            ),
    decreases rows.len(),
{
    let n = rows.len();
    if n > 0 {
        let q = ((n - 1) as nat) / 1000;
        let r = (n - 1000 * q) as nat;
        assert(1 <= r <= 1000);
        lemma_last_batch_start(q, r);
        let k = 1000 * q;
        let front = rows.take(k as int);
        lemma_batch_shape(front);
        assert((k + 999) / 1000 == q);
        assert((n + 999) / 1000 == q + 1);
        assert forall|i: int| 0 <= i < batches(rows).len() implies #[trigger] batches(rows)[i]
            == rows.subrange(
            1000 * i,
            if 1000 * i + 1000 <= rows.len() {
                1000 * i + 1000
            } else {
                rows.len() as int
            },
        ) by {
            if i < q {
                assert(batches(rows)[i] == batches(front)[i]);
                assert(1000 * i + 1000 <= k);
                assert(front.subrange(1000 * i, 1000 * i + 1000) =~= rows.subrange(1000 * i, 1000 * i + 1000));
            } else {
                assert(batches(rows)[i] == rows.skip(k as int));
                assert(rows.skip(k as int) =~= rows.subrange(1000 * i, n as int));
            }
        }
    }
}

fn push_backticked(out: &mut String, name: &str)
    ensures
        final(out)@ == old(out)@ + backticked(name@),
{
    let ghost start = out@;
    out.push('`');
    out.push_str(name);
    out.push('`');
    assert(out@ =~= start + backticked(name@));
}

/// The header line of the INSERT statements of a table.
pub fn build_insert_header(table: &str, columns: &Vec<String>) -> (r: String)
    ensures
        r@ == insert_header(table@, views(columns@)),
{
    let ghost cols = views(columns@);
    let ghost quoted_cols = cols.map_values(|c: Seq<char>| backticked(c));
    let mut out = String::new();
    out.push_str("INSERT INTO ");
    push_backticked(&mut out, table);
    out.push_str(" (");
    let ghost start = out@;
    let mut j: usize = 0;
    while j < columns.len()
        invariant
            j <= columns@.len(),
            cols == views(columns@),
            quoted_cols == cols.map_values(|c: Seq<char>| backticked(c)),
            out@ == start + joined(quoted_cols.take(j as int)),
        decreases columns@.len() - j,
    {
        proof {
            assert(quoted_cols.take(j + 1).drop_last() =~= quoted_cols.take(j as int));
        }
        if j > 0 {
            out.push(',');
            out.push(' ');
        }
        push_backticked(&mut out, columns[j].as_str());
        proof {
            assert(cols[j as int] == columns@[j as int]@);
            assert(quoted_cols[j as int] == backticked(columns@[j as int]@));
            assert(quoted_cols.take(j + 1).last() == quoted_cols[j as int]);
            if j == 0 {
                assert(start + joined(quoted_cols.take(1)) =~= start + backticked(columns@[0]@));
            }
        }
        assert(out@ =~= start + joined(quoted_cols.take(j + 1)));
        j = j + 1;
    }
    assert(quoted_cols.take(columns@.len() as int) =~= quoted_cols);
    out.push_str(") VALUES\n");
    out
}

/// The tuple `(v1, v2, ...)` of one row's literals in the order of
/// `columns`, or the error of the first column whose value cannot be fetched.
pub fn row_values(row: &Row, columns: &Vec<String>) -> (r: Result<String, BackupError>)
    ensures
        r is Ok <==> row_complete(*row, views(columns@)),
        r matches Ok(s) ==> s@ == row_tuple(row_literals(*row, views(columns@))),
        r matches Err(e) ==> exists|j: int|
            0 <= j < columns@.len() && cell(*row, columns@[j]@) is None && (forall|k: int|
                0 <= k < j ==> (#[trigger] cell(*row, columns@[k]@)) is Some) && (e matches BackupError::ValueUnavailable(
                n,
            ) && n@ == columns@[j]@),
{
    let ghost cols = views(columns@);
    let ghost lits = row_literals(*row, cols);
    let mut out = String::new();
    out.push('(');
    let mut j: usize = 0;
    while j < columns.len()
        invariant
            j <= columns@.len(),
            cols == views(columns@),
            lits == row_literals(*row, cols),
            forall|k: int| 0 <= k < j ==> (#[trigger] cell(*row, columns@[k]@)) is Some,
            out@ == seq!['('] + joined(lits.take(j as int)),
        decreases columns@.len() - j,
    {
        let v = get_escaped_value(row, columns[j].as_str());
        proof {
            assert(cols[j as int] == columns@[j as int]@);
        }
        match v {
            Err(e) => {
                assert(!row_complete(*row, cols));
                return Err(e);
            },
            Ok(text) => {
                proof {
                    assert(lits.take(j + 1).drop_last() =~= lits.take(j as int));
                    assert(lits[j as int] == text@);
                    assert(lits.take(j + 1).last() == text@);
                }
                if j > 0 {
                    out.push(',');
                    out.push(' ');
                }
                out.push_str(text.as_str());
                proof {
                    if j == 0 {
                        assert(joined(lits.take(1)) =~= lits[0]);
                    }
                }
                assert(out@ =~= seq!['('] + joined(lits.take(j + 1)));
            },
        }
        j = j + 1;
    }
    assert(lits.take(columns@.len() as int) =~= lits);
    out.push(')');
    proof {
        assert forall|k: int| 0 <= k < cols.len() implies (#[trigger] cell(*row, cols[k])) is Some by {
            assert(cols[k] == columns@[k]@);
        }
    }
    Ok(out)
}

/// Appends one INSERT statement carrying the rows.
fn push_statement(out: &mut String, header: &String, rows: &Vec<String>)
    requires
        rows@.len() >= 1,
    ensures
        final(out)@ == old(out)@ + insert_statement(header@, views(rows@)),
{
    let ghost start = out@;
    let ghost lines = row_lines(views(rows@));
    out.push_str(header.as_str());
    let mut j: usize = 0;
    while j < rows.len()
        invariant
            j <= rows@.len(),
            lines == row_lines(views(rows@)),
            out@ == start + header@ + concat(lines.take(j as int)),
        decreases rows@.len() - j,
    {
        proof {
            assert(lines.take(j + 1).drop_last() =~= lines.take(j as int));
        }
        out.push_str(rows[j].as_str());
        if j + 1 < rows.len() {
            out.push(',');
        } else {
            out.push(';');
        }
        out.push('\n');
        assert(out@ =~= start + header@ + concat(lines.take(j + 1)));
        j = j + 1;
    }
    assert(lines.take(rows@.len() as int) =~= lines);
    assert(out@ =~= start + insert_statement(header@, views(rows@)));
}

/// What adding one row produced: a full statement to write, and a progress
/// report, each where there is one.
pub struct RowStep {
    pub statement: Option<String>,
    pub progress: Option<ProgressEvent>,
}

/// The data of one table being dumped: rows are added one at a time, a full
/// INSERT statement comes out at every 1000 rows, and `finish` gives the
/// remainder and the closing unlock statement.
pub struct TableDump {
    table: String,
    columns: Vec<String>,
    header: String,
    pending: Vec<String>,
    rows_known: bool,
    percent: u8,
    /// The rows whose statements were handed out.
    flushed: Ghost<Seq<Seq<char>>>,
}

impl TableDump {
    pub closed spec fn wf(&self) -> bool {
        &&& self.header@ == insert_header(self.table@, views(self.columns@))
        &&& self.pending@.len() < BATCH_ROWS
        &&& self.flushed@.len() % 1000 == 0
    }

    /// The table's name.
    pub closed spec fn table_name(&self) -> Seq<char> {
        self.table@
    }

    /// The header line of its INSERT statements.
    pub closed spec fn header(&self) -> Seq<char> {
        self.header@
    }

    /// The column names, in the order their values are written.
    pub closed spec fn column_names(&self) -> Seq<Seq<char>> {
        views(self.columns@)
    }

    /// The row tuples added so far.
    pub closed spec fn rows(&self) -> Seq<Seq<char>> {
        self.flushed@ + views(self.pending@)
    }

    /// The row tuples added since the last full statement.
    pub closed spec fn pending_rows(&self) -> Seq<Seq<char>> {
        views(self.pending@)
    }

    /// The text handed out so far.
    pub closed spec fn emitted(&self) -> Seq<char> {
        statements(self.header@, self.flushed@)
    }

    /// Whether the table reported rows in advance: only then does a full
    /// statement come with a progress report.
    pub closed spec fn reports_progress(&self) -> bool {
        self.rows_known
    }

    /// The percentage of the progress reports.
    pub closed spec fn percent(&self) -> u8 {
        self.percent
    }

    /// Starts the data of `table` with the given columns; `row_count` is the
    /// number of rows the table reported beforehand and `percent` where the
    /// run stands while on this table.
    pub fn new(table: &str, columns: Vec<String>, row_count: u64, percent: u8) -> (d: TableDump)
        ensures
            d.wf(),
            d.table_name() == table@,
            d.column_names() == views(columns@),
            d.header() == insert_header(table@, views(columns@)),
            d.rows() == Seq::<Seq<char>>::empty(),
            d.emitted() == Seq::<char>::empty(),
            d.reports_progress() == (row_count > 0),
            d.percent() == percent,
    {
        let header = build_insert_header(table, &columns);
        let d = TableDump {
            table: table.to_string(),
            columns,
            header,
            pending: Vec::new(),
            rows_known: row_count > 0,
            percent,
            flushed: Ghost(Seq::empty()),
        };
        assert(d.rows() =~= Seq::<Seq<char>>::empty());
        assert(batches(Seq::<Seq<char>>::empty()) =~= Seq::<Seq<Seq<char>>>::empty());
        assert(d.emitted() =~= Seq::<char>::empty());
        d
    }

    /// Adds one fetched row. Its tuple joins the pending rows; when these
    /// reach 1000, they come out as one statement (with a progress report
    /// where the table reported rows) and the pending rows start again.
    /// Where a value cannot be fetched, nothing changes and the error of the
    /// first such column is returned.
    pub fn add_row(&mut self, row: &Row) -> (r: Result<RowStep, BackupError>)
        requires
            old(self).wf(),
        ensures
            final(self).wf(),
            final(self).table_name() == old(self).table_name(),
            final(self).column_names() == old(self).column_names(),
            final(self).header() == old(self).header(),
            final(self).reports_progress() == old(self).reports_progress(),
            final(self).percent() == old(self).percent(),
            r is Ok <==> row_complete(*row, old(self).column_names()),
            r is Err ==> *final(self) == *old(self),
            r matches Ok(step) ==> {
                let tuple = row_tuple(row_literals(*row, old(self).column_names()));
                &&& final(self).rows() == old(self).rows().push(tuple)
                &&& (step.statement is Some <==> old(self).pending_rows().len() + 1 == BATCH_ROWS)
                &&& (step.statement matches Some(s) ==> s@ == insert_statement(
                    old(self).header(),
                    old(self).pending_rows().push(tuple),
                ))
                &&& final(self).emitted() == old(self).emitted() + (match step.statement {
                    Some(s) => s@,
                    None => Seq::<char>::empty(),
                })
                &&& (step.progress is Some <==> (step.statement is Some
                    && old(self).reports_progress()))
                &&& (step.progress matches Some(p) ==> (p.percent == old(self).percent()
                    && p.status@ == "正在备份表数据..."@ && (p.current_table matches Some(t)
                    && t@ == old(self).table_name())))
            },
            r matches Err(e) ==> e is ValueUnavailable,
    {
        let tuple = match row_values(row, &self.columns) {
            Ok(t) => t,
            Err(e) => {
                return Err(e);
            },
        };
        let ghost old_rows = self.rows();
        let ghost old_pending = views(self.pending@);
        self.pending.push(tuple);
        proof {
            assert(views(self.pending@) =~= old_pending.push(tuple@));
        }
        if self.pending.len() == BATCH_ROWS {
            let mut s = String::new();
            push_statement(&mut s, &self.header, &self.pending);
            proof {
                lemma_statements_extend(self.header@, self.flushed@, views(self.pending@));
                self.flushed@ = self.flushed@ + views(self.pending@);
            }
            self.pending = Vec::new();
            assert(self.rows() =~= old_rows.push(tuple@));
            let progress = if self.rows_known {
                Some(table_event("正在备份表数据...", self.table.as_str(), self.percent))
            } else {
                None
            };
            Ok(RowStep { statement: Some(s), progress })
        } else {
            assert(self.rows() =~= old_rows.push(tuple@));
            assert(self.emitted() =~= self.emitted() + Seq::<char>::empty());
            Ok(RowStep { statement: None, progress: None })
        }
    }

    /// The statement of the pending rows, if any, then the unlock statement.
    /// Everything this dump handed out, in order, is the batched statements of
    /// all its rows followed by the unlock statement.
    pub fn finish(self) -> (r: String)
        requires
            self.wf(),
        ensures
            r@ == (if self.pending_rows().len() == 0 {
                Seq::<char>::empty()
            } else {
                insert_statement(self.header(), self.pending_rows())
            }) + unlock_text(),
            self.emitted() + r@ == statements(self.header(), self.rows()) + unlock_text(),
    {
        let mut out = String::new();
        if self.pending.len() > 0 {
            push_statement(&mut out, &self.header, &self.pending);
            proof {
                lemma_statements_extend(self.header@, self.flushed@, views(self.pending@));
            }
        } else {
            assert(self.rows() =~= self.flushed@);
        }
        out.push_str("UNLOCK TABLES;\n");
        assert(self.emitted() + out@ =~= statements(self.header(), self.rows()) + unlock_text());
        out
    }
}

} // verus!
