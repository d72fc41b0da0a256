//! The scan/modify state machine: the adapter object the query engine
//! drives through its pull-based protocol. It holds per-statement state
//! (target table, row-identifier column, materialized result rows, read
//! cursor) and produces the query and statement texts for the remote
//! store. The caller owns the remote session: it executes the texts this
//! module produces and hands result rows back in as plain wire values.

use vstd::prelude::*;
use vstd::string::*;
use crate::cell::{
    Cell,
    CellV,
    FdwError,
    WireV,
    WireValue,
    cell_of_wire,
    lit_text,
    literal_to_query_text,
    to_host_cell,
    to_wire_value,
    wire_of_cell,
    wire_type_name,
};
use crate::deparse::{Qual, deparse, deparse_text};
use crate::text::{join_strings, join_texts};

verus! {

/// An ordered sequence of (column name, optional cell) pairs. Column
/// order is the order the scan requested; an absent cell is a host-side
/// null marker, distinct from any error.
#[derive(Debug)]
pub struct Row {
    cells: Vec<(String, Option<Cell>)>,
}

impl View for Row {
    type V = Seq<(Seq<char>, Option<CellV>)>;

    closed spec fn view(&self) -> Seq<(Seq<char>, Option<CellV>)> {
        self.cells.deep_view()
    }
}

impl Row {
    pub fn new() -> (r: Row)
        ensures
            r@ == Seq::<(Seq<char>, Option<CellV>)>::empty(),
    {
        let r = Row { cells: Vec::new() };
        proof {
            assert(r@ =~= Seq::<(Seq<char>, Option<CellV>)>::empty());
        }
        r
    }

    pub fn push(&mut self, name: String, cell: Option<Cell>)
        ensures
            final(self)@ == old(self)@.push((name@, cell.deep_view())),
    {
        self.cells.push((name, cell));
        proof {
            assert(self@ =~= old(self)@.push((name@, cell.deep_view())));
        }
    }

    pub fn len(&self) -> (n: usize)
        ensures
            n == self@.len(),
    {
        self.cells.len()
    }

    /// The column name at position `i`.
    pub fn col(&self, i: usize) -> (name: &String)
        requires
            i < self@.len(),
        ensures
            name@ == self@[i as int].0,
    {
        &self.cells[i].0
    }

    /// The cell at position `i`; `None` is the absent marker.
    pub fn cell(&self, i: usize) -> (c: &Option<Cell>)
        requires
            i < self@.len(),
        ensures
            c.deep_view() == self@[i as int].1,
    {
        &self.cells[i].1
    }
}

/// Mathematical model of the state machine.
pub ghost struct FdwView {
    /// Whether a live session was acquired when the adapter was built.
    pub connected: bool,
    /// The resolved remote table name of the current statement.
    pub table: Seq<char>,
    /// The resolved row-identifier column of the current statement.
    pub rowid_col: Seq<char>,
    /// The materialized result rows of the current scan, still in wire
    /// representation; decoding happens cursor step by cursor step.
    pub rows: Option<Seq<Seq<(Seq<char>, WireV)>>>,
    /// The read cursor: index of the next row to hand out.
    pub idx: int,
}

/// The adapter object itself. It persists for a foreign table
/// reference's whole lifetime and is driven through one scan or one
/// modify sequence at a time; the remote calls themselves happen
/// outside, between the calls to its methods.
#[derive(Debug)]
pub struct ClickHouseFdw {
    connected: bool,
    table: String,
    rowid_col: String,
    scan_rows: Option<Vec<Vec<(String, WireValue)>>>,
    row_idx: usize,
}

impl View for ClickHouseFdw {
    type V = FdwView;

    closed spec fn view(&self) -> FdwView {
        FdwView {
            connected: self.connected,
            table: self.table@,
            rowid_col: self.rowid_col@,
            rows: match self.scan_rows {
                Some(rows) => Some(rows.deep_view()),
                None => None,
            },
            idx: self.row_idx as int,
        }
    }
}

/// One wire row decoded into the host's type system, column by column
/// and in column order.
pub open spec fn host_row_of_wire(wr: Seq<(Seq<char>, WireV)>) -> Seq<(Seq<char>, Option<CellV>)> {
    wr.map_values(|p: (Seq<char>, WireV)| (p.0, cell_of_wire(p.1)))
}

/// Whether every cell of a wire row has a supported wire type.
pub open spec fn wire_row_supported(wr: Seq<(Seq<char>, WireV)>) -> bool {
    forall|i: int| 0 <= i < wr.len() ==> cell_of_wire(#[trigger] wr[i].1) is Some
}

/// The position of the first unsupported cell of a wire row.
pub open spec fn first_unsupported(wr: Seq<(Seq<char>, WireV)>) -> int
    decreases wr.len(),
{
    if wr.len() == 0 {
        0
    } else if cell_of_wire(wr[0].1) is None {
        0
    } else {
        1 + first_unsupported(wr.skip(1))
    }
}

proof fn lemma_first_unsupported(wr: Seq<(Seq<char>, WireV)>, i: int)
    requires
        0 <= i < wr.len(),
        cell_of_wire(wr[i].1) is None,
        forall|j: int| 0 <= j < i ==> cell_of_wire(#[trigger] wr[j].1) is Some,
    ensures
        first_unsupported(wr) == i,
    decreases i,
{
    if i > 0 {
        assert(cell_of_wire(wr[0].1) is Some);
        assert(wr.skip(1)[i - 1] == wr[i]);
        assert(forall|j: int| 0 <= j < i - 1 ==> wr.skip(1)[j] == wr[j + 1]);
        lemma_first_unsupported(wr.skip(1), i - 1);
    }
}

/// The per-element treatment of the insert path: a present cell is
/// written to the wire under its column name, an absent cell is simply
/// omitted from the batch.
pub open spec fn insert_fn() -> spec_fn((Seq<char>, Option<CellV>)) -> Option<
    (Seq<char>, WireV),
> {
    |p: (Seq<char>, Option<CellV>)|
        match p.1 {
            Some(c) => Some((p.0, wire_of_cell(c))),
            None => None,
        }
}

/// The single-row wire batch an insert submits: exactly the present
/// cells, in row order.
pub open spec fn insert_batch(row: Seq<(Seq<char>, Option<CellV>)>) -> Seq<(Seq<char>, WireV)> {
    row.filter_map(insert_fn())
}

/// One assignment of an update's `SET` list: an absent cell becomes an
/// explicit assignment to null, unlike the insert path's omission.
pub open spec fn set_text(p: (Seq<char>, Option<CellV>)) -> Seq<char> {
    p.0 + " = "@ + (match p.1 {
        Some(c) => lit_text(c),
        None => "NULL"@,
    })
}

/// The per-element treatment of the update path: the row-identifier
/// column is skipped, every other column gets an explicit assignment.
pub open spec fn set_fn(rowid_col: Seq<char>) -> spec_fn((Seq<char>, Option<CellV>)) -> Option<
    Seq<char>,
> {
    |p: (Seq<char>, Option<CellV>)|
        if p.0 == rowid_col {
            None
        } else {
            Some(set_text(p))
        }
}

/// The assignments of an update statement, in row order.
pub open spec fn set_clause_texts(row: Seq<(Seq<char>, Option<CellV>)>, rowid_col: Seq<char>) -> Seq<
    Seq<char>,
> {
    row.filter_map(set_fn(rowid_col))
}

/// The full text of an update statement.
pub open spec fn update_text(
    table: Seq<char>,
    rowid_col: Seq<char>,
    rowid: CellV,
    row: Seq<(Seq<char>, Option<CellV>)>,
) -> Seq<char> {
    "ALTER TABLE "@ + table + " UPDATE "@ + join_texts(set_clause_texts(row, rowid_col), ", "@)
        + " WHERE "@ + rowid_col + " = "@ + lit_text(rowid)
}

/// The full text of a delete statement.
pub open spec fn delete_text(table: Seq<char>, rowid_col: Seq<char>, rowid: CellV) -> Seq<char> {
    "ALTER TABLE "@ + table + " DELETE WHERE "@ + rowid_col + " = "@ + lit_text(rowid)
}

proof fn lemma_filter_map_mem<A, B>(s: Seq<A>, f: spec_fn(A) -> Option<B>, w: int, b: B)
    requires
        0 <= w < s.len(),
        f(s[w]) == Some(b),
    ensures
        s.filter_map(f).contains(b),
    decreases s.len(),
{
    if w == s.len() - 1 {
        let fm = s.filter_map(f);
        assert(fm == s.drop_last().filter_map(f) + seq![b]);
        assert(fm[fm.len() - 1] == b);
        assert(fm.contains(b));
    } else {
        assert(s.drop_last()[w] == s[w]);
        lemma_filter_map_mem(s.drop_last(), f, w, b);
        let sub = s.drop_last().filter_map(f);
        let j = choose|j: int| 0 <= j < sub.len() && sub[j] == b;
        match f(s.last()) {
            Some(y) => {
                assert(s.filter_map(f) == sub + seq![y]);
                assert(s.filter_map(f)[j] == b);
            },
            None => {
                assert(s.filter_map(f) == sub);
            },
        }
        assert(s.filter_map(f).contains(b));
    }
}

/// The deliberate asymmetry of the write paths, for a row whose cell at
/// position `i` is absent and whose column names are unique: the insert
/// batch carries no entry at all under that column's name, while the
/// update's `SET` list carries an explicit assignment of that column to
/// null (unless it is the row-identifier column, which updates skip).
pub proof fn lemma_insert_update_absent_asymmetry(
    row: Seq<(Seq<char>, Option<CellV>)>,
    rowid_col: Seq<char>,
    i: int,
)
    requires
        0 <= i < row.len(),
        row[i].1 is None,
        forall|j: int| 0 <= j < row.len() && j != i ==> (#[trigger] row[j]).0 != row[i].0,
    ensures
        forall|k: int|
            0 <= k < insert_batch(row).len() ==> (#[trigger] insert_batch(row)[k]).0 != row[i].0,
        row[i].0 != rowid_col ==> set_clause_texts(row, rowid_col).contains(
            row[i].0 + " = "@ + "NULL"@,
        ),
{
    assert forall|k: int|
        0 <= k < insert_batch(row).len() implies (#[trigger] insert_batch(row)[k]).0
        != row[i].0 by {
        let elem = insert_batch(row)[k];
        assert(insert_batch(row).contains(elem));
        row.lemma_filter_map_contains(insert_fn(), elem);
        let t = choose|t: (Seq<char>, Option<CellV>)|
            #[trigger] row.contains(t) && insert_fn()(t) == Some(elem);
        let w = choose|w: int| 0 <= w < row.len() && row[w] == t;
        assert(t.1 is Some);
        assert(elem.0 == t.0);
        if elem.0 == row[i].0 {
            assert(w == i);
            assert(false);
        }
    }
    if row[i].0 != rowid_col {
        assert(set_fn(rowid_col)(row[i]) == Some(set_text(row[i])));
        assert(set_text(row[i]) == row[i].0 + " = "@ + "NULL"@);
        lemma_filter_map_mem(row, set_fn(rowid_col), i, set_text(row[i]));
    }
}

impl ClickHouseFdw {
    /// Builds a fresh adapter. The caller acquires (or fails to
    /// acquire) the remote session and reports `connected`
    /// accordingly; a connection failure is reported once there and
    /// every later operation then degrades as the contracts state.
    pub fn new(connected: bool) -> (f: ClickHouseFdw)
        ensures
            f@ == (FdwView {
                connected,
                table: Seq::<char>::empty(),
                rowid_col: Seq::<char>::empty(),
                rows: None,
                idx: 0,
            }),
    {
        let f = ClickHouseFdw {
            connected,
            table: String::new(),
            rowid_col: String::new(),
            scan_rows: None,
            row_idx: 0,
        };
        f
    }

    /// Whether a live session backs this adapter.
    pub fn is_connected(&self) -> (b: bool)
        ensures
            b == self@.connected,
    {
        self.connected
    }

    /// The remote table of the current statement, for the caller's
    /// batch submission.
    pub fn table_name(&self) -> (t: &String)
        ensures
            t@ == self@.table,
    {
        &self.table
    }

    /// Starts sizing a scan: resolves the table binding from the
    /// statement's configuration and returns the query to execute,
    /// or nothing when no session is available (the caller then
    /// reports a zero estimate).
    pub fn plan_scan(
        &mut self,
        quals: &Vec<Qual>,
        columns: &Vec<String>,
        table: &String,
        rowid_column: &String,
    ) -> (q: Option<String>)
        ensures
            !old(self)@.connected ==> q is None && final(self)@ == old(self)@,
            old(self)@.connected ==> (q matches Some(sql) && sql@ == deparse_text(
                quals.deep_view(),
                columns.deep_view(),
                table@,
            )),
            old(self)@.connected ==> final(self)@ == (FdwView {
                table: table@,
                rowid_col: rowid_column@,
                ..old(self)@
            }),
    {
        if self.connected {
            self.table = table.clone();
            self.rowid_col = rowid_column.clone();
            Some(deparse(quals, columns, table.as_str()))
        } else {
            None
        }
    }

    /// Materializes the rows the sizing query returned and reports the
    /// row count with a column-count-proportional width estimate.
    pub fn load_scan_result(
        &mut self,
        rows: Vec<Vec<(String, WireValue)>>,
        col_count: usize,
    ) -> (r: (i64, i32))
        requires
            rows@.len() <= i64::MAX,
            col_count * 8 <= i32::MAX,
        ensures
            final(self)@ == (FdwView { rows: Some(rows.deep_view()), ..old(self)@ }),
            r.0 == rows.deep_view().len(),
            r.1 == col_count * 8,
    {
        let n = rows.len();
        self.scan_rows = Some(rows);
        proof {
            assert(rows.deep_view().len() == rows@.len());
        }
        (n as i64, (col_count * 8) as i32)
    }

    /// Starts iterating: resets the read cursor to the first
    /// materialized row. Idempotent on a freshly sized scan.
    pub fn begin_scan(&mut self)
        ensures
            final(self)@ == (FdwView { idx: 0, ..old(self)@ }),
    {
        self.row_idx = 0;
    }

    /// Hands out the next row, decoded cell by cell, and advances the
    /// cursor. End of data is signalled by `Ok(None)`, not an error,
    /// and holds again on every further call. A cell with an
    /// unsupported wire type yields the one error naming that type and
    /// ends the scan: no partial row comes back, every prior row stays
    /// delivered, and further calls signal end of data.
    pub fn iter_scan(&mut self) -> (r: Result<Option<Row>, FdwError>)
        ensures
            old(self)@.rows is None ==> r is Ok && r->Ok_0 is None && final(self)@ == old(self)@,
            old(self)@.rows matches Some(rs) ==> {
                let i = old(self)@.idx;
                &&& i >= rs.len() ==> r is Ok && r->Ok_0 is None && final(self)@ == old(self)@
                &&& i < rs.len() && wire_row_supported(rs[i]) ==> {
                    &&& r is Ok
                    &&& (r->Ok_0 matches Some(row) && row@ == host_row_of_wire(rs[i]))
                    &&& final(self)@ == (FdwView { idx: i + 1, ..old(self)@ })
                }
                &&& i < rs.len() && !wire_row_supported(rs[i]) ==> r is Err
                    && r->Err_0.spec_type_name() == wire_type_name(
                    rs[i][first_unsupported(rs[i])].1,
                ) && final(self)@ == (FdwView { idx: rs.len() as int, ..old(self)@ })
            },
    {
        let mut new_idx = self.row_idx;
        let mut res: Result<Option<Row>, FdwError> = Ok(None);
        match &self.scan_rows {
            None => {},
            Some(rows) => {
                if self.row_idx < rows.len() {
                    let ghost wrv = rows.deep_view()[self.row_idx as int];
                    let wr = &rows[self.row_idx];
                    proof {
                        assert(wr.deep_view() == wrv);
                    }
                    let mut ret = Row::new();
                    let mut ok = true;
                    let mut bad: Option<FdwError> = None;
                    let mut i: usize = 0;
                    while ok && i < wr.len()
                        invariant
                            wr.deep_view() == wrv,
                            wrv.len() == wr.len(),
                            i <= wr.len(),
                            ok ==> ret@ == host_row_of_wire(wrv.take(i as int)),
                            ok ==> forall|j: int|
                                0 <= j < i ==> cell_of_wire(#[trigger] wrv[j].1) is Some,
                            ok ==> bad is None,
                            !ok ==> {
                                &&& i < wr.len()
                                &&& cell_of_wire(wrv[i as int].1) is None
                                &&& forall|j: int|
                                    0 <= j < i ==> cell_of_wire(#[trigger] wrv[j].1) is Some
                                &&& bad matches Some(e) && e.spec_type_name() == wire_type_name(
                                    wrv[i as int].1,
                                )
                            },
                        decreases wr.len() - i, (if ok {
                            1int
                        } else {
                            0int
                        }),
                    {
                        proof {
                            assert(wrv[i as int] == wr@[i as int].deep_view());
                        }
                        match to_host_cell(&wr[i].1) {
                            Ok(c) => {
                                let name = wr[i].0.clone();
                                proof {
                                    assert(wrv.take(i as int).push(wrv[i as int]) =~= wrv.take(
                                        i as int + 1,
                                    ));
                                    assert(host_row_of_wire(wrv.take(i as int + 1))
                                        =~= host_row_of_wire(wrv.take(i as int)).push(
                                        (wrv[i as int].0, cell_of_wire(wrv[i as int].1)),
                                    ));
                                }
                                ret.push(name, Some(c));
                                i = i + 1;
                            },
                            Err(e) => {
                                bad = Some(e);
                                ok = false;
                            },
                        }
                    }
                    if ok {
                        proof {
                            assert(wrv.take(wr.len() as int) =~= wrv);
                        }
                        new_idx = self.row_idx + 1;
                        res = Ok(Some(ret));
                    } else {
                        proof {
                            lemma_first_unsupported(wrv, i as int);
                        }
                        new_idx = rows.len();
                        res = match bad {
                            Some(e) => Err(e),
                            None => Err(FdwError::UnsupportedType(String::new())),
                        };
                    }
                }
            },
        }
        self.row_idx = new_idx;
        res
    }

    /// Ends the scan: discards the materialized result set. The cursor
    /// keeps no meaning until the next scan is sized.
    pub fn end_scan(&mut self)
        ensures
            final(self)@ == (FdwView { rows: None, ..old(self)@ }),
    {
        self.scan_rows = None;
    }

    /// Starts a modify statement: resolves the table binding from the
    /// statement's configuration. No remote statement is executed yet.
    pub fn begin_modify(&mut self, table: &String, rowid_column: &String)
        ensures
            final(self)@ == (FdwView {
                table: table@,
                rowid_col: rowid_column@,
                ..old(self)@
            }),
    {
        self.table = table.clone();
        self.rowid_col = rowid_column.clone();
    }

    /// Builds the single-row wire batch for inserting `src`: every
    /// present cell converted to its wire value, absent cells omitted
    /// (the remote store's default applies, not an explicit null).
    /// Returns nothing when no session is available; the caller
    /// submits the batch as one insert statement against
    /// [`Self::table_name`].
    pub fn insert(&self, src: &Row) -> (batch: Option<Vec<(String, WireValue)>>)
        ensures
            self@.connected <==> batch is Some,
            batch matches Some(b) ==> b.deep_view() == insert_batch(src@),
    {
        if !self.connected {
            return None;
        }
        let mut out: Vec<(String, WireValue)> = Vec::new();
        let mut i: usize = 0;
        proof {
            assert(src@.take(0) =~= Seq::<(Seq<char>, Option<CellV>)>::empty());
            assert(out.deep_view() =~= insert_batch(src@.take(0)));
        }
        while i < src.cells.len()
            invariant
                src@.len() == src.cells.len(),
                i <= src.cells.len(),
                out.deep_view() == insert_batch(src@.take(i as int)),
            decreases src.cells.len() - i,
        {
            proof {
                assert(src@[i as int] == src.cells@[i as int].deep_view());
                src@.lemma_filter_map_take_succ(insert_fn(), i as int);
            }
            match &src.cells[i].1 {
                Some(cell) => {
                    let name = src.cells[i].0.clone();
                    let w = to_wire_value(cell);
                    out.push((name, w));
                    proof {
                        assert(out.deep_view() =~= insert_batch(src@.take(i as int + 1)));
                    }
                },
                None => {
                    proof {
                        assert(out.deep_view() =~= insert_batch(src@.take(i as int + 1)));
                    }
                },
            }
            i = i + 1;
        }
        proof {
            assert(src@.take(src.cells.len() as int) =~= src@);
        }
        Some(out)
    }

    /// Builds the update statement for the row identified by `rowid`:
    /// one explicit assignment per column of `new_row` except the
    /// row-identifier column itself — set-to-null for an absent cell,
    /// set-to-value otherwise. Returns nothing when no session is
    /// available.
    pub fn update(&self, rowid: &Cell, new_row: &Row) -> (s: Option<String>)
        ensures
            self@.connected <==> s is Some,
            s matches Some(sql) ==> sql@ == update_text(
                self@.table,
                self@.rowid_col,
                rowid@,
                new_row@,
            ),
    {
        if !self.connected {
            return None;
        }
        let mut sets: Vec<String> = Vec::new();
        let mut i: usize = 0;
        proof {
            assert(new_row@.take(0) =~= Seq::<(Seq<char>, Option<CellV>)>::empty());
            assert(sets.deep_view() =~= set_clause_texts(new_row@.take(0), self@.rowid_col));
        }
        while i < new_row.cells.len()
            invariant
                new_row@.len() == new_row.cells.len(),
                i <= new_row.cells.len(),
                sets.deep_view() == set_clause_texts(new_row@.take(i as int), self@.rowid_col),
            decreases new_row.cells.len() - i,
        {
            proof {
                assert(new_row@[i as int] == new_row.cells@[i as int].deep_view());
                new_row@.lemma_filter_map_take_succ(set_fn(self@.rowid_col), i as int);
            }
            if !(new_row.cells[i].0 == self.rowid_col) {
                let mut one = String::new();
                one.append(new_row.cells[i].0.as_str());
                one.append(" = ");
                match &new_row.cells[i].1 {
                    Some(c) => one.append(literal_to_query_text(c).as_str()),
                    None => one.append("NULL"),
                }
                sets.push(one);
                proof {
                    assert(sets.deep_view() =~= set_clause_texts(
                        new_row@.take(i as int + 1),
                        self@.rowid_col,
                    ));
                }
            } else {
                proof {
                    assert(sets.deep_view() =~= set_clause_texts(
                        new_row@.take(i as int + 1),
                        self@.rowid_col,
                    ));
                }
            }
            i = i + 1;
        }
        proof {
            assert(new_row@.take(new_row.cells.len() as int) =~= new_row@);
        }
        let mut sql = String::new();
        sql.append("ALTER TABLE ");
        sql.append(self.table.as_str());
        sql.append(" UPDATE ");
        sql.append(join_strings(&sets, ", ").as_str());
        sql.append(" WHERE ");
        sql.append(self.rowid_col.as_str());
        sql.append(" = ");
        sql.append(literal_to_query_text(rowid).as_str());
        Some(sql)
    }

    /// Builds the delete statement for the row identified by `rowid`.
    /// Returns nothing when no session is available.
    pub fn delete(&self, rowid: &Cell) -> (s: Option<String>)
        ensures
            self@.connected <==> s is Some,
            s matches Some(sql) ==> sql@ == delete_text(self@.table, self@.rowid_col, rowid@),
    {
        if !self.connected {
            return None;
        }
        let mut sql = String::new();
        sql.append("ALTER TABLE ");
        sql.append(self.table.as_str());
        sql.append(" DELETE WHERE ");
        sql.append(self.rowid_col.as_str());
        sql.append(" = ");
        sql.append(literal_to_query_text(rowid).as_str());
        Some(sql)
    }

    /// Ends a modify statement: no remote action, the statement-scoped
    /// table binding is cleared.
    pub fn end_modify(&mut self)
        ensures
            final(self)@ == (FdwView {
                table: Seq::<char>::empty(),
                rowid_col: Seq::<char>::empty(),
                ..old(self)@
            }),
    {
        self.table = String::new();
        self.rowid_col = String::new();
    }
}

} // verus!
