//! Rows read from Bigtable, and their reassembly from the chunks of a read response.
//!
//! Bigtable responds in chunks, where a row can be split across chunks (but every chunk
//! contains at most one row), and a cell's value can be split across chunks too.
use vstd::prelude::*;

verus! {

/// A cell: a timestamped value, with labels applied by filters.
#[derive(Debug, Clone, PartialEq, Eq, Default)]
pub struct Cell {
    /// The cell's timestamp, in microseconds since the epoch.
    pub timestamp_micros: i64,
    /// The value stored in the cell.
    pub value: Vec<u8>,
    /// Labels applied to the cell by a filter.
    pub labels: Vec<String>,
}

/// A column: its qualifier and its cells, most recent first.
#[derive(Debug, Clone, PartialEq, Eq, Default)]
pub struct Column {
    /// The column qualifier.
    pub qualifier: Vec<u8>,
    /// The cells of the column, in decreasing order of timestamp.
    pub cells: Vec<Cell>,
}

/// A column family: its name and its columns.
#[derive(Debug, Clone, PartialEq, Eq, Default)]
pub struct Family {
    /// The family name.
    pub name: String,
    /// The columns of the family.
    pub columns: Vec<Column>,
}

/// A row: its key and its column families.
#[derive(Debug, Clone, PartialEq, Eq, Default)]
pub struct Row {
    /// The row key.
    pub key: Vec<u8>,
    /// The families of the row.
    pub families: Vec<Family>,
}

/// A cell as values: timestamp, value and labels.
pub type CellView = (i64, Seq<u8>, Seq<String>);

/// A column as values: qualifier and cells.
pub type ColumnView = (Seq<u8>, Seq<CellView>);

/// A family as values: name and columns.
pub type FamilyView = (Seq<char>, Seq<ColumnView>);

/// A row as values: key and families.
pub type RowView = (Seq<u8>, Seq<FamilyView>);

impl View for Cell {
    type V = CellView;

    open spec fn view(&self) -> CellView {
        (self.timestamp_micros, self.value@, self.labels@)
    }
}

impl View for Column {
    type V = ColumnView;

    open spec fn view(&self) -> ColumnView {
        (self.qualifier@, self.cells@.map_values(|c: Cell| c@))
    }
}

impl View for Family {
    type V = FamilyView;

    open spec fn view(&self) -> FamilyView {
        (self.name@, self.columns@.map_values(|c: Column| c@))
    }
}

impl View for Row {
    type V = RowView;

    open spec fn view(&self) -> RowView {
        (self.key@, self.families@.map_values(|f: Family| f@))
    }
}

/// The status that ends a row in a chunk.
#[derive(Debug, Clone, Copy, PartialEq, Eq, Structural)]
pub enum RowStatus {
    /// The chunks of the row so far should be discarded.
    ResetRow(bool),
    /// The row is complete.
    CommitRow(bool),
}

/// A piece of a row in a read response.
#[derive(Debug, Clone, PartialEq, Eq, Default)]
pub struct CellChunk {
    /// The row key; empty when the chunk continues the current row.
    pub row_key: Vec<u8>,
    /// The family of the cell, when it changes.
    pub family_name: Option<String>,
    /// The column qualifier of the cell, when it changes.
    pub qualifier: Option<Vec<u8>>,
    /// The timestamp of the cell.
    pub timestamp_micros: i64,
    /// Labels applied to the cell by filters.
    pub labels: Vec<String>,
    /// The value, or a piece of it.
    pub value: Vec<u8>,
    /// The full size of a value split across chunks.
    pub value_size: i32,
    /// Set on the last chunk of a row.
    pub row_status: Option<RowStatus>,
}

/// The row as assembled so far, with the bytes of the current cell not yet stored in it.
pub type ReadView = (RowView, Seq<u8>);

/// Whether the row has a column to which cells are added.
pub open spec fn has_last_column(r: RowView) -> bool {
    r.1.len() > 0 && r.1.last().1.len() > 0
}

/// Whether the row has a cell to which bytes are added.
pub open spec fn has_last_cell(r: RowView) -> bool {
    has_last_column(r) && r.1.last().1.last().1.len() > 0
}

/// The timestamp of the current cell.
pub open spec fn last_cell_ts(r: RowView) -> Option<i64> {
    if has_last_cell(r) {
        Some(r.1.last().1.last().1.last().0)
    } else {
        None
    }
}

/// The row with the value of its last cell replaced.
pub open spec fn with_last_cell_value(r: RowView, v: Seq<u8>) -> RowView {
    let fam = r.1.last();
    let col = fam.1.last();
    let cell = col.1.last();
    (
        r.0,
        r.1.drop_last().push(
            (fam.0, fam.1.drop_last().push((col.0, col.1.drop_last().push((cell.0, v, cell.2))))),
        ),
    )
}

/// Store the pending bytes as the value of the current cell (dropping them when there is no
/// cell).
pub open spec fn flush_spec(s: ReadView) -> ReadView {
    if s.1.len() == 0 {
        s
    } else if has_last_cell(s.0) {
        (with_last_cell_value(s.0, s.1), Seq::empty())
    } else {
        (s.0, Seq::empty())
    }
}

/// Start a family, unless the current family already has that name.
pub open spec fn new_family_spec(s: ReadView, name: Seq<char>) -> ReadView {
    let f = flush_spec(s);
    if f.0.1.len() > 0 && f.0.1.last().0 == name {
        f
    } else {
        ((f.0.0, f.0.1.push((name, Seq::empty()))), f.1)
    }
}

/// Start a column in the current family, unless the current column already has that
/// qualifier; without a family nothing is added.
pub open spec fn new_column_spec(s: ReadView, q: Seq<u8>) -> ReadView {
    let f = flush_spec(s);
    if f.0.1.len() == 0 {
        f
    } else if f.0.1.last().1.len() > 0 && f.0.1.last().1.last().0 == q {
        f
    } else {
        let fam = f.0.1.last();
        ((f.0.0, f.0.1.drop_last().push((fam.0, fam.1.push((q, Seq::empty()))))), f.1)
    }
}

/// Start a cell in the current column; without a column nothing is added.
pub open spec fn new_cell_spec(s: ReadView, ts: i64) -> ReadView {
    let f = flush_spec(s);
    if has_last_column(f.0) {
        let fam = f.0.1.last();
        let col = fam.1.last();
        (
            (
                f.0.0,
                f.0.1.drop_last().push(
                    (
                        fam.0,
                        fam.1.drop_last().push(
                            (col.0, col.1.push((ts, Seq::<u8>::empty(), Seq::<String>::empty()))),
                        ),
                    ),
                ),
            ),
            Seq::empty(),
        )
    } else {
        f
    }
}

/// The empty state: an empty row and no pending bytes.
pub open spec fn empty_read() -> ReadView {
    ((Seq::empty(), Seq::empty()), Seq::empty())
}

/// The state after a chunk's key, family, column and cell and its bytes, before its status.
pub open spec fn absorb_chunk_spec(
    s: ReadView,
    row_key: Seq<u8>,
    family_name: Option<Seq<char>>,
    qualifier: Option<Seq<u8>>,
    ts: i64,
    value: Seq<u8>,
) -> ReadView {
    let s1 = if row_key.len() > 0 {
        ((row_key, s.0.1), s.1)
    } else {
        s
    };
    let s2 = match family_name {
        Some(n) => new_family_spec(s1, n),
        None => s1,
    };
    let s3 = match qualifier {
        Some(q) => new_column_spec(s2, q),
        None => s2,
    };
    let s4 = if last_cell_ts(s3.0) != Some(ts) {
        new_cell_spec(s3, ts)
    } else {
        s3
    };
    (s4.0, s4.1 + value)
}

/// Processing a chunk: absorb it, then, when it ends the row, hand out the completed row
/// (on commit) or drop it (on reset) and start over from the empty state.
pub open spec fn process_chunk_spec(
    s: ReadView,
    row_key: Seq<u8>,
    family_name: Option<Seq<char>>,
    qualifier: Option<Seq<u8>>,
    ts: i64,
    value: Seq<u8>,
    status: Option<RowStatus>,
) -> (ReadView, Option<RowView>) {
    let a = absorb_chunk_spec(s, row_key, family_name, qualifier, ts, value);
    match status {
        None => (a, None),
        Some(RowStatus::CommitRow(_)) => (empty_read(), Some(flush_spec(a).0)),
        Some(RowStatus::ResetRow(_)) => (empty_read(), None),
    }
}

/// A cell split across two chunks is reassembled: starting from the empty state, a chunk that
/// opens a family, column and cell with the first part of a value, followed by a chunk that
/// carries the rest of the value of the same cell and commits the row, yields a row with that
/// one cell holding the concatenated value.
pub proof fn lemma_split_cell_reassembled(
    key: Seq<u8>,
    family: Seq<char>,
    qualifier: Seq<u8>,
    ts: i64,
    first: Seq<u8>,
    rest: Seq<u8>,
    commit: bool,
)
    requires
        key.len() > 0,
    ensures
        ({
            let (s1, out1) = process_chunk_spec(
                empty_read(),
                key,
                Some(family),
                Some(qualifier),
                ts,
                first,
                None,
            );
            let (s2, out2) = process_chunk_spec(
                s1,
                Seq::empty(),
                None,
                None,
                ts,
                rest,
                Some(RowStatus::CommitRow(commit)),
            );
            &&& out1 is None
            &&& s2 == empty_read()
            &&& out2 == Some(
                (
                    key,
                    seq![
                        (family, seq![(qualifier, seq![(ts, first + rest, Seq::<String>::empty())])]),
                    ],
                ),
            )
        }),
{
    let e = empty_read();
    let s1 = absorb_chunk_spec(e, key, Some(family), Some(qualifier), ts, first);
    let a = absorb_chunk_spec(s1, Seq::empty(), None, None, ts, rest);
    let expected: RowView = (
        key,
        seq![(family, seq![(qualifier, seq![(ts, first + rest, Seq::<String>::empty())])])],
    );
    assert(flush_spec(a).0 =~~= expected);
}

/// A row reset discards everything read of it: whatever the state, a chunk with a reset
/// status hands out no row and leaves the empty state.
pub proof fn lemma_reset_discards(
    s: ReadView,
    row_key: Seq<u8>,
    family_name: Option<Seq<char>>,
    qualifier: Option<Seq<u8>>,
    ts: i64,
    value: Seq<u8>,
    b: bool,
)
    ensures
        process_chunk_spec(s, row_key, family_name, qualifier, ts, value, Some(RowStatus::ResetRow(b)))
            == (empty_read(), Option::<RowView>::None),
{
}

/// The names of a row's families, in order.
pub open spec fn family_names(r: RowView) -> Seq<Seq<char>> {
    r.1.map_values(|f: FamilyView| f.0)
}

/// Whether no two consecutive families of a row share a name.
pub open spec fn no_repeated_family(r: RowView) -> bool {
    forall|i: int, j: int|
        0 <= i && j == i + 1 && j < r.1.len() ==> (#[trigger] r.1[i]).0 != (#[trigger] r.1[j]).0
}

proof fn lemma_flush_keeps_families(s: ReadView)
    ensures
        flush_spec(s).0.0 == s.0.0,
        family_names(flush_spec(s).0) == family_names(s.0),
{
    let f = flush_spec(s);
    assert(family_names(f.0) =~= family_names(s.0));
}

proof fn lemma_column_keeps_families(s: ReadView, q: Seq<u8>)
    ensures
        new_column_spec(s, q).0.0 == s.0.0,
        family_names(new_column_spec(s, q).0) == family_names(s.0),
{
    lemma_flush_keeps_families(s);
    let r = new_column_spec(s, q);
    assert(family_names(r.0) =~= family_names(flush_spec(s).0));
}

proof fn lemma_cell_keeps_families(s: ReadView, ts: i64)
    ensures
        new_cell_spec(s, ts).0.0 == s.0.0,
        family_names(new_cell_spec(s, ts).0) == family_names(s.0),
{
    lemma_flush_keeps_families(s);
    let r = new_cell_spec(s, ts);
    assert(family_names(r.0) =~= family_names(flush_spec(s).0));
}

proof fn lemma_names_no_repeat(a: RowView, b: RowView)
    requires
        family_names(a) == family_names(b),
        no_repeated_family(a),
    ensures
        no_repeated_family(b),
{
    assert forall|i: int, j: int| 0 <= i && j == i + 1 && j < b.1.len() implies (#[trigger] b.1[i]).0
        != (#[trigger] b.1[j]).0 by {
        assert(family_names(a).len() == a.1.len());
        assert(family_names(b).len() == b.1.len());
        assert(family_names(b)[i] == b.1[i].0);
        assert(family_names(b)[j] == b.1[j].0);
        assert(family_names(a)[i] == a.1[i].0);
        assert(family_names(a)[j] == a.1[j].0);
        assert(a.1[i].0 != a.1[j].0);
    }
}

/// The qualifiers of a family's columns, in order.
pub open spec fn column_qualifiers(f: FamilyView) -> Seq<Seq<u8>> {
    f.1.map_values(|c: ColumnView| c.0)
}

/// The qualifiers of the last family of a row (none without a family).
pub open spec fn last_family_qualifiers(r: RowView) -> Seq<Seq<u8>> {
    if r.1.len() > 0 {
        column_qualifiers(r.1.last())
    } else {
        Seq::empty()
    }
}

proof fn lemma_steps_keep_columns(s: ReadView, q: Seq<u8>, ts: i64)
    ensures
        last_family_qualifiers(flush_spec(s).0) == last_family_qualifiers(s.0),
        last_family_qualifiers(s.0).is_prefix_of(last_family_qualifiers(new_column_spec(s, q).0)),
        last_family_qualifiers(new_cell_spec(s, ts).0) == last_family_qualifiers(s.0),
{
    let f = flush_spec(s);
    assert(last_family_qualifiers(f.0) =~= last_family_qualifiers(s.0));
    let c = new_column_spec(s, q);
    if f.0.1.len() > 0 && !(f.0.1.last().1.len() > 0 && f.0.1.last().1.last().0 == q) {
        assert(last_family_qualifiers(c.0) =~= last_family_qualifiers(f.0).push(q));
    }
    let e = new_cell_spec(s, ts);
    assert(last_family_qualifiers(e.0) =~= last_family_qualifiers(f.0));
}

/// A chunk that names the row's current (last) family adds no family: the families keep
/// their number and their names, and the chunk's column (when it names one) is the last
/// column of that same family.
pub proof fn lemma_same_family_not_added(
    s: ReadView,
    row_key: Seq<u8>,
    name: Seq<char>,
    qualifier: Option<Seq<u8>>,
    ts: i64,
    value: Seq<u8>,
)
    requires
        s.0.1.len() > 0,
        s.0.1.last().0 == name,
    ensures
        ({
            let a = absorb_chunk_spec(s, row_key, Some(name), qualifier, ts, value);
            &&& a.0.1.len() == s.0.1.len()
            &&& family_names(a.0) == family_names(s.0)
            &&& qualifier matches Some(q) ==> a.0.1.last().1.len() > 0 && a.0.1.last().1.last().0 == q
            &&& last_family_qualifiers(s.0).is_prefix_of(last_family_qualifiers(a.0))
        }),
{
    let s1 = if row_key.len() > 0 {
        ((row_key, s.0.1), s.1)
    } else {
        s
    };
    assert(family_names(s1.0) =~= family_names(s.0));
    lemma_flush_keeps_families(s1);
    let f = flush_spec(s1);
    assert(f.0.1.len() == family_names(f.0).len());
    assert(f.0.1.last().0 == family_names(f.0).last());
    let s2 = new_family_spec(s1, name);
    assert(s2 == f);
    let s3 = match qualifier {
        Some(q) => new_column_spec(s2, q),
        None => s2,
    };
    match qualifier {
        Some(q) => {
            lemma_column_keeps_families(s2, q);
        },
        None => {},
    }
    let s4 = if last_cell_ts(s3.0) != Some(ts) {
        new_cell_spec(s3, ts)
    } else {
        s3
    };
    lemma_cell_keeps_families(s3, ts);
    assert(family_names(s4.0).len() == s4.0.1.len());
    assert(family_names(s.0).len() == s.0.1.len());
    assert(last_family_qualifiers(s1.0) == last_family_qualifiers(s.0));
    lemma_steps_keep_columns(s1, Seq::empty(), ts);
    match qualifier {
        Some(q) => {
            lemma_steps_keep_columns(s2, q, ts);
        },
        None => {},
    }
    lemma_steps_keep_columns(s3, Seq::empty(), ts);
}

/// A chunk that names a family other than the row's current (last) one, or the first family
/// of a row, starts a new family with that name after the existing ones.
pub proof fn lemma_other_family_added(
    s: ReadView,
    row_key: Seq<u8>,
    name: Seq<char>,
    qualifier: Option<Seq<u8>>,
    ts: i64,
    value: Seq<u8>,
)
    requires
        s.0.1.len() == 0 || s.0.1.last().0 != name,
    ensures
        ({
            let a = absorb_chunk_spec(s, row_key, Some(name), qualifier, ts, value);
            &&& a.0.1.len() == s.0.1.len() + 1
            &&& family_names(a.0) == family_names(s.0).push(name)
        }),
{
    let s1 = if row_key.len() > 0 {
        ((row_key, s.0.1), s.1)
    } else {
        s
    };
    assert(family_names(s1.0) =~= family_names(s.0));
    lemma_flush_keeps_families(s1);
    let f = flush_spec(s1);
    assert(f.0.1.len() == family_names(f.0).len());
    if f.0.1.len() > 0 {
        assert(f.0.1.last().0 == family_names(f.0).last());
        assert(s.0.1.last().0 == family_names(s.0).last());
    }
    let s2 = new_family_spec(s1, name);
    assert(family_names(s2.0) =~= family_names(f.0).push(name));
    let s3 = match qualifier {
        Some(q) => new_column_spec(s2, q),
        None => s2,
    };
    match qualifier {
        Some(q) => {
            lemma_column_keeps_families(s2, q);
        },
        None => {},
    }
    let s4 = if last_cell_ts(s3.0) != Some(ts) {
        new_cell_spec(s3, ts)
    } else {
        s3
    };
    lemma_cell_keeps_families(s3, ts);
    assert(family_names(s4.0).len() == s4.0.1.len());
    assert(family_names(s.0).len() == s.0.1.len());
}

/// Reassembled rows never repeat a family: from a state where no two consecutive families
/// share a name (as the empty state), processing any chunk keeps it so, and a row it
/// completes has no two consecutive families with the same name either.
pub proof fn lemma_no_repeated_family(
    s: ReadView,
    row_key: Seq<u8>,
    family_name: Option<Seq<char>>,
    qualifier: Option<Seq<u8>>,
    ts: i64,
    value: Seq<u8>,
    status: Option<RowStatus>,
)
    requires
        no_repeated_family(s.0),
    ensures
        ({
            let (next, out) = process_chunk_spec(s, row_key, family_name, qualifier, ts, value, status);
            &&& no_repeated_family(next.0)
            &&& out matches Some(row) ==> no_repeated_family(row)
        }),
{
    let s1 = if row_key.len() > 0 {
        ((row_key, s.0.1), s.1)
    } else {
        s
    };
    assert(family_names(s1.0) =~= family_names(s.0));
    lemma_names_no_repeat(s.0, s1.0);
    let s2 = match family_name {
        Some(n) => new_family_spec(s1, n),
        None => s1,
    };
    match family_name {
        Some(n) => {
            lemma_flush_keeps_families(s1);
            let f = flush_spec(s1);
            lemma_names_no_repeat(s1.0, f.0);
            if !(f.0.1.len() > 0 && f.0.1.last().0 == n) {
                assert forall|i: int, j: int| 0 <= i && j == i + 1 && j < s2.0.1.len() implies (
                #[trigger] s2.0.1[i]).0 != (#[trigger] s2.0.1[j]).0 by {
                    if j < f.0.1.len() {
                        assert(s2.0.1[i] == f.0.1[i]);
                        assert(s2.0.1[j] == f.0.1[j]);
                    } else {
                        assert(s2.0.1[i] == f.0.1.last());
                    }
                }
            }
        },
        None => {},
    }
    let s3 = match qualifier {
        Some(q) => new_column_spec(s2, q),
        None => s2,
    };
    match qualifier {
        Some(q) => {
            lemma_column_keeps_families(s2, q);
            lemma_names_no_repeat(s2.0, s3.0);
        },
        None => {},
    }
    let s4 = if last_cell_ts(s3.0) != Some(ts) {
        new_cell_spec(s3, ts)
    } else {
        s3
    };
    lemma_cell_keeps_families(s3, ts);
    lemma_names_no_repeat(s3.0, s4.0);
    let a = (s4.0, s4.1 + value);
    assert(a == absorb_chunk_spec(s, row_key, family_name, qualifier, ts, value));
    lemma_flush_keeps_families(a);
    lemma_names_no_repeat(a.0, flush_spec(a).0);
    assert(no_repeated_family(empty_read().0));
}

/// The state of a read in progress: the row assembled so far and the bytes of the current
/// cell not yet stored in it.
pub struct ReadInProgress {
    row: Row,
    value: Vec<u8>,
}

impl View for ReadInProgress {
    type V = ReadView;

    closed spec fn view(&self) -> ReadView {
        (self.row@, self.value@)
    }
}

fn cell_view_of_new(ts: i64) -> (c: Cell)
    ensures
        c@ == (ts, Seq::<u8>::empty(), Seq::<String>::empty()),
{
    Cell { timestamp_micros: ts, value: Vec::new(), labels: Vec::new() }
}

impl ReadInProgress {
    /// The empty state.
    pub fn new() -> (r: Self)
        ensures
            r@ == empty_read(),
    {
        let r = ReadInProgress { row: Row { key: Vec::new(), families: Vec::new() }, value: Vec::new() };
        proof {
            assert(r@ =~~= empty_read());
        }
        r
    }

    /// Replace the value of the last cell, reporting whether there was one.
    fn set_last_cell_value(&mut self, v: Vec<u8>) -> (found: bool)
        ensures
            found == has_last_cell(old(self)@.0),
            found ==> final(self)@.0 == with_last_cell_value(old(self)@.0, v@),
            !found ==> final(self)@.0 == old(self)@.0,
            final(self)@.1 == old(self)@.1,
    {
        let ghost r0 = self.row@;
        let mut fam = match self.row.families.pop() {
            Some(f) => f,
            None => {
                return false;
            },
        };
        proof {
            assert(self.row.families@.map_values(|f: Family| f@) =~= r0.1.drop_last());
        }
        let mut col = match fam.columns.pop() {
            Some(c) => c,
            None => {
                self.row.families.push(fam);
                proof {
                    assert(self.row@ =~~= r0);
                }
                return false;
            },
        };
        let mut cell = match col.cells.pop() {
            Some(c) => c,
            None => {
                fam.columns.push(col);
                self.row.families.push(fam);
                proof {
                    assert(self.row@ =~~= r0);
                }
                return false;
            },
        };
        cell.value = v;
        col.cells.push(cell);
        fam.columns.push(col);
        self.row.families.push(fam);
        proof {
            assert(self.row@ =~~= with_last_cell_value(r0, v@));
        }
        true
    }

    /// Store the pending bytes as the value of the current cell.
    fn flush_bytes_in_progress(&mut self)
        ensures
            final(self)@ == flush_spec(old(self)@),
    {
        if self.value.len() > 0 {
            let mut v: Vec<u8> = Vec::new();
            std::mem::swap(&mut v, &mut self.value);
            let _ = self.set_last_cell_value(v);
        }
    }

    /// Start a family, unless the current family already has that name.
    fn new_family(&mut self, name: String)
        ensures
            final(self)@ == new_family_spec(old(self)@, name@),
    {
        self.flush_bytes_in_progress();
        let n = self.row.families.len();
        let same = n > 0 && self.row.families[n - 1].name == name;
        proof {
            if n > 0 {
                assert(self.row@.1.last() == self.row.families@[n - 1]@);
            }
        }
        if !same {
            let ghost before = self.row@;
            self.row.families.push(Family { name, columns: Vec::new() });
            proof {
                assert(self.row@ =~~= (before.0, before.1.push((name@, Seq::<ColumnView>::empty()))));
            }
        }
    }

    /// Start a column in the current family, unless the current column already has that
    /// qualifier.
    fn new_column(&mut self, qualifier: Vec<u8>)
        ensures
            final(self)@ == new_column_spec(old(self)@, qualifier@),
    {
        self.flush_bytes_in_progress();
        let ghost r0 = self.row@;
        let mut fam = match self.row.families.pop() {
            Some(f) => f,
            None => {
                return;
            },
        };
        proof {
            assert(self.row.families@.map_values(|f: Family| f@) =~= r0.1.drop_last());
            assert(fam@ == r0.1.last());
        }
        let m = fam.columns.len();
        let same = m > 0 && crate::bigtable::row_set::bytes_eq(&fam.columns[m - 1].qualifier, &qualifier);
        proof {
            if m > 0 {
                assert(fam@.1.last() == fam.columns@[m - 1]@);
            }
        }
        if !same {
            fam.columns.push(Column { qualifier, cells: Vec::new() });
        }
        self.row.families.push(fam);
        proof {
            assert(self.row@ =~~= new_column_spec(old(self)@, qualifier@).0);
        }
    }

    /// Start a cell in the current column.
    fn new_cell(&mut self, timestamp_micros: i64)
        ensures
            final(self)@ == new_cell_spec(old(self)@, timestamp_micros),
    {
        self.flush_bytes_in_progress();
        let ghost r0 = self.row@;
        let mut fam = match self.row.families.pop() {
            Some(f) => f,
            None => {
                return;
            },
        };
        proof {
            assert(self.row.families@.map_values(|f: Family| f@) =~= r0.1.drop_last());
        }
        let mut col = match fam.columns.pop() {
            Some(c) => c,
            None => {
                self.row.families.push(fam);
                proof {
                    assert(self.row@ =~~= r0);
                }
                return;
            },
        };
        col.cells.push(cell_view_of_new(timestamp_micros));
        fam.columns.push(col);
        self.row.families.push(fam);
        self.value = Vec::new();
        proof {
            assert(self@ =~~= new_cell_spec(old(self)@, timestamp_micros));
        }
    }

    /// The timestamp of the current cell.
    fn last_cell_timestamp(&self) -> (r: Option<i64>)
        ensures
            r == last_cell_ts(self@.0),
    {
        let n = self.row.families.len();
        if n == 0 {
            return None;
        }
        let fam = &self.row.families[n - 1];
        let m = fam.columns.len();
        if m == 0 {
            proof {
                assert(self@.0.1.last() == fam@);
            }
            return None;
        }
        let col = &fam.columns[m - 1];
        let k = col.cells.len();
        proof {
            assert(self@.0.1.last() == fam@);
            assert(fam@.1.last() == col@);
        }
        if k == 0 {
            return None;
        }
        proof {
            assert(col@.1.last() == col.cells@[k - 1]@);
        }
        Some(col.cells[k - 1].timestamp_micros)
    }

    /// Hand out the assembled row and start over.
    fn finish_row(&mut self) -> (r: Row)
        ensures
            r@ == flush_spec(old(self)@).0,
            final(self)@ == empty_read(),
    {
        self.flush_bytes_in_progress();
        let mut row = Row { key: Vec::new(), families: Vec::new() };
        std::mem::swap(&mut row, &mut self.row);
        proof {
            assert(self@ =~~= empty_read());
        }
        row
    }

    /// Process a chunk, and return a row if one was completed.
    pub fn process_chunk(&mut self, chunk: CellChunk) -> (r: Option<Row>)
        ensures
            ({
                let (s, out) = process_chunk_spec(
                    old(self)@,
                    chunk.row_key@,
                    match chunk.family_name {
                        Some(n) => Some(n@),
                        None => None,
                    },
                    match chunk.qualifier {
                        Some(q) => Some(q@),
                        None => None,
                    },
                    chunk.timestamp_micros,
                    chunk.value@,
                    chunk.row_status,
                );
                &&& final(self)@ == s
                &&& match r {
                    Some(row) => out == Some(row@),
                    None => out is None,
                }
            }),
    {
        let CellChunk { row_key, family_name, qualifier, timestamp_micros, labels, value, value_size, row_status } = chunk;
        if row_key.len() > 0 {
            self.row.key = row_key;
        }
        match family_name {
            Some(name) => self.new_family(name),
            None => {},
        }
        match qualifier {
            Some(q) => self.new_column(q),
            None => {},
        }
        let last = self.last_cell_timestamp();
        let differs = match last {
            Some(t) => t != timestamp_micros,
            None => true,
        };
        if differs {
            self.new_cell(timestamp_micros);
        }
        let mut value = value;
        let ghost before = self.value@;
        self.value.append(&mut value);
        match row_status {
            Some(status) => {
                let row = self.finish_row();
                match status {
                    RowStatus::CommitRow(_) => Some(row),
                    RowStatus::ResetRow(_) => None,
                }
            },
            None => None,
        }
    }
}

/// A reference for a single cell in Bigtable
pub struct CellRef<'a> {
    /// The column family name
    pub family_name: &'a str,
    /// The column qualifier
    pub column_qualifier: &'a Vec<u8>,
    /// The cell's timestamp, in microseconds since the epoch
    pub timestamp_micros: i64,
    /// The cell's contents
    pub value: &'a Vec<u8>,
}

/// The most recent cell of each column of the given families, in order: (family name,
/// qualifier, timestamp, value).
pub open spec fn most_recent_cells_spec(fams: Seq<FamilyView>) -> Seq<(Seq<char>, Seq<u8>, i64, Seq<u8>)>
    decreases fams.len(),
{
    if fams.len() == 0 {
        Seq::empty()
    } else {
        most_recent_cells_spec(fams.drop_last()) + columns_recent(fams.last().0, fams.last().1)
    }
}

/// The most recent cell of each column of one family that has cells, in order.
pub open spec fn columns_recent(name: Seq<char>, cols: Seq<ColumnView>) -> Seq<(Seq<char>, Seq<u8>, i64, Seq<u8>)>
    decreases cols.len(),
{
    if cols.len() == 0 {
        Seq::empty()
    } else if cols.last().1.len() == 0 {
        columns_recent(name, cols.drop_last())
    } else {
        columns_recent(name, cols.drop_last()).push(
            (name, cols.last().0, cols.last().1[0].0, cols.last().1[0].1),
        )
    }
}

/// The number of columns that hold at least one cell.
pub open spec fn columns_with_cells(cols: Seq<ColumnView>) -> nat
    decreases cols.len(),
{
    if cols.len() == 0 {
        0
    } else {
        columns_with_cells(cols.drop_last()) + if cols.last().1.len() > 0 {
            1nat
        } else {
            0nat
        }
    }
}

/// The number of columns, over all families, that hold at least one cell.
pub open spec fn families_columns_with_cells(fams: Seq<FamilyView>) -> nat
    decreases fams.len(),
{
    if fams.len() == 0 {
        0
    } else {
        families_columns_with_cells(fams.drop_last()) + columns_with_cells(fams.last().1)
    }
}

/// Within one family: every column with cells gives exactly one entry, its first (most
/// recent) cell, whatever that cell's value; columns without cells give none.
proof fn lemma_columns_recent(name: Seq<char>, cols: Seq<ColumnView>)
    ensures
        columns_recent(name, cols).len() == columns_with_cells(cols),
        forall|j: int|
            0 <= j < cols.len() && (#[trigger] cols[j]).1.len() > 0 ==> columns_recent(name, cols).contains(
                (name, cols[j].0, cols[j].1[0].0, cols[j].1[0].1),
            ),
    decreases cols.len(),
{
    if cols.len() > 0 {
        let init = cols.drop_last();
        lemma_columns_recent(name, init);
        assert forall|j: int|
            0 <= j < cols.len() && (#[trigger] cols[j]).1.len() > 0 implies columns_recent(name, cols).contains(
                (name, cols[j].0, cols[j].1[0].0, cols[j].1[0].1),
            ) by {
            let e = (name, cols[j].0, cols[j].1[0].0, cols[j].1[0].1);
            if j < cols.len() - 1 {
                assert(init[j] == cols[j]);
                let k = choose|k: int| 0 <= k < columns_recent(name, init).len() && columns_recent(name, init)[k] == e;
                if cols.last().1.len() > 0 {
                    assert(columns_recent(name, cols)[k] == e);
                } else {
                    assert(columns_recent(name, cols)[k] == e);
                }
            } else {
                let r = columns_recent(name, cols);
                assert(r[r.len() - 1] == e);
            }
        }
    }
}

/// The most recent cells of columns listed one after another are those of the first columns
/// followed by those of the second: the entries keep the order of the columns. A single
/// column gives its first (most recent) cell when it has cells, and nothing otherwise.
pub proof fn lemma_columns_recent_in_order(name: Seq<char>, a: Seq<ColumnView>, b: Seq<ColumnView>)
    ensures
        columns_recent(name, a + b) == columns_recent(name, a) + columns_recent(name, b),
        forall|c: ColumnView|
            #[trigger] columns_recent(name, seq![c]) == if c.1.len() > 0 {
                seq![(name, c.0, c.1[0].0, c.1[0].1)]
            } else {
                Seq::empty()
            },
    decreases b.len(),
{
    assert forall|c: ColumnView|
        #[trigger] columns_recent(name, seq![c]) == if c.1.len() > 0 {
            seq![(name, c.0, c.1[0].0, c.1[0].1)]
        } else {
            Seq::empty()
        } by {
        let one = seq![c];
        assert(one.len() == 1);
        assert(one.last() == c);
        assert(one.drop_last() =~= Seq::<ColumnView>::empty());
        assert(columns_recent(name, Seq::<ColumnView>::empty()) == Seq::<(Seq<char>, Seq<u8>, i64, Seq<u8>)>::empty());
        assert(Seq::<(Seq<char>, Seq<u8>, i64, Seq<u8>)>::empty().push((name, c.0, c.1[0].0, c.1[0].1))
            =~= seq![(name, c.0, c.1[0].0, c.1[0].1)]);
    }
    if b.len() == 0 {
        assert(a + b =~= a);
        assert(columns_recent(name, a) + columns_recent(name, b) =~= columns_recent(name, a));
    } else {
        lemma_columns_recent_in_order(name, a, b.drop_last());
        assert((a + b).drop_last() =~= a + b.drop_last());
        assert((a + b).last() == b.last());
        if b.last().1.len() > 0 {
            assert((columns_recent(name, a) + columns_recent(name, b.drop_last())).push(
                (name, b.last().0, b.last().1[0].0, b.last().1[0].1),
            ) =~= columns_recent(name, a) + columns_recent(name, b.drop_last()).push(
                (name, b.last().0, b.last().1[0].0, b.last().1[0].1),
            ));
        }
    }
}

/// The most recent cells of families listed one after another are those of the first
/// families followed by those of the second, and a single family gives those of its columns
/// in order: the entries go family by family, column by column.
pub proof fn lemma_most_recent_cells_in_order(a: Seq<FamilyView>, b: Seq<FamilyView>)
    ensures
        most_recent_cells_spec(a + b) == most_recent_cells_spec(a) + most_recent_cells_spec(b),
        forall|f: FamilyView| #[trigger] most_recent_cells_spec(seq![f]) == columns_recent(f.0, f.1),
    decreases b.len(),
{
    assert forall|f: FamilyView| #[trigger] most_recent_cells_spec(seq![f]) == columns_recent(f.0, f.1) by {
        let one = seq![f];
        assert(one.len() == 1);
        assert(one.last() == f);
        assert(one.drop_last() =~= Seq::<FamilyView>::empty());
        assert(most_recent_cells_spec(Seq::<FamilyView>::empty()) == Seq::<(Seq<char>, Seq<u8>, i64, Seq<u8>)>::empty());
        assert(Seq::<(Seq<char>, Seq<u8>, i64, Seq<u8>)>::empty() + columns_recent(f.0, f.1)
            =~= columns_recent(f.0, f.1));
    }
    if b.len() == 0 {
        assert(a + b =~= a);
        assert(most_recent_cells_spec(a) + most_recent_cells_spec(b) =~= most_recent_cells_spec(a));
    } else {
        lemma_most_recent_cells_in_order(a, b.drop_last());
        assert((a + b).drop_last() =~= a + b.drop_last());
        assert((a + b).last() == b.last());
        let x = most_recent_cells_spec(a);
        let y = most_recent_cells_spec(b.drop_last());
        let z = columns_recent(b.last().0, b.last().1);
        assert(x + y + z =~= x + (y + z));
    }
}

/// The most recent cells of a row: every column that holds at least one cell contributes
/// exactly one reference, to its first (most recent) cell, whatever that cell's value; so
/// there are as many references as columns with cells.
pub proof fn lemma_most_recent_cells(fams: Seq<FamilyView>)
    ensures
        most_recent_cells_spec(fams).len() == families_columns_with_cells(fams),
        forall|f: int, j: int|
            0 <= f < fams.len() && 0 <= j < fams[f].1.len() && (#[trigger] fams[f].1[j]).1.len() > 0
                ==> most_recent_cells_spec(fams).contains(
                (fams[f].0, fams[f].1[j].0, fams[f].1[j].1[0].0, fams[f].1[j].1[0].1),
            ),
    decreases fams.len(),
{
    if fams.len() > 0 {
        let init = fams.drop_last();
        let last = fams.last();
        lemma_most_recent_cells(init);
        lemma_columns_recent(last.0, last.1);
        let front = most_recent_cells_spec(init);
        let back = columns_recent(last.0, last.1);
        assert(most_recent_cells_spec(fams) == front + back);
        assert forall|f: int, j: int|
            0 <= f < fams.len() && 0 <= j < fams[f].1.len() && (#[trigger] fams[f].1[j]).1.len() > 0
                implies most_recent_cells_spec(fams).contains(
                (fams[f].0, fams[f].1[j].0, fams[f].1[j].1[0].0, fams[f].1[j].1[0].1),
            ) by {
            let e = (fams[f].0, fams[f].1[j].0, fams[f].1[j].1[0].0, fams[f].1[j].1[0].1);
            if f < fams.len() - 1 {
                assert(init[f] == fams[f]);
                assert(init[f].1[j] == fams[f].1[j]);
                let k = choose|k: int| 0 <= k < front.len() && front[k] == e;
                assert((front + back)[k] == e);
            } else {
                assert(last.1[j] == fams[f].1[j]);
                let k = choose|k: int| 0 <= k < back.len() && back[k] == e;
                assert((front + back)[front.len() + k] == e);
            }
        }
    }
}

/// The values a cell reference points to.
pub open spec fn cell_ref_view(c: CellRef) -> (Seq<char>, Seq<u8>, i64, Seq<u8>) {
    (c.family_name@, c.column_qualifier@, c.timestamp_micros, c.value@)
}

impl Row {
    /// The most recent cell of each column (the first, as cells are in decreasing order of
    /// timestamp), family by family and column by column.
    pub fn most_recent_cells(&self) -> (r: Vec<CellRef<'_>>)
        ensures
            r@.map_values(|c: CellRef| cell_ref_view(c)) == most_recent_cells_spec(self@.1),
    {
        let mut r: Vec<CellRef> = Vec::new();
        for i in 0..self.families.len()
            invariant
                r@.map_values(|c: CellRef| cell_ref_view(c)) == most_recent_cells_spec(
                    self@.1.subrange(0, i as int),
                ),
        {
            let fam = &self.families[i];
            let ghost start = r@.map_values(|c: CellRef| cell_ref_view(c));
            for j in 0..fam.columns.len()
                invariant
                    0 <= i < self@.1.len(),
                    fam@ == self@.1[i as int],
                    start == most_recent_cells_spec(self@.1.subrange(0, i as int)),
                    r@.map_values(|c: CellRef| cell_ref_view(c)) == start + columns_recent(
                        fam@.0,
                        fam@.1.subrange(0, j as int),
                    ),
            {
                let col = &fam.columns[j];
                proof {
                    let next = fam@.1.subrange(0, j + 1);
                    assert(next.drop_last() =~= fam@.1.subrange(0, j as int));
                    assert(next.last() == col@);
                }
                if col.cells.len() > 0 {
                    let cell = &col.cells[0];
                    proof {
                        assert(col@.1[0] == cell@);
                    }
                    let ghost old_r = r@;
                    r.push(
                        CellRef {
                            family_name: fam.name.as_str(),
                            column_qualifier: &col.qualifier,
                            timestamp_micros: cell.timestamp_micros,
                            value: &cell.value,
                        },
                    );
                    proof {
                        assert(r@.map_values(|c: CellRef| cell_ref_view(c)) =~= old_r.map_values(
                            |c: CellRef| cell_ref_view(c),
                        ).push(cell_ref_view(r@.last())));
                        assert(r@.map_values(|c: CellRef| cell_ref_view(c)) =~= start + columns_recent(
                            fam@.0,
                            fam@.1.subrange(0, j + 1),
                        ));
                    }
                }
            }
            proof {
                assert(fam@.1.subrange(0, fam@.1.len() as int) =~= fam@.1);
                let next = self@.1.subrange(0, i + 1);
                assert(next.drop_last() =~= self@.1.subrange(0, i as int));
                assert(next.last() == fam@);
            }
        }
        proof {
            assert(self@.1.subrange(0, self@.1.len() as int) =~= self@.1);
        }
        r
    }
}

} // verus!
