//! The requests a Bigtable client sends, and the decisions around its retries.
use vstd::prelude::*;

use super::filters::{Chain, Filter, RowFilter};
use super::mutation::{DeleteFromRow, Entry, MutateRowRequest, MutateRowsRequest, Mutation, MutationMessage, SetCell};
use super::row_set::{
    copy_bytes, bytes_lt, lemma_lex_total, lemma_lex_trans, lex_le, lex_lt, set_contains, KeyBound, RowSet,
};
use super::rows::{empty_read, process_chunk_spec, CellChunk, ReadInProgress, ReadView, Row, RowView};
use crate::grpc::{Code, Status};
use crate::retry_policy::{RetryOperation, RetryPredicate};
use crate::text::concat_strs;

verus! {

/// Whether a Bigtable error is worth retrying: deadline exceeded, unavailable or aborted.
pub open spec fn bigtable_retriable(code: Code) -> bool {
    code == Code::DeadlineExceeded || code == Code::Unavailable || code == Code::Aborted
}

/// The default [`RetryPredicate`] used for errors from Bigtable operations
#[derive(Debug, Default, Clone, Copy)]
pub struct BigtableRetryCheck {
    _priv: (),
}

impl BigtableRetryCheck {
    /// Create a new instance with default settings
    pub fn new() -> (r: Self) {
        Self { _priv: () }
    }

    /// Determine whether the given error is retriable.
    pub fn check(&self, error: &Status) -> (r: bool)
        ensures
            r == bigtable_retriable(error.code_spec()),
    {
        match error.code() {
            Code::DeadlineExceeded | Code::Unavailable | Code::Aborted => true,
            _ => false,
        }
    }
}

impl RetryPredicate<Status> for BigtableRetryCheck {
    fn is_retriable(&self, error: &Status) -> (r: bool)
        ensures
            r == bigtable_retriable(error.code_spec()),
    {
        self.check(error)
    }
}

/// A request to read rows of a table.
#[derive(Debug, Default)]
pub struct ReadRowsRequest {
    /// The table, `projects/{project}/instances/{instance}/tables/{table}`.
    pub table_name: String,
    /// The app profile to use; empty for the default one.
    pub app_profile_id: String,
    /// The rows to read; all rows when absent.
    pub rows: Option<RowSet>,
    /// The filter applied to the rows read; all cells when absent.
    pub filter: Option<RowFilter>,
    /// The most rows to return; zero for no limit.
    pub rows_limit: i64,
}

/// The full name of a table: the instance's table prefix followed by the table's name.
pub fn full_table_name(table_prefix: &str, table_name: &str) -> (r: String)
    ensures
        r@ == table_prefix@ + table_name@,
{
    let pieces = [table_prefix, table_name];
    let r = concat_strs(&pieces);
    proof {
        reveal_with_fuel(Seq::fold_left, 3);
        let v = pieces@.map_values(|p: &str| p@);
        assert(v =~= seq![table_prefix@, table_name@]);
        assert(v.drop_last().drop_last() =~= Seq::<Seq<char>>::empty());
    }
    r
}

/// The row set holding one range.
fn range_set(start: KeyBound, end: KeyBound) -> (s: RowSet)
    ensures
        s.row_keys@.len() == 0,
        s.row_ranges@.len() == 1,
        forall|k: Seq<u8>|
            super::row_set::range_contains(s.row_ranges@[0], k) <==> (
            super::row_set::start_bound_admits(start, k) && super::row_set::end_bound_admits(
                end,
                k,
            )),
{
    let s = RowSet { row_keys: Vec::new(), row_ranges: Vec::new() };
    s.with_range(start, end)
}

/// The request for the keys of a range of rows: at most one cell per row and per column, with
/// values stripped. A limit of `None` is sent as zero, no limit.
pub fn read_row_range_keys_request(
    table_prefix: &str,
    table_name: &str,
    start: KeyBound,
    end: KeyBound,
    rows_limit: Option<i64>,
) -> (r: ReadRowsRequest)
    ensures
        r.table_name@ == table_prefix@ + table_name@,
        r.app_profile_id@.len() == 0,
        r.rows_limit == match rows_limit {
            Some(l) => l,
            None => 0,
        },
        r.rows matches Some(s) && s.row_keys@.len() == 0 && s.row_ranges@.len() == 1 && forall|
            k: Seq<u8>,
        |
            super::row_set::range_contains(s.row_ranges@[0], k) <==> (
            super::row_set::start_bound_admits(start, k) && super::row_set::end_bound_admits(
                end,
                k,
            )),
        r.filter matches Some(f) && f.filter matches Some(Filter::Chain(c)) && c.filters@ == seq![
            RowFilter { filter: Some(Filter::CellsPerRowLimitFilter(1)) },
            RowFilter { filter: Some(Filter::CellsPerColumnLimitFilter(1)) },
            RowFilter { filter: Some(Filter::StripValueTransformer(true)) },
        ],
{
    let chain = Chain { filters: Vec::new() }.with_filter(Filter::CellsPerRowLimitFilter(1)).with_filter(
        Filter::CellsPerColumnLimitFilter(1),
    ).with_filter(Filter::StripValueTransformer(true));
    let ghost c = chain;
    let limit = match rows_limit {
        Some(l) => l,
        None => 0,
    };
    ReadRowsRequest {
        table_name: full_table_name(table_prefix, table_name),
        app_profile_id: String::new(),
        rows: Some(range_set(start, end)),
        filter: Some(RowFilter::from_chain(chain)),
        rows_limit: limit,
    }
}

/// The request for a range of rows, returning only the most recent cell of each column. A
/// limit of `None` is sent as zero, no limit.
pub fn read_row_range_request(
    table_prefix: &str,
    table_name: &str,
    start: KeyBound,
    end: KeyBound,
    rows_limit: Option<i64>,
) -> (r: ReadRowsRequest)
    ensures
        r.table_name@ == table_prefix@ + table_name@,
        r.app_profile_id@.len() == 0,
        r.rows_limit == match rows_limit {
            Some(l) => l,
            None => 0,
        },
        r.rows matches Some(s) && s.row_keys@.len() == 0 && s.row_ranges@.len() == 1 && forall|
            k: Seq<u8>,
        |
            super::row_set::range_contains(s.row_ranges@[0], k) <==> (
            super::row_set::start_bound_admits(start, k) && super::row_set::end_bound_admits(
                end,
                k,
            )),
        r.filter == Some(RowFilter { filter: Some(Filter::CellsPerColumnLimitFilter(1)) }),
{
    let limit = match rows_limit {
        Some(l) => l,
        None => 0,
    };
    ReadRowsRequest {
        table_name: full_table_name(table_prefix, table_name),
        app_profile_id: String::new(),
        rows: Some(range_set(start, end)),
        filter: Some(RowFilter { filter: Some(Filter::CellsPerColumnLimitFilter(1)) }),
        rows_limit: limit,
    }
}

/// The request for a single row, returning only the most recent cell of each column.
pub fn read_one_row_request(table_prefix: &str, table_name: &str, row_key: Vec<u8>) -> (r:
    ReadRowsRequest)
    ensures
        r.table_name@ == table_prefix@ + table_name@,
        r.app_profile_id@.len() == 0,
        r.rows_limit == 0,
        r.rows matches Some(s) && s.row_keys@ == seq![row_key] && s.row_ranges@.len() == 0,
        r.filter == Some(RowFilter { filter: Some(Filter::CellsPerColumnLimitFilter(1)) }),
{
    let s = RowSet { row_keys: Vec::new(), row_ranges: Vec::new() }.with_key(row_key);
    proof {
        assert(s.row_keys@ =~= seq![row_key]);
    }
    ReadRowsRequest {
        table_name: full_table_name(table_prefix, table_name),
        app_profile_id: String::new(),
        rows: Some(s),
        filter: Some(RowFilter { filter: Some(Filter::CellsPerColumnLimitFilter(1)) }),
        rows_limit: 0,
    }
}

/// The request deleting the given rows: one entry per key, in order, each deleting its row.
pub fn delete_rows_request(table_prefix: &str, table_name: &str, row_keys: Vec<Vec<u8>>) -> (r:
    MutateRowsRequest)
    ensures
        r.table_name@ == table_prefix@ + table_name@,
        r.app_profile_id@.len() == 0,
        r.entries@.len() == row_keys@.len(),
        forall|i: int|
            0 <= i < row_keys@.len() ==> #[trigger] r.entries@[i].row_key == row_keys@[i]
                && r.entries@[i].mutations@ == seq![
                MutationMessage { mutation: Some(Mutation::DeleteFromRow(DeleteFromRow {  })) },
            ],
{
    let mut entries: Vec<Entry> = Vec::new();
    let mut keys = row_keys;
    let ghost all = keys@;
    let mut backwards: Vec<Entry> = Vec::new();
    while keys.len() > 0
        invariant
            keys@.len() <= all.len(),
            keys@ == all.subrange(0, keys@.len() as int),
            keys@.len() + backwards@.len() == all.len(),
            forall|j: int|
                0 <= j < backwards@.len() ==> #[trigger] backwards@[j].row_key == all[all.len() - 1
                    - j] && backwards@[j].mutations@ == seq![
                    MutationMessage {
                        mutation: Some(Mutation::DeleteFromRow(DeleteFromRow {  })),
                    },
                ],
        decreases keys.len(),
    {
        let k = keys.pop().unwrap();
        let e = Entry::new(k).with_mutation(Mutation::DeleteFromRow(DeleteFromRow {  }));
        proof {
            assert(e.mutations@ =~= seq![
                MutationMessage { mutation: Some(Mutation::DeleteFromRow(DeleteFromRow {  })) },
            ]);
        }
        backwards.push(e);
    }
    while backwards.len() > 0
        invariant
            entries@.len() + backwards@.len() == all.len(),
            forall|j: int|
                0 <= j < backwards@.len() ==> #[trigger] backwards@[j].row_key == all[all.len() - 1
                    - j] && backwards@[j].mutations@ == seq![
                    MutationMessage {
                        mutation: Some(Mutation::DeleteFromRow(DeleteFromRow {  })),
                    },
                ],
            forall|i: int|
                0 <= i < entries@.len() ==> #[trigger] entries@[i].row_key == all[i]
                    && entries@[i].mutations@ == seq![
                    MutationMessage {
                        mutation: Some(Mutation::DeleteFromRow(DeleteFromRow {  })),
                    },
                ],
        decreases backwards.len(),
    {
        let e = backwards.pop().unwrap();
        entries.push(e);
    }
    let r = MutateRowsRequest::new(full_table_name(table_prefix, table_name)).with_entries(entries);
    proof {
        assert(r.entries@ =~= entries@);
    }
    r
}

/// The mutations setting the given cells of one family, in order, with the given timestamp.
pub fn set_cells(family_name: &String, timestamp: i64, data: Vec<(Vec<u8>, Vec<u8>)>) -> (r: Vec<
    Mutation,
>)
    ensures
        r@.len() == data@.len(),
        forall|i: int|
            0 <= i < data@.len() ==> #[trigger] r@[i] == Mutation::SetCell(
                SetCell {
                    family_name: r@[i]->SetCell_0.family_name,
                    column_qualifier: data@[i].0,
                    timestamp_micros: timestamp,
                    value: data@[i].1,
                },
            ) && r@[i]->SetCell_0.family_name@ == family_name@,
{
    let mut d = data;
    let ghost all = d@;
    let mut backwards: Vec<Mutation> = Vec::new();
    while d.len() > 0
        invariant
            d@.len() <= all.len(),
            d@ == all.subrange(0, d@.len() as int),
            d@.len() + backwards@.len() == all.len(),
            forall|j: int|
                0 <= j < backwards@.len() ==> #[trigger] backwards@[j] == Mutation::SetCell(
                    SetCell {
                        family_name: backwards@[j]->SetCell_0.family_name,
                        column_qualifier: all[all.len() - 1 - j].0,
                        timestamp_micros: timestamp,
                        value: all[all.len() - 1 - j].1,
                    },
                ) && backwards@[j]->SetCell_0.family_name@ == family_name@,
        decreases d.len(),
    {
        let (col, val) = d.pop().unwrap();
        backwards.push(Mutation::SetCell(SetCell::new(family_name.clone(), col, val).with_timestamp(timestamp)));
    }
    let mut r: Vec<Mutation> = Vec::new();
    while backwards.len() > 0
        invariant
            r@.len() + backwards@.len() == all.len(),
            forall|j: int|
                0 <= j < backwards@.len() ==> #[trigger] backwards@[j] == Mutation::SetCell(
                    SetCell {
                        family_name: backwards@[j]->SetCell_0.family_name,
                        column_qualifier: all[all.len() - 1 - j].0,
                        timestamp_micros: timestamp,
                        value: all[all.len() - 1 - j].1,
                    },
                ) && backwards@[j]->SetCell_0.family_name@ == family_name@,
            forall|i: int|
                0 <= i < r@.len() ==> #[trigger] r@[i] == Mutation::SetCell(
                    SetCell {
                        family_name: r@[i]->SetCell_0.family_name,
                        column_qualifier: all[i].0,
                        timestamp_micros: timestamp,
                        value: all[i].1,
                    },
                ) && r@[i]->SetCell_0.family_name@ == family_name@,
        decreases backwards.len(),
    {
        let m = backwards.pop().unwrap();
        r.push(m);
    }
    r
}

/// Whether a mutation message sets the given cell of the given family with the given timestamp.
pub open spec fn sets_cell(
    m: MutationMessage,
    family_name: Seq<char>,
    column_qualifier: Seq<u8>,
    value: Seq<u8>,
    timestamp: i64,
) -> bool {
    &&& m.mutation matches Some(Mutation::SetCell(sc))
    &&& sc.family_name@ == family_name
    &&& sc.column_qualifier@ == column_qualifier
    &&& sc.value@ == value
    &&& sc.timestamp_micros == timestamp
}

/// The request setting data for a single row, with the given timestamp for every cell.
pub fn set_row_data_with_timestamp_request(
    table_prefix: &str,
    table_name: &str,
    family_name: String,
    timestamp: i64,
    row_key: Vec<u8>,
    data: Vec<(Vec<u8>, Vec<u8>)>,
) -> (r: MutateRowRequest)
    ensures
        r.table_name@ == table_prefix@ + table_name@,
        r.row_key == row_key,
        r.mutations@.len() == data@.len(),
        forall|i: int|
            0 <= i < data@.len() ==> sets_cell(#[trigger] r.mutations@[i], family_name@, data@[i].0@, data@[i].1@, timestamp),
{
    let ms = set_cells(&family_name, timestamp, data);
    let r = MutateRowRequest::new(full_table_name(table_prefix, table_name), row_key).with_mutations(ms);
    proof {
        assert forall|i: int| 0 <= i < data@.len() implies sets_cell(#[trigger] r.mutations@[i], family_name@, data@[i].0@, data@[i].1@, timestamp) by {
            assert(r.mutations@[0 + i] == MutationMessage { mutation: Some(ms@[i]) });
        }
    }
    r
}

/// The request setting data for a single row, with timestamps chosen by the server (`-1`).
pub fn set_row_data_request(
    table_prefix: &str,
    table_name: &str,
    family_name: String,
    row_key: Vec<u8>,
    data: Vec<(Vec<u8>, Vec<u8>)>,
) -> (r: MutateRowRequest)
    ensures
        r.table_name@ == table_prefix@ + table_name@,
        r.row_key == row_key,
        r.mutations@.len() == data@.len(),
        forall|i: int|
            0 <= i < data@.len() ==> sets_cell(#[trigger] r.mutations@[i], family_name@, data@[i].0@, data@[i].1@, -1i64),
{
    set_row_data_with_timestamp_request(table_prefix, table_name, family_name, -1, row_key, data)
}

/// The request setting data for several rows of one family; a timestamp of `None` lets the
/// server choose (`-1`).
pub fn set_rows_data_request(
    table_prefix: &str,
    table_name: &str,
    family_name: String,
    timestamp: Option<i64>,
    data: Vec<(Vec<u8>, Vec<(Vec<u8>, Vec<u8>)>)>,
) -> (r: MutateRowsRequest)
    ensures
        r.table_name@ == table_prefix@ + table_name@,
        r.entries@.len() == data@.len(),
        forall|i: int|
            0 <= i < data@.len() ==> {
                &&& (#[trigger] r.entries@[i]).row_key == data@[i].0
                &&& r.entries@[i].mutations@.len() == data@[i].1@.len()
                &&& forall|j: int|
                    0 <= j < data@[i].1@.len() ==> sets_cell(#[trigger] r.entries@[i].mutations@[j], family_name@, data@[i].1@[j].0@, data@[i].1@[j].1@, match timestamp {
                        Some(t) => t,
                        None => -1i64,
                    })
            },
{
    let ts = match timestamp {
        Some(t) => t,
        None => -1,
    };
    let mut entries: Vec<Entry> = Vec::new();
    let mut d = data;
    let ghost all = d@;
    let mut backwards: Vec<Entry> = Vec::new();
    while d.len() > 0
        invariant
            d@.len() <= all.len(),
            d@ == all.subrange(0, d@.len() as int),
            d@.len() + backwards@.len() == all.len(),
            forall|q: int|
                0 <= q < backwards@.len() ==> {
                    let i = all.len() - 1 - q;
                    &&& (#[trigger] backwards@[q]).row_key == all[i].0
                    &&& backwards@[q].mutations@.len() == all[i].1@.len()
                    &&& forall|j: int|
                        0 <= j < all[i].1@.len() ==> sets_cell(#[trigger] backwards@[q].mutations@[j], family_name@, all[i].1@[j].0@, all[i].1@[j].1@, ts)
                },
        decreases d.len(),
    {
        let (key, cells) = d.pop().unwrap();
        let ghost cv = cells@;
        let ms = set_cells(&family_name, ts, cells);
        let e = Entry::new(key).with_mutations(ms);
        proof {
            assert forall|j: int| 0 <= j < cv.len() implies sets_cell(#[trigger] e.mutations@[j], family_name@, cv[j].0@, cv[j].1@, ts) by {
                assert(e.mutations@[0 + j] == MutationMessage { mutation: Some(ms@[j]) });
            }
        }
        backwards.push(e);
    }
    while backwards.len() > 0
        invariant
            entries@.len() + backwards@.len() == all.len(),
            forall|q: int|
                0 <= q < backwards@.len() ==> {
                    let i = all.len() - 1 - q;
                    &&& (#[trigger] backwards@[q]).row_key == all[i].0
                    &&& backwards@[q].mutations@.len() == all[i].1@.len()
                    &&& forall|j: int|
                        0 <= j < all[i].1@.len() ==> sets_cell(#[trigger] backwards@[q].mutations@[j], family_name@, all[i].1@[j].0@, all[i].1@[j].1@, ts)
                },
            forall|i: int|
                0 <= i < entries@.len() ==> {
                    &&& (#[trigger] entries@[i]).row_key == all[i].0
                    &&& entries@[i].mutations@.len() == all[i].1@.len()
                    &&& forall|j: int|
                        0 <= j < all[i].1@.len() ==> sets_cell(#[trigger] entries@[i].mutations@[j], family_name@, all[i].1@[j].0@, all[i].1@[j].1@, ts)
                },
        decreases backwards.len(),
    {
        let e = backwards.pop().unwrap();
        entries.push(e);
    }
    MutateRowsRequest::new(full_table_name(table_prefix, table_name)).with_entries(entries)
}

/// The last key a read has returned or scanned, advanced by a newly seen key: the larger of
/// the two in the order of keys, starting from the empty key.
pub fn advance_last_key(last_key: Option<Vec<u8>>, seen: Vec<u8>) -> (r: Vec<u8>)
    ensures
        ({
            let prev = match last_key {
                Some(k) => k@,
                None => Seq::<u8>::empty(),
            };
            &&& r@ == prev || r@ == seen@
            &&& lex_le(prev, r@)
            &&& lex_le(seen@, r@)
        }),
{
    let prev = match last_key {
        Some(k) => k,
        None => Vec::new(),
    };
    proof {
        lemma_lex_total(prev@, seen@);
    }
    if bytes_lt(&prev, &seen) {
        seen
    } else {
        prev
    }
}

/// The order of keys, taken with equality, is transitive.
pub proof fn lemma_lex_le_trans(a: Seq<u8>, b: Seq<u8>, c: Seq<u8>)
    requires
        lex_le(a, b),
        lex_le(b, c),
    ensures
        lex_le(a, c),
{
    if lex_lt(a, b) && lex_lt(b, c) {
        lemma_lex_trans(a, b, c);
    }
}

/// The state after a chunk, and the row it completes, if any.
pub open spec fn chunk_step(s: ReadView, c: CellChunk) -> (ReadView, Option<RowView>) {
    process_chunk_spec(
        s,
        c.row_key@,
        match c.family_name {
            Some(n) => Some(n@),
            None => None,
        },
        match c.qualifier {
            Some(q) => Some(q@),
            None => None,
        },
        c.timestamp_micros,
        c.value@,
        c.row_status,
    )
}

/// The state after a series of chunks taken in order, and the rows they complete, in order.
pub open spec fn chunks_step(s: ReadView, cs: Seq<CellChunk>) -> (ReadView, Seq<RowView>)
    decreases cs.len(),
{
    if cs.len() == 0 {
        (s, Seq::empty())
    } else {
        let (s1, rows) = chunks_step(s, cs.drop_last());
        let (s2, out) = chunk_step(s1, cs.last());
        (
            s2,
            match out {
                Some(r) => rows.push(r),
                None => rows,
            },
        )
    }
}

/// One attempt at reading rows: the reassembly of rows from the chunks received so far, and
/// the last key returned or scanned, so that a retry does not request those rows again.
pub struct ReadRowsProgress {
    state: ReadInProgress,
    last_key: Option<Vec<u8>>,
}

impl ReadRowsProgress {
    /// The reassembly state.
    pub closed spec fn state_spec(&self) -> ReadView {
        self.state@
    }

    /// The last key returned or scanned in this attempt, if any.
    pub closed spec fn last_key_spec(&self) -> Option<Seq<u8>> {
        match self.last_key {
            Some(k) => Some(k@),
            None => None,
        }
    }

    /// A new attempt: nothing received yet.
    pub fn new() -> (r: Self)
        ensures
            r.state_spec() == empty_read(),
            r.last_key_spec() is None,
    {
        ReadRowsProgress { state: ReadInProgress::new(), last_key: None }
    }

    /// The last key returned or scanned in this attempt, if any.
    pub fn last_key(&self) -> (r: Option<Vec<u8>>)
        ensures
            match r {
                Some(k) => self.last_key_spec() == Some(k@),
                None => self.last_key_spec() is None,
            },
    {
        match &self.last_key {
            Some(k) => Some(copy_bytes(k)),
            None => None,
        }
    }

    /// Take one response of the read: its last scanned key, then its chunks in order. The rows
    /// completed are returned in order; the last key becomes the largest of the previous one
    /// (the empty key when there was none), the scanned key and the keys of those rows.
    pub fn take_response(&mut self, last_scanned_row_key: Vec<u8>, chunks: Vec<CellChunk>) -> (rows:
        Vec<Row>)
        ensures
            ({
                let (s, out) = chunks_step(old(self).state_spec(), chunks@);
                &&& final(self).state_spec() == s
                &&& rows@.map_values(|r: Row| r@) == out
            }),
            ({
                let prev = match old(self).last_key_spec() {
                    Some(k) => k,
                    None => Seq::<u8>::empty(),
                };
                &&& final(self).last_key_spec() matches Some(lk)
                &&& lex_le(prev, lk)
                &&& lex_le(last_scanned_row_key@, lk)
                &&& forall|i: int| 0 <= i < rows@.len() ==> lex_le(#[trigger] rows@[i].key@, lk)
                &&& (lk == prev || lk == last_scanned_row_key@ || exists|i: int|
                    0 <= i < rows@.len() && #[trigger] rows@[i].key@ == lk)
            }),
    {
        let ghost prev = match old(self).last_key_spec() {
            Some(k) => k,
            None => Seq::<u8>::empty(),
        };
        let ghost scanned = last_scanned_row_key@;
        let taken = self.last_key.take();
        let lk0 = advance_last_key(taken, last_scanned_row_key);
        let mut lk = lk0;
        let ghost s0 = self.state@;
        let mut rest = chunks;
        let ghost all = rest@;
        let mut backwards: Vec<CellChunk> = Vec::new();
        while rest.len() > 0
            invariant
                rest@.len() + backwards@.len() == all.len(),
                rest@ == all.subrange(0, rest@.len() as int),
                forall|q: int|
                    0 <= q < backwards@.len() ==> #[trigger] backwards@[q] == all[all.len() - 1 - q],
            decreases rest.len(),
        {
            let c = rest.pop().unwrap();
            backwards.push(c);
        }
        let mut rows: Vec<Row> = Vec::new();
        proof {
            assert(all.subrange(0, 0) =~= Seq::<CellChunk>::empty());
            assert(rows@.map_values(|r: Row| r@) =~= Seq::<RowView>::empty());
        }
        while backwards.len() > 0
            invariant
                backwards@.len() <= all.len(),
                forall|q: int|
                    0 <= q < backwards@.len() ==> #[trigger] backwards@[q] == all[all.len() - 1 - q],
                ({
                    let (s, out) = chunks_step(s0, all.subrange(0, all.len() - backwards@.len()));
                    &&& self.state@ == s
                    &&& rows@.map_values(|r: Row| r@) == out
                }),
                lex_le(prev, lk@),
                lex_le(scanned, lk@),
                forall|i: int| 0 <= i < rows@.len() ==> lex_le(#[trigger] rows@[i].key@, lk@),
                lk@ == prev || lk@ == scanned || exists|i: int|
                    0 <= i < rows@.len() && #[trigger] rows@[i].key@ == lk@,
            decreases backwards.len(),
        {
            let ghost p = all.len() - backwards@.len();
            let ghost rows_before = rows@;
            let ghost lk_before = lk@;
            let c = backwards.pop().unwrap();
            proof {
                assert(c == all[p]);
                assert(all.subrange(0, p + 1).drop_last() =~= all.subrange(0, p));
                assert(all.subrange(0, p + 1).last() == all[p]);
            }
            match self.state.process_chunk(c) {
                Some(row) => {
                    let key = copy_bytes(&row.key);
                    let next = advance_last_key(Some(lk), key);
                    lk = next;
                    rows.push(row);
                    proof {
                        assert(rows@.map_values(|r: Row| r@) =~= rows_before.map_values(
                            |r: Row| r@,
                        ).push(row@));
                        lemma_lex_le_trans(prev, lk_before, lk@);
                        lemma_lex_le_trans(scanned, lk_before, lk@);
                        assert forall|i: int| 0 <= i < rows@.len() implies lex_le(
                            #[trigger] rows@[i].key@,
                            lk@,
                        ) by {
                            if i < rows_before.len() {
                                assert(rows@[i] == rows_before[i]);
                                lemma_lex_le_trans(rows_before[i].key@, lk_before, lk@);
                            }
                        }
                        if lk@ != row.key@ {
                            assert(lk@ == lk_before);
                            if lk_before != prev && lk_before != scanned {
                                let j = choose|j: int|
                                    0 <= j < rows_before.len() && #[trigger] rows_before[j].key@ == lk_before;
                                assert(rows@[j] == rows_before[j]);
                            }
                        } else {
                            assert(rows@[rows@.len() - 1] == row);
                        }
                    }
                },
                None => {
                    proof {
                        if lk@ != prev && lk@ != scanned {
                            let j = choose|j: int|
                                0 <= j < rows_before.len() && #[trigger] rows_before[j].key@ == lk@;
                            assert(rows@[j] == rows_before[j]);
                        }
                    }
                },
            }
        }
        proof {
            assert(all.subrange(0, all.len() as int) =~= all);
        }
        self.last_key = Some(lk);
        rows
    }
}

/// The bytes of an optional key.
pub open spec fn key_view(k: Option<Vec<u8>>) -> Option<Seq<u8>> {
    match k {
        Some(v) => Some(v@),
        None => None,
    }
}

/// Whether `after` is the request `before` prepared for a retry after the given last key:
/// everything but the row set is kept; without a last key, or without a row set, the row set
/// is kept too; otherwise the row set keeps exactly its keys beyond the last key.
pub open spec fn retry_restricted(before: ReadRowsRequest, after: ReadRowsRequest, last_key: Option<Seq<u8>>) -> bool {
    &&& after.table_name == before.table_name
    &&& after.app_profile_id == before.app_profile_id
    &&& after.filter == before.filter
    &&& after.rows_limit == before.rows_limit
    &&& (after.rows is Some <==> before.rows is Some)
    &&& last_key is None ==> after.rows == before.rows
    &&& match (before.rows, after.rows, last_key) {
        (Some(a), Some(b), Some(key)) => forall|k: Seq<u8>|
            #[trigger] set_contains(b, k) <==> (set_contains(a, k) && lex_lt(key, k)),
        _ => true,
    }
}

/// Prepare a retried read: the rows up to and including the last key returned or scanned are
/// not requested again. Without such a key, or without a row set (a read of the whole table),
/// the request is unchanged. When the restriction drops every key and range, the row set is
/// left empty, which the service reads as the whole table.
pub fn restrict_retry(request: &mut ReadRowsRequest, last_key: Option<Vec<u8>>)
    ensures
        retry_restricted(*old(request), *final(request), key_view(last_key)),
{
    match last_key {
        Some(key) => {
            match request.rows.as_mut() {
                Some(rows) => rows.restrict_to_after(key),
                None => {},
            }
        },
        None => {},
    }
}

/// The retries of one read: the retry operation, and the request that the next attempt
/// sends.
pub struct ReadRowsRetry<O: RetryOperation<(), Status>> {
    op: O,
    request: ReadRowsRequest,
}

impl<O: RetryOperation<(), Status>> ReadRowsRetry<O> {
    /// The retry operation.
    pub closed spec fn operation(&self) -> O {
        self.op
    }

    /// The request that the next attempt sends.
    pub closed spec fn request_spec(&self) -> ReadRowsRequest {
        self.request
    }

    /// Start a read of the given request, retried as the operation decides.
    pub fn new(request: ReadRowsRequest, op: O) -> (r: Self)
        ensures
            r.operation() == op,
            r.request_spec() == request,
    {
        ReadRowsRetry { op, request }
    }

    /// The request that the next attempt sends.
    pub fn request(&self) -> (r: &ReadRowsRequest)
        ensures
            *r == self.request_spec(),
    {
        &self.request
    }

    /// Take a failed attempt, whose last key returned or scanned is given: the operation
    /// decides whether to retry, after how many milliseconds. When it retries, the request is
    /// prepared so that the retry does not read again what the failed attempt covered; when
    /// it gives up, the request is left as it was.
    pub fn fail(&mut self, error: &Status, last_key: Option<Vec<u8>>) -> (r: Option<u64>)
        ensures
            old(self).operation().decides(&(), error, r, &final(self).operation()),
            r is Some ==> retry_restricted(old(self).request_spec(), final(self).request_spec(), key_view(last_key)),
            r is None ==> final(self).request_spec() == old(self).request_spec(),
    {
        let r = self.op.check_retry(&(), error);
        if r.is_some() {
            restrict_retry(&mut self.request, last_key);
        }
        r
    }
}

/// A retried read does not request again a row that the failed attempt returned: every key
/// returned is at most the attempt's last key, and the retried request keeps only keys
/// beyond it.
pub proof fn lemma_retry_skips_returned(
    before: RowSet,
    after: RowSet,
    last_key: Seq<u8>,
    returned: Seq<u8>,
)
    requires
        forall|k: Seq<u8>|
            #[trigger] set_contains(after, k) <==> (set_contains(before, k) && lex_lt(last_key, k)),
        lex_le(returned, last_key),
    ensures
        !set_contains(after, returned),
{
    lemma_lex_total(returned, last_key);
    if lex_lt(last_key, returned) {
        if lex_lt(returned, last_key) {
            lemma_lex_trans(returned, last_key, returned);
            lemma_lex_total(returned, returned);
        }
    }
}

/// Chunks may be split across responses anywhere: taking `a` and then `b` leaves the state,
/// and yields the rows, that taking `a + b` at once does.
pub proof fn lemma_chunks_split(s: ReadView, a: Seq<CellChunk>, b: Seq<CellChunk>)
    ensures
        ({
            let (s1, r1) = chunks_step(s, a);
            let (s2, r2) = chunks_step(s1, b);
            chunks_step(s, a + b) == (s2, r1 + r2)
        }),
    decreases b.len(),
{
    let (s1, r1) = chunks_step(s, a);
    if b.len() == 0 {
        assert(a + b =~= a);
        assert(r1 + Seq::<RowView>::empty() =~= r1);
    } else {
        lemma_chunks_split(s, a, b.drop_last());
        assert((a + b).drop_last() =~= a + b.drop_last());
        assert((a + b).last() == b.last());
        let (sm, rm) = chunks_step(s1, b.drop_last());
        let (s3, out) = chunk_step(sm, b.last());
        match out {
            Some(row) => {
                assert((r1 + rm).push(row) =~= r1 + rm.push(row));
            },
            None => {},
        }
    }
}

/// Restricting a row set after one key and then after a later (or equal) key keeps exactly
/// the keys of the original set beyond the later key: retries of a read narrow the request
/// cumulatively.
pub proof fn lemma_restrict_twice(s0: RowSet, s1: RowSet, s2: RowSet, k1: Seq<u8>, k2: Seq<u8>)
    requires
        forall|k: Seq<u8>|
            #[trigger] set_contains(s1, k) <==> (set_contains(s0, k) && lex_lt(k1, k)),
        forall|k: Seq<u8>|
            #[trigger] set_contains(s2, k) <==> (set_contains(s1, k) && lex_lt(k2, k)),
        lex_le(k1, k2),
    ensures
        forall|k: Seq<u8>|
            #[trigger] set_contains(s2, k) <==> (set_contains(s0, k) && lex_lt(k2, k)),
{
    assert forall|k: Seq<u8>|
        #[trigger] set_contains(s2, k) <==> (set_contains(s0, k) && lex_lt(k2, k)) by {
        if lex_lt(k2, k) && lex_lt(k1, k2) {
            lemma_lex_trans(k1, k2, k);
        }
        assert(set_contains(s1, k) <==> (set_contains(s0, k) && lex_lt(k1, k)));
    }
}

/// Whether a read of the given rows returns the row with key `k` (when the table has it): a
/// request without a row set, or with one holding no key and no range, reads the whole table.
pub open spec fn reads_key(rows: Option<RowSet>, k: Seq<u8>) -> bool {
    match rows {
        None => true,
        Some(s) => (s.row_keys@.len() == 0 && s.row_ranges@.len() == 0) || set_contains(s, k),
    }
}

/// Across a retry, no row is read twice: every row the failed attempt returned has a key at
/// most the attempt's last key, and a retried request whose row set the restriction did not
/// empty reads only keys beyond it. (An emptied row set reads the whole table again.)
pub proof fn lemma_no_duplicate_across_retry(
    before: RowSet,
    after: RowSet,
    last_key: Seq<u8>,
    returned: Seq<Seq<u8>>,
    k: Seq<u8>,
)
    requires
        forall|key: Seq<u8>|
            #[trigger] set_contains(after, key) <==> (set_contains(before, key) && lex_lt(
                last_key,
                key,
            )),
        forall|i: int| 0 <= i < returned.len() ==> lex_le(#[trigger] returned[i], last_key),
        after.row_keys@.len() > 0 || after.row_ranges@.len() > 0,
        reads_key(Some(after), k),
    ensures
        set_contains(before, k),
        forall|i: int| 0 <= i < returned.len() ==> lex_lt(#[trigger] returned[i], k),
{
    assert(set_contains(after, k));
    assert forall|i: int| 0 <= i < returned.len() implies lex_lt(#[trigger] returned[i], k) by {
        if returned[i] == last_key {
        } else {
            lemma_lex_trans(returned[i], last_key, k);
        }
    }
}

/// Whether each retry's row set is the one before it restricted to the keys after the last
/// key of the failed attempt, as `restrict_retry` leaves it.
pub open spec fn restricted_in_turn(sets: Seq<RowSet>, last_keys: Seq<Seq<u8>>) -> bool {
    forall|i: int, k: Seq<u8>|
        0 <= i < sets.len() - 1 ==> (#[trigger] set_contains(sets[i + 1], k) <==> (set_contains(
            sets[i],
            k,
        ) && lex_lt(last_keys[i], k)))
}

/// A key read by a later retry lies beyond the last key of every earlier attempt, and in the
/// row sets of all of them.
proof fn lemma_restrictions_chain(sets: Seq<RowSet>, last_keys: Seq<Seq<u8>>, i: int, j: int, k: Seq<u8>)
    requires
        restricted_in_turn(sets, last_keys),
        0 <= i < j < sets.len(),
        set_contains(sets[j], k),
    ensures
        set_contains(sets[i], k),
        lex_lt(last_keys[i], k),
    decreases j - i,
{
    let m = j - 1;
    assert(sets[m + 1] == sets[j]);
    assert(set_contains(sets[m + 1], k) <==> (set_contains(sets[m], k) && lex_lt(last_keys[m], k)));
    if j > i + 1 {
        lemma_restrictions_chain(sets, last_keys, i, j - 1, k);
    }
}

/// A read retried after failures returns no row twice and keeps the order of keys across
/// attempts: given the row sets of the attempts (each retry's set being the one before it
/// restricted after the failed attempt's last key, and not emptied by it), where every
/// attempt returns only keys its set reads and every failed attempt only keys up to its last
/// key, each key returned by an attempt comes before each key returned by a later one, and
/// every key returned is one the first request reads.
pub proof fn lemma_retried_read_in_order(
    sets: Seq<RowSet>,
    last_keys: Seq<Seq<u8>>,
    returned: Seq<Seq<Seq<u8>>>,
)
    requires
        sets.len() == returned.len(),
        restricted_in_turn(sets, last_keys),
        forall|i: int|
            1 <= i < sets.len() ==> (#[trigger] sets[i]).row_keys@.len() > 0 || sets[i].row_ranges@.len() > 0,
        forall|i: int, a: int|
            0 <= i < returned.len() && 0 <= a < returned[i].len() ==> reads_key(
                Some(sets[i]),
                #[trigger] returned[i][a],
            ),
        forall|i: int, a: int|
            0 <= i < returned.len() - 1 && 0 <= a < returned[i].len() ==> lex_le(
                #[trigger] returned[i][a],
                last_keys[i],
            ),
    ensures
        forall|i: int, a: int, j: int, b: int|
            0 <= i < j < returned.len() && 0 <= a < returned[i].len() && 0 <= b < returned[j].len()
                ==> lex_lt(#[trigger] returned[i][a], #[trigger] returned[j][b]),
        forall|j: int, b: int|
            0 <= j < returned.len() && 0 <= b < returned[j].len() ==> reads_key(
                Some(sets[0]),
                #[trigger] returned[j][b],
            ),
{
    assert forall|i: int, a: int, j: int, b: int|
        0 <= i < j < returned.len() && 0 <= a < returned[i].len() && 0 <= b < returned[j].len()
            implies lex_lt(#[trigger] returned[i][a], #[trigger] returned[j][b]) by {
        let kb = returned[j][b];
        assert(reads_key(Some(sets[j]), kb));
        assert(set_contains(sets[j], kb));
        lemma_restrictions_chain(sets, last_keys, i, j, kb);
        assert(lex_le(returned[i][a], last_keys[i]));
        if returned[i][a] != last_keys[i] {
            lemma_lex_trans(returned[i][a], last_keys[i], kb);
        }
    }
    assert forall|j: int, b: int|
        0 <= j < returned.len() && 0 <= b < returned[j].len() implies reads_key(
            Some(sets[0]),
            #[trigger] returned[j][b],
        ) by {
        if j > 0 {
            let kb = returned[j][b];
            assert(reads_key(Some(sets[j]), kb));
            assert(set_contains(sets[j], kb));
            lemma_restrictions_chain(sets, last_keys, 0, j, kb);
        }
    }
}

} // verus!
