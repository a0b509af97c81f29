//! Types and builders for requesting bigtable mutations.
use vstd::prelude::*;

use crate::grpc::Status;

verus! {

/// A range of timestamps, in microseconds: from the start, inclusive, to the end, exclusive.
#[derive(Debug, Clone, Copy, PartialEq, Eq, Structural, Default)]
pub struct TimestampRange {
    /// Inclusive lower bound; zero for no lower bound.
    pub start_timestamp_micros: i64,
    /// Exclusive upper bound; zero for no upper bound.
    pub end_timestamp_micros: i64,
}

/// A mutation which sets the value of the specified cell.
#[derive(Debug, Clone, PartialEq, Eq, Default)]
pub struct SetCell {
    /// The name of the family into which new data should be written.
    pub family_name: String,
    /// The qualifier of the column into which new data should be written.
    pub column_qualifier: Vec<u8>,
    /// The timestamp of the cell into which new data should be written; `-1` lets the server
    /// choose it.
    pub timestamp_micros: i64,
    /// The value to be written into the specified cell.
    pub value: Vec<u8>,
}

/// A mutation which deletes cells from the specified column, optionally restricting the
/// deletions to a given timestamp range.
#[derive(Debug, Clone, PartialEq, Eq, Default)]
pub struct DeleteFromColumn {
    /// The name of the family from which cells should be deleted.
    pub family_name: String,
    /// The qualifier of the column from which cells should be deleted.
    pub column_qualifier: Vec<u8>,
    /// The range of timestamps within which cells should be deleted.
    pub time_range: Option<TimestampRange>,
}

/// A mutation which deletes all cells from the specified column family.
#[derive(Debug, Clone, PartialEq, Eq, Default)]
pub struct DeleteFromFamily {
    /// The name of the family from which cells should be deleted.
    pub family_name: String,
}

/// A mutation which deletes all cells from the containing row.
#[derive(Debug, Clone, Copy, PartialEq, Eq, Structural, Default)]
pub struct DeleteFromRow {
}

/// Which of the possible mutation types to apply.
#[derive(Debug, Clone, PartialEq, Eq)]
pub enum Mutation {
    /// Set a cell's value.
    SetCell(SetCell),
    /// Delete cells from a column.
    DeleteFromColumn(DeleteFromColumn),
    /// Delete cells from a column family.
    DeleteFromFamily(DeleteFromFamily),
    /// Delete cells from the entire row.
    DeleteFromRow(DeleteFromRow),
}

/// A change to be made to a row, as carried in a request.
#[derive(Debug, Clone, PartialEq, Eq, Default)]
pub struct MutationMessage {
    /// The mutation to apply.
    pub mutation: Option<Mutation>,
}

impl From<SetCell> for Mutation {
    fn from(sc: SetCell) -> (m: Mutation)
        ensures
            m == Mutation::SetCell(sc),
    {
        Mutation::SetCell(sc)
    }
}

impl vstd::std_specs::convert::FromSpecImpl<SetCell> for Mutation {
    open spec fn obeys_from_spec() -> bool {
        true
    }

    open spec fn from_spec(v: SetCell) -> Mutation {
        Mutation::SetCell(v)
    }
}

impl From<DeleteFromColumn> for Mutation {
    fn from(dfc: DeleteFromColumn) -> (m: Mutation)
        ensures
            m == Mutation::DeleteFromColumn(dfc),
    {
        Mutation::DeleteFromColumn(dfc)
    }
}

impl vstd::std_specs::convert::FromSpecImpl<DeleteFromColumn> for Mutation {
    open spec fn obeys_from_spec() -> bool {
        true
    }

    open spec fn from_spec(v: DeleteFromColumn) -> Mutation {
        Mutation::DeleteFromColumn(v)
    }
}

impl From<DeleteFromFamily> for Mutation {
    fn from(dff: DeleteFromFamily) -> (m: Mutation)
        ensures
            m == Mutation::DeleteFromFamily(dff),
    {
        Mutation::DeleteFromFamily(dff)
    }
}

impl vstd::std_specs::convert::FromSpecImpl<DeleteFromFamily> for Mutation {
    open spec fn obeys_from_spec() -> bool {
        true
    }

    open spec fn from_spec(v: DeleteFromFamily) -> Mutation {
        Mutation::DeleteFromFamily(v)
    }
}

impl From<DeleteFromRow> for Mutation {
    fn from(dfr: DeleteFromRow) -> (m: Mutation)
        ensures
            m == Mutation::DeleteFromRow(dfr),
    {
        Mutation::DeleteFromRow(dfr)
    }
}

impl vstd::std_specs::convert::FromSpecImpl<DeleteFromRow> for Mutation {
    open spec fn obeys_from_spec() -> bool {
        true
    }

    open spec fn from_spec(v: DeleteFromRow) -> Mutation {
        Mutation::DeleteFromRow(v)
    }
}

impl SetCell {
    /// Create a new `SetCell` mutation for setting the value of a single cell, with a
    /// timestamp of zero.
    pub fn new(family_name: String, column_qualifier: Vec<u8>, value: Vec<u8>) -> (sc: SetCell)
        ensures
            sc == (SetCell { family_name, column_qualifier, value, timestamp_micros: 0 }),
    {
        SetCell { family_name, column_qualifier, value, timestamp_micros: 0 }
    }

    /// Set the timestamp value of this `SetCell` mutation.
    ///
    /// The special value `-1` means that the server provides the timestamp.
    pub fn with_timestamp(self, timestamp_micros: i64) -> (sc: Self)
        ensures
            sc == (SetCell { timestamp_micros, ..self }),
    {
        SetCell { timestamp_micros, ..self }
    }
}

/// Wrap each mutation into the message that carries it, in order.
fn wrap_mutations(mutations: Vec<Mutation>) -> (r: Vec<MutationMessage>)
    ensures
        r@.len() == mutations@.len(),
        forall|i: int|
            0 <= i < r@.len() ==> #[trigger] r@[i] == (MutationMessage {
                mutation: Some(mutations@[i]),
            }),
{
    let mut rev = mutations;
    let ghost all = rev@;
    let mut backwards: Vec<MutationMessage> = Vec::new();
    while rev.len() > 0
        invariant
            rev@.len() <= all.len(),
            rev@ == all.subrange(0, rev@.len() as int),
            rev@.len() + backwards@.len() == all.len(),
            forall|j: int|
                0 <= j < backwards@.len() ==> #[trigger] backwards@[j] == (MutationMessage {
                    mutation: Some(all[all.len() - 1 - j]),
                }),
        decreases rev.len(),
    {
        let m = rev.pop().unwrap();
        backwards.push(MutationMessage { mutation: Some(m) });
    }
    let mut r: Vec<MutationMessage> = Vec::new();
    while backwards.len() > 0
        invariant
            r@.len() + backwards@.len() == all.len(),
            forall|j: int|
                0 <= j < backwards@.len() ==> #[trigger] backwards@[j] == (MutationMessage {
                    mutation: Some(all[all.len() - 1 - j]),
                }),
            forall|i: int|
                0 <= i < r@.len() ==> #[trigger] r@[i] == (MutationMessage {
                    mutation: Some(all[i]),
                }),
        decreases backwards.len(),
    {
        let m = backwards.pop().unwrap();
        r.push(m);
    }
    r
}

/// Append the mutations to a list of mutation messages, in order.
fn extend_mutations(list: &mut Vec<MutationMessage>, mutations: Vec<Mutation>)
    ensures
        final(list)@.len() == old(list)@.len() + mutations@.len(),
        final(list)@.subrange(0, old(list)@.len() as int) == old(list)@,
        forall|i: int|
            0 <= i < mutations@.len() ==> #[trigger] final(list)@[old(list)@.len() + i] == (
            MutationMessage { mutation: Some(mutations@[i]) }),
{
    let mut wrapped = wrap_mutations(mutations);
    list.append(&mut wrapped);
}

/// A row and the mutations to apply to it, as an entry of a batch mutation request.
#[derive(Debug, Clone, PartialEq, Eq, Default)]
pub struct Entry {
    /// The key of the row to which the mutations should be applied.
    pub row_key: Vec<u8>,
    /// The changes to be atomically applied to the specified row, in order.
    pub mutations: Vec<MutationMessage>,
}

impl Entry {
    /// Create a new `Entry` for modifying the given row.
    pub fn new(row_key: Vec<u8>) -> (e: Self)
        ensures
            e.row_key == row_key,
            e.mutations@.len() == 0,
    {
        Entry { row_key, mutations: Vec::new() }
    }

    /// Add a mutation to this Entry.
    pub fn with_mutation(self, mutation: Mutation) -> (e: Self)
        ensures
            e.row_key == self.row_key,
            e.mutations@ == self.mutations@.push(MutationMessage { mutation: Some(mutation) }),
    {
        let mut e = self;
        e.mutations.push(MutationMessage { mutation: Some(mutation) });
        e
    }

    /// Add a list of mutations to this Entry.
    pub fn with_mutations(self, mutations: Vec<Mutation>) -> (e: Self)
        ensures
            e.row_key == self.row_key,
            e.mutations@.len() == self.mutations@.len() + mutations@.len(),
            e.mutations@.subrange(0, self.mutations@.len() as int) == self.mutations@,
            forall|i: int|
                0 <= i < mutations@.len() ==> #[trigger] e.mutations@[self.mutations@.len() + i]
                    == (MutationMessage { mutation: Some(mutations@[i]) }),
    {
        let mut e = self;
        extend_mutations(&mut e.mutations, mutations);
        e
    }
}

/// A request to atomically apply mutations to a single row.
#[derive(Debug, Clone, PartialEq, Eq, Default)]
pub struct MutateRowRequest {
    /// The table, `projects/{project}/instances/{instance}/tables/{table}`.
    pub table_name: String,
    /// The app profile to use; empty for the default one.
    pub app_profile_id: String,
    /// The key of the row to which the mutations should be applied.
    pub row_key: Vec<u8>,
    /// The changes to be atomically applied to the specified row, in order.
    pub mutations: Vec<MutationMessage>,
}

impl MutateRowRequest {
    /// Create a new request for modifying a specific row.
    pub fn new(table_name: String, row_key: Vec<u8>) -> (r: MutateRowRequest)
        ensures
            r.table_name == table_name,
            r.row_key == row_key,
            r.app_profile_id@.len() == 0,
            r.mutations@.len() == 0,
    {
        MutateRowRequest {
            table_name,
            app_profile_id: String::new(),
            row_key,
            mutations: Vec::new(),
        }
    }

    /// Add a mutation to this request.
    pub fn with_mutation(self, mutation: Mutation) -> (r: Self)
        ensures
            r.table_name == self.table_name,
            r.app_profile_id == self.app_profile_id,
            r.row_key == self.row_key,
            r.mutations@ == self.mutations@.push(MutationMessage { mutation: Some(mutation) }),
    {
        let mut r = self;
        r.mutations.push(MutationMessage { mutation: Some(mutation) });
        r
    }

    /// Add a list of mutations to this request.
    pub fn with_mutations(self, mutations: Vec<Mutation>) -> (r: Self)
        ensures
            r.table_name == self.table_name,
            r.app_profile_id == self.app_profile_id,
            r.row_key == self.row_key,
            r.mutations@.len() == self.mutations@.len() + mutations@.len(),
            r.mutations@.subrange(0, self.mutations@.len() as int) == self.mutations@,
            forall|i: int|
                0 <= i < mutations@.len() ==> #[trigger] r.mutations@[self.mutations@.len() + i]
                    == (MutationMessage { mutation: Some(mutations@[i]) }),
    {
        let mut r = self;
        extend_mutations(&mut r.mutations, mutations);
        r
    }
}

/// A request to apply mutations to several rows.
#[derive(Debug, Clone, PartialEq, Eq, Default)]
pub struct MutateRowsRequest {
    /// The table, `projects/{project}/instances/{instance}/tables/{table}`.
    pub table_name: String,
    /// The app profile to use; empty for the default one.
    pub app_profile_id: String,
    /// The row keys and corresponding mutations to be applied in bulk.
    pub entries: Vec<Entry>,
}

impl MutateRowsRequest {
    /// Create a new request for modifying multiple rows.
    pub fn new(table_name: String) -> (r: MutateRowsRequest)
        ensures
            r.table_name == table_name,
            r.app_profile_id@.len() == 0,
            r.entries@.len() == 0,
    {
        MutateRowsRequest { table_name, app_profile_id: String::new(), entries: Vec::new() }
    }

    /// Add an entry to this request.
    pub fn with_entry(self, entry: Entry) -> (r: Self)
        ensures
            r.table_name == self.table_name,
            r.app_profile_id == self.app_profile_id,
            r.entries@ == self.entries@.push(entry),
    {
        let mut r = self;
        r.entries.push(entry);
        r
    }

    /// Add a list of entries to this request.
    pub fn with_entries(self, entries: Vec<Entry>) -> (r: Self)
        ensures
            r.table_name == self.table_name,
            r.app_profile_id == self.app_profile_id,
            r.entries@ == self.entries@ + entries@,
    {
        let mut r = self;
        let mut entries = entries;
        r.entries.append(&mut entries);
        r
    }
}

/// The status of the attempt to mutate one entry of a batch.
#[derive(Debug, Clone, PartialEq, Eq, Default)]
pub struct RowStatusCode {
    /// The status code: zero for success.
    pub code: i32,
    /// The message of the status.
    pub message: String,
}

/// The result of applying one entry of a batch mutation.
#[derive(Debug, Clone, PartialEq, Eq, Default)]
pub struct MutateRowsResponseEntry {
    /// The index of the entry in the request.
    pub index: i64,
    /// The result of the entry's mutations.
    pub status: Option<RowStatusCode>,
}

/// The error returned from a row mutation request.
#[derive(Debug)]
pub enum MutateRowsError {
    /// A gRPC error.
    Tonic(Status),
    /// An error mutating one or more specific rows.
    RowErrors(Vec<MutateRowsResponseEntry>),
}

/// Whether a response entry reports a failure: it carries a status with a nonzero code.
pub open spec fn entry_failed(e: MutateRowsResponseEntry) -> bool {
    match e.status {
        Some(s) => s.code != 0,
        None => false,
    }
}

/// The failed entries of a batch mutation response, in order.
pub open spec fn failed_entries(entries: Seq<MutateRowsResponseEntry>) -> Seq<
    MutateRowsResponseEntry,
>
    decreases entries.len(),
{
    if entries.len() == 0 {
        Seq::empty()
    } else if entry_failed(entries.last()) {
        failed_entries(entries.drop_last()).push(entries.last())
    } else {
        failed_entries(entries.drop_last())
    }
}

/// Collect the entries of a batch response with a bad status code.
pub fn collect_failed_entries(errors: &mut Vec<MutateRowsResponseEntry>, entries: Vec<
    MutateRowsResponseEntry,
>)
    ensures
        final(errors)@ == old(errors)@ + failed_entries(entries@),
{
    let ghost start = errors@;
    let ghost all = entries@;
    let mut rest = entries;
    let mut kept: Vec<MutateRowsResponseEntry> = Vec::new();
    // walk from the back, keeping the failed entries in reverse order
    while rest.len() > 0
        invariant
            rest@.len() <= all.len(),
            rest@ == all.subrange(0, rest@.len() as int),
            failed_entries(all) == failed_entries(rest@) + kept@.reverse(),
        decreases rest.len(),
    {
        let ghost before = rest@;
        let e = rest.pop().unwrap();
        proof {
            assert(before.drop_last() =~= rest@);
            assert(before.last() == e);
        }
        let failed = match &e.status {
            Some(s) => s.code != 0,
            None => false,
        };
        if failed {
            let ghost k = kept@;
            kept.push(e);
            proof {
                assert(kept@.reverse() =~= seq![e] + k.reverse());
                assert(failed_entries(before) == failed_entries(rest@).push(e));
                assert(failed_entries(rest@).push(e) + k.reverse() =~= failed_entries(rest@)
                    + kept@.reverse());
            }
        }
    }
    proof {
        assert(rest@ =~= Seq::<MutateRowsResponseEntry>::empty());
        assert(failed_entries(all) =~= kept@.reverse());
    }
    while kept.len() > 0
        invariant
            errors@ + kept@.reverse() == start + failed_entries(all),
        decreases kept.len(),
    {
        let ghost k = kept@;
        let e = kept.pop().unwrap();
        errors.push(e);
        proof {
            assert(k.reverse() =~= seq![e] + kept@.reverse());
            assert(errors@ + kept@.reverse() =~= start + failed_entries(all));
        }
    }
    proof {
        assert(errors@ =~= start + failed_entries(all));
    }
}

/// The outcome of a batch mutation whose responses all arrived, given the failed entries
/// collected from them: success when none failed, and otherwise the failed entries, in order.
pub fn mutate_rows_outcome(errors: Vec<MutateRowsResponseEntry>) -> (r: Result<(), MutateRowsError>)
    ensures
        r is Ok <==> errors@.len() == 0,
        r matches Err(e) ==> (e matches MutateRowsError::RowErrors(v) && v@ == errors@),
{
    if errors.len() == 0 {
        Ok(())
    } else {
        Err(MutateRowsError::RowErrors(errors))
    }
}

} // verus!
