//! The logic of the Bigtable client: request builders, row sets and their restriction on
//! retries, the retry predicate for Bigtable errors, and the reassembly of rows from chunks.
pub mod mutation;

pub use mutation::{mutate_rows_outcome, MutateRowRequest, MutateRowsError, MutateRowsRequest};
pub mod admin;
mod client_builder;
pub mod emulator;
pub mod filters;

pub use client_builder::{BigtableConfig, BIGTABLE_DATA_READONLY_SCOPE, BIGTABLE_DATA_SCOPE};
mod row_set;

pub use row_set::{
    bound_to_end_key, bound_to_start_key, bytes_eq, bytes_le, bytes_lt, copy_bytes, end_admits,
    end_bound_admits, keys_contain, lemma_lex_total, lemma_lex_trans, lex_le, lex_lt, range_contains,
    ranges_contain, set_contains, start_admits, start_bound_admits, EndKey, KeyBound, RowRange, RowSet, StartKey,
};
mod rows;

pub use rows::{
    absorb_chunk_spec, cell_ref_view, columns_recent, empty_read, flush_spec, has_last_cell,
    has_last_column, last_cell_ts, lemma_reset_discards, lemma_split_cell_reassembled,
    most_recent_cells_spec, new_cell_spec, new_column_spec, new_family_spec, process_chunk_spec,
    columns_with_cells, column_qualifiers, families_columns_with_cells, family_names, last_family_qualifiers,
    no_repeated_family,
    lemma_most_recent_cells, lemma_most_recent_cells_in_order, lemma_columns_recent_in_order, lemma_no_repeated_family, lemma_same_family_not_added, lemma_other_family_added,
    with_last_cell_value, Cell, CellChunk, CellRef, CellView, Column, ColumnView, Family,
    FamilyView, ReadInProgress, ReadView, Row, RowStatus, RowView,
};
mod client;

pub use client::{
    advance_last_key, bigtable_retriable, delete_rows_request, full_table_name,
    read_one_row_request, read_row_range_keys_request, read_row_range_request, set_cells,
    set_row_data_request, set_row_data_with_timestamp_request, set_rows_data_request, sets_cell,
    BigtableRetryCheck, ReadRowsRequest, chunk_step, chunks_step, lemma_lex_le_trans,
    lemma_chunks_split, lemma_no_duplicate_across_retry, lemma_restrict_twice, lemma_retried_read_in_order, restricted_in_turn, retry_restricted, key_view, ReadRowsRetry, reads_key, lemma_retry_skips_returned, restrict_retry,
    ReadRowsProgress,
};
