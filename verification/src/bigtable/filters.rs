//! Builders for contructing filters, used when reading bigtable rows.
use vstd::prelude::*;

verus! {

/// A filter applied to the cells of a row, as carried in a request.
#[derive(Debug, PartialEq, Eq, Default)]
pub struct RowFilter {
    /// Which of the possible filter types to apply.
    pub filter: Option<Filter>,
}

/// A sequence of filters, each applied to the output of the previous one.
#[derive(Debug, PartialEq, Eq, Default)]
pub struct Chain {
    /// The elements of the chain, applied in order.
    pub filters: Vec<RowFilter>,
}

/// A set of filters whose outputs are merged.
#[derive(Debug, PartialEq, Eq, Default)]
pub struct Interleave {
    /// The filters whose outputs are interleaved.
    pub filters: Vec<RowFilter>,
}

/// Which of the possible filter types to apply.
#[derive(Debug, PartialEq, Eq)]
pub enum Filter {
    /// Applies several filters in sequence.
    Chain(Chain),
    /// Applies several filters and merges their outputs.
    Interleave(Interleave),
    /// Matches all cells.
    PassAllFilter(bool),
    /// Matches no cell.
    BlockAllFilter(bool),
    /// Matches rows whose key matches the given RE2 regular expression.
    RowKeyRegexFilter(Vec<u8>),
    /// Matches cells whose family name matches the given RE2 regular expression.
    FamilyNameRegexFilter(String),
    /// Matches cells whose column qualifier matches the given RE2 regular expression.
    ColumnQualifierRegexFilter(Vec<u8>),
    /// Matches cells whose value matches the given RE2 regular expression.
    ValueRegexFilter(Vec<u8>),
    /// Skips the first N cells of each row.
    CellsPerRowOffsetFilter(i32),
    /// Matches only the first N cells of each row.
    CellsPerRowLimitFilter(i32),
    /// Matches only the most recent N cells of each column.
    CellsPerColumnLimitFilter(i32),
    /// Replaces each cell's value with the empty string.
    StripValueTransformer(bool),
    /// Applies the given label to all cells in the output row.
    ApplyLabelTransformer(String),
}

impl Chain {
    /// Add a new filter to the end of this chain, returning the result.
    pub fn with_filter(self, filter: Filter) -> (c: Self)
        ensures
            c.filters@ == self.filters@.push(RowFilter { filter: Some(filter) }),
    {
        let mut c = self;
        c.filters.push(RowFilter { filter: Some(filter) });
        c
    }
}

impl From<Chain> for Filter {
    fn from(ch: Chain) -> (f: Filter)
        ensures
            f == Filter::Chain(ch),
    {
        Filter::Chain(ch)
    }
}

impl vstd::std_specs::convert::FromSpecImpl<Chain> for Filter {
    open spec fn obeys_from_spec() -> bool {
        true
    }

    open spec fn from_spec(v: Chain) -> Filter {
        Filter::Chain(v)
    }
}

impl From<Filter> for RowFilter {
    fn from(f: Filter) -> (r: RowFilter)
        ensures
            r == (RowFilter { filter: Some(f) }),
    {
        RowFilter { filter: Some(f) }
    }
}

impl vstd::std_specs::convert::FromSpecImpl<Filter> for RowFilter {
    open spec fn obeys_from_spec() -> bool {
        true
    }

    open spec fn from_spec(v: Filter) -> RowFilter {
        RowFilter { filter: Some(v) }
    }
}

impl RowFilter {
    /// The filter carrying a chain, as converting a chain into a row filter gives it.
    pub fn from_chain(ch: Chain) -> (r: RowFilter)
        ensures
            r == (RowFilter { filter: Some(Filter::Chain(ch)) }),
    {
        RowFilter { filter: Some(Filter::Chain(ch)) }
    }
}

} // verus!
