use ya_gcp::bigtable::{
    advance_last_key, bound_to_end_key, bound_to_start_key, bytes_lt, read_row_range_request,
    restrict_retry, Cell, CellChunk, Column, EndKey, Family, KeyBound, ReadInProgress,
    ReadRowsProgress, ReadRowsRetry, Row, RowRange, RowSet, RowStatus, StartKey,
};
use ya_gcp::grpc::{Code, Status};
use ya_gcp::retry_policy::RetryOperation;

fn chunk(
    key: &[u8],
    family: Option<&str>,
    qualifier: Option<&[u8]>,
    ts: i64,
    value: &[u8],
    status: Option<RowStatus>,
) -> CellChunk {
    CellChunk {
        row_key: key.to_vec(),
        family_name: family.map(|f| f.to_string()),
        qualifier: qualifier.map(|q| q.to_vec()),
        timestamp_micros: ts,
        labels: vec![],
        value: value.to_vec(),
        value_size: 0,
        row_status: status,
    }
}

#[test]
fn single_chunk_row() {
    let mut state = ReadInProgress::new();
    let row = state
        .process_chunk(chunk(b"r1", Some("f"), Some(b"q"), 10, b"v", Some(RowStatus::CommitRow(true))))
        .expect("row committed");
    assert_eq!(row.key, b"r1".to_vec());
    assert_eq!(row.families.len(), 1);
    assert_eq!(row.families[0].name, "f");
    assert_eq!(row.families[0].columns[0].qualifier, b"q".to_vec());
    assert_eq!(row.families[0].columns[0].cells[0].timestamp_micros, 10);
    assert_eq!(row.families[0].columns[0].cells[0].value, b"v".to_vec());
}

#[test]
fn split_cell_value_is_reassembled() {
    let mut state = ReadInProgress::new();
    assert!(state.process_chunk(chunk(b"r1", Some("f"), Some(b"q"), 10, b"hel", None)).is_none());
    let row = state
        .process_chunk(chunk(b"", None, None, 10, b"lo", Some(RowStatus::CommitRow(true))))
        .unwrap();
    assert_eq!(row.families[0].columns[0].cells.len(), 1);
    assert_eq!(row.families[0].columns[0].cells[0].value, b"hello".to_vec());
}

#[test]
fn reset_row_discards_chunks() {
    let mut state = ReadInProgress::new();
    assert!(state.process_chunk(chunk(b"r1", Some("f"), Some(b"q"), 1, b"x", None)).is_none());
    assert!(state
        .process_chunk(chunk(b"", None, None, 1, b"", Some(RowStatus::ResetRow(true))))
        .is_none());
    let row = state
        .process_chunk(chunk(b"r2", Some("g"), Some(b"c"), 2, b"y", Some(RowStatus::CommitRow(true))))
        .unwrap();
    assert_eq!(row.key, b"r2".to_vec());
    assert_eq!(row.families.len(), 1);
    assert_eq!(row.families[0].name, "g");
}

#[test]
fn cells_of_a_column_and_new_columns() {
    let mut state = ReadInProgress::new();
    state.process_chunk(chunk(b"r", Some("f"), Some(b"a"), 3, b"a3", None));
    state.process_chunk(chunk(b"", None, None, 2, b"a2", None));
    state.process_chunk(chunk(b"", None, Some(b"b"), 5, b"b5", None));
    let row = state
        .process_chunk(chunk(b"", Some("g"), Some(b"c"), 1, b"c1", Some(RowStatus::CommitRow(true))))
        .unwrap();
    assert_eq!(row.families.len(), 2);
    assert_eq!(row.families[0].columns.len(), 2);
    assert_eq!(row.families[0].columns[0].cells.len(), 2);
    let recent = row.most_recent_cells();
    let flat: Vec<(String, Vec<u8>, i64, Vec<u8>)> = recent
        .iter()
        .map(|c| (c.family_name.to_string(), c.column_qualifier.clone(), c.timestamp_micros, c.value.clone()))
        .collect();
    assert_eq!(
        flat,
        vec![
            ("f".to_string(), b"a".to_vec(), 3, b"a3".to_vec()),
            ("f".to_string(), b"b".to_vec(), 5, b"b5".to_vec()),
            ("g".to_string(), b"c".to_vec(), 1, b"c1".to_vec()),
        ]
    );
}

#[test]
fn most_recent_cells_skips_empty_columns() {
    let row = Row {
        key: b"k".to_vec(),
        families: vec![Family {
            name: "f".to_string(),
            columns: vec![
                Column { qualifier: b"empty".to_vec(), cells: vec![] },
                Column {
                    qualifier: b"q".to_vec(),
                    cells: vec![
                        Cell { timestamp_micros: 9, value: b"new".to_vec(), labels: vec![] },
                        Cell { timestamp_micros: 1, value: b"old".to_vec(), labels: vec![] },
                    ],
                },
            ],
        }],
    };
    let recent = row.most_recent_cells();
    assert_eq!(recent.len(), 1);
    assert_eq!(recent[0].value, &b"new".to_vec());
}

#[test]
fn last_key_is_the_largest_seen() {
    assert_eq!(advance_last_key(None, b"b".to_vec()), b"b".to_vec());
    assert_eq!(advance_last_key(Some(b"c".to_vec()), b"b".to_vec()), b"c".to_vec());
    assert_eq!(advance_last_key(Some(b"b".to_vec()), b"ba".to_vec()), b"ba".to_vec());
    assert_eq!(advance_last_key(Some(b"b".to_vec()), vec![]), b"b".to_vec());
}

#[test]
fn read_progress_tracks_returned_rows() {
    let mut progress = ReadRowsProgress::new();
    assert_eq!(progress.last_key(), None);
    let rows = progress.take_response(
        vec![],
        vec![
            chunk(b"r1", Some("f"), Some(b"q"), 1, b"v", Some(RowStatus::CommitRow(true))),
            chunk(b"r2", Some("f"), Some(b"q"), 1, b"v", None),
        ],
    );
    assert_eq!(rows.len(), 1);
    assert_eq!(progress.last_key(), Some(b"r1".to_vec()));
    let rows = progress.take_response(
        b"r5".to_vec(),
        vec![chunk(b"", None, None, 1, b"w", Some(RowStatus::CommitRow(true)))],
    );
    assert_eq!(rows.len(), 1);
    assert_eq!(rows[0].key, b"r2".to_vec());
    assert_eq!(rows[0].families[0].columns[0].cells[0].value, b"vw".to_vec());
    // the scanned key is beyond the returned one
    assert_eq!(progress.last_key(), Some(b"r5".to_vec()));
}

#[test]
fn retry_skips_returned_rows() {
    let mut request = read_row_range_request(
        "p/",
        "t",
        KeyBound::Included(b"a".to_vec()),
        KeyBound::Excluded(b"z".to_vec()),
        None,
    );
    restrict_retry(&mut request, Some(b"m".to_vec()));
    let rows = request.rows.clone().unwrap();
    assert_eq!(
        rows.row_ranges,
        vec![RowRange {
            start_key: Some(StartKey::StartKeyOpen(b"m".to_vec())),
            end_key: Some(EndKey::EndKeyOpen(b"z".to_vec())),
        }]
    );
    // without a last key, nothing changes
    let before = request.rows.clone();
    restrict_retry(&mut request, None);
    assert_eq!(request.rows, before);
}

#[test]
fn row_set_restriction() {
    let mut set = RowSet::default()
        .with_key(b"a".to_vec())
        .with_key(b"n".to_vec())
        .with_range(KeyBound::Unbounded, KeyBound::Included(b"c".to_vec()))
        .with_range(KeyBound::Excluded(b"b".to_vec()), KeyBound::Unbounded);
    set.restrict_to_after(b"c".to_vec());
    assert_eq!(set.row_keys, vec![b"n".to_vec()]);
    assert_eq!(
        set.row_ranges,
        vec![RowRange { start_key: Some(StartKey::StartKeyOpen(b"c".to_vec())), end_key: None }]
    );
}

#[test]
fn range_restriction_keeps_later_start() {
    let mut range = RowRange {
        start_key: Some(StartKey::StartKeyClosed(b"d".to_vec())),
        end_key: None,
    };
    assert!(range.restrict_to_after(&b"c".to_vec()));
    assert_eq!(range.start_key, Some(StartKey::StartKeyClosed(b"d".to_vec())));
    let mut closed = RowRange { start_key: None, end_key: Some(EndKey::EndKeyClosed(b"c".to_vec())) };
    assert!(!closed.restrict_to_after(&b"c".to_vec()));
    assert_eq!(closed.end_key, Some(EndKey::EndKeyClosed(b"c".to_vec())));
}

#[test]
fn key_bounds() {
    assert_eq!(bound_to_start_key(&KeyBound::Included(b"a".to_vec())), Some(StartKey::StartKeyClosed(b"a".to_vec())));
    assert_eq!(bound_to_end_key(&KeyBound::Excluded(b"a".to_vec())), Some(EndKey::EndKeyOpen(b"a".to_vec())));
    assert_eq!(bound_to_end_key(&KeyBound::Unbounded), None);
    assert!(bytes_lt(b"ab", b"b"));
    assert!(bytes_lt(b"", b"a"));
    assert!(!bytes_lt(b"b", b"b"));
}

#[test]
fn restriction_past_every_key_empties_the_set() {
    let mut request = read_row_range_request(
        "p/",
        "t",
        KeyBound::Unbounded,
        KeyBound::Included(b"c".to_vec()),
        None,
    );
    restrict_retry(&mut request, Some(b"c".to_vec()));
    let rows = request.rows.unwrap();
    assert!(rows.row_keys.is_empty());
    assert!(rows.row_ranges.is_empty());
}

struct RetryTwiceAfterTen(u64);

impl RetryOperation<(), Status> for RetryTwiceAfterTen {
    fn check_retry(&mut self, _: &(), _: &Status) -> Option<u64> {
        self.0 += 1;
        if self.0 <= 2 { Some(10) } else { None }
    }
}

#[test]
fn retried_read_resumes_after_returned_rows() {
    let request = read_row_range_request(
        "p/",
        "t",
        KeyBound::Included(b"a".to_vec()),
        KeyBound::Excluded(b"z".to_vec()),
        None,
    );
    let mut retry = ReadRowsRetry::new(request, RetryTwiceAfterTen(0));
    let e = Status::new(Code::Unavailable, "unavailable".to_string());

    // the first attempt returns row c, then fails
    let mut progress = ReadRowsProgress::new();
    let rows = progress.take_response(
        vec![],
        vec![chunk(b"c", Some("f"), Some(b"q"), 1, b"v", Some(RowStatus::CommitRow(true)))],
    );
    assert_eq!(rows[0].key, b"c".to_vec());
    assert_eq!(retry.fail(&e, progress.last_key()), Some(10));
    assert_eq!(retry.request().table_name, "p/t");
    assert_eq!(
        retry.request().rows.clone().unwrap().row_ranges,
        vec![RowRange {
            start_key: Some(StartKey::StartKeyOpen(b"c".to_vec())),
            end_key: Some(EndKey::EndKeyOpen(b"z".to_vec())),
        }]
    );

    // the second attempt scans up to f, returns nothing, then fails
    let mut progress = ReadRowsProgress::new();
    let rows = progress.take_response(b"f".to_vec(), vec![]);
    assert!(rows.is_empty());
    assert_eq!(retry.fail(&e, progress.last_key()), Some(10));
    assert_eq!(
        retry.request().rows.clone().unwrap().row_ranges,
        vec![RowRange {
            start_key: Some(StartKey::StartKeyOpen(b"f".to_vec())),
            end_key: Some(EndKey::EndKeyOpen(b"z".to_vec())),
        }]
    );

    // the third failure is given up, and the request stays as it was
    let before = retry.request().rows.clone();
    assert_eq!(retry.fail(&e, Some(b"k".to_vec())), None);
    assert_eq!(retry.request().rows, before);
}
