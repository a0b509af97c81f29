use ya_gcp::bigtable::{mutate_rows_outcome, MutateRowsError};
use ya_gcp::bigtable::admin::{
    create_table_request, list_tables_request, next_page_token, table_prefix,
    BigtableTableAdminConfig, GcRule, Rule,
};
use ya_gcp::bigtable::emulator::Emulator;
use ya_gcp::bigtable::filters::{Chain, Filter, RowFilter};
use ya_gcp::bigtable::mutation::{
    collect_failed_entries, DeleteFromRow, Entry, MutateRowsResponseEntry, Mutation, RowStatusCode,
    SetCell,
};
use ya_gcp::bigtable::{
    delete_rows_request, full_table_name, read_one_row_request, read_row_range_keys_request,
    read_row_range_request, set_row_data_request, set_rows_data_request, BigtableConfig,
    BigtableRetryCheck, KeyBound, MutateRowRequest, MutateRowsRequest,
    BIGTABLE_DATA_READONLY_SCOPE, BIGTABLE_DATA_SCOPE,
};
use ya_gcp::grpc::{Code, Status};
use ya_gcp::retry_policy::RetryPredicate;

#[test]
fn table_names() {
    let prefix = table_prefix("my-project", "my-instance");
    assert_eq!(prefix, "projects/my-project/instances/my-instance");
    assert_eq!(
        full_table_name(&(prefix + "/tables/"), "t1"),
        "projects/my-project/instances/my-instance/tables/t1"
    );
}

#[test]
fn configs_and_scopes() {
    let c = BigtableConfig::new();
    assert_eq!(c.endpoint, "https://bigtable.googleapis.com");
    assert_eq!(c.auth_scopes(), vec![BIGTABLE_DATA_SCOPE.to_string()]);
    let c = c.readonly(true);
    assert_eq!(c.auth_scopes(), vec![BIGTABLE_DATA_READONLY_SCOPE.to_string()]);
    assert_eq!(BigtableConfig::default().endpoint, "https://bigtable.googleapis.com");
    assert_eq!(
        BigtableTableAdminConfig::default().endpoint,
        "https://bigtableadmin.googleapis.com"
    );
}

#[test]
fn retry_check() {
    let check = BigtableRetryCheck::new();
    for code in [Code::DeadlineExceeded, Code::Unavailable, Code::Aborted] {
        assert!(check.is_retriable(&Status::new(code, String::new())));
    }
    for code in [Code::Internal, Code::NotFound, Code::Okay, Code::Unknown] {
        assert!(!check.is_retriable(&Status::new(code, String::new())));
    }
}

#[test]
fn mutation_builders() {
    let sc = SetCell::new("fam".to_string(), b"q".to_vec(), b"v".to_vec()).with_timestamp(42);
    assert_eq!(sc.timestamp_micros, 42);
    let e = Entry::new(b"row".to_vec())
        .with_mutation(Mutation::SetCell(sc.clone()))
        .with_mutations(vec![Mutation::DeleteFromRow(DeleteFromRow {})]);
    assert_eq!(e.row_key, b"row".to_vec());
    assert_eq!(e.mutations.len(), 2);
    assert_eq!(e.mutations[0].mutation, Some(Mutation::SetCell(sc.clone())));
    assert_eq!(e.mutations[1].mutation, Some(Mutation::DeleteFromRow(DeleteFromRow {})));

    let r = MutateRowRequest::new("t".to_string(), b"k".to_vec())
        .with_mutation(Mutation::SetCell(sc.clone()));
    assert_eq!(r.table_name, "t");
    assert_eq!(r.mutations.len(), 1);

    let rs = MutateRowsRequest::new("t".to_string())
        .with_entry(Entry::new(b"a".to_vec()))
        .with_entries(vec![Entry::new(b"b".to_vec()), Entry::new(b"c".to_vec())]);
    let keys: Vec<Vec<u8>> = rs.entries.iter().map(|e| e.row_key.clone()).collect();
    assert_eq!(keys, vec![b"a".to_vec(), b"b".to_vec(), b"c".to_vec()]);
}

#[test]
fn failed_entries_are_collected_in_order() {
    let entry = |index: i64, code: Option<i32>| MutateRowsResponseEntry {
        index,
        status: code.map(|code| RowStatusCode { code, message: String::new() }),
    };
    let mut errors = vec![entry(0, Some(5))];
    collect_failed_entries(&mut errors, vec![entry(1, Some(0)), entry(2, Some(3)), entry(3, None), entry(4, Some(14))]);
    let indices: Vec<i64> = errors.iter().map(|e| e.index).collect();
    assert_eq!(indices, vec![0, 2, 4]);
}

#[test]
fn read_requests() {
    let r = read_row_range_keys_request(
        "p/",
        "t",
        KeyBound::Included(b"a".to_vec()),
        KeyBound::Excluded(b"m".to_vec()),
        Some(5),
    );
    assert_eq!(r.table_name, "p/t");
    assert_eq!(r.rows_limit, 5);
    let rows = r.rows.expect("rows set");
    assert_eq!(rows.row_ranges.len(), 1);
    assert!(rows.row_keys.is_empty());
    match r.filter.and_then(|f| f.filter) {
        Some(Filter::Chain(c)) => assert_eq!(
            c.filters,
            vec![
                RowFilter { filter: Some(Filter::CellsPerRowLimitFilter(1)) },
                RowFilter { filter: Some(Filter::CellsPerColumnLimitFilter(1)) },
                RowFilter { filter: Some(Filter::StripValueTransformer(true)) },
            ]
        ),
        _ => panic!("expected a chain"),
    }

    let r = read_row_range_request("p/", "t", KeyBound::Unbounded, KeyBound::Unbounded, None);
    assert_eq!(r.rows_limit, 0);
    assert_eq!(r.filter, Some(RowFilter { filter: Some(Filter::CellsPerColumnLimitFilter(1)) }));

    let r = read_one_row_request("p/", "t", b"row1".to_vec());
    assert_eq!(r.rows.unwrap().row_keys, vec![b"row1".to_vec()]);
}

#[test]
fn write_requests() {
    let r = delete_rows_request("p/", "t", vec![b"a".to_vec(), b"b".to_vec()]);
    assert_eq!(r.entries.len(), 2);
    assert_eq!(r.entries[0].row_key, b"a".to_vec());
    assert_eq!(r.entries[1].row_key, b"b".to_vec());
    assert_eq!(
        r.entries[1].mutations[0].mutation,
        Some(Mutation::DeleteFromRow(DeleteFromRow {}))
    );

    let r = set_row_data_request(
        "p/",
        "t",
        "fam".to_string(),
        b"row".to_vec(),
        vec![(b"q1".to_vec(), b"v1".to_vec()), (b"q2".to_vec(), b"v2".to_vec())],
    );
    assert_eq!(r.table_name, "p/t");
    assert_eq!(r.row_key, b"row".to_vec());
    assert_eq!(
        r.mutations[1].mutation,
        Some(Mutation::SetCell(SetCell {
            family_name: "fam".to_string(),
            column_qualifier: b"q2".to_vec(),
            timestamp_micros: -1,
            value: b"v2".to_vec(),
        }))
    );

    let r = set_rows_data_request(
        "p/",
        "t",
        "fam".to_string(),
        Some(7),
        vec![(b"r1".to_vec(), vec![(b"q".to_vec(), b"v".to_vec())]), (b"r2".to_vec(), vec![])],
    );
    assert_eq!(r.entries.len(), 2);
    assert_eq!(r.entries[0].row_key, b"r1".to_vec());
    assert!(r.entries[1].mutations.is_empty());
    match &r.entries[0].mutations[0].mutation {
        Some(Mutation::SetCell(sc)) => assert_eq!(sc.timestamp_micros, 7),
        _ => panic!("expected a set cell"),
    }
}

#[test]
fn gc_rule_composition() {
    let u = Rule::MaxNumVersions(1).union(Rule::MaxAgeSeconds(60));
    match &u {
        Rule::Union(u) => assert_eq!(u.rules.len(), 2),
        _ => panic!("expected a union"),
    }
    let u = u.union(Rule::MaxNumVersions(3));
    match &u {
        Rule::Union(u) => assert_eq!(u.rules.len(), 3),
        _ => panic!("expected a union"),
    }
    let i = Rule::MaxNumVersions(1).intersection(Rule::MaxNumVersions(2));
    match i {
        Rule::Intersection(i) => assert_eq!(
            i.rules,
            vec![
                GcRule { rule: Some(Rule::MaxNumVersions(1)) },
                GcRule { rule: Some(Rule::MaxNumVersions(2)) }
            ]
        ),
        _ => panic!("expected an intersection"),
    }
}

#[test]
fn chain_with_filter_appends() {
    let c = Chain { filters: vec![] }
        .with_filter(Filter::PassAllFilter(true))
        .with_filter(Filter::BlockAllFilter(true));
    assert_eq!(c.filters.len(), 2);
    assert_eq!(c.filters[1], RowFilter { filter: Some(Filter::BlockAllFilter(true)) });
}

#[test]
fn bigtable_emulator_builder() {
    let e = Emulator::new().connection_retry_limit(3);
    let e = e.instance("inst".to_string());
    assert_eq!(e.retry_limit(), 3);
    let e = e.project("proj".to_string());
    let (project, instance, limit) = e.into_settings();
    assert_eq!(project, "proj");
    assert_eq!(instance, "inst");
    assert_eq!(limit, 3);
}

#[test]
fn create_table_request_families() {
    let r = create_table_request(
        "projects/p/instances/i",
        "t1".to_string(),
        vec![
            ("a".to_string(), Rule::MaxNumVersions(1)),
            ("b".to_string(), Rule::MaxAgeSeconds(30)),
            ("a".to_string(), Rule::MaxNumVersions(5)),
        ],
    );
    assert_eq!(r.parent, "projects/p/instances/i");
    assert_eq!(r.table_id, "t1");
    assert_eq!(r.column_families.len(), 2);
    let a = r.column_families.iter().find(|(n, _)| n == "a").unwrap();
    assert_eq!(a.1.gc_rule, Some(GcRule { rule: Some(Rule::MaxNumVersions(5)) }));
    let b = r.column_families.iter().find(|(n, _)| n == "b").unwrap();
    assert_eq!(b.1.gc_rule, Some(GcRule { rule: Some(Rule::MaxAgeSeconds(30)) }));

    let l = list_tables_request("projects/p/instances/i", String::new());
    assert_eq!(l.parent, "projects/p/instances/i");
    assert_eq!(l.page_token, "");
    assert_eq!(next_page_token(String::new()), None);
    assert_eq!(next_page_token("tok".to_string()), Some("tok".to_string()));
}

#[test]
fn mutate_rows_outcome_reports_failed_entries() {
    let entry = |index: i64, code: Option<i32>| MutateRowsResponseEntry {
        index,
        status: code.map(|code| RowStatusCode { code, message: String::new() }),
    };
    assert!(mutate_rows_outcome(vec![]).is_ok());
    let mut errors = Vec::new();
    collect_failed_entries(&mut errors, vec![entry(1, Some(0)), entry(2, Some(3))]);
    collect_failed_entries(&mut errors, vec![entry(3, Some(14))]);
    match mutate_rows_outcome(errors) {
        Err(MutateRowsError::RowErrors(v)) => {
            assert_eq!(v.iter().map(|e| e.index).collect::<Vec<_>>(), vec![2, 3]);
        }
        other => panic!("unexpected {:?}", other),
    }
}
