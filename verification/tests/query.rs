use oracle::dynamic::ColTypeInfo;
use oracle::json::FloatRenderer;
use oracle::providers::DynamicResultsProvider;
use oracle::query::{Query, QueryIterator, QueryState, ResultsProvider, Step};
use oracle::statement::StatementError;
use oracle::types::{SqlType, TypeDescriptor};
use oracle::values::CodecError;

fn column(t: SqlType, len: usize) -> ColTypeInfo {
    ColTypeInfo { col_type: t, oci_data_type: TypeDescriptor::new(t, len) }
}

struct Floats;

impl FloatRenderer for Floats {
    fn render(&self, bits: u64) -> String {
        format!("{}", f64::from_bits(bits))
    }
}

fn provider() -> DynamicResultsProvider<Floats> {
    DynamicResultsProvider::new(
        vec!["ID".to_string(), "NAME".to_string()],
        vec![column(SqlType::Int32, 0), column(SqlType::Varchar, 8)],
        Floats,
    )
}

#[test]
fn walks_through_batches_row_by_row() {
    let mut it = QueryIterator::new();
    assert_eq!(it.state, QueryState::Ready);
    assert_eq!(it.next(), Step::Fetch);
    assert_eq!(it.fetched(3, false), Step::Row(0));
    assert_eq!(it.state, QueryState::HasBatch(3, 0));
    assert_eq!(it.next(), Step::Row(1));
    assert_eq!(it.next(), Step::Row(2));
    assert_eq!(it.state, QueryState::HasBatch(3, 2));
    assert_eq!(it.next(), Step::Fetch);
    assert_eq!(it.fetched(1, true), Step::Row(0));
    assert_eq!(it.next(), Step::Done);
    assert_eq!(it.state, QueryState::Exhausted);
}

#[test]
fn a_fetch_without_rows_exhausts() {
    let mut it = QueryIterator::new();
    assert_eq!(it.next(), Step::Fetch);
    assert_eq!(it.fetched(0, false), Step::Done);
    assert_eq!(it.state, QueryState::Exhausted);
    let mut it = QueryIterator::new();
    it.fetched(2, false);
    it.next();
    assert_eq!(it.next(), Step::Fetch);
    assert_eq!(it.fetched(0, true), Step::Done);
    assert_eq!(it.state, QueryState::Exhausted);
}

#[test]
fn exhausted_stays_exhausted_and_asks_for_no_fetch() {
    let mut it = QueryIterator::new();
    it.fetched(0, true);
    for _ in 0..5 {
        assert_eq!(it.next(), Step::Done);
        assert_eq!(it.state, QueryState::Exhausted);
    }
    assert_eq!(it.fetched(4, false), Step::Done);
    assert_eq!(it.state, QueryState::Exhausted);
    assert_eq!(it.next(), Step::Done);
}

#[test]
fn query_refuses_another_column_count() {
    match Query::new(provider(), 1, 3) {
        Err(StatementError::Protocol { declared, described }) => {
            assert_eq!((declared, described), (2, 3));
        },
        _ => panic!("expected a protocol error"),
    }
    assert!(matches!(Query::new(provider(), 0, 2), Err(StatementError::Size)));
    assert!(Query::new(provider(), 1, 2).is_ok());
}

#[test]
fn query_tells_what_to_define() {
    let q = Query::new(provider(), 4, 2).unwrap();
    let d = q.definitions();
    assert_eq!(d.len(), 2);
    assert_eq!(
        (d[0].position, d[0].native_code, d[0].offset, d[0].capacity, d[0].slot),
        (1, 3, 0, 4, 0)
    );
    assert_eq!(
        (d[1].position, d[1].native_code, d[1].offset, d[1].capacity, d[1].slot),
        (2, 1, 16, 8, 4)
    );
    assert_eq!(provider().sql_descriptors().len(), 2);
}

#[test]
fn query_decodes_the_rows_of_a_batch() {
    let mut q = Query::new(provider(), 2, 2).unwrap();
    assert_eq!(q.next(), Step::Fetch);
    q.store(0, 0, &[7, 0, 0, 0], 0).unwrap();
    q.store(1, 0, b"ADA", 0).unwrap();
    q.store(0, 1, &[8, 0, 0, 0], 0).unwrap();
    q.store(1, 1, b"", -1).unwrap();
    assert!(matches!(q.fetched(2, false), Ok(Step::Row(0))));
    assert_eq!(q.row(0).unwrap(), "{\"ID\":7,\"NAME\":\"ADA\"}");
    assert_eq!(q.next(), Step::Row(1));
    assert_eq!(q.row(1).unwrap(), "{\"ID\":8,\"NAME\":null}");
    assert!(q.row(2).is_none());
    assert_eq!(
        q.rows(),
        vec!["{\"ID\":7,\"NAME\":\"ADA\"}".to_string(), "{\"ID\":8,\"NAME\":null}".to_string()]
    );
    assert_eq!(q.next(), Step::Fetch);
    assert!(matches!(q.fetched(0, true), Ok(Step::Done)));
    assert_eq!(q.position().state, QueryState::Exhausted);
    assert_eq!(q.next(), Step::Done);
    assert_eq!(q.result_buffer().fetched(), 0);
}

#[test]
fn query_refuses_cells_and_rows_it_does_not_have() {
    let mut q = Query::new(provider(), 2, 2).unwrap();
    assert_eq!(q.store(2, 0, &[1], 0), Err(CodecError::Encoding));
    assert_eq!(q.store(0, 2, &[1], 0), Err(CodecError::Encoding));
    assert_eq!(q.store(0, 0, &[1, 2, 3, 4, 5], 0), Err(CodecError::Truncation));
    match q.fetched(3, false) {
        Err(StatementError::Protocol { declared, described }) => {
            assert_eq!((declared, described), (2, 3));
        },
        _ => panic!("expected a protocol error"),
    }
    assert_eq!(q.position().state, QueryState::Ready);
}
