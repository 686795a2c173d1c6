use oracle::buffer::ParamBuffer;
use oracle::dynamic::{ColTypeInfo, DynamicQuery, QueryError};
use oracle::json::FloatRenderer;
use oracle::meta::{ColumnInfo, PrimaryKey, TableInfo};
use oracle::parameter::{ParameterError, ParsedParameter};
use oracle::providers::{DynamicParamsProvider, DynamicResultsProvider};
use oracle::statement::ParamsProvider;
use oracle::query::{Query, Step};
use oracle::statement::Statement;
use oracle::temporal::SqlDate;
use oracle::text::ParseReason;
use oracle::types::{Identifier, Member, SqlType, TypeDescriptor};
use oracle::values::{encode, CodecError, Value};

type Employee = (i32, &'static str, (i32, u32, u32));

struct Floats;

impl FloatRenderer for Floats {
    fn render(&self, bits: u64) -> String {
        format!("{}", f64::from_bits(bits))
    }
}

fn info(name: &str, t: SqlType, len: usize) -> ColumnInfo {
    ColumnInfo {
        name: name.to_string(),
        col_type: t,
        oci_data_type: TypeDescriptor::new(t, len),
        nullable: false,
    }
}

fn emp() -> TableInfo {
    TableInfo {
        name: "EMP".to_string(),
        columns: vec![
            info("ID", SqlType::Int32, 0),
            info("NAME", SqlType::Varchar, 32),
            info("HIRED", SqlType::Date, 0),
        ],
        primary_key: Some(PrimaryKey { column_indices: vec![0] }),
    }
}

fn staff() -> Vec<Employee> {
    vec![(7, "ADA", (1815, 12, 10)), (8, "GRACE", (1906, 12, 9)), (9, "ADA", (1999, 7, 15))]
}

fn cells(e: &Employee) -> Vec<Value> {
    vec![
        Value::Int32(e.0),
        Value::Varchar(e.1.to_string()),
        Value::Date(SqlDate::from_ymd(e.2 .0, e.2 .1, e.2 .2).unwrap()),
    ]
}

/// Plays the database: finds the rows whose filter columns hold the bytes
/// of the parameter cells and delivers them batch by batch.
fn run(query: DynamicQuery, table: &TableInfo, rows: &[Employee], batch: usize) -> Vec<String> {
    let prepared = query.prepare_query(Floats);
    let sql = prepared.sql.clone();
    let mut stmt = Statement::prepare_dynamic(&sql, prepared.params_provider, Ok(())).unwrap();
    let mut q = stmt.query(*prepared.results_provider, batch, table.columns.len()).unwrap();
    stmt.execute(&prepared.params).unwrap();

    let conditions: Vec<&str> = sql.split(" WHERE ").nth(1).unwrap().split(" AND ").collect();
    let params = stmt.param_buffer();
    let mut found: Vec<&Employee> = Vec::new();
    for row in rows {
        let mut matches = true;
        for (i, condition) in conditions.iter().enumerate() {
            let name = condition.split(" = :").next().unwrap();
            assert_eq!(condition.split(" = :").nth(1).unwrap(), format!("{}", i + 1));
            let at = table.find_column(&name.to_string()).unwrap();
            let wanted = params.value(i, 0).unwrap();
            let held = encode(&cells(row)[at], 64).unwrap();
            if held.data != params.cell(&wanted) || held.indicator != params.indicator(&wanted) {
                matches = false;
            }
        }
        if matches {
            found.push(row);
        }
    }
    stmt.executed(Ok(0)).unwrap();

    let mut out = Vec::new();
    let mut next = 0;
    let mut step = q.next();
    loop {
        match step {
            Step::Fetch => {
                let n = std::cmp::min(batch, found.len() - next);
                for r in 0..n {
                    for (c, v) in cells(found[next + r]).iter().enumerate() {
                        let cell = encode(v, 64).unwrap();
                        q.store(c, r, &cell.data, cell.indicator).unwrap();
                    }
                }
                next += n;
                step = q.fetched(n, next == found.len()).unwrap();
            },
            Step::Row(k) => {
                out.push(q.row(k).unwrap());
                step = q.next();
            },
            Step::Done => break,
        }
    }
    out
}

/// Plays the database for a query that wants one row: a single fetch of a
/// batch of one.
fn run_one(query: DynamicQuery, table: &TableInfo, rows: &[Employee]) -> String {
    let prepared = query.prepare_query(Floats);
    let mut stmt =
        Statement::prepare_dynamic(&prepared.sql, prepared.params_provider, Ok(())).unwrap();
    let mut q: Query<DynamicResultsProvider<Floats>> =
        stmt.query(*prepared.results_provider, 1, table.columns.len()).unwrap();
    stmt.execute(&prepared.params).unwrap();
    let params = stmt.param_buffer();
    let wanted = params.cell(&params.value(0, 0).unwrap()).to_vec();
    stmt.executed(Ok(0)).unwrap();
    assert_eq!(q.next(), Step::Fetch);
    let found: Vec<&Employee> =
        rows.iter().filter(|e| e.0.to_le_bytes().to_vec() == wanted).collect();
    if let Some(e) = found.first() {
        for (c, v) in cells(e).iter().enumerate() {
            let cell = encode(v, 64).unwrap();
            q.store(c, 0, &cell.data, cell.indicator).unwrap();
        }
        q.fetched(1, found.len() == 1).unwrap();
    } else {
        q.fetched(0, true).unwrap();
    }
    DynamicQuery::fetch_one(&q)
}

#[test]
fn row_by_primary_key() {
    let q = DynamicQuery::create_from_pk("HR", &emp(), "7".to_string()).unwrap();
    assert_eq!(q.generate_sql(), "SELECT ID,NAME,HIRED FROM HR.EMP WHERE ID = :1");
    assert_eq!(
        run_one(q, &emp(), &staff()),
        "{\"ID\":7,\"NAME\":\"ADA\",\"HIRED\":\"1815-12-10\"}"
    );
}

#[test]
fn the_first_of_several_rows_is_taken() {
    let mut twice = staff();
    twice.insert(0, (7, "EVE", (2000, 1, 1)));
    let q = DynamicQuery::create_from_pk("HR", &emp(), "7".to_string()).unwrap();
    assert_eq!(
        run_one(q, &emp(), &twice),
        "{\"ID\":7,\"NAME\":\"EVE\",\"HIRED\":\"2000-01-01\"}"
    );
}

#[test]
fn missing_row_by_primary_key() {
    let q = DynamicQuery::create_from_pk("HR", &emp(), "42".to_string()).unwrap();
    assert_eq!(run_one(q, &emp(), &staff()), "{}");
}

#[test]
fn rows_by_column_filter() {
    let filters = vec![("NAME".to_string(), "ADA".to_string())];
    let q = DynamicQuery::create_from_params("HR", &emp(), filters).unwrap();
    assert_eq!(q.generate_sql(), "SELECT ID,NAME,HIRED FROM HR.EMP WHERE NAME = :1");
    let only_first = &staff()[..2];
    let rows = run(q, &emp(), only_first, 1);
    assert_eq!(
        DynamicQuery::fetch_many(rows),
        "[{\"ID\":7,\"NAME\":\"ADA\",\"HIRED\":\"1815-12-10\"}]"
    );
}

#[test]
fn many_rows_over_several_batches() {
    for batch in [1, 2, 3, 5] {
        let filters = vec![("NAME".to_string(), "ADA".to_string())];
        let q = DynamicQuery::create_from_params("HR", &emp(), filters).unwrap();
        let rows = run(q, &emp(), &staff(), batch);
        assert_eq!(
            DynamicQuery::fetch_many(rows),
            "[{\"ID\":7,\"NAME\":\"ADA\",\"HIRED\":\"1815-12-10\"},\
             {\"ID\":9,\"NAME\":\"ADA\",\"HIRED\":\"1999-07-15\"}]"
        );
    }
}

#[test]
fn filter_by_two_columns() {
    let filters = vec![
        ("NAME".to_string(), "ADA".to_string()),
        ("ID".to_string(), "9".to_string()),
    ];
    let q = DynamicQuery::create_from_params("HR", &emp(), filters).unwrap();
    assert_eq!(q.generate_sql(), "SELECT ID,NAME,HIRED FROM HR.EMP WHERE NAME = :1 AND ID = :2");
    let rows = run(q, &emp(), &staff(), 2);
    assert_eq!(
        DynamicQuery::fetch_many(rows),
        "[{\"ID\":9,\"NAME\":\"ADA\",\"HIRED\":\"1999-07-15\"}]"
    );
}

#[test]
fn no_rows_give_an_empty_array() {
    assert_eq!(DynamicQuery::fetch_many(vec![]), "[]");
    assert_eq!(
        DynamicQuery::fetch_many(vec!["{}".to_string(), "{\"A\":1}".to_string()]),
        "[{},{\"A\":1}]"
    );
}

#[test]
fn unknown_column() {
    let filters = vec![("FOO".to_string(), "x".to_string())];
    match DynamicQuery::create_from_params("HR", &emp(), filters) {
        Err(e) => {
            assert_eq!(e.message(), "Not found column FOO");
            assert!(matches!(e, QueryError::UnknownColumn(name) if name == "FOO"));
        },
        Ok(_) => panic!("expected an error"),
    }
}

#[test]
fn unparseable_primary_key() {
    match DynamicQuery::create_from_pk("HR", &emp(), "abc".to_string()) {
        Err(QueryError::ParseError { column, value, reason }) => {
            assert_eq!(column, "ID");
            assert_eq!(value, "abc");
            assert_eq!(reason, ParameterError::Invalid(ParseReason::InvalidDigit));
        },
        _ => panic!("expected a parse error"),
    }
}

#[test]
fn the_first_bad_filter_decides() {
    let filters = vec![
        ("NAME".to_string(), "ADA".to_string()),
        ("ID".to_string(), "99999999999".to_string()),
        ("FOO".to_string(), "x".to_string()),
    ];
    let e = DynamicQuery::create_from_params("HR", &emp(), filters).err().unwrap();
    assert_eq!(
        e.message(),
        "Can not parse parameter value 99999999999 for column ID: \
         number too large to fit in target type"
    );
    let filters = vec![
        ("FOO".to_string(), "x".to_string()),
        ("ID".to_string(), "abc".to_string()),
    ];
    let e = DynamicQuery::create_from_params("HR", &emp(), filters).err().unwrap();
    assert_eq!(e.message(), "Not found column FOO");
    let filters = vec![("HIRED".to_string(), "1815-12-10".to_string())];
    let e = DynamicQuery::create_from_params("HR", &emp(), filters).err().unwrap();
    assert_eq!(
        e.message(),
        "Can not parse parameter value 1815-12-10 for column HIRED: \
         Not supported type for Primary key"
    );
    assert!(matches!(
        e,
        QueryError::ParseError { reason: ParameterError::UnsupportedType, .. }
    ));
}

#[test]
fn primary_key_must_be_one_column_of_the_table() {
    let mut t = emp();
    t.primary_key = None;
    let e = DynamicQuery::create_from_pk("HR", &t, "7".to_string()).err().unwrap();
    assert!(matches!(e, QueryError::NoPrimaryKey));
    assert_eq!(e.message(), "Primary key not exists");
    t.primary_key = Some(PrimaryKey { column_indices: vec![0, 1] });
    let e = DynamicQuery::create_from_pk("HR", &t, "7".to_string()).err().unwrap();
    assert!(matches!(e, QueryError::CompositePrimaryKey));
    assert_eq!(e.message(), "Primary key must have only ONE column");
    t.primary_key = Some(PrimaryKey { column_indices: vec![] });
    let e = DynamicQuery::create_from_pk("HR", &t, "7".to_string()).err().unwrap();
    assert!(matches!(e, QueryError::MissingKeyColumn));
    assert_eq!(e.message(), "Primary key column not exists");
    t.primary_key = Some(PrimaryKey { column_indices: vec![3] });
    let e = DynamicQuery::create_from_pk("HR", &t, "7".to_string()).err().unwrap();
    assert!(matches!(e, QueryError::MissingKeyColumn));
    t.primary_key = Some(PrimaryKey { column_indices: vec![2] });
    let e = DynamicQuery::create_from_pk("HR", &t, "1815-12-10".to_string()).err().unwrap();
    assert!(matches!(e, QueryError::UnsupportedType));
    assert_eq!(e.message(), "Not supported type for Primary key");
    t.primary_key = Some(PrimaryKey { column_indices: vec![1] });
    let q = DynamicQuery::create_from_pk("HR", &t, "ADA".to_string()).unwrap();
    assert_eq!(q.generate_sql(), "SELECT ID,NAME,HIRED FROM HR.EMP WHERE NAME = :1");
}

#[test]
fn the_first_column_of_a_name_wins() {
    let mut t = emp();
    t.columns.push(info("NAME", SqlType::Int32, 0));
    assert_eq!(t.find_column(&"NAME".to_string()), Some(1));
    assert_eq!(t.find_column(&"name".to_string()), None);
    let filters = vec![("NAME".to_string(), "ADA".to_string())];
    assert!(DynamicQuery::create_from_params("HR", &t, filters).is_ok());
}

#[test]
fn a_query_without_filters_has_an_empty_where_clause() {
    let q = DynamicQuery::create_from_params("HR", &emp(), vec![]).unwrap();
    assert_eq!(q.generate_sql(), "SELECT ID,NAME,HIRED FROM HR.EMP WHERE ");
}

#[test]
fn placeholders_are_numbered_from_one() {
    let mut t = emp();
    t.columns = (0..12).map(|i| info(&format!("C{}", i), SqlType::Int16, 0)).collect();
    let filters = (0..12).map(|i| (format!("C{}", i), format!("{}", i))).collect();
    let sql = DynamicQuery::create_from_params("S", &t, filters).unwrap().generate_sql();
    assert!(sql.starts_with(
        "SELECT C0,C1,C2,C3,C4,C5,C6,C7,C8,C9,C10,C11 FROM S.EMP WHERE C0 = :1 AND C1 = :2"
    ));
    assert!(sql.ends_with(" AND C9 = :10 AND C10 = :11 AND C11 = :12"));
}

#[test]
fn parses_filter_values_by_type() {
    assert!(matches!(
        ParsedParameter::parse(SqlType::Int16, "-32768".to_string()),
        Ok(ParsedParameter::Int16(i16::MIN))
    ));
    assert!(matches!(
        ParsedParameter::parse(SqlType::Int16, "32768".to_string()),
        Err(ParameterError::Invalid(ParseReason::PosOverflow))
    ));
    assert!(matches!(
        ParsedParameter::parse(SqlType::Int32, "-2147483649".to_string()),
        Err(ParameterError::Invalid(ParseReason::NegOverflow))
    ));
    assert!(matches!(
        ParsedParameter::parse(SqlType::Int32, "+2147483647".to_string()),
        Ok(ParsedParameter::Int32(i32::MAX))
    ));
    assert!(matches!(
        ParsedParameter::parse(SqlType::Int64, "9223372036854775807".to_string()),
        Ok(ParsedParameter::Int64(i64::MAX))
    ));
    assert!(matches!(
        ParsedParameter::parse(SqlType::Int64, "".to_string()),
        Err(ParameterError::Invalid(ParseReason::Empty))
    ));
    assert!(matches!(
        ParsedParameter::parse(SqlType::Varchar, "".to_string()),
        Ok(ParsedParameter::Varchar(s)) if s.is_empty()
    ));
    for t in [
        SqlType::UInt16,
        SqlType::UInt32,
        SqlType::UInt64,
        SqlType::Float64,
        SqlType::Date,
        SqlType::DateTime,
        SqlType::Boolean,
    ] {
        assert!(matches!(
            ParsedParameter::parse(t, "1".to_string()),
            Err(ParameterError::UnsupportedType)
        ));
    }
}

#[test]
fn reasons_in_words() {
    assert_eq!(ParseReason::Empty.text(), "cannot parse integer from empty string");
    assert_eq!(ParseReason::InvalidDigit.text(), "invalid digit found in string");
    assert_eq!(ParseReason::PosOverflow.text(), "number too large to fit in target type");
    assert_eq!(ParseReason::NegOverflow.text(), "number too small to fit in target type");
    assert_eq!(ParameterError::UnsupportedType.text(), "Not supported type for Primary key");
    assert_eq!(
        ParameterError::Invalid(ParseReason::Empty).text(),
        "cannot parse integer from empty string"
    );
}

#[test]
fn projects_a_filter_value_into_its_cell() {
    let members = vec![
        Member::new(TypeDescriptor::new(SqlType::Int64, 0), Identifier::Unnamed),
        Member::new(TypeDescriptor::new(SqlType::Varchar, 3), Identifier::Unnamed),
    ];
    let mut buffer = ParamBuffer::new(members, 1).unwrap();
    let number = buffer.value(0, 0).unwrap();
    let text = buffer.value(1, 0).unwrap();
    assert_eq!(ParsedParameter::Int64(-2).project_value(&mut buffer, &number), Ok(8));
    assert_eq!(buffer.cell(&number), &(-2i64).to_le_bytes());
    assert_eq!(
        ParsedParameter::Varchar("ADA".to_string()).project_value(&mut buffer, &text),
        Ok(3)
    );
    assert_eq!(buffer.cell(&text), b"ADA");
    assert_eq!(
        ParsedParameter::Varchar("ADAL".to_string()).project_value(&mut buffer, &text),
        Err(CodecError::Truncation)
    );
    assert_eq!(
        ParsedParameter::Int16(1).project_value(&mut buffer, &number),
        Err(CodecError::Encoding)
    );
    assert_eq!(buffer.cell(&text), b"ADA");
}

#[test]
fn column_type_info_is_taken_from_the_catalog() {
    let c = info("NAME", SqlType::Varchar, 32);
    let t = ColTypeInfo::new(&c);
    assert_eq!(t.col_type, SqlType::Varchar);
    assert_eq!(t.oci_data_type, TypeDescriptor::new(SqlType::Varchar, 32));
}

#[test]
fn rendered_row_has_one_member_per_column_in_order() {
    let mut t = emp();
    t.columns.push(info("BOSS", SqlType::Int32, 0));
    t.columns.push(info("PAY", SqlType::Float64, 0));
    let q = DynamicQuery::create_from_pk("HR", &t, "7".to_string()).unwrap();
    let prepared = q.prepare_query(Floats);
    let mut stmt =
        Statement::prepare_dynamic(&prepared.sql, prepared.params_provider, Ok(())).unwrap();
    let mut query = stmt.query(*prepared.results_provider, 1, 5).unwrap();
    query.store(0, 0, &[7, 0, 0, 0], 0).unwrap();
    query.store(1, 0, b"A\"DA", 0).unwrap();
    query.store(2, 0, &[0; 7], 0).unwrap();
    query.store(3, 0, &[], -1).unwrap();
    query.store(4, 0, &2.5f64.to_le_bytes(), 0).unwrap();
    query.fetched(1, true).unwrap();
    assert_eq!(
        query.row(0).unwrap(),
        "{\"ID\":7,\"NAME\":\"A\\\"DA\",\"HIRED\":value cannot be encoded,\
         \"BOSS\":null,\"PAY\":2.5}"
    );
}

#[test]
fn filter_values_leave_other_rows_and_later_slots() {
    let members = vec![
        Member::new(TypeDescriptor::new(SqlType::Int32, 0), Identifier::Unnamed),
        Member::new(TypeDescriptor::new(SqlType::Varchar, 3), Identifier::Unnamed),
    ];
    let mut buffer = ParamBuffer::new(members, 2).unwrap();
    for row in 0..2 {
        let number = buffer.value(0, row).unwrap();
        let text = buffer.value(1, row).unwrap();
        ParsedParameter::Int32(row as i32 + 1).project_value(&mut buffer, &number).unwrap();
        ParsedParameter::Varchar("ADA".to_string()).project_value(&mut buffer, &text).unwrap();
    }
    let before = buffer.region().to_vec();
    let provider = DynamicParamsProvider::new(vec![
        ColTypeInfo {
            col_type: SqlType::Int32,
            oci_data_type: TypeDescriptor::new(SqlType::Int32, 0),
        },
        ColTypeInfo {
            col_type: SqlType::Varchar,
            oci_data_type: TypeDescriptor::new(SqlType::Varchar, 3),
        },
    ]);
    provider.project_values(&vec![ParsedParameter::Int32(77)], &mut buffer).unwrap();
    assert_eq!(&buffer.region()[..4], &77i32.to_le_bytes());
    assert_eq!(&buffer.region()[4..], &before[4..]);
    for (column, row) in [(0, 1), (1, 0), (1, 1)] {
        let at = buffer.value(column, row).unwrap();
        assert_eq!(buffer.indicator(&at), 0);
    }
    assert_eq!(buffer.cell(&buffer.value(0, 1).unwrap()), &2i32.to_le_bytes());
    assert_eq!(buffer.cell(&buffer.value(1, 0).unwrap()), b"ADA");
}
