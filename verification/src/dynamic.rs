//! Queries whose shape is found at runtime from catalog metadata.

use crate::json::{json_array, FloatRenderer};
use crate::meta::{column_position, ColumnInfo, TableInfo};
use crate::parameter::{ParameterError, ParsedParameter, ParsedValue};
use crate::providers::{json_row, parsed_values, DynamicParamsProvider, DynamicResultsProvider};
use crate::query::Query;
use crate::text::{decimal, join, join_strings, push_char, push_decimal, texts};
use crate::types::{SqlType, TypeDescriptor};
use vstd::prelude::*;

verus! {

/// What a dynamic query keeps of a column: its logical type and its native
/// descriptor.
#[derive(Clone, Copy, Debug, PartialEq, Eq, Structural)]
pub struct ColTypeInfo {
    pub col_type: SqlType,
    pub oci_data_type: TypeDescriptor,
}

impl ColTypeInfo {
    /// The type information of a catalog column.
    pub open spec fn of(info: ColumnInfo) -> ColTypeInfo {
        ColTypeInfo { col_type: info.col_type, oci_data_type: info.oci_data_type }
    }

    pub fn new(info: &ColumnInfo) -> (c: ColTypeInfo)
        ensures
            c == Self::of(*info),
    {
        ColTypeInfo { col_type: info.col_type, oci_data_type: info.oci_data_type }
    }
}

/// Why a dynamic query could not be built.
#[derive(Clone, Debug, PartialEq, Eq)]
pub enum QueryError {
    /// The table has no primary key.
    NoPrimaryKey,
    /// The primary key spans more than one column.
    CompositePrimaryKey,
    /// The primary key names no column of the table.
    MissingKeyColumn,
    /// A filter names a column that the table does not have.
    UnknownColumn(String),
    /// A filter value does not parse to the type of its column.
    ParseError { column: String, value: String, reason: ParameterError },
    /// The key column's type cannot be used as a filter key.
    UnsupportedType,
}

/// Mathematical value of a [`QueryError`].
pub enum QueryErrorView {
    NoPrimaryKey,
    CompositePrimaryKey,
    MissingKeyColumn,
    UnknownColumn(Seq<char>),
    ParseError { column: Seq<char>, value: Seq<char>, reason: ParameterError },
    UnsupportedType,
}

impl View for QueryError {
    type V = QueryErrorView;

    open spec fn view(&self) -> QueryErrorView {
        match self {
            QueryError::NoPrimaryKey => QueryErrorView::NoPrimaryKey,
            QueryError::CompositePrimaryKey => QueryErrorView::CompositePrimaryKey,
            QueryError::MissingKeyColumn => QueryErrorView::MissingKeyColumn,
            QueryError::UnknownColumn(name) => QueryErrorView::UnknownColumn(name@),
            QueryError::ParseError { column, value, reason } => QueryErrorView::ParseError {
                column: column@,
                value: value@,
                reason: *reason,
            },
            QueryError::UnsupportedType => QueryErrorView::UnsupportedType,
        }
    }
}

impl QueryErrorView {
    /// The message shown to the caller.
    pub open spec fn message(self) -> Seq<char> {
        match self {
            QueryErrorView::NoPrimaryKey => "Primary key not exists"@,
            QueryErrorView::CompositePrimaryKey => "Primary key must have only ONE column"@,
            QueryErrorView::MissingKeyColumn => "Primary key column not exists"@,
            QueryErrorView::UnknownColumn(name) => "Not found column "@ + name,
            QueryErrorView::ParseError { column, value, reason } =>
                "Can not parse parameter value "@ + value + " for column "@ + column + ": "@
                    + reason.spec_text(),
            QueryErrorView::UnsupportedType => ParameterError::UnsupportedType.spec_text(),
        }
    }
}

impl QueryError {
    /// The message shown to the caller.
    pub fn message(&self) -> (s: String)
        ensures
            s@ == self@.message(),
    {
        match self {
            QueryError::NoPrimaryKey => String::from_str("Primary key not exists"),
            QueryError::CompositePrimaryKey => String::from_str(
                "Primary key must have only ONE column",
            ),
            QueryError::MissingKeyColumn => String::from_str("Primary key column not exists"),
            QueryError::UnknownColumn(name) => {
                let mut s = String::from_str("Not found column ");
                s.append(name.as_str());
                s
            },
            QueryError::ParseError { column, value, reason } => {
                let mut s = String::from_str("Can not parse parameter value ");
                s.append(value.as_str());
                s.append(" for column ");
                s.append(column.as_str());
                s.append(": ");
                s.append(reason.text());
                s
            },
            QueryError::UnsupportedType => String::from_str(ParameterError::UnsupportedType.text()),
        }
    }
}

/// A query for the rows of one table that match a list of column filters.
pub struct DynamicQuery {
    table_name: String,
    columns: Vec<ColTypeInfo>,
    column_names: Vec<String>,
    param_columns: Vec<ColTypeInfo>,
    param_column_names: Vec<String>,
    parsed_params: Vec<ParsedParameter>,
}

/// Mathematical value of a [`DynamicQuery`].
pub struct DynamicQueryView {
    /// Schema and table, joined by a dot.
    pub table_name: Seq<char>,
    /// Types of the result columns, in catalog order.
    pub columns: Seq<ColTypeInfo>,
    /// Names of the result columns, in catalog order.
    pub column_names: Seq<Seq<char>>,
    /// Types of the filter columns, in the order of the filters.
    pub param_columns: Seq<ColTypeInfo>,
    /// Names of the filter columns.
    pub param_column_names: Seq<Seq<char>>,
    /// Values of the filters.
    pub parsed_params: Seq<ParsedValue>,
}

impl DynamicQueryView {
    /// Names and types go in pairs, and each filter value has the type of
    /// its column.
    pub open spec fn wf(self) -> bool {
        &&& self.columns.len() == self.column_names.len()
        &&& self.param_columns.len() == self.param_column_names.len()
        &&& self.param_columns.len() == self.parsed_params.len()
        &&& forall|k: int|
            0 <= k < self.parsed_params.len() ==> #[trigger] self.parsed_params[k].sql_type()
                == self.param_columns[k].col_type
    }
}

impl View for DynamicQuery {
    type V = DynamicQueryView;

    closed spec fn view(&self) -> DynamicQueryView {
        DynamicQueryView {
            table_name: self.table_name@,
            columns: self.columns@,
            column_names: texts(self.column_names@),
            param_columns: self.param_columns@,
            param_column_names: texts(self.param_column_names@),
            parsed_params: Seq::new(self.parsed_params@.len(), |i: int| self.parsed_params@[i]@),
        }
    }
}

/// What becomes of one filter.
pub enum Resolved {
    /// The column exists and the value parses to its type.
    Bound(ColTypeInfo, ParsedValue),
    /// The table has no column of that name.
    UnknownColumn,
    /// The value does not parse to the column's type.
    Unparsed(ParameterError),
}

/// Looks the filter's column up and parses the value to its type.
pub open spec fn resolve(columns: Seq<ColumnInfo>, name: Seq<char>, value: Seq<char>) -> Resolved {
    match column_position(columns, name) {
        None => Resolved::UnknownColumn,
        Some(i) => match ParsedParameter::spec_parse(columns[i].col_type, value) {
            Err(e) => Resolved::Unparsed(e),
            Ok(p) => Resolved::Bound(ColTypeInfo::of(columns[i]), p),
        },
    }
}

/// Position of the first filter that is not [`Resolved::Bound`], or the
/// number of filters when all are.
pub open spec fn first_fault(columns: Seq<ColumnInfo>, params: Seq<(String, String)>) -> int
    decreases params.len(),
{
    if params.len() == 0 {
        0
    } else {
        let earlier = first_fault(columns, params.drop_last());
        if earlier < params.len() - 1 {
            earlier
        } else if resolve(columns, params.last().0@, params.last().1@) is Bound {
            params.len() as int
        } else {
            params.len() - 1
        }
    }
}

/// A fault among the first `k` filters is the first fault of the whole list.
pub proof fn lemma_first_fault_stays(
    columns: Seq<ColumnInfo>,
    params: Seq<(String, String)>,
    k: int,
)
    requires
        0 <= k <= params.len(),
        first_fault(columns, params.take(k)) < k,
    ensures
        first_fault(columns, params) == first_fault(columns, params.take(k)),
    decreases params.len(),
{
    if k == params.len() {
        assert(params.take(k) =~= params);
    } else {
        assert(params.drop_last().take(k) =~= params.take(k));
        lemma_first_fault_stays(columns, params.drop_last(), k);
    }
}

/// Schema and table, joined by a dot.
pub open spec fn qualified_name(schema: Seq<char>, table: Seq<char>) -> Seq<char> {
    schema + "."@ + table
}

/// Types of all columns of a table.
pub open spec fn column_types(columns: Seq<ColumnInfo>) -> Seq<ColTypeInfo> {
    Seq::new(columns.len(), |i: int| ColTypeInfo::of(columns[i]))
}

/// Names of all columns of a table.
pub open spec fn column_names(columns: Seq<ColumnInfo>) -> Seq<Seq<char>> {
    Seq::new(columns.len(), |i: int| columns[i].name@)
}

/// The query for `params` when each of them resolves.
pub open spec fn query_for(
    schema: Seq<char>,
    table: TableInfo,
    params: Seq<(String, String)>,
) -> DynamicQueryView {
    DynamicQueryView {
        table_name: qualified_name(schema, table.name@),
        columns: column_types(table.columns@),
        column_names: column_names(table.columns@),
        param_columns: Seq::new(
            params.len(),
            |k: int| resolve(table.columns@, params[k].0@, params[k].1@)->Bound_0,
        ),
        param_column_names: Seq::new(params.len(), |k: int| params[k].0@),
        parsed_params: Seq::new(
            params.len(),
            |k: int| resolve(table.columns@, params[k].0@, params[k].1@)->Bound_1,
        ),
    }
}

/// What [`DynamicQuery::create_from_params`] returns: the query when every
/// filter resolves, else the error of the first filter that does not.
pub open spec fn params_outcome(
    schema: Seq<char>,
    table: TableInfo,
    params: Seq<(String, String)>,
) -> Result<DynamicQueryView, QueryErrorView> {
    let k = first_fault(table.columns@, params);
    if k == params.len() {
        Ok(query_for(schema, table, params))
    } else {
        match resolve(table.columns@, params[k].0@, params[k].1@) {
            Resolved::UnknownColumn => Err(QueryErrorView::UnknownColumn(params[k].0@)),
            Resolved::Unparsed(reason) => Err(
                QueryErrorView::ParseError { column: params[k].0@, value: params[k].1@, reason },
            ),
            Resolved::Bound(_, _) => Ok(query_for(schema, table, params)),
        }
    }
}

/// What [`DynamicQuery::create_from_pk`] returns: the query that filters on
/// the single column of the primary key, or the reason why there is none.
pub open spec fn pk_outcome(schema: Seq<char>, table: TableInfo, parameter: Seq<char>) -> Result<
    DynamicQueryView,
    QueryErrorView,
> {
    match table.primary_key {
        None => Err(QueryErrorView::NoPrimaryKey),
        Some(pk) => {
            let indices = pk.column_indices@;
            if indices.len() > 1 {
                Err(QueryErrorView::CompositePrimaryKey)
            } else if indices.len() == 0 || indices[0] >= table.columns@.len() {
                Err(QueryErrorView::MissingKeyColumn)
            } else {
                let column = table.columns@[indices[0] as int];
                match ParsedParameter::spec_parse(column.col_type, parameter) {
                    Err(ParameterError::UnsupportedType) => Err(QueryErrorView::UnsupportedType),
                    Err(reason) => Err(
                        QueryErrorView::ParseError {
                            column: column.name@,
                            value: parameter,
                            reason,
                        },
                    ),
                    Ok(p) => Ok(
                        DynamicQueryView {
                            table_name: qualified_name(schema, table.name@),
                            columns: column_types(table.columns@),
                            column_names: column_names(table.columns@),
                            param_columns: seq![ColTypeInfo::of(column)],
                            param_column_names: seq![column.name@],
                            parsed_params: seq![p],
                        },
                    ),
                }
            }
        },
    }
}

/// The `k`-th condition of a `WHERE` clause: the column, an equals sign and
/// the placeholder of that position, counted from one.
pub open spec fn condition(name: Seq<char>, k: int) -> Seq<char> {
    name + " = :"@ + decimal((k + 1) as nat)
}

/// One condition for each filter column.
pub open spec fn conditions(names: Seq<Seq<char>>) -> Seq<Seq<char>> {
    Seq::new(names.len(), |k: int| condition(names[k], k))
}

/// Text of the `SELECT` statement of a query.
pub open spec fn select_text(q: DynamicQueryView) -> Seq<char> {
    "SELECT "@ + join(q.column_names, ","@) + " FROM "@ + q.table_name + " WHERE "@ + join(
        conditions(q.param_column_names),
        " AND "@,
    )
}

/// What the caller needs to run a dynamic query: the text to prepare, the
/// providers of the two shapes, and the filter values to execute with.
pub struct PreparedQuery<F> {
    pub sql: String,
    pub params_provider: Box<DynamicParamsProvider>,
    pub results_provider: Box<DynamicResultsProvider<F>>,
    pub params: Vec<ParsedParameter>,
}

/// Schema and table name, joined by a dot.
fn qualify(schema_name: &str, table_name: &String) -> (name: String)
    ensures
        name@ == qualified_name(schema_name@, table_name@),
{
    let mut name = String::from_str(schema_name);
    name.append(".");
    name.append(table_name.as_str());
    name
}

/// Types and names of all columns of a table, in catalog order.
fn table_shape(table_info: &TableInfo) -> (shape: (Vec<ColTypeInfo>, Vec<String>))
    ensures
        shape.0@ == column_types(table_info.columns@),
        texts(shape.1@) == column_names(table_info.columns@),
{
    let mut types: Vec<ColTypeInfo> = Vec::new();
    let mut names: Vec<String> = Vec::new();
    let mut i: usize = 0;
    while i < table_info.columns.len()
        invariant
            i <= table_info.columns.len(),
            types.len() == i,
            names.len() == i,
            forall|j: int| 0 <= j < i ==> types@[j] == ColTypeInfo::of(table_info.columns@[j]),
            forall|j: int| 0 <= j < i ==> names@[j]@ == table_info.columns@[j].name@,
        decreases table_info.columns.len() - i,
    {
        types.push(ColTypeInfo::new(&table_info.columns[i]));
        names.push(table_info.columns[i].name.clone());
        i += 1;
    }
    assert(types@ =~= column_types(table_info.columns@));
    assert(texts(names@) =~= column_names(table_info.columns@));
    (types, names)
}

impl DynamicQuery {
    /// See [`DynamicQueryView::wf`].
    pub open spec fn wf(&self) -> bool {
        self@.wf()
    }

    /// Builds the query that selects the row whose primary key is
    /// `parameter`. The key must consist of exactly one column, of a
    /// signed integer type or `Varchar`.
    pub fn create_from_pk(schema_name: &str, table_info: &TableInfo, parameter: String) -> (r:
        Result<DynamicQuery, QueryError>)
        ensures
            match r {
                Ok(q) => pk_outcome(schema_name@, *table_info, parameter@) == Ok::<
                    DynamicQueryView,
                    QueryErrorView,
                >(q@) && q.wf(),
                Err(e) => pk_outcome(schema_name@, *table_info, parameter@) == Err::<
                    DynamicQueryView,
                    QueryErrorView,
                >(e@),
            },
    {
        match &table_info.primary_key {
            None => Err(QueryError::NoPrimaryKey),
            Some(pk) => {
                let pk_indices = &pk.column_indices;
                if pk_indices.len() > 1 {
                    return Err(QueryError::CompositePrimaryKey);
                }
                if pk_indices.len() == 0 || pk_indices[0] >= table_info.columns.len() {
                    return Err(QueryError::MissingKeyColumn);
                }
                let pk_column = &table_info.columns[pk_indices[0]];
                let value = parameter.clone();
                match ParsedParameter::parse(pk_column.col_type, parameter) {
                    Err(ParameterError::UnsupportedType) => Err(QueryError::UnsupportedType),
                    Err(reason) => Err(
                        QueryError::ParseError { column: pk_column.name.clone(), value, reason },
                    ),
                    Ok(parsed_parameter) => {
                        let (columns, column_names) = table_shape(table_info);
                        let table_name = qualify(schema_name, &table_info.name);
                        let mut param_columns: Vec<ColTypeInfo> = Vec::new();
                        param_columns.push(ColTypeInfo::new(pk_column));
                        let mut param_column_names: Vec<String> = Vec::new();
                        param_column_names.push(pk_column.name.clone());
                        let mut parsed_params: Vec<ParsedParameter> = Vec::new();
                        parsed_params.push(parsed_parameter);
                        let q = DynamicQuery {
                            table_name,
                            columns,
                            column_names,
                            param_columns,
                            param_column_names,
                            parsed_params,
                        };
                        proof {
                            assert(q@.param_columns =~= seq![ColTypeInfo::of(*pk_column)]);
                            assert(q@.param_column_names =~= seq![pk_column.name@]);
                            assert(q@.parsed_params =~= seq![parsed_parameter@]);
                        }
                        Ok(q)
                    },
                }
            },
        }
    }

    /// Builds the query that selects the rows in which each named column
    /// has the given value. Filters are taken in order; the first one that
    /// names no column of the table, or whose value does not parse to the
    /// column's type, ends the attempt.
    pub fn create_from_params(
        schema_name: &str,
        table_info: &TableInfo,
        parameters: Vec<(String, String)>,
    ) -> (r: Result<DynamicQuery, QueryError>)
        ensures
            match r {
                Ok(q) => params_outcome(schema_name@, *table_info, parameters@) == Ok::<
                    DynamicQueryView,
                    QueryErrorView,
                >(q@) && q.wf(),
                Err(e) => params_outcome(schema_name@, *table_info, parameters@) == Err::<
                    DynamicQueryView,
                    QueryErrorView,
                >(e@),
            },
    {
        let (columns, column_names) = table_shape(table_info);
        let mut param_column_names: Vec<String> = Vec::new();
        let mut param_columns: Vec<ColTypeInfo> = Vec::new();
        let mut parsed_params: Vec<ParsedParameter> = Vec::new();
        let ghost cols = table_info.columns@;
        let mut i: usize = 0;
        while i < parameters.len()
            invariant
                i <= parameters.len(),
                cols == table_info.columns@,
                param_column_names.len() == i,
                param_columns.len() == i,
                parsed_params.len() == i,
                first_fault(cols, parameters@.take(i as int)) == i,
                forall|k: int|
                    #![trigger parameters@[k]]
                    0 <= k < i ==> resolve(cols, parameters@[k].0@, parameters@[k].1@)
                        == Resolved::Bound(param_columns@[k], parsed_params@[k]@),
                forall|k: int|
                    #![trigger parameters@[k]]
                    0 <= k < i ==> param_column_names@[k]@ == parameters@[k].0@,
            decreases parameters.len() - i,
        {
            let col_name = &parameters[i].0;
            let p = &parameters[i].1;
            proof {
                assert(parameters@.take(i + 1).drop_last() =~= parameters@.take(i as int));
                assert(parameters@.take(i + 1).last() == parameters@[i as int]);
            }
            match table_info.find_column(col_name) {
                None => {
                    proof {
                        lemma_first_fault_stays(cols, parameters@, i + 1);
                    }
                    return Err(QueryError::UnknownColumn(col_name.clone()));
                },
                Some(at) => {
                    let column = &table_info.columns[at];
                    match ParsedParameter::parse(column.col_type, p.clone()) {
                        Err(reason) => {
                            proof {
                                lemma_first_fault_stays(cols, parameters@, i + 1);
                            }
                            return Err(
                                QueryError::ParseError {
                                    column: col_name.clone(),
                                    value: p.clone(),
                                    reason,
                                },
                            );
                        },
                        Ok(parsed) => {
                            parsed_params.push(parsed);
                            param_columns.push(ColTypeInfo::new(column));
                            param_column_names.push(col_name.clone());
                        },
                    }
                },
            }
            i += 1;
        }
        let table_name = qualify(schema_name, &table_info.name);
        let q = DynamicQuery {
            table_name,
            columns,
            column_names,
            param_columns,
            param_column_names,
            parsed_params,
        };
        proof {
            let want = query_for(schema_name@, *table_info, parameters@);
            assert(parameters@.take(i as int) =~= parameters@);
            assert(q@.param_columns =~= want.param_columns);
            assert(q@.param_column_names =~= want.param_column_names);
            assert(q@.parsed_params =~= want.parsed_params);
        }
        Ok(q)
    }

    /// Text of the `SELECT` statement: all columns of the table, and one
    /// numbered placeholder for each filter.
    pub fn generate_sql(&self) -> (sql: String)
        ensures
            sql@ == select_text(self@),
    {
        let joined_result_columns = join_strings(&self.column_names, ",");
        let mut enumerated_param_columns: Vec<String> = Vec::new();
        let mut idx: usize = 0;
        while idx < self.param_column_names.len()
            invariant
                idx <= self.param_column_names.len(),
                enumerated_param_columns.len() == idx,
                forall|k: int|
                    0 <= k < idx ==> enumerated_param_columns@[k]@ == condition(
                        self.param_column_names@[k]@,
                        k,
                    ),
            decreases self.param_column_names.len() - idx,
        {
            let mut text = self.param_column_names[idx].clone();
            text.append(" = :");
            push_decimal(&mut text, (idx + 1) as u64);
            enumerated_param_columns.push(text);
            idx += 1;
        }
        assert(texts(enumerated_param_columns@) =~= conditions(self@.param_column_names));
        let joined_param_columns = join_strings(&enumerated_param_columns, " AND ");
        let mut sql = String::from_str("SELECT ");
        sql.append(joined_result_columns.as_str());
        sql.append(" FROM ");
        sql.append(self.table_name.as_str());
        sql.append(" WHERE ");
        sql.append(joined_param_columns.as_str());
        sql
    }

    /// Turns the query into what is needed to run it: the `SELECT` text,
    /// a provider of one parameter for each filter column, a provider of
    /// one result column for each column of the table, and the filter
    /// values. `floats` renders the floating point numbers of the rows.
    pub fn prepare_query<F: FloatRenderer>(self, floats: F) -> (prepared: PreparedQuery<F>)
        ensures
            prepared.sql@ == select_text(self@),
            prepared.params_provider.columns() == self@.param_columns,
            prepared.results_provider.column_names() == self@.column_names,
            prepared.results_provider.columns() == self@.columns,
            prepared.results_provider.floats() == floats,
            parsed_values(prepared.params@) == self@.parsed_params,
    {
        let sql = self.generate_sql();
        let results_provider = Box::new(
            DynamicResultsProvider::new(self.column_names, self.columns, floats),
        );
        let params_provider = Box::new(DynamicParamsProvider::new(self.param_columns));
        assert(parsed_values(self.parsed_params@) =~= self@.parsed_params);
        PreparedQuery { sql, params_provider, results_provider, params: self.parsed_params }
    }

    /// The answer to a query for one row, once its single fetch is done:
    /// the first row of the batch, rendered as a JSON object, or an empty
    /// object when the fetch found no row. Rows behind the first are not
    /// looked at.
    pub fn fetch_one<F: FloatRenderer>(query: &Query<DynamicResultsProvider<F>>) -> (json: String)
        requires
            query.wf(),
        ensures
            if query.results().rows() == 0 {
                json@ == "{}"@
            } else {
                exists|floats: Seq<Seq<char>>|
                    json@ == #[trigger] json_row(
                        query.provider().column_names(),
                        query.provider().columns(),
                        query.results().cells(),
                        0,
                        floats,
                    )
            },
    {
        match query.row(0) {
            Some(r) => r,
            None => String::from_str("{}"),
        }
    }

    /// The answer to a query for many rows: a JSON array of the rendered
    /// rows, in the order in which they were fetched.
    pub fn fetch_many(rows: Vec<String>) -> (json: String)
        ensures
            json@ == json_array(texts(rows@)),
    {
        let result = join_strings(&rows, ",");
        let mut json = String::new();
        push_char(&mut json, '[');
        json.append(result.as_str());
        push_char(&mut json, ']');
        assert(json@ =~= json_array(texts(rows@)));
        json
    }
}

} // verus!
