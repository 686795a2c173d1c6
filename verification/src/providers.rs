//! The providers of a dynamic query: positional parameters for its filters
//! and JSON objects for its rows.

use crate::buffer::{
    lemma_cell_in_region, lemma_changed_in_fewer_cells, lemma_one_more_cell_changed, project_spec,
    CellBufferView, ParamBuffer, ParamsProjection, ResultBuffer, ResultSet,
};
use crate::dynamic::ColTypeInfo;
use crate::json::{
    json_cell, json_member, json_object, lemma_float_text_in_float_cells_only, push_json_decoded,
    FloatRenderer,
};
use crate::parameter::{ParsedParameter, ParsedValue};
use crate::query::ResultsProvider;
use crate::statement::ParamsProvider;
use crate::text::{join_strings, push_char, texts};
use crate::types::{Identifier, Member, TypeDescriptor, INDICATOR_NULL};
use crate::values::{decode, CodecError, Value};
use vstd::prelude::*;

verus! {

/// The mathematical values of a list of filter values.
pub open spec fn parsed_values(params: Seq<ParsedParameter>) -> Seq<ParsedValue> {
    Seq::new(params.len(), |i: int| params[i]@)
}

/// What writing the `k`-th filter value into the cell of the `k`-th
/// parameter gives; there is nothing to write into when there are fewer
/// parameters.
pub open spec fn slot_outcome(p: ParsedValue, members: Seq<Member>, k: int) -> Result<
    (Seq<u8>, i16),
    CodecError,
> {
    if k >= members.len() {
        Err(CodecError::Encoding)
    } else {
        project_spec(
            p.value(),
            members[k].descriptor.sql_type,
            members[k].descriptor.width as nat,
        )
    }
}

/// Position of the first filter value that cannot be written, or the
/// number of values when all can.
pub open spec fn first_refused(params: Seq<ParsedValue>, members: Seq<Member>) -> int
    decreases params.len(),
{
    if params.len() == 0 {
        0
    } else {
        let earlier = first_refused(params.drop_last(), members);
        if earlier < params.len() - 1 {
            earlier
        } else if slot_outcome(params.last(), members, params.len() - 1) is Ok {
            params.len() as int
        } else {
            params.len() - 1
        }
    }
}

/// A value refused among the first `k` is the first refused of the whole
/// list.
pub proof fn lemma_first_refused_stays(params: Seq<ParsedValue>, members: Seq<Member>, k: int)
    requires
        0 <= k <= params.len(),
        first_refused(params.take(k), members) < k,
    ensures
        first_refused(params, members) == first_refused(params.take(k), members),
    decreases params.len(),
{
    if k == params.len() {
        assert(params.take(k) =~= params);
    } else {
        assert(params.drop_last().take(k) =~= params.take(k));
        lemma_first_refused_stays(params.drop_last(), members, k);
    }
}

/// Publishes one positional parameter for each filter column of a dynamic
/// query and writes the parsed filter values into their cells.
pub struct DynamicParamsProvider {
    columns: Vec<ColTypeInfo>,
}

impl DynamicParamsProvider {
    /// The filter columns, in the order of the filters.
    pub closed spec fn columns(&self) -> Seq<ColTypeInfo> {
        self.columns@
    }

    pub fn new(columns: Vec<ColTypeInfo>) -> (provider: DynamicParamsProvider)
        ensures
            provider.columns() == columns@,
    {
        DynamicParamsProvider { columns }
    }
}

impl ParamsProvider for DynamicParamsProvider {
    type Input = Vec<ParsedParameter>;

    open spec fn spec_members(&self) -> Seq<Member> {
        Seq::new(
            self.columns().len(),
            |i: int|
                Member {
                    descriptor: self.columns()[i].oci_data_type,
                    identifier: Identifier::Unnamed,
                },
        )
    }

    /// The values are written in order into the first row, each into the
    /// cell of the parameter at its position, up to the first one that
    /// cannot be written, whose error comes back. Nothing else changes:
    /// the cells of the positions behind, and every cell of another row,
    /// are as they were.
    open spec fn projected(
        &self,
        params: &Vec<ParsedParameter>,
        before: ParamBuffer,
        after: ParamBuffer,
        failure: Option<CodecError>,
    ) -> bool {
        let values = parsed_values(params@);
        let members = before.members();
        let k = first_refused(values, members);
        &&& forall|j: int|
            #![trigger values[j]]
            0 <= j < k ==> slot_outcome(values[j], members, j) == Ok::<(Seq<u8>, i16), CodecError>(
                (
                    after.cells().cell(after.cells().handle(j, 0)),
                    after.cells().indicator(after.cells().handle(j, 0)),
                ),
            )
        &&& failure == if k == values.len() {
            None
        } else {
            Some(slot_outcome(values[k], members, k)->Err_0)
        }
        &&& before.cells().changed_only_in_row(after.cells(), 0, k)
    }

    fn members(&self) -> (members: Vec<Member>) {
        let mut members: Vec<Member> = Vec::new();
        let mut i: usize = 0;
        while i < self.columns.len()
            invariant
                i <= self.columns.len(),
                members.len() == i,
                forall|k: int|
                    0 <= k < i ==> members@[k] == (Member {
                        descriptor: self.columns@[k].oci_data_type,
                        identifier: Identifier::Unnamed,
                    }),
            decreases self.columns.len() - i,
        {
            members.push(Member::new(self.columns[i].oci_data_type, Identifier::Unnamed));
            i += 1;
        }
        assert(members@ =~= self.spec_members());
        members
    }

    fn project_values(
        &self,
        params: &Vec<ParsedParameter>,
        projection: &mut ParamsProjection,
    ) -> (r: Result<(), CodecError>) {
        let ghost values = parsed_values(params@);
        let ghost members = projection.members();
        let ghost layout = projection.cells();
        let mut idx: usize = 0;
        while idx < params.len()
            invariant
                idx <= params.len(),
                values == parsed_values(params@),
                projection.wf(),
                projection.members() == members,
                members == old(projection).members(),
                projection.cells().same_layout(layout),
                layout == old(projection).cells(),
                layout.batch >= 1,
                layout.wf(),
                idx <= layout.widths.len(),
                layout.changed_only_in_row(projection.cells(), 0, idx as int),
                first_refused(values.take(idx as int), members) == idx,
                forall|j: int|
                    #![trigger values[j]]
                    0 <= j < idx ==> slot_outcome(values[j], members, j) == Ok::<
                        (Seq<u8>, i16),
                        CodecError,
                    >(
                        (
                            projection.cells().cell(projection.cells().handle(j, 0)),
                            projection.cells().indicator(projection.cells().handle(j, 0)),
                        ),
                    ),
            decreases params.len() - idx,
        {
            proof {
                assert(values.take(idx + 1).drop_last() =~= values.take(idx as int));
                assert(values.take(idx + 1).last() == values[idx as int]);
            }
            let ghost before = projection.cells();
            match projection.value(idx, 0) {
                None => {
                    proof {
                        lemma_first_refused_stays(values, members, idx + 1);
                        lemma_changed_in_fewer_cells(
                            layout,
                            projection.cells(),
                            0,
                            idx as int,
                            members.len() as int,
                        );
                    }
                    return Err(CodecError::Encoding);
                },
                Some(p) => {
                    match params[idx].project_value(projection, &p) {
                        Err(e) => {
                            proof {
                                lemma_first_refused_stays(values, members, idx + 1);
                                lemma_changed_in_fewer_cells(
                                    layout,
                                    projection.cells(),
                                    0,
                                    idx as int,
                                    members.len() as int,
                                );
                            }
                            return Err(e);
                        },
                        Ok(_) => {
                            proof {
                                let after = projection.cells();
                                lemma_cell_in_region(after, p);
                                lemma_one_more_cell_changed(
                                    layout,
                                    before,
                                    after,
                                    p,
                                    after.cell(p),
                                    after.indicator(p),
                                );
                                assert forall|j: int|
                                    #![trigger values[j]]
                                    0 <= j < idx implies slot_outcome(values[j], members, j)
                                    == Ok::<(Seq<u8>, i16), CodecError>(
                                    (
                                        projection.cells().cell(projection.cells().handle(j, 0)),
                                        projection.cells().indicator(
                                            projection.cells().handle(j, 0),
                                        ),
                                    ),
                                ) by {
                                    let other = before.handle(j, 0);
                                    assert(before.owns(other));
                                    assert(other != p);
                                    assert(projection.cells().cell(other) == before.cell(other));
                                }
                            }
                        },
                    }
                },
            }
            idx += 1;
        }
        proof {
            assert(values.take(idx as int) =~= values);
            lemma_changed_in_fewer_cells(
                layout,
                projection.cells(),
                0,
                idx as int,
                members.len() as int,
            );
        }
        Ok(())
    }
}

/// The JSON object of one row: for each column its name and what stands
/// for its cell, in declaration order. Names and column types are paired
/// as far as both reach. `floats` holds, for each column, the text that the
/// caller has for the floating point number in its cell.
pub open spec fn json_row(
    names: Seq<Seq<char>>,
    columns: Seq<ColTypeInfo>,
    cells: CellBufferView,
    row: int,
    floats: Seq<Seq<char>>,
) -> Seq<char> {
    json_object(
        Seq::new(
            if names.len() < columns.len() {
                names.len()
            } else {
                columns.len()
            },
            |i: int|
                json_member(
                    names[i],
                    json_cell(
                        cells.cell(cells.handle(i, row)),
                        cells.indicator(cells.handle(i, row)),
                        columns[i].col_type,
                        floats[i],
                    ),
                ),
        ),
    )
}

/// Publishes one result column for each column of the table of a dynamic
/// query and renders each fetched row as a JSON object. Floating point
/// numbers are rendered by the caller's renderer.
pub struct DynamicResultsProvider<F> {
    column_names: Vec<String>,
    columns: Vec<ColTypeInfo>,
    floats: F,
}

impl<F: FloatRenderer> DynamicResultsProvider<F> {
    /// Names of the result columns.
    pub closed spec fn column_names(&self) -> Seq<Seq<char>> {
        texts(self.column_names@)
    }

    /// Types of the result columns.
    pub closed spec fn columns(&self) -> Seq<ColTypeInfo> {
        self.columns@
    }

    /// The renderer of floating point numbers.
    pub closed spec fn floats(&self) -> F {
        self.floats
    }

    pub fn new(column_names: Vec<String>, columns: Vec<ColTypeInfo>, floats: F) -> (provider:
        DynamicResultsProvider<F>)
        ensures
            provider.column_names() == texts(column_names@),
            provider.columns() == columns@,
            provider.floats() == floats,
    {
        DynamicResultsProvider { column_names, columns, floats }
    }
}

impl<F: FloatRenderer> ResultsProvider for DynamicResultsProvider<F> {
    type Row = String;

    open spec fn spec_descriptors(&self) -> Seq<TypeDescriptor> {
        Seq::new(self.columns().len(), |i: int| self.columns()[i].oci_data_type)
    }

    /// The row is the JSON object of its cells, with whatever texts the
    /// renderer gave for its floating point numbers.
    open spec fn is_result(&self, buffer: &ResultBuffer, row: int, value: &String) -> bool {
        exists|floats: Seq<Seq<char>>|
            value@ == #[trigger] json_row(
                self.column_names(),
                self.columns(),
                buffer.cells(),
                row,
                floats,
            )
    }

    fn sql_descriptors(&self) -> (descriptors: Vec<TypeDescriptor>) {
        let mut descriptors: Vec<TypeDescriptor> = Vec::new();
        let mut i: usize = 0;
        while i < self.columns.len()
            invariant
                i <= self.columns.len(),
                descriptors.len() == i,
                forall|k: int| 0 <= k < i ==> descriptors@[k] == self.columns@[k].oci_data_type,
            decreases self.columns.len() - i,
        {
            descriptors.push(self.columns[i].oci_data_type);
            i += 1;
        }
        assert(descriptors@ =~= self.spec_descriptors());
        descriptors
    }

    fn gen_result(&self, buffer: &ResultBuffer, rs: &ResultSet) -> (row: String) {
        let n: usize = if self.column_names.len() < self.columns.len() {
            self.column_names.len()
        } else {
            self.columns.len()
        };
        let ghost cells = buffer.cells();
        let ghost at_row = rs.row as int;
        let ghost mut floats: Seq<Seq<char>> = Seq::empty();
        let mut results: Vec<String> = Vec::new();
        let mut i: usize = 0;
        while i < n
            invariant
                buffer.wf(),
                buffer.descriptors() == self.spec_descriptors(),
                buffer.is_row(*rs, at_row),
                cells == buffer.cells(),
                n <= self.columns.len(),
                n <= self.column_names.len(),
                i <= n,
                results.len() == i,
                floats.len() == i,
                forall|k: int|
                    0 <= k < i ==> #[trigger] results@[k]@ == json_member(
                        self.column_names@[k]@,
                        json_cell(
                            cells.cell(cells.handle(k, at_row)),
                            cells.indicator(cells.handle(k, at_row)),
                            self.columns@[k].col_type,
                            floats[k],
                        ),
                    ),
            decreases n - i,
        {
            let at = &rs.values[i];
            assert(*at == cells.handle(i as int, at_row));
            assert(cells.owns(*at));
            let decoded = decode(buffer.cell(at), buffer.indicator(at), self.columns[i].col_type);
            let float = match &decoded {
                Ok(Some(Value::Float64(bits))) => self.floats.render(*bits),
                _ => String::new(),
            };
            let mut member = String::new();
            push_char(&mut member, '"');
            member.append(self.column_names[i].as_str());
            push_char(&mut member, '"');
            push_char(&mut member, ':');
            push_json_decoded(&mut member, &decoded, float.as_str());
            proof {
                assert(member@ =~= json_member(
                    self.column_names@[i as int]@,
                    json_cell(
                        cells.cell(*at),
                        cells.indicator(*at),
                        self.columns@[i as int].col_type,
                        float@,
                    ),
                ));
                floats = floats.push(float@);
            }
            results.push(member);
            i += 1;
        }
        let joined = join_strings(&results, ",");
        let mut row = String::new();
        push_char(&mut row, '{');
        row.append(joined.as_str());
        push_char(&mut row, '}');
        proof {
            let members = Seq::new(
                n as nat,
                |k: int|
                    json_member(
                        self.column_names()[k],
                        json_cell(
                            cells.cell(cells.handle(k, at_row)),
                            cells.indicator(cells.handle(k, at_row)),
                            self.columns()[k].col_type,
                            floats[k],
                        ),
                    ),
            );
            assert(texts(results@) =~= members);
            assert(row@ =~= json_object(members));
            assert(row@ == json_row(
                self.column_names(),
                self.columns(),
                cells,
                at_row,
                floats,
            ));
        }
        row
    }
}

/// Rendering: the object of a row has one member for each result column,
/// in declaration order and under the column's name, and the member of a
/// NULL cell reads `null`, whatever the texts for floating point numbers.
pub proof fn law_row_rendering(
    names: Seq<Seq<char>>,
    columns: Seq<ColTypeInfo>,
    cells: CellBufferView,
    row: int,
    floats: Seq<Seq<char>>,
)
    requires
        names.len() == columns.len(),
    ensures
        exists|members: Seq<Seq<char>>|
            {
                &&& json_row(names, columns, cells, row, floats) == json_object(members)
                &&& members.len() == columns.len()
                &&& forall|i: int|
                    0 <= i < columns.len() ==> #[trigger] members[i] == json_member(
                        names[i],
                        json_cell(
                            cells.cell(cells.handle(i, row)),
                            cells.indicator(cells.handle(i, row)),
                            columns[i].col_type,
                            floats[i],
                        ),
                    )
                &&& forall|i: int|
                    0 <= i < columns.len() && cells.indicator(cells.handle(i, row))
                        == INDICATOR_NULL ==> #[trigger] members[i] == json_member(
                        names[i],
                        "null"@,
                    )
            },
{
    let members = Seq::new(
        columns.len(),
        |i: int|
            json_member(
                names[i],
                json_cell(
                    cells.cell(cells.handle(i, row)),
                    cells.indicator(cells.handle(i, row)),
                    columns[i].col_type,
                    floats[i],
                ),
            ),
    );
    assert(json_row(names, columns, cells, row, floats) == json_object(members));
    assert(members.len() == columns.len());
}

/// The row of a table without floating point columns does not depend on
/// the texts for floating point numbers.
pub proof fn law_row_without_floats(
    names: Seq<Seq<char>>,
    columns: Seq<ColTypeInfo>,
    cells: CellBufferView,
    row: int,
    one: Seq<Seq<char>>,
    other: Seq<Seq<char>>,
)
    requires
        forall|i: int| 0 <= i < columns.len() ==> !((#[trigger] columns[i]).col_type is Float64),
    ensures
        json_row(names, columns, cells, row, one) == json_row(names, columns, cells, row, other),
{
    let n = if names.len() < columns.len() {
        names.len()
    } else {
        columns.len()
    };
    let first = Seq::new(
        n,
        |i: int|
            json_member(
                names[i],
                json_cell(
                    cells.cell(cells.handle(i, row)),
                    cells.indicator(cells.handle(i, row)),
                    columns[i].col_type,
                    one[i],
                ),
            ),
    );
    let second = Seq::new(
        n,
        |i: int|
            json_member(
                names[i],
                json_cell(
                    cells.cell(cells.handle(i, row)),
                    cells.indicator(cells.handle(i, row)),
                    columns[i].col_type,
                    other[i],
                ),
            ),
    );
    assert forall|i: int| 0 <= i < n implies first[i] == second[i] by {
        lemma_float_text_in_float_cells_only(
            cells.cell(cells.handle(i, row)),
            cells.indicator(cells.handle(i, row)),
            columns[i].col_type,
            one[i],
            other[i],
        );
    }
    assert(first =~= second);
}

} // verus!
