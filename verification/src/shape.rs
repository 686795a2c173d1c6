//! Shapes that are given as plain lists: parameters that are bound by
//! position, and rows that are decoded to one typed value for each column.

use crate::buffer::{
    lemma_cell_in_region, lemma_changed_in_fewer_cells, lemma_one_more_cell_changed, project_spec,
    ParamBuffer, ParamsProjection, ResultBuffer, ResultSet,
};
use crate::query::ResultsProvider;
use crate::statement::ParamsProvider;
use crate::types::{Identifier, Member, TypeDescriptor, INDICATOR_NULL};
use crate::values::{decode_spec, typed_cell_view, CodecError, TypedCell, Value, ValueView};
use vstd::prelude::*;

verus! {

/// The mathematical values of a list of values that may be NULL.
pub open spec fn optional_views(values: Seq<Option<Value>>) -> Seq<Option<ValueView>> {
    Seq::new(
        values.len(),
        |i: int|
            match values[i] {
                Some(v) => Some(v@),
                None => None,
            },
    )
}

/// What writing the `k`-th value into the cell of the `k`-th parameter
/// gives: NULL is written as no bytes and the NULL indicator, a value as
/// its encoding; there is nothing to write into when there are fewer
/// parameters.
pub open spec fn positional_outcome(p: Option<ValueView>, members: Seq<Member>, k: int) -> Result<
    (Seq<u8>, i16),
    CodecError,
> {
    if k >= members.len() {
        Err(CodecError::Encoding)
    } else {
        match p {
            None => Ok((Seq::empty(), INDICATOR_NULL)),
            Some(v) => project_spec(
                v,
                members[k].descriptor.sql_type,
                members[k].descriptor.width as nat,
            ),
        }
    }
}

/// Position of the first value that cannot be written, or the number of
/// values when all can.
pub open spec fn first_unwritten(params: Seq<Option<ValueView>>, members: Seq<Member>) -> int
    decreases params.len(),
{
    if params.len() == 0 {
        0
    } else {
        let earlier = first_unwritten(params.drop_last(), members);
        if earlier < params.len() - 1 {
            earlier
        } else if positional_outcome(params.last(), members, params.len() - 1) is Ok {
            params.len() as int
        } else {
            params.len() - 1
        }
    }
}

/// A value that cannot be written among the first `k` is the first of the
/// whole list.
pub proof fn lemma_first_unwritten_stays(
    params: Seq<Option<ValueView>>,
    members: Seq<Member>,
    k: int,
)
    requires
        0 <= k <= params.len(),
        first_unwritten(params.take(k), members) < k,
    ensures
        first_unwritten(params, members) == first_unwritten(params.take(k), members),
    decreases params.len(),
{
    if k == params.len() {
        assert(params.take(k) =~= params);
    } else {
        assert(params.drop_last().take(k) =~= params.take(k));
        lemma_first_unwritten_stays(params.drop_last(), members, k);
    }
}

/// A copy of a parameter slot.
fn copy_member(member: &Member) -> (copy: Member)
    ensures
        copy == *member,
{
    let identifier = match &member.identifier {
        Identifier::Unnamed => Identifier::Unnamed,
        Identifier::Named(name) => Identifier::Named(name.clone()),
    };
    Member { descriptor: member.descriptor, identifier }
}

/// A parameter shape given as a list of slots. The input of an execute is
/// one value for each slot, in declaration order, or `None` for NULL.
pub struct PositionalParams {
    members: Vec<Member>,
}

impl PositionalParams {
    /// The slots, in declaration order.
    pub closed spec fn shape(&self) -> Seq<Member> {
        self.members@
    }

    pub fn new(members: Vec<Member>) -> (provider: PositionalParams)
        ensures
            provider.shape() == members@,
    {
        PositionalParams { members }
    }
}

impl ParamsProvider for PositionalParams {
    type Input = Vec<Option<Value>>;

    open spec fn spec_members(&self) -> Seq<Member> {
        self.shape()
    }

    /// The values are written in order into the first row, each into the
    /// cell of the slot at its position, up to the first one that cannot be
    /// written, whose error comes back. Nothing else changes: the cells of
    /// the positions behind, and every cell of another row, are as they
    /// were.
    open spec fn projected(
        &self,
        params: &Vec<Option<Value>>,
        before: ParamBuffer,
        after: ParamBuffer,
        failure: Option<CodecError>,
    ) -> bool {
        let values = optional_views(params@);
        let members = before.members();
        let k = first_unwritten(values, members);
        &&& forall|j: int|
            #![trigger values[j]]
            0 <= j < k ==> positional_outcome(values[j], members, j) == Ok::<
                (Seq<u8>, i16),
                CodecError,
            >(
                (
                    after.cells().cell(after.cells().handle(j, 0)),
                    after.cells().indicator(after.cells().handle(j, 0)),
                ),
            )
        &&& failure == if k == values.len() {
            None
        } else {
            Some(positional_outcome(values[k], members, k)->Err_0)
        }
        &&& before.cells().changed_only_in_row(after.cells(), 0, k)
    }

    fn members(&self) -> (members: Vec<Member>) {
        let mut members: Vec<Member> = Vec::new();
        let mut i: usize = 0;
        while i < self.members.len()
            invariant
                i <= self.members.len(),
                members.len() == i,
                forall|k: int| 0 <= k < i ==> members@[k] == self.members@[k],
            decreases self.members.len() - i,
        {
            members.push(copy_member(&self.members[i]));
            i += 1;
        }
        assert(members@ =~= self.spec_members());
        members
    }

    fn project_values(
        &self,
        params: &Vec<Option<Value>>,
        projection: &mut ParamsProjection,
    ) -> (r: Result<(), CodecError>) {
        let ghost values = optional_views(params@);
        let ghost members = projection.members();
        let ghost layout = projection.cells();
        let mut idx: usize = 0;
        while idx < params.len()
            invariant
                idx <= params.len(),
                values == optional_views(params@),
                projection.wf(),
                projection.members() == members,
                members == old(projection).members(),
                projection.cells().same_layout(layout),
                layout == old(projection).cells(),
                layout.batch >= 1,
                layout.wf(),
                idx <= layout.widths.len(),
                layout.changed_only_in_row(projection.cells(), 0, idx as int),
                first_unwritten(values.take(idx as int), members) == idx,
                forall|j: int|
                    #![trigger values[j]]
                    0 <= j < idx ==> positional_outcome(values[j], members, j) == Ok::<
                        (Seq<u8>, i16),
                        CodecError,
                    >(
                        (
                            projection.cells().cell(projection.cells().handle(j, 0)),
                            projection.cells().indicator(projection.cells().handle(j, 0)),
                        ),
                    ),
            decreases params.len() - idx,
        {
            proof {
                assert(values.take(idx + 1).drop_last() =~= values.take(idx as int));
                assert(values.take(idx + 1).last() == values[idx as int]);
            }
            let ghost before = projection.cells();
            let p = match projection.value(idx, 0) {
                Some(p) => p,
                None => {
                    proof {
                        lemma_first_unwritten_stays(values, members, idx + 1);
                        lemma_changed_in_fewer_cells(
                            layout,
                            projection.cells(),
                            0,
                            idx as int,
                            members.len() as int,
                        );
                    }
                    return Err(CodecError::Encoding);
                },
            };
            match &params[idx] {
                None => {
                    projection.project_null(&p);
                },
                Some(value) => {
                    match projection.project(&p, value) {
                        Ok(_) => {},
                        Err(e) => {
                            proof {
                                lemma_first_unwritten_stays(values, members, idx + 1);
                                lemma_changed_in_fewer_cells(
                                    layout,
                                    projection.cells(),
                                    0,
                                    idx as int,
                                    members.len() as int,
                                );
                            }
                            return Err(e);
                        },
                    }
                },
            }
            proof {
                let after = projection.cells();
                lemma_cell_in_region(after, p);
                lemma_one_more_cell_changed(
                    layout,
                    before,
                    after,
                    p,
                    after.cell(p),
                    after.indicator(p),
                );
                assert forall|j: int|
                    #![trigger values[j]]
                    0 <= j < idx implies positional_outcome(values[j], members, j) == Ok::<
                    (Seq<u8>, i16),
                    CodecError,
                >(
                    (
                        projection.cells().cell(projection.cells().handle(j, 0)),
                        projection.cells().indicator(projection.cells().handle(j, 0)),
                    ),
                ) by {
                    let other = before.handle(j, 0);
                    assert(before.owns(other));
                    assert(other != p);
                    assert(projection.cells().cell(other) == before.cell(other));
                }
            }
            idx += 1;
        }
        proof {
            assert(values.take(idx as int) =~= values);
            lemma_changed_in_fewer_cells(
                layout,
                projection.cells(),
                0,
                idx as int,
                members.len() as int,
            );
        }
        Ok(())
    }
}

/// A result shape given as a list of columns. A row decodes to one typed
/// cell for each column, in declaration order; a cell that cannot be
/// decoded carries its error and does not spoil the row.
pub struct TypedResults {
    descriptors: Vec<TypeDescriptor>,
}

impl TypedResults {
    /// The columns, in declaration order.
    pub closed spec fn shape(&self) -> Seq<TypeDescriptor> {
        self.descriptors@
    }

    pub fn new(descriptors: Vec<TypeDescriptor>) -> (provider: TypedResults)
        ensures
            provider.shape() == descriptors@,
    {
        TypedResults { descriptors }
    }
}

impl ResultsProvider for TypedResults {
    type Row = Vec<TypedCell>;

    open spec fn spec_descriptors(&self) -> Seq<TypeDescriptor> {
        self.shape()
    }

    open spec fn is_result(&self, buffer: &ResultBuffer, row: int, value: &Vec<TypedCell>) -> bool {
        &&& value@.len() == self.shape().len()
        &&& forall|i: int|
            0 <= i < value@.len() ==> typed_cell_view(#[trigger] value@[i]) == decode_spec(
                buffer.cells().cell(buffer.cells().handle(i, row)),
                buffer.cells().indicator(buffer.cells().handle(i, row)),
                self.shape()[i].sql_type,
            )
    }

    fn sql_descriptors(&self) -> (descriptors: Vec<TypeDescriptor>) {
        let mut descriptors: Vec<TypeDescriptor> = Vec::new();
        let mut i: usize = 0;
        while i < self.descriptors.len()
            invariant
                i <= self.descriptors.len(),
                descriptors.len() == i,
                forall|k: int| 0 <= k < i ==> descriptors@[k] == self.descriptors@[k],
            decreases self.descriptors.len() - i,
        {
            descriptors.push(self.descriptors[i]);
            i += 1;
        }
        assert(descriptors@ =~= self.spec_descriptors());
        descriptors
    }

    fn gen_result(&self, buffer: &ResultBuffer, rs: &ResultSet) -> (row: Vec<TypedCell>) {
        let ghost cells = buffer.cells();
        let ghost at_row = rs.row as int;
        let mut row: Vec<TypedCell> = Vec::new();
        let mut i: usize = 0;
        while i < rs.values.len()
            invariant
                buffer.wf(),
                buffer.descriptors() == self.spec_descriptors(),
                buffer.is_row(*rs, at_row),
                cells == buffer.cells(),
                i <= rs.values.len(),
                row.len() == i,
                forall|k: int|
                    0 <= k < i ==> typed_cell_view(#[trigger] row@[k]) == decode_spec(
                        cells.cell(cells.handle(k, at_row)),
                        cells.indicator(cells.handle(k, at_row)),
                        self.shape()[k].sql_type,
                    ),
            decreases rs.values.len() - i,
        {
            let at = &rs.values[i];
            assert(*at == cells.handle(i as int, at_row));
            assert(cells.owns(*at));
            row.push(buffer.decode(at));
            i += 1;
        }
        row
    }
}

} // verus!
