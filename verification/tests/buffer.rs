use oracle::buffer::{CellBuffer, ParamBuffer, ResultBuffer};
use oracle::types::{Identifier, Member, SqlType, TypeDescriptor};
use oracle::values::{CodecError, Value};

fn members(types: &[(SqlType, usize)]) -> Vec<Member> {
    types
        .iter()
        .map(|(t, len)| Member::new(TypeDescriptor::new(*t, *len), Identifier::Unnamed))
        .collect()
}

fn descriptors(types: &[(SqlType, usize)]) -> Vec<TypeDescriptor> {
    types.iter().map(|(t, len)| TypeDescriptor::new(*t, *len)).collect()
}

#[test]
fn cells_lie_column_by_column() {
    let b = CellBuffer::new(vec![4, 32, 7], 3).unwrap();
    assert_eq!(b.columns(), 3);
    assert_eq!(b.batch(), 3);
    assert_eq!(b.size(), (4 + 32 + 7) * 3);
    assert_eq!(b.slots(), 9);
    let h = b.handle(0, 0).unwrap();
    assert_eq!((h.offset, h.slot, h.capacity), (0, 0, 4));
    let h = b.handle(0, 2).unwrap();
    assert_eq!((h.offset, h.slot, h.capacity), (8, 2, 4));
    let h = b.handle(1, 2).unwrap();
    assert_eq!((h.offset, h.slot, h.capacity), (4 * 3 + 2 * 32, 5, 32));
    let h = b.handle(2, 1).unwrap();
    assert_eq!((h.offset, h.slot, h.capacity), (4 * 3 + 32 * 3 + 7, 7, 7));
    assert_eq!((h.column, h.row), (2, 1));
    assert!(b.handle(3, 0).is_none());
    assert!(b.handle(0, 3).is_none());
}

#[test]
fn a_region_that_cannot_be_addressed_is_refused() {
    assert!(CellBuffer::new(vec![usize::MAX, 2], 1).is_none());
    assert!(CellBuffer::new(vec![usize::MAX / 2 + 1], 2).is_none());
    assert!(CellBuffer::new(vec![0, 0, 0], usize::MAX).is_none());
    assert!(CellBuffer::new(vec![0], usize::MAX).is_none());
    assert!(CellBuffer::new(vec![0], isize::MAX as usize / 8 + 1).is_none());
    assert!(CellBuffer::new(vec![1], isize::MAX as usize).is_none());
    assert!(CellBuffer::new(vec![], 5).is_some());
    assert!(ParamBuffer::new(members(&[(SqlType::Varchar, usize::MAX)]), 2).is_none());
    assert!(ResultBuffer::new(descriptors(&[(SqlType::Varchar, usize::MAX)]), 2).is_none());
}

#[test]
fn fresh_cells_are_null() {
    let b = CellBuffer::new(vec![2, 2], 2).unwrap();
    for c in 0..2 {
        for r in 0..2 {
            let h = b.handle(c, r).unwrap();
            assert_eq!(b.indicator(&h), -1);
            assert!(b.read(&h).is_empty());
        }
    }
}

#[test]
fn a_handle_belongs_to_the_buffer_that_made_it() {
    let b = CellBuffer::new(vec![4, 8], 2).unwrap();
    let other = CellBuffer::new(vec![8, 4], 2).unwrap();
    let h = b.handle(1, 1).unwrap();
    assert!(b.owns(&h));
    assert!(!other.owns(&h));
    let mut forged = h;
    forged.offset += 1;
    assert!(!b.owns(&forged));
}

#[test]
fn writing_one_cell_leaves_the_others_alone() {
    let mut b = CellBuffer::new(vec![3, 2], 2).unwrap();
    let all: Vec<_> =
        (0..2).flat_map(|c| (0..2).map(move |r| (c, r))).map(|(c, r)| (c, r)).collect();
    for (i, (c, r)) in all.iter().enumerate() {
        let h = b.handle(*c, *r).unwrap();
        b.write(&h, &vec![i as u8 + 1; h.capacity], i as i16);
    }
    let target = b.handle(0, 1).unwrap();
    b.write(&target, &[0xEE], 7);
    for (i, (c, r)) in all.iter().enumerate() {
        let h = b.handle(*c, *r).unwrap();
        if h == target {
            assert_eq!(b.read(&h), &[0xEE]);
            assert_eq!(b.indicator(&h), 7);
        } else {
            assert_eq!(b.read(&h), &vec![i as u8 + 1; h.capacity][..]);
            assert_eq!(b.indicator(&h), i as i16);
        }
    }
}

#[test]
fn handles_stay_where_they_are() {
    let shape = members(&[(SqlType::Int32, 0), (SqlType::Varchar, 8)]);
    let mut p = ParamBuffer::new(shape, 2).unwrap();
    let before: Vec<_> =
        vec![p.value(0, 0), p.value(0, 1), p.value(1, 0), p.value(1, 1)];
    let at = p.value(1, 1).unwrap();
    p.project(&at, &Value::Varchar("ADA".to_string())).unwrap();
    p.project(&p.value(0, 0).unwrap(), &Value::Int32(7)).unwrap();
    p.project_null(&at);
    let after: Vec<_> =
        vec![p.value(0, 0), p.value(0, 1), p.value(1, 0), p.value(1, 1)];
    assert_eq!(before, after);
}

#[test]
fn projects_a_value_into_its_cell() {
    let mut p =
        ParamBuffer::new(members(&[(SqlType::Int32, 0), (SqlType::Varchar, 8)]), 1).unwrap();
    assert_eq!(p.len(), 2);
    assert_eq!(p.batch(), 1);
    assert_eq!(p.member(1).descriptor.width, 8);
    let number = p.value(0, 0).unwrap();
    let text = p.value(1, 0).unwrap();
    assert_eq!(p.project(&number, &Value::Int32(7)), Ok(4));
    assert_eq!(p.project(&text, &Value::Varchar("ADA".to_string())), Ok(3));
    assert_eq!(p.cell(&number), &[7, 0, 0, 0]);
    assert_eq!(p.indicator(&number), 0);
    assert_eq!(p.cell(&text), b"ADA");
    assert_eq!(p.indicator(&text), 0);
    assert_eq!(p.project(&text, &Value::Varchar(String::new())), Ok(0));
    assert_eq!(p.indicator(&text), -1);
    assert_eq!(p.cell(&number), &[7, 0, 0, 0]);
}

#[test]
fn refuses_a_value_of_another_type_or_size() {
    let mut p =
        ParamBuffer::new(members(&[(SqlType::Int32, 0), (SqlType::Varchar, 2)]), 1).unwrap();
    let number = p.value(0, 0).unwrap();
    let text = p.value(1, 0).unwrap();
    p.project(&number, &Value::Int32(5)).unwrap();
    assert_eq!(p.project(&number, &Value::Int16(7)), Err(CodecError::Encoding));
    assert_eq!(p.project(&number, &Value::Int64(7)), Err(CodecError::Encoding));
    assert_eq!(
        p.project(&text, &Value::Varchar("ADA".to_string())),
        Err(CodecError::Truncation)
    );
    assert_eq!(p.cell(&number), &[5, 0, 0, 0]);
    assert_eq!(p.indicator(&text), -1);
}

#[test]
fn project_null_sets_the_indicator() {
    let mut p = ParamBuffer::new(members(&[(SqlType::Int16, 0)]), 1).unwrap();
    let at = p.value(0, 0).unwrap();
    p.project(&at, &Value::Int16(3)).unwrap();
    p.project_null(&at);
    assert_eq!(p.indicator(&at), -1);
    assert!(p.cell(&at).is_empty());
}

#[test]
fn stores_and_decodes_fetched_cells() {
    let mut r = ResultBuffer::new(
        descriptors(&[(SqlType::Int32, 0), (SqlType::Varchar, 32), (SqlType::Boolean, 0)]),
        2,
    )
    .unwrap();
    assert_eq!(r.len(), 3);
    assert_eq!(r.batch(), 2);
    assert_eq!(r.descriptor(1).max_len, 32);
    assert_eq!(r.fetched(), 0);
    assert!(r.row(0).is_none());
    for row in 0..2 {
        r.store(&r.value(0, row).unwrap(), &[row as u8 + 1, 0, 0, 0], 0).unwrap();
        r.store(&r.value(1, row).unwrap(), b"ADA", 0).unwrap();
        r.store(&r.value(2, row).unwrap(), &[], -1).unwrap();
    }
    assert!(!r.set_fetched(3));
    assert_eq!(r.fetched(), 0);
    assert!(r.set_fetched(2));
    assert_eq!(r.fetched(), 2);
    assert!(r.row(2).is_none());
    let rs = r.row(1).unwrap();
    assert_eq!(rs.row, 1);
    assert_eq!(rs.values.len(), 3);
    assert_eq!(rs.values[1], r.value(1, 1).unwrap());
    assert_eq!(r.cell(&rs.values[1]), b"ADA");
    assert_eq!(r.indicator(&rs.values[2]), -1);
    match r.decode(&rs.values[0]).unwrap() {
        Some(Value::Int32(v)) => assert_eq!(v, 2),
        other => panic!("{:?}", other),
    }
    match r.decode(&rs.values[1]).unwrap() {
        Some(Value::Varchar(s)) => assert_eq!(s, "ADA"),
        other => panic!("{:?}", other),
    }
    assert!(r.decode(&rs.values[2]).unwrap().is_none());
}

#[test]
fn refuses_more_bytes_than_the_cell_is_wide() {
    let mut r = ResultBuffer::new(descriptors(&[(SqlType::Varchar, 2)]), 1).unwrap();
    let at = r.value(0, 0).unwrap();
    r.store(&at, b"AD", 0).unwrap();
    assert_eq!(r.store(&at, b"ADA", 0), Err(CodecError::Truncation));
    assert_eq!(r.cell(&at), b"AD");
}

#[test]
fn bytes_behind_those_written_stay_as_they_were() {
    let shape = members(&[(SqlType::Int32, 0), (SqlType::Varchar, 8), (SqlType::Int16, 0)]);
    let mut p = ParamBuffer::new(shape, 2).unwrap();
    let text = p.value(1, 1).unwrap();
    p.project(&text, &Value::Varchar("ABCDEFGH".to_string())).unwrap();
    p.project(&p.value(2, 0).unwrap(), &Value::Int16(-1)).unwrap();
    let before = p.region().to_vec();
    assert_eq!(&before[text.offset..text.offset + 8], b"ABCDEFGH");
    assert_eq!(p.project(&text, &Value::Varchar("xy".to_string())), Ok(2));
    let after = p.region().to_vec();
    assert_eq!(&after[text.offset..text.offset + 8], b"xyCDEFGH");
    assert_eq!(&after[..text.offset], &before[..text.offset]);
    assert_eq!(&after[text.offset + 8..], &before[text.offset + 8..]);
    assert_eq!(p.project(&text, &Value::Varchar(String::new())), Ok(0));
    assert_eq!(p.region(), &after[..]);
    assert_eq!(p.indicator(&text), -1);
    p.project_null(&text);
    assert_eq!(p.region(), &after[..]);
    assert_eq!(
        p.project(&text, &Value::Varchar("123456789".to_string())),
        Err(CodecError::Truncation)
    );
    assert_eq!(p.region(), &after[..]);
}

#[test]
fn stored_bytes_leave_the_rest_of_the_region() {
    let mut r = ResultBuffer::new(descriptors(&[(SqlType::Varchar, 4), (SqlType::Int16, 0)]), 2)
        .unwrap();
    let at = r.value(0, 1).unwrap();
    r.store(&at, b"ABCD", 0).unwrap();
    r.store(&r.value(1, 1).unwrap(), &[9, 9], 0).unwrap();
    r.store(&at, b"x", 3).unwrap();
    assert_eq!(r.region(), &[0, 0, 0, 0, b'x', b'B', b'C', b'D', 0, 0, 9, 9]);
    assert_eq!(r.cell(&at), b"x");
    assert_eq!(r.indicator(&at), 3);
}
