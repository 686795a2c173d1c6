//! Wire layout: how whole numbers, dates and times lie in the bytes of a cell.

use crate::temporal::{SqlDate, SqlDateTime};
use vstd::prelude::*;

verus! {

/// `256` to the power of `n`: the number of values that `n` bytes can hold.
pub open spec fn pow256(n: nat) -> nat
    decreases n,
{
    if n == 0 {
        1
    } else {
        256 * pow256((n - 1) as nat)
    }
}

/// The `width` low bytes of `v`, lowest first.
pub open spec fn le_bytes(v: nat, width: nat) -> Seq<u8>
    decreases width,
{
    if width == 0 {
        Seq::empty()
    } else {
        seq![(v % 256) as u8] + le_bytes(v / 256, (width - 1) as nat)
    }
}

/// The number whose bytes, lowest first, are `bytes`.
pub open spec fn le_value(bytes: Seq<u8>) -> nat
    decreases bytes.len(),
{
    if bytes.len() == 0 {
        0
    } else {
        bytes[0] as nat + 256 * le_value(bytes.drop_first())
    }
}

/// Two's complement of `v` in `width` bytes.
pub open spec fn to_unsigned(v: int, width: nat) -> nat {
    if v < 0 {
        (v + pow256(width)) as nat
    } else {
        v as nat
    }
}

/// The signed number whose two's complement in `width` bytes is `u`.
pub open spec fn to_signed(u: nat, width: nat) -> int {
    if 2 * u >= pow256(width) {
        u - pow256(width)
    } else {
        u as int
    }
}

/// The values of `pow256` at the widths of the integer types.
pub proof fn lemma_pow256_values()
    ensures
        pow256(0) == 1,
        pow256(1) == 0x100,
        pow256(2) == 0x1_0000,
        pow256(4) == 0x1_0000_0000,
        pow256(8) == 0x1_0000_0000_0000_0000,
{
    reveal_with_fuel(pow256, 9);
}

pub proof fn lemma_le_bytes_len(v: nat, width: nat)
    ensures
        le_bytes(v, width).len() == width,
    decreases width,
{
    if width > 0 {
        lemma_le_bytes_len(v / 256, (width - 1) as nat);
    }
}

pub proof fn lemma_le_value_bound(bytes: Seq<u8>)
    ensures
        le_value(bytes) < pow256(bytes.len()),
    decreases bytes.len(),
{
    if bytes.len() > 0 {
        lemma_le_value_bound(bytes.drop_first());
    }
}

/// Reading back the bytes of a number that fits gives the number.
pub proof fn lemma_le_value_of_bytes(v: nat, width: nat)
    requires
        v < pow256(width),
    ensures
        le_value(le_bytes(v, width)) == v,
    decreases width,
{
    if width > 0 {
        let rest = le_bytes(v / 256, (width - 1) as nat);
        lemma_le_value_of_bytes(v / 256, (width - 1) as nat);
        assert(le_bytes(v, width).drop_first() =~= rest);
    }
}

/// Two's complement loses nothing of a number that fits in `width` bytes.
pub proof fn lemma_signed_round_trip(v: int, width: nat)
    requires
        -(pow256(width) as int) <= 2 * v < pow256(width),
    ensures
        to_unsigned(v, width) < pow256(width),
        to_signed(to_unsigned(v, width), width) == v,
{
}

/// Appends the `width` low bytes of `v`, lowest first.
pub(crate) fn push_le(out: &mut Vec<u8>, v: u64, width: usize)
    ensures
        final(out)@ == old(out)@ + le_bytes(v as nat, width as nat),
    decreases width,
{
    if width > 0 {
        out.push((v % 256) as u8);
        push_le(out, v / 256, width - 1);
        assert(final(out)@ =~= old(out)@ + le_bytes(v as nat, width as nat));
    } else {
        assert(final(out)@ =~= old(out)@ + le_bytes(v as nat, width as nat));
    }
}

/// Reads the number whose bytes, lowest first, are `cell[from..]`.
pub(crate) fn read_le(cell: &[u8], from: usize) -> (v: u64)
    requires
        from <= cell.len(),
        cell.len() - from <= 8,
    ensures
        v == le_value(cell@.subrange(from as int, cell.len() as int)),
    decreases cell.len() - from,
{
    let ghost tail = cell@.subrange(from as int, cell.len() as int);
    if from == cell.len() {
        0
    } else {
        let rest: u64 = read_le(cell, from + 1);
        proof {
            let after = cell@.subrange(from + 1, cell.len() as int);
            assert(tail.drop_first() =~= after);
            lemma_le_value_bound(after);
            lemma_le_value_bound(tail);
            lemma_pow256_values();
            lemma_pow256_monotonic(tail.len(), 8);
        }
        cell[from] as u64 + 256 * rest
    }
}

/// More bytes hold more values.
pub proof fn lemma_pow256_monotonic(a: nat, b: nat)
    requires
        a <= b,
    ensures
        pow256(a) <= pow256(b),
    decreases b,
{
    if a < b {
        lemma_pow256_monotonic(a, (b - 1) as nat);
    }
}

/// The bits of a signed number in `width` bytes.
pub(crate) fn signed_bits(v: i64, width: usize) -> (u: u64)
    requires
        width == 2 || width == 4 || width == 8,
        -(pow256(width as nat) as int) <= 2 * v < pow256(width as nat),
    ensures
        u == to_unsigned(v as int, width as nat),
{
    proof {
        lemma_pow256_values();
    }
    if v >= 0 {
        v as u64
    } else {
        let below: u64 = (-(v + 1)) as u64;
        let top: u64 = if width == 2 {
            0xFFFF
        } else if width == 4 {
            0xFFFF_FFFF
        } else {
            u64::MAX
        };
        top - below
    }
}

/// The signed number that `width` bytes with the bits `u` stand for.
pub(crate) fn signed_value(u: u64, width: usize) -> (v: i64)
    requires
        width == 2 || width == 4 || width == 8,
        u < pow256(width as nat),
    ensures
        v == to_signed(u as nat, width as nat),
{
    proof {
        lemma_pow256_values();
    }
    let top: u64 = if width == 2 {
        0xFFFF
    } else if width == 4 {
        0xFFFF_FFFF
    } else {
        u64::MAX
    };
    if u > top / 2 {
        -((top - u) as i64) - 1
    } else {
        u as i64
    }
}

/// The earliest year that the two year bytes of a cell can hold.
pub const MIN_WIRE_YEAR: i32 = -10099;

/// The latest year that the two year bytes of a cell can hold.
pub const MAX_WIRE_YEAR: i32 = 15599;

/// Whether a year can be written into a cell.
pub open spec fn on_wire(year: int) -> bool {
    MIN_WIRE_YEAR <= year <= MAX_WIRE_YEAR
}

/// The hundreds of a year, rounded towards zero.
pub open spec fn century(year: int) -> int {
    if year >= 0 {
        year / 100
    } else {
        -((-year) / 100)
    }
}

/// What is left of a year beside its hundreds; it has the sign of the year.
pub open spec fn year_of_century(year: int) -> int {
    year - century(year) * 100
}

/// The seven bytes of a date: century and year of the century, each raised
/// by 100, month, day, and a time of day that reads midnight.
pub open spec fn date_bytes(d: SqlDate) -> Seq<u8> {
    seq![
        (century(d.year as int) + 100) as u8,
        (year_of_century(d.year as int) + 100) as u8,
        d.month,
        d.day,
        1u8,
        1u8,
        1u8,
    ]
}

/// The eleven bytes of a date with time: the date as in [`date_bytes`],
/// hour, minute and second, each raised by one, and four bytes of
/// fractions of a second, which are zero.
pub open spec fn datetime_bytes(t: SqlDateTime) -> Seq<u8> {
    seq![
        (century(t.date.year as int) + 100) as u8,
        (year_of_century(t.date.year as int) + 100) as u8,
        t.date.month,
        t.date.day,
        (t.hour + 1) as u8,
        (t.minute + 1) as u8,
        (t.second + 1) as u8,
        0u8,
        0u8,
        0u8,
        0u8,
    ]
}

/// The date in the first four bytes of a cell.
pub open spec fn wire_date(cell: Seq<u8>) -> SqlDate {
    SqlDate {
        year: ((cell[0] - 100) * 100 + (cell[1] - 100)) as i32,
        month: cell[2],
        day: cell[3],
    }
}

/// Whether the three time bytes of a cell hold a time of day.
pub open spec fn wire_time_ok(cell: Seq<u8>) -> bool {
    1 <= cell[4] <= 24 && 1 <= cell[5] <= 60 && 1 <= cell[6] <= 60
}

/// The date and time in the first seven bytes of a cell.
pub open spec fn wire_datetime(cell: Seq<u8>) -> SqlDateTime {
    SqlDateTime {
        date: wire_date(cell),
        hour: (cell[4] - 1) as u8,
        minute: (cell[5] - 1) as u8,
        second: (cell[6] - 1) as u8,
    }
}

/// Appends the four date bytes of `d`.
fn push_date_bytes(out: &mut Vec<u8>, d: &SqlDate)
    requires
        on_wire(d.year as int),
    ensures
        final(out)@ == old(out)@ + date_bytes(*d).take(4),
{
    let year: i32 = d.year;
    let hundreds: i32 = if year >= 0 {
        year / 100
    } else {
        -((-year) / 100)
    };
    let rest: i32 = year - hundreds * 100;
    out.push((hundreds + 100) as u8);
    out.push((rest + 100) as u8);
    out.push(d.month);
    out.push(d.day);
    assert(final(out)@ =~= old(out)@ + date_bytes(*d).take(4));
}

/// The seven bytes of a date, or nothing when the calendar does not have
/// the date or its year cannot be written.
pub fn write_date(d: &SqlDate) -> (cell: Option<Vec<u8>>)
    ensures
        cell is Some <==> d.wf() && on_wire(d.year as int),
        cell matches Some(bytes) ==> bytes@ == date_bytes(*d),
{
    if d.year < MIN_WIRE_YEAR || d.year > MAX_WIRE_YEAR || !d.is_valid() {
        return None;
    }
    let mut out: Vec<u8> = Vec::new();
    push_date_bytes(&mut out, d);
    out.push(1);
    out.push(1);
    out.push(1);
    assert(out@ =~= date_bytes(*d));
    Some(out)
}

/// The eleven bytes of a date with time, or nothing when there is no such
/// time or its year cannot be written.
pub fn write_datetime(t: &SqlDateTime) -> (cell: Option<Vec<u8>>)
    ensures
        cell is Some <==> t.wf() && on_wire(t.date.year as int),
        cell matches Some(bytes) ==> bytes@ == datetime_bytes(*t),
{
    if t.date.year < MIN_WIRE_YEAR || t.date.year > MAX_WIRE_YEAR || !t.is_valid() {
        return None;
    }
    let mut out: Vec<u8> = Vec::new();
    push_date_bytes(&mut out, &t.date);
    out.push(t.hour + 1);
    out.push(t.minute + 1);
    out.push(t.second + 1);
    out.push(0);
    out.push(0);
    out.push(0);
    out.push(0);
    assert(out@ =~= datetime_bytes(*t));
    Some(out)
}

/// The date in the first four bytes of a cell, if there are four and the
/// calendar has the date. The time bytes that follow are not looked at.
pub fn read_date(cell: &[u8]) -> (date: Option<SqlDate>)
    ensures
        date is Some <==> cell.len() >= 4 && wire_date(cell@).wf(),
        date matches Some(d) ==> d == wire_date(cell@),
{
    if cell.len() < 4 {
        return None;
    }
    let year: i32 = (cell[0] as i32 - 100) * 100 + (cell[1] as i32 - 100);
    SqlDate::from_ymd(year, cell[2] as u32, cell[3] as u32)
}

/// The date and time in the first seven bytes of a cell, if there are
/// seven and there is such a time. The fractions of a second that follow
/// are not looked at.
pub fn read_datetime(cell: &[u8]) -> (time: Option<SqlDateTime>)
    ensures
        time is Some <==> cell.len() >= 7 && wire_time_ok(cell@) && wire_datetime(cell@).wf(),
        time matches Some(t) ==> t == wire_datetime(cell@),
{
    if cell.len() < 7 {
        return None;
    }
    if cell[4] < 1 || cell[5] < 1 || cell[6] < 1 {
        return None;
    }
    match read_date(cell) {
        None => None,
        Some(date) => SqlDateTime::new(
            date,
            (cell[4] - 1) as u32,
            (cell[5] - 1) as u32,
            (cell[6] - 1) as u32,
        ),
    }
}

/// A date that was written is read back unchanged.
pub proof fn lemma_date_round_trip(d: SqlDate)
    requires
        d.wf(),
        on_wire(d.year as int),
    ensures
        wire_date(date_bytes(d)) == d,
{
}

/// A date with time that was written is read back unchanged.
pub proof fn lemma_datetime_round_trip(t: SqlDateTime)
    requires
        t.wf(),
        on_wire(t.date.year as int),
    ensures
        wire_time_ok(datetime_bytes(t)),
        wire_datetime(datetime_bytes(t)) == t,
{
}

} // verus!
