//! Tagged fields: the encoding of the messages whose fields are optional.
//!
//! A field is a tag followed by a value. A tag is a varint that holds the number
//! of the field and how its value is written. A message is the run of its fields;
//! a field that has its default value is left out.

use crate::protocol::bytes;
use crate::protocol::bytes::{copy_range, push_bytes};
use crate::protocol::error::{ByteField, CodecError};
use crate::text;
use crate::text::{copy_text, read_utf8};
use vstd::prelude::*;
use vstd::slice::slice_subrange;
use vstd::utf8::*;

verus! {

// ---------------------------------------------------------------------------
// Varints
// ---------------------------------------------------------------------------

/// A number in groups of seven bits, the least significant first. Every byte but
/// the last has its high bit set.
pub open spec fn varint(v: nat) -> Seq<u8>
    decreases v,
{
    if v < 128 {
        seq![v as u8]
    } else {
        seq![(v % 128 + 128) as u8] + varint(v / 128)
    }
}

/// What reading a varint comes to.
pub enum Scan {
    /// The bytes end before the varint does.
    Truncated,
    /// The varint goes on beyond the number of bytes that it may have.
    Overflow,
    /// The varint denotes a value and ends before `next`.
    Value { value: nat, next: int },
}

/// Reads a varint of at most `budget` bytes at `at`.
pub open spec fn varint_scan(bytes: Seq<u8>, at: int, budget: nat) -> Scan
    decreases budget,
{
    if at >= bytes.len() || budget == 0 {
        Scan::Truncated
    } else if bytes[at] < 128 {
        Scan::Value { value: bytes[at] as nat, next: at + 1 }
    } else if budget == 1 {
        Scan::Overflow
    } else {
        match varint_scan(bytes, at + 1, (budget - 1) as nat) {
            Scan::Value { value, next } => Scan::Value {
                value: (bytes[at] - 128) as nat + 128 * value,
                next,
            },
            other => other,
        }
    }
}

/// A varint that is read ends after its beginning and within the bytes.
pub proof fn varint_scan_advances(bytes: Seq<u8>, at: int, budget: nat)
    requires
        0 <= at,
    ensures
        varint_scan(bytes, at, budget) matches Scan::Value { value, next } ==> at < next
            <= bytes.len(),
    decreases budget,
{
    if at < bytes.len() && budget > 1 && bytes[at] >= 128 {
        varint_scan_advances(bytes, at + 1, (budget - 1) as nat);
    }
}

/// The powers of 128.
pub open spec fn pow128(k: nat) -> nat
    decreases k,
{
    if k == 0 {
        1
    } else {
        128 * pow128((k - 1) as nat)
    }
}

/// A number below a power of 128 has no more bytes than the exponent says.
pub proof fn varint_length(v: nat, k: nat)
    requires
        k > 0,
        v < pow128(k),
    ensures
        0 < varint(v).len() <= k,
    decreases k,
{
    if v >= 128 {
        assert(pow128(1) == 128) by {
            reveal_with_fuel(pow128, 2);
        }
        assert(k > 1);
        assert(v / 128 < pow128((k - 1) as nat));
        varint_length(v / 128, (k - 1) as nat);
    }
}

/// A 32-bit number takes at most five bytes, a 64-bit number at most ten.
pub proof fn varint_lengths(v: nat)
    ensures
        v < 0x1_0000_0000 ==> 0 < varint(v).len() <= 5,
        v < 0x1_0000_0000_0000_0000 ==> 0 < varint(v).len() <= 10,
{
    assert(pow128(5) == 0x8_0000_0000) by {
        reveal_with_fuel(pow128, 6);
    }
    assert(pow128(10) == 0x40_0000_0000_0000_0000) by {
        reveal_with_fuel(pow128, 11);
    }
    if v < 0x1_0000_0000 {
        varint_length(v, 5);
    }
    if v < 0x1_0000_0000_0000_0000 {
        varint_length(v, 10);
    }
}

/// A varint is read back as the number it was written for, wherever it stands, if
/// it has no more bytes than the reader allows.
pub proof fn varint_read_back(bytes: Seq<u8>, at: int, v: nat, budget: nat)
    requires
        bytes::bytes_at(bytes, at, varint(v)),
        varint(v).len() <= budget,
    ensures
        varint_scan(bytes, at, budget) == (Scan::Value { value: v, next: at + varint(v).len() }),
    decreases v,
{
    let w = varint(v);
    if v < 128 {
        assert(w[0] == bytes[at]);
    } else {
        let rest = varint(v / 128);
        assert(w[0] == bytes[at]);
        assert forall|i: int| 0 <= i < rest.len() implies bytes[at + 1 + i] == #[trigger] rest[i] by {
            assert(w[i + 1] == rest[i]);
        }
        assert(rest.len() > 0);
        varint_read_back(bytes, at + 1, v / 128, (budget - 1) as nat);
    }
}

fn write_varint(value: u64, buf: &mut Vec<u8>)
    ensures
        final(buf)@ == old(buf)@ + varint(value as nat),
    decreases value,
{
    let ghost before = buf@;
    if value < 128 {
        buf.push(value as u8);
    } else {
        buf.push((value % 128 + 128) as u8);
        write_varint(value / 128, buf);
    }
    assert(buf@ =~= before + varint(value as nat));
}

/// Adds a 32-bit number as a varint.
pub fn write_varint_u32(value: u32, buf: &mut Vec<u8>)
    ensures
        final(buf)@ == old(buf)@ + varint(value as nat),
{
    write_varint(value as u64, buf)
}

/// Adds a 64-bit number as a varint.
pub fn write_varint_u64(value: u64, buf: &mut Vec<u8>)
    ensures
        final(buf)@ == old(buf)@ + varint(value as nat),
{
    write_varint(value, buf)
}

/// The low 64 bits of the varint of at most `budget` bytes at `at`.
fn scan_varint(bytes: &[u8], at: usize, budget: u8) -> (r: Result<(u64, usize), CodecError>)
    requires
        budget > 0,
        at <= bytes.len(),
    ensures
        match varint_scan(bytes@, at as int, budget as nat) {
            Scan::Truncated => r == Err::<(u64, usize), _>(CodecError::TruncatedVarint),
            Scan::Overflow => r == Err::<(u64, usize), _>(CodecError::VarintOverflow),
            Scan::Value { value, next } => r is Ok && r->Ok_0.0 == value % 0x1_0000_0000_0000_0000
                && r->Ok_0.1 == next,
        },
        r is Ok ==> at < r->Ok_0.1 <= bytes.len(),
    decreases budget,
{
    if at >= bytes.len() {
        return Err(CodecError::TruncatedVarint);
    }
    let b: u8 = bytes[at];
    if b < 128 {
        return Ok((b as u64, at + 1));
    }
    if budget == 1 {
        return Err(CodecError::VarintOverflow);
    }
    match scan_varint(bytes, at + 1, budget - 1) {
        Err(e) => Err(e),
        Ok((high, next)) => {
            let low: u64 = (b - 128) as u64;
            let r: u64 = (low as u128 + high as u128 * 128) as u64;
            proof {
                let value = match varint_scan(bytes@, at + 1, (budget - 1) as nat) {
                    Scan::Value { value, next } => value,
                    _ => 0,
                };
                let wide = (low as u128 + high as u128 * 128) as u128;
                assert(wide as u64 == wide % 0x1_0000_0000_0000_0000) by (bit_vector);
                assert((low + 128 * (value % 0x1_0000_0000_0000_0000)) % 0x1_0000_0000_0000_0000 == (
                low + 128 * value) % 0x1_0000_0000_0000_0000) by (nonlinear_arith);
            }
            Ok((r, next))
        },
    }
}

// ---------------------------------------------------------------------------
// Reading a field
// ---------------------------------------------------------------------------

/// What a message says of one of its fields: how the value is read, or that the
/// field is unknown and passed over.
#[derive(Debug, Clone, Copy, PartialEq, Eq, Structural)]
pub enum FieldKind {
    U32,
    U64,
    Bool,
    Byte(ByteField),
    Text,
    Unknown,
}

/// The value of a field. A boolean is zero or one.
pub enum ValueView {
    Number(u64),
    Text(Seq<char>),
}

/// A field: its number and its value.
pub struct FieldView {
    pub number: u32,
    pub value: ValueView,
}

/// The number at `at`, modulo `modulus`, and where it ends.
pub open spec fn number_at(bytes: Seq<u8>, at: int, budget: nat, modulus: nat) -> Result<
    (nat, int),
    CodecError,
> {
    match varint_scan(bytes, at, budget) {
        Scan::Truncated => Err(CodecError::TruncatedVarint),
        Scan::Overflow => Err(CodecError::VarintOverflow),
        Scan::Value { value, next } => Ok((value % modulus, next)),
    }
}

/// A 32-bit number: at most five bytes, of which the low 32 bits count.
pub open spec fn u32_at(bytes: Seq<u8>, at: int) -> Result<(nat, int), CodecError> {
    number_at(bytes, at, 5, 0x1_0000_0000)
}

/// A 64-bit number: at most ten bytes, of which the low 64 bits count.
pub open spec fn u64_at(bytes: Seq<u8>, at: int) -> Result<(nat, int), CodecError> {
    number_at(bytes, at, 10, 0x1_0000_0000_0000_0000)
}

/// The value of a field of a known kind, or nothing for an unknown field, and
/// where the field ends. A field that is passed over may end beyond the bytes.
pub open spec fn value_at(bytes: Seq<u8>, at: int, kind: FieldKind, wire: nat) -> Result<
    (Option<ValueView>, int),
    CodecError,
> {
    match kind {
        FieldKind::U32 => if wire != 0 {
            Err(CodecError::NotVarintU32)
        } else {
            match u32_at(bytes, at) {
                Err(e) => Err(e),
                Ok((v, next)) => Ok((Some(ValueView::Number(v as u64)), next)),
            }
        },
        FieldKind::U64 => if wire != 0 {
            Err(CodecError::NotVarintU64)
        } else {
            match u64_at(bytes, at) {
                Err(e) => Err(e),
                Ok((v, next)) => Ok((Some(ValueView::Number(v as u64)), next)),
            }
        },
        FieldKind::Bool => if wire != 0 {
            Err(CodecError::NotVarintBool)
        } else {
            match u32_at(bytes, at) {
                Err(e) => Err(e),
                Ok((v, next)) => Ok(
                    (
                        Some(
                            ValueView::Number(
                                if v != 0 {
                                    1
                                } else {
                                    0
                                },
                            ),
                        ),
                        next,
                    ),
                ),
            }
        },
        FieldKind::Byte(f) => if wire != 0 {
            Err(CodecError::BadWireType(f))
        } else {
            match u32_at(bytes, at) {
                Err(e) => Err(e),
                Ok((v, next)) => Ok((Some(ValueView::Number((v % 256) as u64)), next)),
            }
        },
        FieldKind::Text => if wire != 2 {
            Err(CodecError::NotLengthDelimited)
        } else {
            match u32_at(bytes, at) {
                Err(e) => Err(e),
                Ok((len, next)) => if next + len > bytes.len() {
                    Err(CodecError::TruncatedText)
                } else if !valid_utf8(bytes.subrange(next, next + len)) {
                    Err(CodecError::InvalidUtf8(text::utf8_fault(bytes.subrange(next, next + len))))
                } else {
                    Ok(
                        (
                            Some(ValueView::Text(decode_utf8(bytes.subrange(next, next + len)))),
                            next + len,
                        ),
                    )
                },
            }
        },
        FieldKind::Unknown => if wire == 0 {
            match u64_at(bytes, at) {
                Err(e) => Err(e),
                Ok((v, next)) => Ok((None, next)),
            }
        } else if wire == 1 {
            Ok((None, at + 8))
        } else if wire == 2 {
            match u32_at(bytes, at) {
                Err(e) => Err(e),
                Ok((len, next)) => Ok((None, next + len)),
            }
        } else if wire == 5 {
            Ok((None, at + 4))
        } else {
            Err(CodecError::UnknownWireType)
        },
    }
}

/// What a message says of the field with a number.
pub open spec fn kind_of(schema: Seq<FieldKind>, number: nat) -> FieldKind {
    if number < schema.len() {
        schema[number as int]
    } else {
        FieldKind::Unknown
    }
}

/// A field that is read ends after its beginning.
pub proof fn value_advances(bytes: Seq<u8>, at: int, kind: FieldKind, wire: nat)
    requires
        0 <= at,
    ensures
        value_at(bytes, at, kind, wire) matches Ok((v, next)) ==> at < next,
{
    varint_scan_advances(bytes, at, 5);
    varint_scan_advances(bytes, at, 10);
}

/// The known fields of a message from `at` on.
pub open spec fn fields_from(bytes: Seq<u8>, at: int, schema: Seq<FieldKind>) -> Result<
    Seq<FieldView>,
    CodecError,
>
    decreases (if at < bytes.len() { bytes.len() - at } else { 0 }),
{
    if at < 0 || at >= bytes.len() {
        Ok(Seq::empty())
    } else {
        match u32_at(bytes, at) {
            Err(e) => Err(e),
            Ok((tag, start)) => {
                let number = tag / 8;
                match value_at(bytes, start, kind_of(schema, number), tag % 8) {
                    Err(e) => Err(e),
                    Ok((value, next)) => {
                        proof {
                            varint_scan_advances(bytes, at, 5);
                            value_advances(bytes, start, kind_of(schema, number), tag % 8);
                        }
                        match fields_from(bytes, next, schema) {
                            Err(e) => Err(e),
                            Ok(rest) => match value {
                                Some(v) => Ok(
                                    seq![FieldView { number: number as u32, value: v }] + rest,
                                ),
                                None => Ok(rest),
                            },
                        }
                    },
                }
            },
        }
    }
}

/// The known fields of a message that may be filled up with zeros. Two zeros are a field
/// without a meaning; a single one that is left over at the end is no field.
pub open spec fn padded_fields(bytes: Seq<u8>, schema: Seq<FieldKind>) -> Result<
    Seq<FieldView>,
    CodecError,
> {
    let whole = fields_from(bytes, 0, schema);
    if whole is Err && bytes.len() > 0 && bytes.last() == 0 && fields_from(
        bytes.drop_last(),
        0,
        schema,
    ) is Ok {
        fields_from(bytes.drop_last(), 0, schema)
    } else {
        whole
    }
}

/// The value of the last field with a number, if there is one.
pub open spec fn last_value(fields: Seq<FieldView>, number: u32) -> Option<ValueView>
    decreases fields.len(),
{
    if fields.len() == 0 {
        None
    } else if fields.last().number == number {
        Some(fields.last().value)
    } else {
        last_value(fields.drop_last(), number)
    }
}

/// The number that the last field with a number holds, zero without one.
pub open spec fn number_of(fields: Seq<FieldView>, number: u32) -> u64 {
    match last_value(fields, number) {
        Some(ValueView::Number(n)) => n,
        _ => 0,
    }
}

/// The text that the last field with a number holds, empty without one.
pub open spec fn text_of(fields: Seq<FieldView>, number: u32) -> Seq<char> {
    match last_value(fields, number) {
        Some(ValueView::Text(t)) => t,
        _ => Seq::empty(),
    }
}

/// The value of a field.
#[derive(Debug, PartialEq, Eq)]
pub enum Value {
    Number(u64),
    Text(String),
}

/// A field that was read.
#[derive(Debug, PartialEq, Eq)]
pub struct Field {
    pub number: u32,
    pub value: Value,
}

impl View for Value {
    type V = ValueView;

    open spec fn view(&self) -> ValueView {
        match *self {
            Value::Number(n) => ValueView::Number(n),
            Value::Text(t) => ValueView::Text(t@),
        }
    }
}

impl View for Field {
    type V = FieldView;

    open spec fn view(&self) -> FieldView {
        FieldView { number: self.number, value: self.value@ }
    }
}

/// What a list of fields holds.
pub open spec fn field_views(fields: Seq<Field>) -> Seq<FieldView> {
    Seq::new(fields.len(), |i: int| fields[i]@)
}

/// Where the reading of a number stops that cannot be read: behind the bytes that it may
/// have, or at the end.
pub open spec fn failed_at(len: nat, at: nat, budget: nat) -> nat {
    if at >= len {
        at
    } else if at + budget <= len {
        at + budget
    } else {
        len
    }
}

/// The low 64 bits of the varint of at most `budget` bytes at the offset, which moves on.
fn take_varint(bytes: &[u8], offset: &mut usize, budget: u8) -> (r: Result<u64, CodecError>)
    requires
        budget > 0,
    ensures
        match r {
            Ok(v) => number_at(
                bytes@,
                *old(offset) as int,
                budget as nat,
                0x1_0000_0000_0000_0000,
            ) == Ok::<_, CodecError>((v as nat, *final(offset) as int)) && *old(offset) < *final(offset) <= bytes.len(),
            Err(e) => number_at(
                bytes@,
                *old(offset) as int,
                budget as nat,
                0x1_0000_0000_0000_0000,
            ) == Err::<(nat, int), _>(e) && *final(offset) == failed_at(
                bytes@.len(),
                *old(offset) as nat,
                budget as nat,
            ),
        },
{
    let at: usize = *offset;
    let n: usize = bytes.len();
    if at >= n {
        return Err(CodecError::TruncatedVarint);
    }
    match scan_varint(bytes, at, budget) {
        Err(e) => {
            *offset = if n - at >= budget as usize {
                at + budget as usize
            } else {
                n
            };
            Err(e)
        },
        Ok((v, next)) => {
            *offset = next;
            Ok(v)
        },
    }
}

/// Reads a 32-bit number at the offset, which moves on.
pub fn read_varint_u32(bytes: &[u8], offset: &mut usize) -> (r: Result<u32, CodecError>)
    ensures
        match r {
            Ok(v) => u32_at(bytes@, *old(offset) as int) == Ok::<_, CodecError>(
                (v as nat, *final(offset) as int),
            ) && *old(offset) < *final(offset) <= bytes.len(),
            Err(e) => u32_at(bytes@, *old(offset) as int) == Err::<(nat, int), _>(e) && *final(offset) == failed_at(bytes@.len(), *old(offset) as nat, 5),
        },
{
    let ghost at = *offset as int;
    match take_varint(bytes, offset, 5) {
        Err(e) => Err(e),
        Ok(v) => {
            proof {
                let value = match varint_scan(bytes@, at, 5) {
                    Scan::Value { value, next } => value,
                    _ => 0,
                };
                assert((value % 0x1_0000_0000_0000_0000) % 0x1_0000_0000 == value % 0x1_0000_0000)
                    by (nonlinear_arith);
            }
            Ok((v % 0x1_0000_0000) as u32)
        },
    }
}

/// Reads a 64-bit number at the offset, which moves on.
pub fn read_varint_u64(bytes: &[u8], offset: &mut usize) -> (r: Result<u64, CodecError>)
    ensures
        match r {
            Ok(v) => u64_at(bytes@, *old(offset) as int) == Ok::<_, CodecError>(
                (v as nat, *final(offset) as int),
            ) && *old(offset) < *final(offset) <= bytes.len(),
            Err(e) => u64_at(bytes@, *old(offset) as int) == Err::<(nat, int), _>(e) && *final(offset) == failed_at(bytes@.len(), *old(offset) as nat, 10),
        },
{
    take_varint(bytes, offset, 10)
}

/// `at + n`, or the end of the bytes if that lies before.
fn advance(bytes: &[u8], at: usize, n: usize) -> (r: usize)
    requires
        at <= bytes.len(),
    ensures
        r <= bytes.len(),
        r == at + n || (r == bytes.len() && at + n >= bytes.len()),
{
    if n > bytes.len() - at {
        bytes.len()
    } else {
        at + n
    }
}

/// Reads the value of a field; where it ends is cut off at the end of the bytes.
fn read_value(bytes: &[u8], at: usize, kind: FieldKind, wire: u32) -> (r: Result<
    (Option<Value>, usize),
    CodecError,
>)
    requires
        at <= bytes.len(),
    ensures
        match (r, value_at(bytes@, at as int, kind, wire as nat)) {
            (Ok((value, next)), Ok((value_view, next_view))) => {
                &&& (value is Some <==> value_view is Some)
                &&& (value matches Some(v) ==> v@ == value_view->Some_0)
                &&& next <= bytes.len()
                &&& (next == next_view || (next == bytes.len() && next_view >= bytes.len()))
            },
            (Err(e), Err(f)) => e == f,
            _ => false,
        },
{
    let mut next: usize = at;
    match kind {
        FieldKind::U32 => {
            if wire != 0 {
                return Err(CodecError::NotVarintU32);
            }
            match read_varint_u32(bytes, &mut next) {
                Err(e) => Err(e),
                Ok(v) => Ok((Some(Value::Number(v as u64)), next)),
            }
        },
        FieldKind::U64 => {
            if wire != 0 {
                return Err(CodecError::NotVarintU64);
            }
            match read_varint_u64(bytes, &mut next) {
                Err(e) => Err(e),
                Ok(v) => Ok((Some(Value::Number(v)), next)),
            }
        },
        FieldKind::Bool => {
            if wire != 0 {
                return Err(CodecError::NotVarintBool);
            }
            match read_varint_u32(bytes, &mut next) {
                Err(e) => Err(e),
                Ok(v) => Ok(
                    (
                        Some(
                            Value::Number(
                                if v != 0 {
                                    1
                                } else {
                                    0
                                },
                            ),
                        ),
                        next,
                    ),
                ),
            }
        },
        FieldKind::Byte(f) => {
            if wire != 0 {
                return Err(CodecError::BadWireType(f));
            }
            match read_varint_u32(bytes, &mut next) {
                Err(e) => Err(e),
                Ok(v) => Ok((Some(Value::Number((v % 256) as u64)), next)),
            }
        },
        FieldKind::Text => {
            if wire != 2 {
                return Err(CodecError::NotLengthDelimited);
            }
            match read_varint_u32(bytes, &mut next) {
                Err(e) => Err(e),
                Ok(len) => {
                    if len as u64 > (bytes.len() - next) as u64 {
                        return Err(CodecError::TruncatedText);
                    }
                    let end: usize = next + len as usize;
                    match read_utf8(copy_range(bytes, next, end)) {
                        Err(e) => Err(CodecError::InvalidUtf8(e)),
                        Ok(t) => Ok((Some(Value::Text(t)), end)),
                    }
                },
            }
        },
        FieldKind::Unknown => {
            if wire == 0 {
                match read_varint_u64(bytes, &mut next) {
                    Err(e) => Err(e),
                    Ok(v) => Ok((None, next)),
                }
            } else if wire == 1 {
                Ok((None, advance(bytes, at, 8)))
            } else if wire == 2 {
                match read_varint_u32(bytes, &mut next) {
                    Err(e) => Err(e),
                    Ok(len) => Ok((None, advance(bytes, next, len as usize))),
                }
            } else if wire == 5 {
                Ok((None, advance(bytes, at, 4)))
            } else {
                Err(CodecError::UnknownWireType)
            }
        },
    }
}

/// Reads the known fields of a message.
pub fn read_fields(bytes: &[u8], schema: &[FieldKind]) -> (r: Result<Vec<Field>, CodecError>)
    ensures
        match r {
            Ok(fields) => fields_from(bytes@, 0, schema@) == Ok::<_, CodecError>(
                field_views(fields@),
            ),
            Err(e) => fields_from(bytes@, 0, schema@) == Err::<Seq<FieldView>, _>(e),
        },
{
    let mut fields: Vec<Field> = Vec::new();
    let mut at: usize = 0;
    proof {
        match fields_from(bytes@, 0, schema@) {
            Ok(rest) => {
                assert(field_views(fields@) + rest =~= rest);
            },
            Err(_) => {},
        }
    }
    while at < bytes.len()
        invariant
            at <= bytes.len(),
            fields_from(bytes@, 0, schema@) == match fields_from(bytes@, at as int, schema@) {
                Ok(rest) => Ok::<_, CodecError>(field_views(fields@) + rest),
                Err(e) => Err(e),
            },
        decreases bytes.len() - at,
    {
        let ghost seen = field_views(fields@);
        let ghost at_before = at as int;
        let mut start: usize = at;
        let tag: u32 = match read_varint_u32(bytes, &mut start) {
            Err(e) => {
                return Err(e);
            },
            Ok(found) => found,
        };
        let number: u32 = tag / 8;
        let kind: FieldKind = if (number as u64) < schema.len() as u64 {
            schema[number as usize]
        } else {
            FieldKind::Unknown
        };
        let (value, next) = match read_value(bytes, start, kind, tag % 8) {
            Err(e) => {
                return Err(e);
            },
            Ok(found) => found,
        };
        proof {
            value_advances(bytes@, start as int, kind, (tag % 8) as nat);
            let next_view = match value_at(bytes@, start as int, kind, (tag % 8) as nat) {
                Ok((_, n)) => n,
                Err(_) => 0,
            };
            assert(fields_from(bytes@, next as int, schema@) == fields_from(
                bytes@,
                next_view,
                schema@,
            ));
        }
        match value {
            Some(v) => {
                fields.push(Field { number, value: v });
                proof {
                    let one = seq![FieldView { number, value: v@ }];
                    assert(field_views(fields@) =~= seen + one);
                    match fields_from(bytes@, next as int, schema@) {
                        Ok(rest) => {
                            assert(seen + (one + rest) =~= field_views(fields@) + rest);
                        },
                        Err(_) => {},
                    }
                }
            },
            None => {},
        }
        at = next;
    }
    assert(field_views(fields@) + Seq::<FieldView>::empty() =~= field_views(fields@));
    Ok(fields)
}

/// Reads the known fields of a message that may be filled up with zeros.
pub fn read_padded_fields(bytes: &[u8], schema: &[FieldKind]) -> (r: Result<Vec<Field>, CodecError>)
    ensures
        match r {
            Ok(fields) => padded_fields(bytes@, schema@) == Ok::<_, CodecError>(
                field_views(fields@),
            ),
            Err(e) => padded_fields(bytes@, schema@) == Err::<Seq<FieldView>, _>(e),
        },
{
    match read_fields(bytes, schema) {
        Ok(fields) => Ok(fields),
        Err(e) => {
            let n: usize = bytes.len();
            if n == 0 || bytes[n - 1] != 0 {
                return Err(e);
            }
            let shorter = slice_subrange(bytes, 0, n - 1);
            assert(shorter@ =~= bytes@.drop_last());
            match read_fields(shorter, schema) {
                Ok(fields) => Ok(fields),
                Err(_) => Err(e),
            }
        },
    }
}

fn find_field(fields: &[Field], number: u32) -> (r: Option<usize>)
    ensures
        match r {
            Some(i) => i < fields.len() && last_value(field_views(fields@), number) == Some(
                fields@[i as int].value@,
            ),
            None => last_value(field_views(fields@), number) is None,
        },
{
    let mut i: usize = fields.len();
    assert(field_views(fields@).take(i as int) =~= field_views(fields@));
    while i > 0
        invariant
            i <= fields.len(),
            last_value(field_views(fields@), number) == last_value(
                field_views(fields@).take(i as int),
                number,
            ),
        decreases i,
    {
        assert(field_views(fields@).take(i as int).drop_last() =~= field_views(fields@).take(
            i - 1,
        ));
        i -= 1;
        if fields[i].number == number {
            return Some(i);
        }
    }
    None
}

/// The number that the last field with a number holds, zero without one.
pub fn find_number(fields: &[Field], number: u32) -> (r: u64)
    ensures
        r == number_of(field_views(fields@), number),
{
    match find_field(fields, number) {
        Some(i) => match &fields[i].value {
            Value::Number(n) => *n,
            Value::Text(_) => 0,
        },
        None => 0,
    }
}

/// The text that the last field with a number holds, empty without one.
pub fn find_text(fields: &[Field], number: u32) -> (r: String)
    ensures
        r@ == text_of(field_views(fields@), number),
{
    match find_field(fields, number) {
        Some(i) => match &fields[i].value {
            Value::Text(t) => copy_text(t.as_str()),
            Value::Number(_) => String::new(),
        },
        None => String::new(),
    }
}

// ---------------------------------------------------------------------------
// Writing fields
// ---------------------------------------------------------------------------

/// A place for a field in a message: a field is written there unless it may be
/// left out and has its default value.
pub struct SlotView {
    pub number: u32,
    pub kind: FieldKind,
    pub value: ValueView,
    pub always: bool,
}

/// The wire type of a field.
pub open spec fn wire_type(kind: FieldKind) -> nat {
    match kind {
        FieldKind::Text => 2,
        _ => 0,
    }
}

/// Zero or the empty text.
pub open spec fn is_default(value: ValueView) -> bool {
    match value {
        ValueView::Number(n) => n == 0,
        ValueView::Text(t) => t.len() == 0,
    }
}

/// Whether the field of a slot is left out.
pub open spec fn left_out(slot: SlotView) -> bool {
    !slot.always && is_default(slot.value)
}

/// How the value of a field is written: a number as a varint, a byte as it is, a
/// text as its length, of which 32 bits are written, and its bytes.
pub open spec fn value_bytes(kind: FieldKind, value: ValueView) -> Seq<u8> {
    match value {
        ValueView::Text(t) => varint(encode_utf8(t).len() % 0x1_0000_0000) + encode_utf8(t),
        ValueView::Number(n) => match kind {
            FieldKind::Byte(_) => seq![n as u8],
            _ => varint(n as nat),
        },
    }
}

/// How the field of a slot is written.
pub open spec fn slot_bytes(slot: SlotView) -> Seq<u8> {
    if left_out(slot) {
        Seq::empty()
    } else {
        varint(slot.number as nat * 8 + wire_type(slot.kind)) + value_bytes(slot.kind, slot.value)
    }
}

/// How the fields of a message are written.
pub open spec fn slots_bytes(slots: Seq<SlotView>) -> Seq<u8>
    decreases slots.len(),
{
    if slots.len() == 0 {
        Seq::empty()
    } else {
        slot_bytes(slots[0]) + slots_bytes(slots.drop_first())
    }
}

/// The fields that are written.
pub open spec fn slots_fields(slots: Seq<SlotView>) -> Seq<FieldView>
    decreases slots.len(),
{
    if slots.len() == 0 {
        Seq::empty()
    } else if left_out(slots[0]) {
        slots_fields(slots.drop_first())
    } else {
        seq![FieldView { number: slots[0].number, value: slots[0].value }] + slots_fields(
            slots.drop_first(),
        )
    }
}

/// A field that can be read back: the schema knows it by the kind it is written
/// with, and its value survives the encoding. A byte does so below 128, a text
/// below four gigabytes.
pub open spec fn slot_readable(slot: SlotView, schema: Seq<FieldKind>) -> bool {
    &&& slot.number < schema.len()
    &&& slot.number < 0x1000_0000
    &&& schema[slot.number as int] == slot.kind
    &&& match (slot.kind, slot.value) {
        (FieldKind::U32, ValueView::Number(n)) => n < 0x1_0000_0000,
        (FieldKind::U64, ValueView::Number(n)) => true,
        (FieldKind::Bool, ValueView::Number(n)) => n <= 1,
        (FieldKind::Byte(_), ValueView::Number(n)) => n < 128,
        (FieldKind::Text, ValueView::Text(t)) => encode_utf8(t).len() < 0x1_0000_0000,
        _ => false,
    }
}

/// Every field of a message can be read back.
pub open spec fn slots_readable(slots: Seq<SlotView>, schema: Seq<FieldKind>) -> bool {
    forall|i: int| 0 <= i < slots.len() ==> slot_readable(#[trigger] slots[i], schema)
}

/// No two slots have the same number.
pub open spec fn slots_distinct(slots: Seq<SlotView>) -> bool {
    forall|i: int, j: int|
        0 <= i < j < slots.len() ==> (#[trigger] slots[i]).number != (#[trigger] slots[j]).number
}

proof fn bytes_at_within(whole: Seq<u8>, at: int, outer: Seq<u8>, from: int, part: Seq<u8>)
    requires
        bytes::bytes_at(whole, at, outer),
        bytes::bytes_at(outer, from, part),
    ensures
        bytes::bytes_at(whole, at + from, part),
{
    assert forall|i: int| 0 <= i < part.len() implies whole[at + from + i] == #[trigger] part[i] by {
        assert(outer[from + i] == part[i]);
    }
}

proof fn value_read_back(bytes: Seq<u8>, at: int, slot: SlotView, schema: Seq<FieldKind>)
    requires
        slot_readable(slot, schema),
        bytes::bytes_at(bytes, at, value_bytes(slot.kind, slot.value)),
    ensures
        value_at(bytes, at, slot.kind, wire_type(slot.kind)) == Ok::<_, CodecError>(
            (Some(slot.value), at + value_bytes(slot.kind, slot.value).len()),
        ),
{
    let w = value_bytes(slot.kind, slot.value);
    match slot.value {
        ValueView::Text(t) => {
            let body = encode_utf8(t);
            let n = body.len();
            let head = varint(n);
            assert(w == head + body);
            varint_lengths(n);
            assert(bytes::bytes_at(w, 0, head));
            bytes_at_within(bytes, at, w, 0, head);
            varint_read_back(bytes, at, n, 5);
            let start = at + head.len();
            assert(bytes::bytes_at(w, head.len() as int, body)) by {
                assert forall|i: int| 0 <= i < body.len() implies w[head.len() + i]
                    == #[trigger] body[i] by {}
            }
            bytes_at_within(bytes, at, w, head.len() as int, body);
            assert(bytes.subrange(start, start + n) =~= body);
            encode_utf8_valid_utf8(t);
            encode_utf8_decode_utf8(t);
        },
        ValueView::Number(n) => {
            match slot.kind {
                FieldKind::Byte(_) => {
                    assert(w[0] == bytes[at]);
                    assert(bytes[at] == n);
                },
                FieldKind::U64 => {
                    varint_lengths(n as nat);
                    varint_read_back(bytes, at, n as nat, 10);
                },
                _ => {
                    varint_lengths(n as nat);
                    varint_read_back(bytes, at, n as nat, 5);
                },
            }
        },
    }
}

/// One field that stands at `at` is read, and the rest after it.
proof fn field_read_back(bytes: Seq<u8>, at: int, slot: SlotView, schema: Seq<FieldKind>)
    requires
        slot_readable(slot, schema),
        !left_out(slot),
        bytes::bytes_at(bytes, at, slot_bytes(slot)),
    ensures
        fields_from(bytes, at, schema) == match fields_from(
            bytes,
            at + slot_bytes(slot).len(),
            schema,
        ) {
            Ok(rest) => Ok::<_, CodecError>(
                seq![FieldView { number: slot.number, value: slot.value }] + rest,
            ),
            Err(e) => Err(e),
        },
{
    let head = slot_bytes(slot);
    let tag_value = slot.number as nat * 8 + wire_type(slot.kind);
    let tag = varint(tag_value);
    let body = value_bytes(slot.kind, slot.value);
    varint_lengths(tag_value);
    assert(bytes::bytes_at(bytes, at, tag)) by {
        assert forall|i: int| 0 <= i < tag.len() implies bytes[at + i] == #[trigger] tag[i] by {
            assert(head[i] == tag[i]);
        }
    }
    varint_read_back(bytes, at, tag_value, 5);
    let start = at + tag.len();
    assert(bytes::bytes_at(bytes, start, body)) by {
        assert forall|i: int| 0 <= i < body.len() implies bytes[start + i] == #[trigger] body[i] by {
            assert(head[tag.len() + i] == body[i]);
        }
    }
    value_read_back(bytes, start, slot, schema);
    assert(tag_value / 8 == slot.number && tag_value % 8 == wire_type(slot.kind));
    assert(u32_at(bytes, at) == Ok::<_, CodecError>((tag_value, start)));
    assert(kind_of(schema, slot.number as nat) == slot.kind);
}

/// The fields of a message are read, and then what follows them.
pub proof fn fields_read_before(
    before: Seq<u8>,
    slots: Seq<SlotView>,
    after: Seq<u8>,
    schema: Seq<FieldKind>,
)
    requires
        slots_readable(slots, schema),
    ensures
        fields_from(before + slots_bytes(slots) + after, before.len() as int, schema)
            == match fields_from(
            before + slots_bytes(slots) + after,
            (before.len() + slots_bytes(slots).len()) as int,
            schema,
        ) {
            Ok(rest) => Ok::<_, CodecError>(slots_fields(slots) + rest),
            Err(e) => Err(e),
        },
    decreases slots.len(),
{
    let bytes = before + slots_bytes(slots) + after;
    let at = before.len() as int;
    let end = at + slots_bytes(slots).len();
    if slots.len() == 0 {
        match fields_from(bytes, at, schema) {
            Ok(rest) => {
                assert(slots_fields(slots) + rest =~= rest);
            },
            Err(_) => {},
        }
    } else {
        let slot = slots[0];
        let rest = slots.drop_first();
        assert(slots_readable(rest, schema)) by {
            assert forall|i: int| 0 <= i < rest.len() implies slot_readable(
                #[trigger] rest[i],
                schema,
            ) by {
                assert(rest[i] == slots[i + 1]);
            }
        }
        let head = slot_bytes(slot);
        assert(bytes =~= (before + head) + slots_bytes(rest) + after);
        fields_read_before(before + head, rest, after, schema);
        if left_out(slot) {
            assert(before + head =~= before);
        } else {
            assert(bytes::bytes_at(bytes, at, head));
            field_read_back(bytes, at, slot, schema);
            match fields_from(bytes, end, schema) {
                Ok(tail) => {
                    let one = seq![FieldView { number: slot.number, value: slot.value }];
                    assert(one + (slots_fields(rest) + tail) =~= slots_fields(slots) + tail);
                },
                Err(_) => {},
            }
        }
    }
}

/// What is written is read back: the fields of a message, in their order.
pub proof fn fields_read_back(slots: Seq<SlotView>, schema: Seq<FieldKind>)
    requires
        slots_readable(slots, schema),
    ensures
        fields_from(slots_bytes(slots), 0, schema) == Ok::<_, CodecError>(slots_fields(slots)),
{
    fields_read_before(Seq::empty(), slots, Seq::empty(), schema);
    let bytes = slots_bytes(slots);
    assert(Seq::<u8>::empty() + bytes + Seq::<u8>::empty() =~= bytes);
    assert(slots_fields(slots) + Seq::<FieldView>::empty() =~= slots_fields(slots));
}

/// A varint is read in the same way wherever its bytes stand.
proof fn varint_scan_moves(bytes: Seq<u8>, at: int, part: Seq<u8>, from: int, budget: nat)
    requires
        bytes::bytes_at(bytes, at, part),
        0 <= from,
    ensures
        varint_scan(part, from, budget) matches Scan::Value { value, next } ==> varint_scan(
            bytes,
            at + from,
            budget,
        ) == (Scan::Value { value, next: at + next }),
    decreases budget,
{
    if from < part.len() && budget > 0 {
        assert(bytes[at + from] == part[from]);
        if part[from] >= 128 && budget > 1 {
            varint_scan_moves(bytes, at, part, from + 1, (budget - 1) as nat);
        }
    }
}

/// The bytes of one field that a message does not know.
pub open spec fn unknown_field(field: Seq<u8>, schema: Seq<FieldKind>) -> bool {
    u32_at(field, 0) matches Ok((tag, start)) && kind_of(schema, tag / 8) == FieldKind::Unknown
        && value_at(field, start, FieldKind::Unknown, tag % 8) == Ok::<_, CodecError>(
        (None::<ValueView>, field.len() as int),
    )
}

/// A field that a message does not know is passed over, wherever it stands.
proof fn unknown_is_passed_over(bytes: Seq<u8>, at: int, field: Seq<u8>, schema: Seq<FieldKind>)
    requires
        unknown_field(field, schema),
        bytes::bytes_at(bytes, at, field),
    ensures
        fields_from(bytes, at, schema) == fields_from(bytes, at + field.len(), schema),
{
    varint_scan_moves(bytes, at, field, 0, 5);
    let (tag, start) = u32_at(field, 0)->Ok_0;
    varint_scan_advances(field, 0, 5);
    varint_scan_moves(bytes, at, field, start, 10);
    varint_scan_moves(bytes, at, field, start, 5);
    assert(u32_at(bytes, at) == Ok::<_, CodecError>((tag, at + start)));
    assert(value_at(bytes, at + start, FieldKind::Unknown, tag % 8) == Ok::<_, CodecError>(
        (None::<ValueView>, at + field.len()),
    ));
    match fields_from(bytes, at + field.len(), schema) {
        Ok(_) => {},
        Err(_) => {},
    }
}

/// A field that a message does not know, before or behind its fields, changes nothing.
pub proof fn unknown_changes_nothing(slots: Seq<SlotView>, schema: Seq<FieldKind>, field: Seq<u8>)
    requires
        slots_readable(slots, schema),
        unknown_field(field, schema),
    ensures
        fields_from(field + slots_bytes(slots), 0, schema) == Ok::<_, CodecError>(
            slots_fields(slots),
        ),
        fields_from(slots_bytes(slots) + field, 0, schema) == Ok::<_, CodecError>(
            slots_fields(slots),
        ),
{
    let body = slots_bytes(slots);
    let none = Seq::<u8>::empty();
    assert(slots_fields(slots) + Seq::<FieldView>::empty() =~= slots_fields(slots));
    let front = field + body;
    unknown_is_passed_over(front, 0, field, schema);
    fields_read_before(field, slots, none, schema);
    assert(field + body + none =~= front);
    let back = body + field;
    assert(bytes::bytes_at(back, body.len() as int, field));
    unknown_is_passed_over(back, body.len() as int, field, schema);
    fields_read_before(none, slots, field, schema);
    assert(none + body + field =~= back);
}

/// Zeros after the fields of a message are passed over two by two; a single one that is
/// left over cannot be read.
proof fn zeros_are_passed_over(bytes: Seq<u8>, at: int, schema: Seq<FieldKind>)
    requires
        0 <= at <= bytes.len(),
        schema.len() > 0,
        schema[0] == FieldKind::Unknown,
        forall|i: int| at <= i < bytes.len() ==> bytes[i] == 0,
    ensures
        fields_from(bytes, at, schema) == (if (bytes.len() - at) % 2 == 0 {
            Ok::<_, CodecError>(Seq::<FieldView>::empty())
        } else {
            Err(CodecError::TruncatedVarint)
        }),
    decreases bytes.len() - at,
{
    if at < bytes.len() {
        assert(bytes[at] == 0);
        assert(varint_scan(bytes, at, 5) == (Scan::Value { value: 0, next: at + 1 }));
        if at + 1 < bytes.len() {
            assert(bytes[at + 1] == 0);
            assert(varint_scan(bytes, at + 1, 10) == (Scan::Value { value: 0, next: at + 2 }));
            zeros_are_passed_over(bytes, at + 2, schema);
        } else {
            assert(varint_scan(bytes, at + 1, 10) is Truncated);
        }
    }
}

/// The fields of a message with any number of zeros behind them are read back.
pub proof fn padded_fields_read_back(slots: Seq<SlotView>, schema: Seq<FieldKind>, n: nat)
    requires
        slots_readable(slots, schema),
        schema.len() > 0,
        schema[0] == FieldKind::Unknown,
    ensures
        padded_fields(slots_bytes(slots) + bytes::zeros(n), schema) == Ok::<_, CodecError>(
            slots_fields(slots),
        ),
{
    let head = slots_bytes(slots);
    let whole = head + bytes::zeros(n);
    zeros_are_passed_over(whole, head.len() as int, schema);
    fields_read_before(Seq::empty(), slots, bytes::zeros(n), schema);
    assert(Seq::<u8>::empty() + head + bytes::zeros(n) =~= whole);
    assert(slots_fields(slots) + Seq::<FieldView>::empty() =~= slots_fields(slots));
    if n % 2 == 1 {
        let m = (n - 1) as nat;
        let shorter = head + bytes::zeros(m);
        assert(whole.drop_last() =~= shorter);
        zeros_are_passed_over(shorter, head.len() as int, schema);
        fields_read_before(Seq::empty(), slots, bytes::zeros(m), schema);
        assert(Seq::<u8>::empty() + head + bytes::zeros(m) =~= shorter);
    }
}

proof fn last_value_of_cons(field: FieldView, rest: Seq<FieldView>, number: u32)
    ensures
        last_value(seq![field] + rest, number) == match last_value(rest, number) {
            Some(v) => Some(v),
            None => if field.number == number {
                Some(field.value)
            } else {
                None
            },
        },
    decreases rest.len(),
{
    let all = seq![field] + rest;
    if rest.len() == 0 {
        assert(all =~= seq![field]);
        assert(all.drop_last() =~= Seq::<FieldView>::empty());
        assert(last_value(Seq::<FieldView>::empty(), number) is None);
    } else {
        assert(all.last() == rest.last());
        assert(all.drop_last() =~= seq![field] + rest.drop_last());
        last_value_of_cons(field, rest.drop_last(), number);
    }
}

proof fn last_value_absent(slots: Seq<SlotView>, number: u32)
    requires
        forall|i: int| 0 <= i < slots.len() ==> (#[trigger] slots[i]).number != number,
    ensures
        last_value(slots_fields(slots), number) is None,
    decreases slots.len(),
{
    if slots.len() > 0 {
        let rest = slots.drop_first();
        assert forall|i: int| 0 <= i < rest.len() implies (#[trigger] rest[i]).number != number by {
            assert(rest[i] == slots[i + 1]);
        }
        last_value_absent(rest, number);
        assert(slots[0].number != number);
        last_value_of_cons(
            FieldView { number: slots[0].number, value: slots[0].value },
            slots_fields(rest),
            number,
        );
    }
}

/// A field that is written is found by its number, with its value; a field that is
/// left out is not found.
pub proof fn slot_found(slots: Seq<SlotView>, j: int)
    requires
        slots_distinct(slots),
        0 <= j < slots.len(),
    ensures
        last_value(slots_fields(slots), slots[j].number) == (if left_out(slots[j]) {
            None
        } else {
            Some(slots[j].value)
        }),
    decreases slots.len(),
{
    let rest = slots.drop_first();
    let first = FieldView { number: slots[0].number, value: slots[0].value };
    let number = slots[j].number;
    last_value_of_cons(first, slots_fields(rest), number);
    if j == 0 {
        assert forall|i: int| 0 <= i < rest.len() implies (#[trigger] rest[i]).number != number by {
            assert(rest[i] == slots[i + 1]);
        }
        last_value_absent(rest, number);
    } else {
        assert(slots_distinct(rest)) by {
            assert forall|a: int, b: int| 0 <= a < b < rest.len() implies (
            #[trigger] rest[a]).number != (#[trigger] rest[b]).number by {
                assert(rest[a] == slots[a + 1] && rest[b] == slots[b + 1]);
            }
        }
        assert(rest[j - 1] == slots[j]);
        assert(slots[0].number != number);
        slot_found(rest, j - 1);
    }
}

fn write_tag(number: u32, wire: u32, buf: &mut Vec<u8>)
    requires
        number < 0x1000_0000,
        wire < 8,
    ensures
        final(buf)@ == old(buf)@ + varint(number as nat * 8 + wire as nat),
{
    write_varint_u32(number * 8 + wire, buf)
}

/// The slot of a number.
pub open spec fn number_slot(number: u32, kind: FieldKind, value: u64) -> SlotView {
    SlotView { number, kind, value: ValueView::Number(value), always: false }
}

/// The slot of a text.
pub open spec fn text_slot(number: u32, value: Seq<char>) -> SlotView {
    SlotView { number, kind: FieldKind::Text, value: ValueView::Text(value), always: false }
}

/// The slot of a byte that is written even if it is zero.
pub open spec fn fixed_byte_slot(number: u32, f: ByteField, value: u8) -> SlotView {
    SlotView { number, kind: FieldKind::Byte(f), value: ValueView::Number(value as u64), always: true }
}

/// Adds a 32-bit field.
pub fn write_u32_field(number: u32, value: u32, buf: &mut Vec<u8>)
    requires
        number < 0x1000_0000,
    ensures
        final(buf)@ == old(buf)@ + slot_bytes(number_slot(number, FieldKind::U32, value as u64)),
{
    let ghost before = buf@;
    if value != 0 {
        write_tag(number, 0, buf);
        write_varint_u32(value, buf);
    }
    assert(buf@ =~= before + slot_bytes(number_slot(number, FieldKind::U32, value as u64)));
}

/// Adds a 64-bit field.
pub fn write_u64_field(number: u32, value: u64, buf: &mut Vec<u8>)
    requires
        number < 0x1000_0000,
    ensures
        final(buf)@ == old(buf)@ + slot_bytes(number_slot(number, FieldKind::U64, value)),
{
    let ghost before = buf@;
    if value != 0 {
        write_tag(number, 0, buf);
        write_varint_u64(value, buf);
    }
    assert(buf@ =~= before + slot_bytes(number_slot(number, FieldKind::U64, value)));
}

/// A boolean as a number.
pub open spec fn bool_number(b: bool) -> u64 {
    if b {
        1
    } else {
        0
    }
}

/// Adds a boolean field.
pub fn write_bool_field(number: u32, value: bool, buf: &mut Vec<u8>)
    requires
        number < 0x1000_0000,
    ensures
        final(buf)@ == old(buf)@ + slot_bytes(
            number_slot(number, FieldKind::Bool, bool_number(value)),
        ),
{
    let ghost before = buf@;
    if value {
        write_tag(number, 0, buf);
        buf.push(1);
    }
    assert(buf@ =~= before + slot_bytes(number_slot(number, FieldKind::Bool, bool_number(value))));
}

/// Adds a one-byte field.
pub fn write_byte_field(number: u32, f: ByteField, value: u8, buf: &mut Vec<u8>)
    requires
        number < 0x1000_0000,
    ensures
        final(buf)@ == old(buf)@ + slot_bytes(
            number_slot(number, FieldKind::Byte(f), value as u64),
        ),
{
    let ghost before = buf@;
    if value != 0 {
        write_tag(number, 0, buf);
        buf.push(value);
    }
    assert(buf@ =~= before + slot_bytes(number_slot(number, FieldKind::Byte(f), value as u64)));
}

/// Adds a one-byte field, even if it is zero.
pub fn write_fixed_byte_field(number: u32, f: ByteField, value: u8, buf: &mut Vec<u8>)
    requires
        number < 0x1000_0000,
    ensures
        final(buf)@ == old(buf)@ + slot_bytes(fixed_byte_slot(number, f, value)),
{
    let ghost before = buf@;
    write_tag(number, 0, buf);
    buf.push(value);
    assert(buf@ =~= before + slot_bytes(fixed_byte_slot(number, f, value)));
}

/// Adds a text field.
pub fn write_string_field(number: u32, value: &str, buf: &mut Vec<u8>)
    requires
        number < 0x1000_0000,
    ensures
        final(buf)@ == old(buf)@ + slot_bytes(text_slot(number, value@)),
{
    let ghost before = buf@;
    if !value.is_empty() {
        write_tag(number, 2, buf);
        let body = value.as_bytes();
        write_varint_u32((body.len() as u64 % 0x1_0000_0000) as u32, buf);
        push_bytes(buf, body);
    }
    assert(buf@ =~= before + slot_bytes(text_slot(number, value@)));
}

/// The fields of a message, written one after the other.
pub proof fn slots_bytes_of_push(slots: Seq<SlotView>, slot: SlotView)
    ensures
        slots_bytes(slots.push(slot)) == slots_bytes(slots) + slot_bytes(slot),
    decreases slots.len(),
{
    let all = slots.push(slot);
    if slots.len() == 0 {
        assert(all.drop_first() =~= Seq::<SlotView>::empty());
        assert(slots_bytes(all) =~= slots_bytes(slots) + slot_bytes(slot)) by {
            assert(slots_bytes(Seq::<SlotView>::empty()) =~= Seq::<u8>::empty());
        }
    } else {
        assert(all.drop_first() =~= slots.drop_first().push(slot));
        slots_bytes_of_push(slots.drop_first(), slot);
        assert(slots_bytes(all) =~= slots_bytes(slots) + slot_bytes(slot));
    }
}

/// How a field looks: a byte with eight times its number, and two more for a text, and then
/// the value. A number stands in groups of seven bits, the lowest first; a text stands behind
/// its size. Nothing stands for zero or for the empty text.
pub proof fn forms_of_fields(number: u32, n: u64, b: u8, t: Seq<char>, kind: ByteField)
    requires
        0 < number < 16,
        encode_utf8(t).len() < 0x1_0000_0000,
    ensures
        slot_bytes(number_slot(number, FieldKind::U64, 0)).len() == 0,
        slot_bytes(number_slot(number, FieldKind::U32, 0)).len() == 0,
        slot_bytes(number_slot(number, FieldKind::Bool, 0)).len() == 0,
        slot_bytes(number_slot(number, FieldKind::Byte(kind), 0)).len() == 0,
        t.len() == 0 ==> slot_bytes(text_slot(number, t)).len() == 0,
        n > 0 ==> slot_bytes(number_slot(number, FieldKind::U64, n)) == seq![(8 * number) as u8]
            + varint(n as nat),
        n > 0 ==> slot_bytes(number_slot(number, FieldKind::U32, n)) == seq![(8 * number) as u8]
            + varint(n as nat),
        slot_bytes(number_slot(number, FieldKind::Bool, bool_number(true))) == seq![
            (8 * number) as u8,
            1u8,
        ],
        slot_bytes(number_slot(number, FieldKind::Bool, bool_number(false))).len() == 0,
        b > 0 ==> slot_bytes(number_slot(number, FieldKind::Byte(kind), b as u64)) == seq![
            (8 * number) as u8,
            b,
        ],
        slot_bytes(fixed_byte_slot(number, kind, b)) == seq![(8 * number) as u8, b],
        t.len() > 0 ==> slot_bytes(text_slot(number, t)) == seq![(8 * number + 2) as u8] + varint(
            encode_utf8(t).len(),
        ) + encode_utf8(t),
        n < 128 ==> varint(n as nat) == seq![n as u8],
        128 <= n < 16384 ==> varint(n as nat) == seq![(128 + n % 128) as u8, (n / 128) as u8],
{
    reveal_with_fuel(varint, 2);
    assert(slot_bytes(text_slot(number, t)) =~= if t.len() == 0 {
        Seq::empty()
    } else {
        seq![(8 * number + 2) as u8] + varint(encode_utf8(t).len()) + encode_utf8(t)
    });
    assert(slot_bytes(number_slot(number, FieldKind::Bool, 1)) =~= seq![(8 * number) as u8, 1u8]);
    assert(slot_bytes(fixed_byte_slot(number, kind, b)) =~= seq![(8 * number) as u8, b]);
    if b > 0 {
        assert(slot_bytes(number_slot(number, FieldKind::Byte(kind), b as u64)) =~= seq![
            (8 * number) as u8,
            b,
        ]);
    }
    if 128 <= n < 16384 {
        assert(varint(n as nat) =~= seq![(128 + n % 128) as u8, (n / 128) as u8]);
    }
}

} // verus!
