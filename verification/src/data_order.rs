//! The order of [`Data`] values: by variant as the variants are declared, then field by field,
//! floating-point payloads compared as floating-point numbers.
use vstd::prelude::*;

use std::cmp::Ordering;
use vstd::string::StrSliceExecFns;

use crate::data::{data_equal, fields_equal, pairs_equal, seq_equal, f32_bits_eq, f64_bits_eq};
use crate::data::{f32_bits_nan, f64_bits_nan, field_models, group_models, models, pair_models, Data, DataModel};

verus! {

broadcast use group_models;

/// The outcome of comparing two values that can be compared.
#[derive(Debug, Clone, Copy, PartialEq, Eq, Structural)]
pub enum Comparison {
    Less,
    Equal,
    Greater,
}

/// The order of two integers.
pub open spec fn int_order(a: int, b: int) -> Comparison {
    if a < b {
        Comparison::Less
    } else if a == b {
        Comparison::Equal
    } else {
        Comparison::Greater
    }
}

/// `first`, unless it says that the two sides are equal; then `rest`.
pub open spec fn then_order(first: Option<Comparison>, rest: Option<Comparison>) -> Option<Comparison> {
    match first {
        Some(Comparison::Equal) => rest,
        _ => first,
    }
}

/// Lexicographic order of two strings by their characters: the first character that differs
/// decides, else the shorter string comes first.
pub open spec fn chars_order(a: Seq<char>, b: Seq<char>) -> Comparison
    decreases a.len(),
{
    if a.len() == 0 || b.len() == 0 {
        int_order(a.len() as int, b.len() as int)
    } else if a[0] == b[0] {
        chars_order(a.drop_first(), b.drop_first())
    } else {
        int_order(a[0] as int, b[0] as int)
    }
}

/// Lexicographic order of two byte strings.
pub open spec fn bytes_order(a: Seq<u8>, b: Seq<u8>) -> Comparison
    decreases a.len(),
{
    if a.len() == 0 || b.len() == 0 {
        int_order(a.len() as int, b.len() as int)
    } else if a[0] == b[0] {
        bytes_order(a.drop_first(), b.drop_first())
    } else {
        int_order(a[0] as int, b[0] as int)
    }
}

/// Where the `f32` with bits `x` stands among the numbers: its magnitude, negated when its
/// sign bit is set (both zeros stand at 0).
pub open spec fn f32_position(x: u32) -> int {
    if x >= 0x8000_0000 {
        -(x - 0x8000_0000)
    } else {
        x as int
    }
}

/// Where the `f64` with bits `x` stands among the numbers.
pub open spec fn f64_position(x: u64) -> int {
    if x >= 0x8000_0000_0000_0000 {
        -(x - 0x8000_0000_0000_0000)
    } else {
        x as int
    }
}

/// IEEE-754 order of two `f32`s given by their bits: none where either is NaN.
pub open spec fn f32_order(x: u32, y: u32) -> Option<Comparison> {
    if f32_bits_nan(x) || f32_bits_nan(y) {
        None
    } else {
        Some(int_order(f32_position(x), f32_position(y)))
    }
}

/// IEEE-754 order of two `f64`s given by their bits: none where either is NaN.
pub open spec fn f64_order(x: u64, y: u64) -> Option<Comparison> {
    if f64_bits_nan(x) || f64_bits_nan(y) {
        None
    } else {
        Some(int_order(f64_position(x), f64_position(y)))
    }
}

/// The place of a value's variant among the variants of [`Data`], as they are declared.
pub open spec fn rank(d: DataModel) -> int {
    match d {
        DataModel::Bool(_) => 0,
        DataModel::I8(_) => 1,
        DataModel::I16(_) => 2,
        DataModel::I32(_) => 3,
        DataModel::I64(_) => 4,
        DataModel::I128(_) => 5,
        DataModel::U8(_) => 6,
        DataModel::U16(_) => 7,
        DataModel::U32(_) => 8,
        DataModel::U64(_) => 9,
        DataModel::U128(_) => 10,
        DataModel::F32(_) => 11,
        DataModel::F64(_) => 12,
        DataModel::Char(_) => 13,
        DataModel::String(_) => 14,
        DataModel::ByteArray(_) => 15,
        DataModel::Option(_) => 16,
        DataModel::Unit => 17,
        DataModel::UnitStruct { .. } => 18,
        DataModel::UnitVariant { .. } => 19,
        DataModel::NewtypeStruct { .. } => 20,
        DataModel::NewtypeVariant { .. } => 21,
        DataModel::Sequence(_) => 22,
        DataModel::Tuple(_) => 23,
        DataModel::TupleStruct { .. } => 24,
        DataModel::TupleVariant { .. } => 25,
        DataModel::Mapping(_) => 26,
        DataModel::Struct { .. } => 27,
        DataModel::StructVariant { .. } => 28,
    }
}

/// The order of a name, a variant index and a variant name, one after the other.
pub open spec fn variant_order(
    n1: Seq<char>,
    i1: u32,
    v1: Seq<char>,
    n2: Seq<char>,
    i2: u32,
    v2: Seq<char>,
) -> Option<Comparison> {
    then_order(
        Some(chars_order(n1, n2)),
        then_order(Some(int_order(i1 as int, i2 as int)), Some(chars_order(v1, v2))),
    )
}

/// The order of two values: by variant first, then by payload, field by field in the order
/// in which the fields are declared; none where two floating-point payloads that decide it
/// cannot be compared.
pub open spec fn data_order(a: DataModel, b: DataModel) -> Option<Comparison>
    decreases a,
{
    if rank(a) != rank(b) {
        Some(int_order(rank(a), rank(b)))
    } else {
        match (a, b) {
            (DataModel::Bool(x), DataModel::Bool(y)) => Some(
                int_order(if x { 1int } else { 0int }, if y { 1int } else { 0int }),
            ),
            (DataModel::I8(x), DataModel::I8(y)) => Some(int_order(x as int, y as int)),
            (DataModel::I16(x), DataModel::I16(y)) => Some(int_order(x as int, y as int)),
            (DataModel::I32(x), DataModel::I32(y)) => Some(int_order(x as int, y as int)),
            (DataModel::I64(x), DataModel::I64(y)) => Some(int_order(x as int, y as int)),
            (DataModel::I128(x), DataModel::I128(y)) => Some(int_order(x as int, y as int)),
            (DataModel::U8(x), DataModel::U8(y)) => Some(int_order(x as int, y as int)),
            (DataModel::U16(x), DataModel::U16(y)) => Some(int_order(x as int, y as int)),
            (DataModel::U32(x), DataModel::U32(y)) => Some(int_order(x as int, y as int)),
            (DataModel::U64(x), DataModel::U64(y)) => Some(int_order(x as int, y as int)),
            (DataModel::U128(x), DataModel::U128(y)) => Some(int_order(x as int, y as int)),
            (DataModel::F32(x), DataModel::F32(y)) => f32_order(x, y),
            (DataModel::F64(x), DataModel::F64(y)) => f64_order(x, y),
            (DataModel::Char(x), DataModel::Char(y)) => Some(int_order(x as int, y as int)),
            (DataModel::String(x), DataModel::String(y)) => Some(chars_order(x, y)),
            (DataModel::ByteArray(x), DataModel::ByteArray(y)) => Some(bytes_order(x, y)),
            (DataModel::Option(x), DataModel::Option(y)) => match (x, y) {
                (Some(x), Some(y)) => data_order(*x, *y),
                (None, None) => Some(Comparison::Equal),
                (None, Some(_)) => Some(Comparison::Less),
                (Some(_), None) => Some(Comparison::Greater),
            },
            (DataModel::UnitStruct { name: n1 }, DataModel::UnitStruct { name: n2 }) => Some(chars_order(n1, n2)),
            (
                DataModel::UnitVariant { name: n1, variant_index: i1, variant: v1 },
                DataModel::UnitVariant { name: n2, variant_index: i2, variant: v2 },
            ) => variant_order(n1, i1, v1, n2, i2, v2),
            (DataModel::NewtypeStruct { name: n1, data: d1 }, DataModel::NewtypeStruct { name: n2, data: d2 }) => {
                then_order(Some(chars_order(n1, n2)), data_order(*d1, *d2))
            },
            (
                DataModel::NewtypeVariant { name: n1, variant_index: i1, variant: v1, data: d1 },
                DataModel::NewtypeVariant { name: n2, variant_index: i2, variant: v2, data: d2 },
            ) => then_order(variant_order(n1, i1, v1, n2, i2, v2), data_order(*d1, *d2)),
            (DataModel::Sequence(x), DataModel::Sequence(y)) => seq_order(x, y),
            (DataModel::Tuple(x), DataModel::Tuple(y)) => seq_order(x, y),
            (DataModel::TupleStruct { name: n1, data: d1 }, DataModel::TupleStruct { name: n2, data: d2 }) => {
                then_order(Some(chars_order(n1, n2)), seq_order(d1, d2))
            },
            (
                DataModel::TupleVariant { name: n1, variant_index: i1, variant: v1, data: d1 },
                DataModel::TupleVariant { name: n2, variant_index: i2, variant: v2, data: d2 },
            ) => then_order(variant_order(n1, i1, v1, n2, i2, v2), seq_order(d1, d2)),
            (DataModel::Mapping(x), DataModel::Mapping(y)) => pairs_order(x, y),
            (DataModel::Struct { name: n1, fields: f1 }, DataModel::Struct { name: n2, fields: f2 }) => {
                then_order(Some(chars_order(n1, n2)), fields_order(f1, f2))
            },
            (
                DataModel::StructVariant { name: n1, variant_index: i1, variant: v1, fields: f1 },
                DataModel::StructVariant { name: n2, variant_index: i2, variant: v2, fields: f2 },
            ) => then_order(variant_order(n1, i1, v1, n2, i2, v2), fields_order(f1, f2)),
            _ => Some(Comparison::Equal),
        }
    }
}

/// Lexicographic order of two sequences of values: the first pair of elements that are not
/// equal decides, else the shorter sequence comes first.
pub open spec fn seq_order(x: Seq<DataModel>, y: Seq<DataModel>) -> Option<Comparison>
    decreases x,
{
    if x.len() == 0 || y.len() == 0 {
        Some(int_order(x.len() as int, y.len() as int))
    } else {
        then_order(data_order(x[0], y[0]), seq_order(x.drop_first(), y.drop_first()))
    }
}

/// Lexicographic order of two sequences of key-value pairs, each pair by its key and then its
/// value.
pub open spec fn pairs_order(x: Seq<(DataModel, DataModel)>, y: Seq<(DataModel, DataModel)>) -> Option<
    Comparison,
>
    decreases x,
{
    if x.len() == 0 || y.len() == 0 {
        Some(int_order(x.len() as int, y.len() as int))
    } else {
        then_order(
            then_order(data_order(x[0].0, y[0].0), data_order(x[0].1, y[0].1)),
            pairs_order(x.drop_first(), y.drop_first()),
        )
    }
}

/// Lexicographic order of two sequences of named fields, each field by its name and then its
/// value.
pub open spec fn fields_order(x: Seq<(Seq<char>, DataModel)>, y: Seq<(Seq<char>, DataModel)>) -> Option<
    Comparison,
>
    decreases x,
{
    if x.len() == 0 || y.len() == 0 {
        Some(int_order(x.len() as int, y.len() as int))
    } else {
        then_order(
            then_order(Some(chars_order(x[0].0, y[0].0)), data_order(x[0].1, y[0].1)),
            fields_order(x.drop_first(), y.drop_first()),
        )
    }
}

/// Two strings are in order `Equal` exactly when they are the same string.
pub proof fn lemma_chars_order_equal(a: Seq<char>, b: Seq<char>)
    ensures
        (chars_order(a, b) == Comparison::Equal) == (a == b),
    decreases a.len(),
{
    if a.len() > 0 && b.len() > 0 && a[0] == b[0] {
        lemma_chars_order_equal(a.drop_first(), b.drop_first());
        if a.drop_first() == b.drop_first() {
            assert forall|i: int| 0 <= i < a.len() implies a[i] == b[i] by {
                if i > 0 {
                    assert(a[i] == a.drop_first()[i - 1] && b[i] == b.drop_first()[i - 1]);
                }
            }
            assert(a =~= b);
        }
    } else if a.len() > 0 && b.len() > 0 {
        assert(a[0] as int != b[0] as int);
    } else if a.len() == 0 && b.len() == 0 {
        assert(a =~= b);
    }
}

/// Lexicographic order of strings is transitive.
pub proof fn lemma_chars_order_transitive(a: Seq<char>, b: Seq<char>, c: Seq<char>)
    requires
        chars_order(a, b) == Comparison::Less,
        chars_order(b, c) == Comparison::Less,
    ensures
        chars_order(a, c) == Comparison::Less,
    decreases a.len(),
{
    if a.len() > 0 && b.len() > 0 && c.len() > 0 {
        if a[0] == b[0] && b[0] == c[0] {
            lemma_chars_order_transitive(a.drop_first(), b.drop_first(), c.drop_first());
        }
    }
}

/// Two byte strings are in order `Equal` exactly when they are the same.
proof fn lemma_bytes_order_equal(a: Seq<u8>, b: Seq<u8>)
    ensures
        (bytes_order(a, b) == Comparison::Equal) == (a == b),
    decreases a.len(),
{
    if a.len() > 0 && b.len() > 0 && a[0] == b[0] {
        lemma_bytes_order_equal(a.drop_first(), b.drop_first());
        if a.drop_first() == b.drop_first() {
            assert forall|i: int| 0 <= i < a.len() implies a[i] == b[i] by {
                if i > 0 {
                    assert(a[i] == a.drop_first()[i - 1] && b[i] == b.drop_first()[i - 1]);
                }
            }
            assert(a =~= b);
        }
    } else if a.len() == 0 && b.len() == 0 {
        assert(a =~= b);
    }
}

/// The IEEE-754 order of two `f32`s is `Equal` exactly when they are equal.
proof fn lemma_f32_order_equal(x: u32, y: u32)
    ensures
        (f32_order(x, y) == Some(Comparison::Equal)) == f32_bits_eq(x, y),
{
    assert((x | y) & 0x7fff_ffff == 0 <==> (x == 0 || x == 0x8000_0000) && (y == 0 || y == 0x8000_0000))
        by (bit_vector);
}

/// The IEEE-754 order of two `f64`s is `Equal` exactly when they are equal.
proof fn lemma_f64_order_equal(x: u64, y: u64)
    ensures
        (f64_order(x, y) == Some(Comparison::Equal)) == f64_bits_eq(x, y),
{
    assert((x | y) & 0x7fff_ffff_ffff_ffff == 0 <==> (x == 0 || x == 0x8000_0000_0000_0000) && (y == 0 || y
        == 0x8000_0000_0000_0000)) by (bit_vector);
}

/// Floating-point values are equal exactly when neither is NaN and they stand at the same
/// number (the two zeros alike), and one comes before another exactly when neither is NaN
/// and it stands at a smaller number.
pub proof fn law_floats_compare_as_numbers(x: u32, y: u32, u: u64, v: u64)
    ensures
        data_equal(DataModel::F32(x), DataModel::F32(y)) == (!f32_bits_nan(x) && !f32_bits_nan(y) && f32_position(x)
            == f32_position(y)),
        (data_order(DataModel::F32(x), DataModel::F32(y)) == Some(Comparison::Less)) == (!f32_bits_nan(x)
            && !f32_bits_nan(y) && f32_position(x) < f32_position(y)),
        data_equal(DataModel::F64(u), DataModel::F64(v)) == (!f64_bits_nan(u) && !f64_bits_nan(v) && f64_position(u)
            == f64_position(v)),
        (data_order(DataModel::F64(u), DataModel::F64(v)) == Some(Comparison::Less)) == (!f64_bits_nan(u)
            && !f64_bits_nan(v) && f64_position(u) < f64_position(v)),
{
    lemma_f32_order_equal(x, y);
    lemma_f64_order_equal(u, v);
}

/// Two values are in order `Equal` exactly when they are equal.
pub proof fn law_order_equal_is_equality(a: DataModel, b: DataModel)
    ensures
        (data_order(a, b) == Some(Comparison::Equal)) == data_equal(a, b),
    decreases a,
{
    if rank(a) == rank(b) {
        match (a, b) {
            (DataModel::F32(x), DataModel::F32(y)) => lemma_f32_order_equal(x, y),
            (DataModel::F64(x), DataModel::F64(y)) => lemma_f64_order_equal(x, y),
            (DataModel::String(x), DataModel::String(y)) => lemma_chars_order_equal(x, y),
            (DataModel::ByteArray(x), DataModel::ByteArray(y)) => lemma_bytes_order_equal(x, y),
            (DataModel::Option(x), DataModel::Option(y)) => {
                if let (Some(x), Some(y)) = (x, y) {
                    law_order_equal_is_equality(*x, *y);
                }
            },
            (DataModel::UnitStruct { name: n1 }, DataModel::UnitStruct { name: n2 }) => {
                lemma_chars_order_equal(n1, n2);
            },
            (
                DataModel::UnitVariant { name: n1, variant_index: i1, variant: v1 },
                DataModel::UnitVariant { name: n2, variant_index: i2, variant: v2 },
            ) => {
                lemma_chars_order_equal(n1, n2);
                lemma_chars_order_equal(v1, v2);
            },
            (DataModel::NewtypeStruct { name: n1, data: d1 }, DataModel::NewtypeStruct { name: n2, data: d2 }) => {
                lemma_chars_order_equal(n1, n2);
                law_order_equal_is_equality(*d1, *d2);
            },
            (
                DataModel::NewtypeVariant { name: n1, variant_index: i1, variant: v1, data: d1 },
                DataModel::NewtypeVariant { name: n2, variant_index: i2, variant: v2, data: d2 },
            ) => {
                lemma_chars_order_equal(n1, n2);
                lemma_chars_order_equal(v1, v2);
                law_order_equal_is_equality(*d1, *d2);
            },
            (DataModel::Sequence(x), DataModel::Sequence(y)) => lemma_seq_order_equal(x, y),
            (DataModel::Tuple(x), DataModel::Tuple(y)) => lemma_seq_order_equal(x, y),
            (DataModel::TupleStruct { name: n1, data: d1 }, DataModel::TupleStruct { name: n2, data: d2 }) => {
                lemma_chars_order_equal(n1, n2);
                lemma_seq_order_equal(d1, d2);
            },
            (
                DataModel::TupleVariant { name: n1, variant_index: i1, variant: v1, data: d1 },
                DataModel::TupleVariant { name: n2, variant_index: i2, variant: v2, data: d2 },
            ) => {
                lemma_chars_order_equal(n1, n2);
                lemma_chars_order_equal(v1, v2);
                lemma_seq_order_equal(d1, d2);
            },
            (DataModel::Mapping(x), DataModel::Mapping(y)) => lemma_pairs_order_equal(x, y),
            (DataModel::Struct { name: n1, fields: f1 }, DataModel::Struct { name: n2, fields: f2 }) => {
                lemma_chars_order_equal(n1, n2);
                lemma_fields_order_equal(f1, f2);
            },
            (
                DataModel::StructVariant { name: n1, variant_index: i1, variant: v1, fields: f1 },
                DataModel::StructVariant { name: n2, variant_index: i2, variant: v2, fields: f2 },
            ) => {
                lemma_chars_order_equal(n1, n2);
                lemma_chars_order_equal(v1, v2);
                lemma_fields_order_equal(f1, f2);
            },
            _ => {},
        }
    }
}

/// Two sequences of values are in order `Equal` exactly when they are equal.
proof fn lemma_seq_order_equal(x: Seq<DataModel>, y: Seq<DataModel>)
    ensures
        (seq_order(x, y) == Some(Comparison::Equal)) == seq_equal(x, y),
    decreases x,
{
    if x.len() > 0 && y.len() > 0 {
        law_order_equal_is_equality(x[0], y[0]);
        lemma_seq_order_equal(x.drop_first(), y.drop_first());
    }
}

/// Two sequences of pairs are in order `Equal` exactly when they are equal.
proof fn lemma_pairs_order_equal(x: Seq<(DataModel, DataModel)>, y: Seq<(DataModel, DataModel)>)
    ensures
        (pairs_order(x, y) == Some(Comparison::Equal)) == pairs_equal(x, y),
    decreases x,
{
    if x.len() > 0 && y.len() > 0 {
        law_order_equal_is_equality(x[0].0, y[0].0);
        law_order_equal_is_equality(x[0].1, y[0].1);
        lemma_pairs_order_equal(x.drop_first(), y.drop_first());
    }
}

/// Two sequences of named fields are in order `Equal` exactly when they are equal.
proof fn lemma_fields_order_equal(x: Seq<(Seq<char>, DataModel)>, y: Seq<(Seq<char>, DataModel)>)
    ensures
        (fields_order(x, y) == Some(Comparison::Equal)) == fields_equal(x, y),
    decreases x,
{
    if x.len() > 0 && y.len() > 0 {
        lemma_chars_order_equal(x[0].0, y[0].0);
        law_order_equal_is_equality(x[0].1, y[0].1);
        lemma_fields_order_equal(x.drop_first(), y.drop_first());
    }
}

/// The comparison seen from the other side.
pub open spec fn flipped(c: Comparison) -> Comparison {
    match c {
        Comparison::Less => Comparison::Greater,
        Comparison::Equal => Comparison::Equal,
        Comparison::Greater => Comparison::Less,
    }
}

/// The outcome of a comparison seen from the other side.
pub open spec fn flipped_order(c: Option<Comparison>) -> Option<Comparison> {
    match c {
        Some(c) => Some(flipped(c)),
        None => None,
    }
}

/// Comparing two strings the other way round flips the outcome.
pub proof fn lemma_chars_order_flips(a: Seq<char>, b: Seq<char>)
    ensures
        chars_order(b, a) == flipped(chars_order(a, b)),
    decreases a.len(),
{
    if a.len() > 0 && b.len() > 0 && a[0] == b[0] {
        lemma_chars_order_flips(a.drop_first(), b.drop_first());
    }
}

/// Comparing two byte strings the other way round flips the outcome.
proof fn lemma_bytes_order_flips(a: Seq<u8>, b: Seq<u8>)
    ensures
        bytes_order(b, a) == flipped(bytes_order(a, b)),
    decreases a.len(),
{
    if a.len() > 0 && b.len() > 0 && a[0] == b[0] {
        lemma_bytes_order_flips(a.drop_first(), b.drop_first());
    }
}

/// Comparing two values the other way round flips the outcome: `a < b` exactly when `b > a`.
#[verifier::spinoff_prover]
#[verifier::rlimit(80)]
pub proof fn law_order_flips(a: DataModel, b: DataModel)
    ensures
        data_order(b, a) == flipped_order(data_order(a, b)),
    decreases a,
{
    if rank(a) == rank(b) {
        match (a, b) {
            (DataModel::Bool(x), DataModel::Bool(y)) => {},
            (DataModel::I8(x), DataModel::I8(y)) => {},
            (DataModel::I16(x), DataModel::I16(y)) => {},
            (DataModel::I32(x), DataModel::I32(y)) => {},
            (DataModel::I64(x), DataModel::I64(y)) => {},
            (DataModel::I128(x), DataModel::I128(y)) => {},
            (DataModel::U8(x), DataModel::U8(y)) => {},
            (DataModel::U16(x), DataModel::U16(y)) => {},
            (DataModel::U32(x), DataModel::U32(y)) => {},
            (DataModel::U64(x), DataModel::U64(y)) => {},
            (DataModel::U128(x), DataModel::U128(y)) => {},
            (DataModel::F32(x), DataModel::F32(y)) => {},
            (DataModel::F64(x), DataModel::F64(y)) => {},
            (DataModel::Char(x), DataModel::Char(y)) => {},
            (DataModel::Unit, DataModel::Unit) => {},
            (DataModel::String(x), DataModel::String(y)) => lemma_chars_order_flips(x, y),
            (DataModel::ByteArray(x), DataModel::ByteArray(y)) => lemma_bytes_order_flips(x, y),
            (DataModel::Option(x), DataModel::Option(y)) => {
                if let (Some(x), Some(y)) = (x, y) {
                    law_order_flips(*x, *y);
                }
            },
            (DataModel::UnitStruct { name: n1 }, DataModel::UnitStruct { name: n2 }) => {
                lemma_chars_order_flips(n1, n2);
            },
            (
                DataModel::UnitVariant { name: n1, variant_index: i1, variant: v1 },
                DataModel::UnitVariant { name: n2, variant_index: i2, variant: v2 },
            ) => {
                lemma_chars_order_flips(n1, n2);
                lemma_chars_order_flips(v1, v2);
            },
            (DataModel::NewtypeStruct { name: n1, data: d1 }, DataModel::NewtypeStruct { name: n2, data: d2 }) => {
                lemma_chars_order_flips(n1, n2);
                law_order_flips(*d1, *d2);
            },
            (
                DataModel::NewtypeVariant { name: n1, variant_index: i1, variant: v1, data: d1 },
                DataModel::NewtypeVariant { name: n2, variant_index: i2, variant: v2, data: d2 },
            ) => {
                lemma_chars_order_flips(n1, n2);
                lemma_chars_order_flips(v1, v2);
                law_order_flips(*d1, *d2);
            },
            (DataModel::Sequence(x), DataModel::Sequence(y)) => lemma_seq_order_flips(x, y),
            (DataModel::Tuple(x), DataModel::Tuple(y)) => lemma_seq_order_flips(x, y),
            (DataModel::TupleStruct { name: n1, data: d1 }, DataModel::TupleStruct { name: n2, data: d2 }) => {
                lemma_chars_order_flips(n1, n2);
                lemma_seq_order_flips(d1, d2);
            },
            (
                DataModel::TupleVariant { name: n1, variant_index: i1, variant: v1, data: d1 },
                DataModel::TupleVariant { name: n2, variant_index: i2, variant: v2, data: d2 },
            ) => {
                lemma_chars_order_flips(n1, n2);
                lemma_chars_order_flips(v1, v2);
                lemma_seq_order_flips(d1, d2);
            },
            (DataModel::Mapping(x), DataModel::Mapping(y)) => lemma_pairs_order_flips(x, y),
            (DataModel::Struct { name: n1, fields: f1 }, DataModel::Struct { name: n2, fields: f2 }) => {
                lemma_chars_order_flips(n1, n2);
                lemma_fields_order_flips(f1, f2);
            },
            (
                DataModel::StructVariant { name: n1, variant_index: i1, variant: v1, fields: f1 },
                DataModel::StructVariant { name: n2, variant_index: i2, variant: v2, fields: f2 },
            ) => {
                lemma_chars_order_flips(n1, n2);
                lemma_chars_order_flips(v1, v2);
                lemma_fields_order_flips(f1, f2);
            },
            _ => {},
        }
    }
}

/// Comparing two sequences of values the other way round flips the outcome.
proof fn lemma_seq_order_flips(x: Seq<DataModel>, y: Seq<DataModel>)
    ensures
        seq_order(y, x) == flipped_order(seq_order(x, y)),
    decreases x,
{
    if x.len() > 0 && y.len() > 0 {
        law_order_flips(x[0], y[0]);
        lemma_seq_order_flips(x.drop_first(), y.drop_first());
    }
}

/// Comparing two sequences of pairs the other way round flips the outcome.
proof fn lemma_pairs_order_flips(x: Seq<(DataModel, DataModel)>, y: Seq<(DataModel, DataModel)>)
    ensures
        pairs_order(y, x) == flipped_order(pairs_order(x, y)),
    decreases x,
{
    if x.len() > 0 && y.len() > 0 {
        law_order_flips(x[0].0, y[0].0);
        law_order_flips(x[0].1, y[0].1);
        lemma_pairs_order_flips(x.drop_first(), y.drop_first());
    }
}

/// Comparing two sequences of named fields the other way round flips the outcome.
proof fn lemma_fields_order_flips(x: Seq<(Seq<char>, DataModel)>, y: Seq<(Seq<char>, DataModel)>)
    ensures
        fields_order(y, x) == flipped_order(fields_order(x, y)),
    decreases x,
{
    if x.len() > 0 && y.len() > 0 {
        lemma_chars_order_flips(x[0].0, y[0].0);
        law_order_flips(x[0].1, y[0].1);
        lemma_fields_order_flips(x.drop_first(), y.drop_first());
    }
}

/// Two characters are ordered by their code points.
proof fn lemma_char_payload_order(x: char, y: char)
    ensures
        data_order(DataModel::Char(x), DataModel::Char(y)) == Some(int_order(x as int, y as int)),
{
}

/// Two values of one integer, boolean or character variant are ordered as their payloads are:
/// the smaller payload comes first (`false` before `true`).
pub proof fn law_primitive_payloads_order_as_numbers()
    ensures
        forall|x: bool, y: bool|
            #[trigger] data_order(DataModel::Bool(x), DataModel::Bool(y)) == Some(
                if !x && y {
                    Comparison::Less
                } else if x == y {
                    Comparison::Equal
                } else {
                    Comparison::Greater
                },
            ),
        forall|x: i8, y: i8|
            #[trigger] data_order(DataModel::I8(x), DataModel::I8(y)) == Some(
                if (x as int) < (y as int) {
                    Comparison::Less
                } else if x == y {
                    Comparison::Equal
                } else {
                    Comparison::Greater
                },
            ),
        forall|x: i16, y: i16|
            #[trigger] data_order(DataModel::I16(x), DataModel::I16(y)) == Some(
                if (x as int) < (y as int) {
                    Comparison::Less
                } else if x == y {
                    Comparison::Equal
                } else {
                    Comparison::Greater
                },
            ),
        forall|x: i32, y: i32|
            #[trigger] data_order(DataModel::I32(x), DataModel::I32(y)) == Some(
                if (x as int) < (y as int) {
                    Comparison::Less
                } else if x == y {
                    Comparison::Equal
                } else {
                    Comparison::Greater
                },
            ),
        forall|x: i64, y: i64|
            #[trigger] data_order(DataModel::I64(x), DataModel::I64(y)) == Some(
                if (x as int) < (y as int) {
                    Comparison::Less
                } else if x == y {
                    Comparison::Equal
                } else {
                    Comparison::Greater
                },
            ),
        forall|x: i128, y: i128|
            #[trigger] data_order(DataModel::I128(x), DataModel::I128(y)) == Some(
                if (x as int) < (y as int) {
                    Comparison::Less
                } else if x == y {
                    Comparison::Equal
                } else {
                    Comparison::Greater
                },
            ),
        forall|x: u8, y: u8|
            #[trigger] data_order(DataModel::U8(x), DataModel::U8(y)) == Some(
                if (x as int) < (y as int) {
                    Comparison::Less
                } else if x == y {
                    Comparison::Equal
                } else {
                    Comparison::Greater
                },
            ),
        forall|x: u16, y: u16|
            #[trigger] data_order(DataModel::U16(x), DataModel::U16(y)) == Some(
                if (x as int) < (y as int) {
                    Comparison::Less
                } else if x == y {
                    Comparison::Equal
                } else {
                    Comparison::Greater
                },
            ),
        forall|x: u32, y: u32|
            #[trigger] data_order(DataModel::U32(x), DataModel::U32(y)) == Some(
                if (x as int) < (y as int) {
                    Comparison::Less
                } else if x == y {
                    Comparison::Equal
                } else {
                    Comparison::Greater
                },
            ),
        forall|x: u64, y: u64|
            #[trigger] data_order(DataModel::U64(x), DataModel::U64(y)) == Some(
                if (x as int) < (y as int) {
                    Comparison::Less
                } else if x == y {
                    Comparison::Equal
                } else {
                    Comparison::Greater
                },
            ),
        forall|x: u128, y: u128|
            #[trigger] data_order(DataModel::U128(x), DataModel::U128(y)) == Some(
                if (x as int) < (y as int) {
                    Comparison::Less
                } else if x == y {
                    Comparison::Equal
                } else {
                    Comparison::Greater
                },
            ),
        forall|x: char, y: char|
            #[trigger] data_order(DataModel::Char(x), DataModel::Char(y)) == Some(
                if (x as int) < (y as int) {
                    Comparison::Less
                } else if (x as int) == (y as int) {
                    Comparison::Equal
                } else {
                    Comparison::Greater
                },
            ),
{
    assert forall|x: char, y: char| #[trigger] data_order(DataModel::Char(x), DataModel::Char(y)) == Some(
        if (x as int) < (y as int) {
            Comparison::Less
        } else if (x as int) == (y as int) {
            Comparison::Equal
        } else {
            Comparison::Greater
        },
    ) by {
        lemma_char_payload_order(x, y);
    }
}

/// Values of different variants are ordered by the order in which the variants are declared.
pub proof fn law_variants_order_by_declaration(a: DataModel, b: DataModel)
    requires
        rank(a) < rank(b),
    ensures
        data_order(a, b) == Some(Comparison::Less),
        data_order(b, a) == Some(Comparison::Greater),
{
}

/// A string comes before every longer string that it begins, and strings that agree up to a
/// position are ordered by their characters there.
pub proof fn law_strings_order_lexicographically(a: Seq<char>, b: Seq<char>, i: int)
    requires
        0 <= i <= a.len(),
        i <= b.len(),
        a.take(i) == b.take(i),
    ensures
        i == a.len() && a.len() < b.len() ==> data_order(DataModel::String(a), DataModel::String(b)) == Some(
            Comparison::Less,
        ),
        i < a.len() && i < b.len() && (a[i] as int) < (b[i] as int) ==> data_order(
            DataModel::String(a),
            DataModel::String(b),
        ) == Some(Comparison::Less),
        i < a.len() && i < b.len() && (a[i] as int) > (b[i] as int) ==> data_order(
            DataModel::String(a),
            DataModel::String(b),
        ) == Some(Comparison::Greater),
    decreases i,
{
    if i > 0 {
        assert(a[0] == a.take(i)[0] && b[0] == b.take(i)[0]);
        assert(a.drop_first().take(i - 1) =~= a.take(i).drop_first());
        assert(b.drop_first().take(i - 1) =~= b.take(i).drop_first());
        law_strings_order_lexicographically(a.drop_first(), b.drop_first(), i - 1);
        if i < a.len() {
            assert(a.drop_first()[i - 1] == a[i]);
        }
        if i < b.len() {
            assert(b.drop_first()[i - 1] == b[i]);
        }
    }
}

/// The order that a comparison with `<` and `==` found.
fn order_of(less: bool, equal: bool) -> (r: Comparison)
    ensures
        r == (if less {
            Comparison::Less
        } else if equal {
            Comparison::Equal
        } else {
            Comparison::Greater
        }),
{
    if less {
        Comparison::Less
    } else if equal {
        Comparison::Equal
    } else {
        Comparison::Greater
    }
}

/// The order of two strings by their characters (see [`chars_order`]).
pub(crate) fn str_order(a: &str, b: &str) -> (r: Comparison)
    ensures
        r == chars_order(a@, b@),
{
    let n = a.unicode_len();
    let m = b.unicode_len();
    let mut i: usize = 0;
    proof {
        assert(a@.skip(0) =~= a@ && b@.skip(0) =~= b@);
    }
    while i < n && i < m
        invariant
            n == a@.len(),
            m == b@.len(),
            i <= n,
            i <= m,
            chars_order(a@, b@) == chars_order(a@.skip(i as int), b@.skip(i as int)),
        decreases n - i,
    {
        let x = a.get_char(i);
        let y = b.get_char(i);
        proof {
            assert(a@.skip(i as int)[0] == x && b@.skip(i as int)[0] == y);
            assert(a@.skip(i as int).drop_first() =~= a@.skip(i + 1));
            assert(b@.skip(i as int).drop_first() =~= b@.skip(i + 1));
        }
        if x != y {
            return order_of((x as u32) < (y as u32), false);
        }
        i = i + 1;
    }
    order_of(n - i < m - i, n - i == m - i)
}

/// The order of two byte strings (see [`bytes_order`]).
fn byte_vec_order(a: &Vec<u8>, b: &Vec<u8>) -> (r: Comparison)
    ensures
        r == bytes_order(a@, b@),
{
    let mut i: usize = 0;
    proof {
        assert(a@.skip(0) =~= a@ && b@.skip(0) =~= b@);
    }
    while i < a.len() && i < b.len()
        invariant
            i <= a@.len(),
            i <= b@.len(),
            bytes_order(a@, b@) == bytes_order(a@.skip(i as int), b@.skip(i as int)),
        decreases a@.len() - i,
    {
        proof {
            assert(a@.skip(i as int)[0] == a@[i as int] && b@.skip(i as int)[0] == b@[i as int]);
            assert(a@.skip(i as int).drop_first() =~= a@.skip(i + 1));
            assert(b@.skip(i as int).drop_first() =~= b@.skip(i + 1));
        }
        if a[i] != b[i] {
            return order_of(a[i] < b[i], false);
        }
        i = i + 1;
    }
    order_of(a.len() - i < b.len() - i, a.len() - i == b.len() - i)
}

/// IEEE-754 order of two `f32`s given by their bits (see [`f32_order`]).
fn f32_bits_order(x: u32, y: u32) -> (r: Option<Comparison>)
    ensures
        r == f32_order(x, y),
{
    let x_nan = x & 0x7f80_0000 == 0x7f80_0000 && x & 0x007f_ffff != 0;
    let y_nan = y & 0x7f80_0000 == 0x7f80_0000 && y & 0x007f_ffff != 0;
    if x_nan || y_nan {
        return None;
    }
    let px: i64 = if x >= 0x8000_0000 { 0 - ((x - 0x8000_0000) as i64) } else { x as i64 };
    let py: i64 = if y >= 0x8000_0000 { 0 - ((y - 0x8000_0000) as i64) } else { y as i64 };
    Some(order_of(px < py, px == py))
}

/// IEEE-754 order of two `f64`s given by their bits (see [`f64_order`]).
fn f64_bits_order(x: u64, y: u64) -> (r: Option<Comparison>)
    ensures
        r == f64_order(x, y),
{
    let x_nan = x & 0x7ff0_0000_0000_0000 == 0x7ff0_0000_0000_0000 && x & 0x000f_ffff_ffff_ffff != 0;
    let y_nan = y & 0x7ff0_0000_0000_0000 == 0x7ff0_0000_0000_0000 && y & 0x000f_ffff_ffff_ffff != 0;
    if x_nan || y_nan {
        return None;
    }
    let px: i128 = if x >= 0x8000_0000_0000_0000 { 0 - ((x - 0x8000_0000_0000_0000) as i128) } else { x as i128 };
    let py: i128 = if y >= 0x8000_0000_0000_0000 { 0 - ((y - 0x8000_0000_0000_0000) as i128) } else { y as i128 };
    Some(order_of(px < py, px == py))
}

/// The place of a value's variant (see [`rank`]).
fn data_rank(d: &Data) -> (r: u8)
    ensures
        r as int == rank(d@),
{
    match d {
        Data::Bool(_) => 0,
        Data::I8(_) => 1,
        Data::I16(_) => 2,
        Data::I32(_) => 3,
        Data::I64(_) => 4,
        Data::I128(_) => 5,
        Data::U8(_) => 6,
        Data::U16(_) => 7,
        Data::U32(_) => 8,
        Data::U64(_) => 9,
        Data::U128(_) => 10,
        Data::F32(_) => 11,
        Data::F64(_) => 12,
        Data::Char(_) => 13,
        Data::String(_) => 14,
        Data::ByteArray(_) => 15,
        Data::Option(_) => 16,
        Data::Unit => 17,
        Data::UnitStruct { .. } => 18,
        Data::UnitVariant { .. } => 19,
        Data::NewtypeStruct { .. } => 20,
        Data::NewtypeVariant { .. } => 21,
        Data::Sequence(_) => 22,
        Data::Tuple(_) => 23,
        Data::TupleStruct { .. } => 24,
        Data::TupleVariant { .. } => 25,
        Data::Mapping(_) => 26,
        Data::Struct { .. } => 27,
        Data::StructVariant { .. } => 28,
    }
}

/// `first`, unless it says that the two sides are equal; then `rest` (see [`then_order`]).
fn then(first: Option<Comparison>, rest: Option<Comparison>) -> (r: Option<Comparison>)
    ensures
        r == then_order(first, rest),
{
    match first {
        Some(Comparison::Equal) => rest,
        _ => first,
    }
}

/// The order of a name, a variant index and a variant name (see [`variant_order`]).
fn variant_names_order(n1: &String, i1: u32, v1: &String, n2: &String, i2: u32, v2: &String) -> (r: Option<
    Comparison,
>)
    ensures
        r == variant_order(n1@, i1, v1@, n2@, i2, v2@),
{
    let names = str_order(n1.as_str(), n2.as_str());
    if names != Comparison::Equal {
        return Some(names);
    }
    let indices = order_of(i1 < i2, i1 == i2);
    if indices != Comparison::Equal {
        return Some(indices);
    }
    Some(str_order(v1.as_str(), v2.as_str()))
}

/// The order of two values (see [`data_order`]).
pub fn data_partial_order(a: &Data, b: &Data) -> (r: Option<Comparison>)
    ensures
        r == data_order(a@, b@),
    decreases a,
{
    let (ra, rb) = (data_rank(a), data_rank(b));
    if ra != rb {
        return Some(order_of(ra < rb, false));
    }
    match (a, b) {
        (Data::Bool(x), Data::Bool(y)) => Some(order_of(!*x && *y, *x == *y)),
        (Data::I8(x), Data::I8(y)) => Some(order_of(*x < *y, *x == *y)),
        (Data::I16(x), Data::I16(y)) => Some(order_of(*x < *y, *x == *y)),
        (Data::I32(x), Data::I32(y)) => Some(order_of(*x < *y, *x == *y)),
        (Data::I64(x), Data::I64(y)) => Some(order_of(*x < *y, *x == *y)),
        (Data::I128(x), Data::I128(y)) => Some(order_of(*x < *y, *x == *y)),
        (Data::U8(x), Data::U8(y)) => Some(order_of(*x < *y, *x == *y)),
        (Data::U16(x), Data::U16(y)) => Some(order_of(*x < *y, *x == *y)),
        (Data::U32(x), Data::U32(y)) => Some(order_of(*x < *y, *x == *y)),
        (Data::U64(x), Data::U64(y)) => Some(order_of(*x < *y, *x == *y)),
        (Data::U128(x), Data::U128(y)) => Some(order_of(*x < *y, *x == *y)),
        (Data::F32(x), Data::F32(y)) => f32_bits_order(*x, *y),
        (Data::F64(x), Data::F64(y)) => f64_bits_order(*x, *y),
        (Data::Char(x), Data::Char(y)) => Some(order_of((*x as u32) < (*y as u32), *x == *y)),
        (Data::String(x), Data::String(y)) => Some(str_order(x.as_str(), y.as_str())),
        (Data::ByteArray(x), Data::ByteArray(y)) => Some(byte_vec_order(x, y)),
        (Data::Option(x), Data::Option(y)) => match (x, y) {
            (Some(x), Some(y)) => data_partial_order(x, y),
            (None, None) => Some(Comparison::Equal),
            (None, Some(_)) => Some(Comparison::Less),
            (Some(_), None) => Some(Comparison::Greater),
        },
        (Data::UnitStruct { name: n1 }, Data::UnitStruct { name: n2 }) => Some(str_order(n1.as_str(), n2.as_str())),
        (
            Data::UnitVariant { name: n1, variant_index: i1, variant: v1 },
            Data::UnitVariant { name: n2, variant_index: i2, variant: v2 },
        ) => variant_names_order(n1, *i1, v1, n2, *i2, v2),
        (Data::NewtypeStruct { name: n1, data: d1 }, Data::NewtypeStruct { name: n2, data: d2 }) => {
            let names = Some(str_order(n1.as_str(), n2.as_str()));
            if names != Some(Comparison::Equal) {
                return names;
            }
            data_partial_order(d1, d2)
        },
        (
            Data::NewtypeVariant { name: n1, variant_index: i1, variant: v1, data: d1 },
            Data::NewtypeVariant { name: n2, variant_index: i2, variant: v2, data: d2 },
        ) => {
            let head = variant_names_order(n1, *i1, v1, n2, *i2, v2);
            if head != Some(Comparison::Equal) {
                return head;
            }
            data_partial_order(d1, d2)
        },
        (Data::Sequence(x), Data::Sequence(y)) => vec_order(x, y),
        (Data::Tuple(x), Data::Tuple(y)) => vec_order(x, y),
        (Data::TupleStruct { name: n1, data: d1 }, Data::TupleStruct { name: n2, data: d2 }) => {
            let names = Some(str_order(n1.as_str(), n2.as_str()));
            if names != Some(Comparison::Equal) {
                return names;
            }
            vec_order(d1, d2)
        },
        (
            Data::TupleVariant { name: n1, variant_index: i1, variant: v1, data: d1 },
            Data::TupleVariant { name: n2, variant_index: i2, variant: v2, data: d2 },
        ) => {
            let head = variant_names_order(n1, *i1, v1, n2, *i2, v2);
            if head != Some(Comparison::Equal) {
                return head;
            }
            vec_order(d1, d2)
        },
        (Data::Mapping(x), Data::Mapping(y)) => pairs_vec_order(x, y),
        (Data::Struct { name: n1, fields: f1 }, Data::Struct { name: n2, fields: f2 }) => {
            let names = Some(str_order(n1.as_str(), n2.as_str()));
            if names != Some(Comparison::Equal) {
                return names;
            }
            fields_vec_order(f1, f2)
        },
        (
            Data::StructVariant { name: n1, variant_index: i1, variant: v1, fields: f1 },
            Data::StructVariant { name: n2, variant_index: i2, variant: v2, fields: f2 },
        ) => {
            let head = variant_names_order(n1, *i1, v1, n2, *i2, v2);
            if head != Some(Comparison::Equal) {
                return head;
            }
            fields_vec_order(f1, f2)
        },
        _ => Some(Comparison::Equal),
    }
}

/// The order of two vectors of values (see [`seq_order`]).
fn vec_order(a: &Vec<Data>, b: &Vec<Data>) -> (r: Option<Comparison>)
    ensures
        r == seq_order(models(a@), models(b@)),
    decreases a,
{
    let ghost (x, y) = (models(a@), models(b@));
    let mut i: usize = 0;
    assert(x.skip(0) =~= x && y.skip(0) =~= y);
    while i < a.len() && i < b.len()
        invariant
            x == models(a@) && y == models(b@),
            x.len() == a@.len() && y.len() == b@.len(),
            forall|j: int| 0 <= j < a@.len() ==> #[trigger] x[j] == a@[j]@,
            forall|j: int| 0 <= j < b@.len() ==> #[trigger] y[j] == b@[j]@,
            i <= a@.len(),
            i <= b@.len(),
            seq_order(x, y) == seq_order(x.skip(i as int), y.skip(i as int)),
        decreases a@.len() - i,
    {
        assert(x.skip(i as int)[0] == x[i as int] && y.skip(i as int)[0] == y[i as int]);
        assert(x.skip(i as int).drop_first() =~= x.skip(i + 1) && y.skip(i as int).drop_first() =~= y.skip(i + 1));
        let r = data_partial_order(&a[i], &b[i]);
        if r != Some(Comparison::Equal) {
            return r;
        }
        i = i + 1;
    }
    Some(order_of(a.len() - i < b.len() - i, a.len() - i == b.len() - i))
}

/// The order of two vectors of key-value pairs (see [`pairs_order`]).
fn pairs_vec_order(a: &Vec<(Data, Data)>, b: &Vec<(Data, Data)>) -> (r: Option<Comparison>)
    ensures
        r == pairs_order(pair_models(a@), pair_models(b@)),
    decreases a,
{
    let ghost (x, y) = (pair_models(a@), pair_models(b@));
    let mut i: usize = 0;
    assert(x.skip(0) =~= x && y.skip(0) =~= y);
    while i < a.len() && i < b.len()
        invariant
            x == pair_models(a@) && y == pair_models(b@),
            x.len() == a@.len() && y.len() == b@.len(),
            forall|j: int| 0 <= j < a@.len() ==> #[trigger] x[j] == (a@[j].0@, a@[j].1@),
            forall|j: int| 0 <= j < b@.len() ==> #[trigger] y[j] == (b@[j].0@, b@[j].1@),
            i <= a@.len(),
            i <= b@.len(),
            pairs_order(x, y) == pairs_order(x.skip(i as int), y.skip(i as int)),
        decreases a@.len() - i,
    {
        assert(x.skip(i as int)[0] == x[i as int] && y.skip(i as int)[0] == y[i as int]);
        assert(x.skip(i as int).drop_first() =~= x.skip(i + 1) && y.skip(i as int).drop_first() =~= y.skip(i + 1));
        let keys = data_partial_order(&a[i].0, &b[i].0);
        if keys != Some(Comparison::Equal) {
            return keys;
        }
        let values = data_partial_order(&a[i].1, &b[i].1);
        if values != Some(Comparison::Equal) {
            return values;
        }
        i = i + 1;
    }
    Some(order_of(a.len() - i < b.len() - i, a.len() - i == b.len() - i))
}

/// The order of two vectors of named fields (see [`fields_order`]).
fn fields_vec_order(a: &Vec<(String, Data)>, b: &Vec<(String, Data)>) -> (r: Option<Comparison>)
    ensures
        r == fields_order(field_models(a@), field_models(b@)),
    decreases a,
{
    let ghost (x, y) = (field_models(a@), field_models(b@));
    let mut i: usize = 0;
    assert(x.skip(0) =~= x && y.skip(0) =~= y);
    while i < a.len() && i < b.len()
        invariant
            x == field_models(a@) && y == field_models(b@),
            x.len() == a@.len() && y.len() == b@.len(),
            forall|j: int| 0 <= j < a@.len() ==> #[trigger] x[j] == (a@[j].0@, a@[j].1@),
            forall|j: int| 0 <= j < b@.len() ==> #[trigger] y[j] == (b@[j].0@, b@[j].1@),
            i <= a@.len(),
            i <= b@.len(),
            fields_order(x, y) == fields_order(x.skip(i as int), y.skip(i as int)),
        decreases a@.len() - i,
    {
        assert(x.skip(i as int)[0] == x[i as int] && y.skip(i as int)[0] == y[i as int]);
        assert(x.skip(i as int).drop_first() =~= x.skip(i + 1) && y.skip(i as int).drop_first() =~= y.skip(i + 1));
        let names = str_order(a[i].0.as_str(), b[i].0.as_str());
        if names != Comparison::Equal {
            return Some(names);
        }
        let values = data_partial_order(&a[i].1, &b[i].1);
        if values != Some(Comparison::Equal) {
            return values;
        }
        i = i + 1;
    }
    Some(order_of(a.len() - i < b.len() - i, a.len() - i == b.len() - i))
}

/// The standard order that a comparison stands for.
pub open spec fn standard_order(c: Option<Comparison>) -> Option<Ordering> {
    match c {
        Some(Comparison::Less) => Some(Ordering::Less),
        Some(Comparison::Equal) => Some(Ordering::Equal),
        Some(Comparison::Greater) => Some(Ordering::Greater),
        None => None,
    }
}

impl PartialOrd for Data {
    /// Compares by variant, then field by field (see [`data_order`]).
    fn partial_cmp(&self, other: &Self) -> (r: Option<Ordering>) {
        match data_partial_order(self, other) {
            Some(Comparison::Less) => Some(Ordering::Less),
            Some(Comparison::Equal) => Some(Ordering::Equal),
            Some(Comparison::Greater) => Some(Ordering::Greater),
            None => None,
        }
    }
}

impl vstd::std_specs::cmp::PartialOrdSpecImpl for Data {
    open spec fn obeys_partial_cmp_spec() -> bool {
        true
    }

    open spec fn partial_cmp_spec(&self, other: &Self) -> Option<Ordering> {
        standard_order(data_order(self@, other@))
    }
}

} // verus!
