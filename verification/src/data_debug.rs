//! The debug text of [`Data`] values, compact or pretty, laid out as the standard library's
//! debug builders lay out the values that they stand for.
use vstd::prelude::*;

use vstd::string::StrSliceExecFns;

use crate::data::{data_equal, fields_equal, pairs_equal, seq_equal};
use crate::data::{field_models, group_models, models, pair_models, Data, DataModel};

verus! {

broadcast use group_models;

/// The bits of a floating-point leaf of a value.
#[derive(Debug, Clone, Copy, PartialEq, Eq, Structural)]
pub enum FloatBits {
    F32(u32),
    F64(u64),
}

/// The floating-point leaves of a value, in the order in which its debug text shows them.
pub open spec fn leaves_of(d: DataModel) -> Seq<FloatBits>
    decreases d,
{
    match d {
        DataModel::F32(x) => seq![FloatBits::F32(x)],
        DataModel::F64(x) => seq![FloatBits::F64(x)],
        DataModel::Option(Some(x)) => leaves_of(*x),
        DataModel::NewtypeStruct { data, .. } => leaves_of(*data),
        DataModel::NewtypeVariant { data, .. } => leaves_of(*data),
        DataModel::Sequence(x) => seq_leaves(x),
        DataModel::Tuple(x) => seq_leaves(x),
        DataModel::TupleStruct { data, .. } => seq_leaves(data),
        DataModel::TupleVariant { data, .. } => seq_leaves(data),
        DataModel::Mapping(x) => pairs_leaves(x),
        DataModel::Struct { fields, .. } => fields_leaves(fields),
        DataModel::StructVariant { fields, .. } => fields_leaves(fields),
        _ => Seq::empty(),
    }
}

/// The floating-point leaves of a sequence of values, element after element.
pub open spec fn seq_leaves(x: Seq<DataModel>) -> Seq<FloatBits>
    decreases x,
{
    if x.len() == 0 {
        Seq::empty()
    } else {
        seq_leaves(x.drop_last()) + leaves_of(x.last())
    }
}

/// The floating-point leaves of a sequence of key-value pairs, each key before its value.
pub open spec fn pairs_leaves(x: Seq<(DataModel, DataModel)>) -> Seq<FloatBits>
    decreases x,
{
    if x.len() == 0 {
        Seq::empty()
    } else {
        pairs_leaves(x.drop_last()) + leaves_of(x.last().0) + leaves_of(x.last().1)
    }
}

/// The floating-point leaves of a sequence of named fields.
pub open spec fn fields_leaves(x: Seq<(Seq<char>, DataModel)>) -> Seq<FloatBits>
    decreases x,
{
    if x.len() == 0 {
        Seq::empty()
    } else {
        fields_leaves(x.drop_last()) + leaves_of(x.last().1)
    }
}

/// A sequence of values has no floating-point leaf exactly when none of its elements has one.
proof fn lemma_seq_leaves_empty(x: Seq<DataModel>)
    ensures
        (seq_leaves(x).len() == 0) == (forall|i: int| 0 <= i < x.len() ==> #[trigger] leaves_of(x[i]).len() == 0),
    decreases x.len(),
{
    if x.len() > 0 {
        lemma_seq_leaves_empty(x.drop_last());
        assert(forall|i: int| 0 <= i < x.len() - 1 ==> #[trigger] x.drop_last()[i] == x[i]);
        if seq_leaves(x).len() == 0 {
            assert forall|i: int| 0 <= i < x.len() implies #[trigger] leaves_of(x[i]).len() == 0 by {
                if i < x.len() - 1 {
                    assert(x.drop_last()[i] == x[i]);
                }
            }
        }
        if forall|i: int| 0 <= i < x.len() ==> #[trigger] leaves_of(x[i]).len() == 0 {
            assert(leaves_of(x[x.len() - 1]).len() == 0);
            assert forall|i: int| 0 <= i < x.drop_last().len() implies #[trigger] leaves_of(x.drop_last()[i]).len()
                == 0 by {
                assert(x.drop_last()[i] == x[i]);
            }
        }
    }
}

/// Likewise for key-value pairs, keys and values alike.
proof fn lemma_pairs_leaves_empty(x: Seq<(DataModel, DataModel)>)
    ensures
        (pairs_leaves(x).len() == 0) == (forall|i: int| 0 <= i < x.len() ==> #[trigger] pair_leaves_empty(x[i])),
    decreases x.len(),
{
    if x.len() > 0 {
        lemma_pairs_leaves_empty(x.drop_last());
        if pairs_leaves(x).len() == 0 {
            assert forall|i: int| 0 <= i < x.len() implies #[trigger] pair_leaves_empty(x[i]) by {
                if i < x.len() - 1 {
                    assert(x.drop_last()[i] == x[i]);
                    assert(pair_leaves_empty(x.drop_last()[i]));
                }
            }
        }
        if forall|i: int| 0 <= i < x.len() ==> #[trigger] pair_leaves_empty(x[i]) {
            assert(pair_leaves_empty(x[x.len() - 1]));
            assert forall|i: int| 0 <= i < x.drop_last().len() implies #[trigger] pair_leaves_empty(x.drop_last()[i]) by {
                assert(x.drop_last()[i] == x[i]);
                assert(pair_leaves_empty(x[i]));
            }
        }
    }
}

/// Whether neither the key nor the value of a pair has a floating-point leaf.
pub open spec fn pair_leaves_empty(p: (DataModel, DataModel)) -> bool {
    leaves_of(p.0).len() == 0 && leaves_of(p.1).len() == 0
}

/// Likewise for named fields.
proof fn lemma_fields_leaves_empty(x: Seq<(Seq<char>, DataModel)>)
    ensures
        (fields_leaves(x).len() == 0) == (forall|i: int| 0 <= i < x.len() ==> #[trigger] leaves_of(x[i].1).len() == 0),
    decreases x.len(),
{
    if x.len() > 0 {
        lemma_fields_leaves_empty(x.drop_last());
        if fields_leaves(x).len() == 0 {
            assert forall|i: int| 0 <= i < x.len() implies #[trigger] leaves_of(x[i].1).len() == 0 by {
                if i < x.len() - 1 {
                    assert(x.drop_last()[i] == x[i]);
                }
            }
        }
        if forall|i: int| 0 <= i < x.len() ==> #[trigger] leaves_of(x[i].1).len() == 0 {
            assert(leaves_of(x[x.len() - 1].1).len() == 0);
            assert forall|i: int| 0 <= i < x.drop_last().len() implies #[trigger] leaves_of(x.drop_last()[i].1).len()
                == 0 by {
                assert(x.drop_last()[i] == x[i]);
            }
        }
    }
}

/// Two sequences are equal exactly when their first elements and the rest are.
proof fn lemma_seq_split_equal<A>(x: Seq<A>, y: Seq<A>)
    requires
        x.len() > 0,
        y.len() > 0,
    ensures
        (x == y) == (x[0] == y[0] && x.drop_first() == y.drop_first()),
{
    if x[0] == y[0] && x.drop_first() == y.drop_first() {
        assert(x.drop_first().len() == y.drop_first().len());
        assert(x.len() == y.len());
        assert forall|i: int| 0 <= i < x.len() implies x[i] == y[i] by {
            if i > 0 {
                assert(x[i] == x.drop_first()[i - 1] && y[i] == y.drop_first()[i - 1]);
            }
        }
        assert(x =~= y);
    }
}

/// Values without floating-point leaves are equal exactly when they are the same value: same
/// variant, same names, same payloads.
pub proof fn law_equality_without_floats(a: DataModel, b: DataModel)
    requires
        leaves_of(a).len() == 0,
    ensures
        data_equal(a, b) == (a == b),
    decreases a,
{
    match (a, b) {
        (DataModel::Option(x), DataModel::Option(y)) => {
            if let (Some(x), Some(y)) = (x, y) {
                law_equality_without_floats(*x, *y);
            }
        },
        (DataModel::NewtypeStruct { data: d1, .. }, DataModel::NewtypeStruct { data: d2, .. }) => {
            law_equality_without_floats(*d1, *d2);
        },
        (DataModel::NewtypeVariant { data: d1, .. }, DataModel::NewtypeVariant { data: d2, .. }) => {
            law_equality_without_floats(*d1, *d2);
        },
        (DataModel::Sequence(x), DataModel::Sequence(y)) => {
            lemma_seq_leaves_empty(x);
            lemma_seq_equal_without_floats(x, y);
        },
        (DataModel::Tuple(x), DataModel::Tuple(y)) => {
            lemma_seq_leaves_empty(x);
            lemma_seq_equal_without_floats(x, y);
        },
        (DataModel::TupleStruct { data: x, .. }, DataModel::TupleStruct { data: y, .. }) => {
            lemma_seq_leaves_empty(x);
            lemma_seq_equal_without_floats(x, y);
        },
        (DataModel::TupleVariant { data: x, .. }, DataModel::TupleVariant { data: y, .. }) => {
            lemma_seq_leaves_empty(x);
            lemma_seq_equal_without_floats(x, y);
        },
        (DataModel::Mapping(x), DataModel::Mapping(y)) => {
            lemma_pairs_leaves_empty(x);
            lemma_pairs_equal_without_floats(x, y);
        },
        (DataModel::Struct { fields: x, .. }, DataModel::Struct { fields: y, .. }) => {
            lemma_fields_leaves_empty(x);
            lemma_fields_equal_without_floats(x, y);
        },
        (DataModel::StructVariant { fields: x, .. }, DataModel::StructVariant { fields: y, .. }) => {
            lemma_fields_leaves_empty(x);
            lemma_fields_equal_without_floats(x, y);
        },
        _ => {},
    }
}

/// Sequences of values without floating-point leaves are equal element by element exactly
/// when they are the same sequence.
proof fn lemma_seq_equal_without_floats(x: Seq<DataModel>, y: Seq<DataModel>)
    requires
        forall|i: int| 0 <= i < x.len() ==> #[trigger] leaves_of(x[i]).len() == 0,
    ensures
        seq_equal(x, y) == (x == y),
    decreases x,
{
    if x.len() > 0 && y.len() > 0 {
        assert(leaves_of(x[0]).len() == 0);
        law_equality_without_floats(x[0], y[0]);
        assert forall|i: int| 0 <= i < x.drop_first().len() implies #[trigger] leaves_of(x.drop_first()[i]).len()
            == 0 by {
            assert(x.drop_first()[i] == x[i + 1]);
        }
        lemma_seq_equal_without_floats(x.drop_first(), y.drop_first());
        lemma_seq_split_equal(x, y);
    } else if x.len() == 0 && y.len() == 0 {
        assert(x =~= y);
    }
}

/// Likewise for sequences of key-value pairs.
proof fn lemma_pairs_equal_without_floats(x: Seq<(DataModel, DataModel)>, y: Seq<(DataModel, DataModel)>)
    requires
        forall|i: int| 0 <= i < x.len() ==> #[trigger] pair_leaves_empty(x[i]),
    ensures
        pairs_equal(x, y) == (x == y),
    decreases x,
{
    if x.len() > 0 && y.len() > 0 {
        assert(pair_leaves_empty(x[0]));
        law_equality_without_floats(x[0].0, y[0].0);
        law_equality_without_floats(x[0].1, y[0].1);
        assert forall|i: int| 0 <= i < x.drop_first().len() implies #[trigger] pair_leaves_empty(x.drop_first()[i]) by {
            assert(x.drop_first()[i] == x[i + 1]);
            assert(pair_leaves_empty(x[i + 1]));
        }
        lemma_pairs_equal_without_floats(x.drop_first(), y.drop_first());
        lemma_seq_split_equal(x, y);
    } else if x.len() == 0 && y.len() == 0 {
        assert(x =~= y);
    }
}

/// Likewise for sequences of named fields.
proof fn lemma_fields_equal_without_floats(x: Seq<(Seq<char>, DataModel)>, y: Seq<(Seq<char>, DataModel)>)
    requires
        forall|i: int| 0 <= i < x.len() ==> #[trigger] leaves_of(x[i].1).len() == 0,
    ensures
        fields_equal(x, y) == (x == y),
    decreases x,
{
    if x.len() > 0 && y.len() > 0 {
        assert(leaves_of(x[0].1).len() == 0);
        law_equality_without_floats(x[0].1, y[0].1);
        assert forall|i: int| 0 <= i < x.drop_first().len() implies #[trigger] leaves_of(x.drop_first()[i].1).len()
            == 0 by {
            assert(x.drop_first()[i] == x[i + 1]);
        }
        lemma_fields_equal_without_floats(x.drop_first(), y.drop_first());
        lemma_seq_split_equal(x, y);
    } else if x.len() == 0 && y.len() == 0 {
        assert(x =~= y);
    }
}

/// The character of a decimal digit.
pub open spec fn digit(d: int) -> char {
    if d == 0 {
        '0'
    } else if d == 1 {
        '1'
    } else if d == 2 {
        '2'
    } else if d == 3 {
        '3'
    } else if d == 4 {
        '4'
    } else if d == 5 {
        '5'
    } else if d == 6 {
        '6'
    } else if d == 7 {
        '7'
    } else if d == 8 {
        '8'
    } else {
        '9'
    }
}

/// The decimal digits of `n`, most significant first, with no leading zero.
pub open spec fn decimal(n: nat) -> Seq<char>
    decreases n,
{
    if n < 10 {
        seq![digit(n as int)]
    } else {
        decimal(n / 10) + seq![digit((n % 10) as int)]
    }
}

/// The decimal text of an integer: a minus sign before the digits of a negative one.
pub open spec fn signed_decimal(x: int) -> Seq<char> {
    if x < 0 {
        seq!['-'] + decimal((-x) as nat)
    } else {
        decimal(x as nat)
    }
}

/// The debug text of a character, quoted and escaped as `char`'s `Debug` writes it.
pub uninterp spec fn char_debug_text(c: char) -> Seq<char>;

/// The debug text of a string, quoted and escaped as `str`'s `Debug` writes it.
pub uninterp spec fn str_debug_text(s: Seq<char>) -> Seq<char>;

/// `s` with four spaces after each line break.
pub open spec fn pad_lines(s: Seq<char>) -> Seq<char>
    decreases s.len(),
{
    if s.len() == 0 {
        Seq::empty()
    } else if s.last() == '\n' {
        pad_lines(s.drop_last()) + seq!['\n', ' ', ' ', ' ', ' ']
    } else {
        pad_lines(s.drop_last()) + seq![s.last()]
    }
}

/// `s` with each of its lines indented by four spaces.
pub open spec fn indent(s: Seq<char>) -> Seq<char> {
    seq![' ', ' ', ' ', ' '] + pad_lines(s)
}

/// The text that an entry adds to a list, tuple, map or struct: pretty, on a line of its own,
/// indented and followed by a comma; compact, after a comma and a space unless it is the first.
pub open spec fn piece(item: Seq<char>, first: bool, pretty: bool) -> Seq<char> {
    if pretty {
        indent(item) + seq![',', '\n']
    } else if first {
        item
    } else {
        seq![',', ' '] + item
    }
}

/// An opening bracket, followed, in the pretty form, by a line break when entries follow.
pub open spec fn opened(open: Seq<char>, empty: bool, pretty: bool) -> Seq<char> {
    if pretty && !empty {
        open + seq!['\n']
    } else {
        open
    }
}

/// The debug text of a value. `t` holds the texts of its floating-point leaves, in order;
/// `pretty` chooses the multi-line form.
pub open spec fn data_debug_text(d: DataModel, t: Seq<Seq<char>>, pretty: bool) -> Seq<char>
    decreases d,
{
    match d {
        DataModel::Bool(x) => if x {
            seq!['t', 'r', 'u', 'e']
        } else {
            seq!['f', 'a', 'l', 's', 'e']
        },
        DataModel::I8(x) => signed_decimal(x as int),
        DataModel::I16(x) => signed_decimal(x as int),
        DataModel::I32(x) => signed_decimal(x as int),
        DataModel::I64(x) => signed_decimal(x as int),
        DataModel::I128(x) => signed_decimal(x as int),
        DataModel::U8(x) => decimal(x as nat),
        DataModel::U16(x) => decimal(x as nat),
        DataModel::U32(x) => decimal(x as nat),
        DataModel::U64(x) => decimal(x as nat),
        DataModel::U128(x) => decimal(x as nat),
        DataModel::F32(_) => t[0],
        DataModel::F64(_) => t[0],
        DataModel::Char(c) => char_debug_text(c),
        DataModel::String(s) => str_debug_text(s),
        DataModel::ByteArray(b) => opened(seq!['['], b.len() == 0, pretty) + bytes_body(b, pretty) + seq![']'],
        DataModel::Option(None) => seq!['N', 'o', 'n', 'e'],
        DataModel::Option(Some(x)) => opened(seq!['S', 'o', 'm', 'e', '('], false, pretty) + piece(
            data_debug_text(*x, t, pretty),
            true,
            pretty,
        ) + seq![')'],
        DataModel::Unit => seq!['(', ')'],
        DataModel::UnitStruct { name } => name,
        DataModel::UnitVariant { name, variant, .. } => name + seq![':', ':'] + variant,
        DataModel::NewtypeStruct { name, data } => name + seq!['('] + data_debug_text(*data, t, false) + seq![')'],
        DataModel::NewtypeVariant { name, variant, data, .. } => name + seq![':', ':'] + variant + seq!['(']
            + data_debug_text(*data, t, false) + seq![')'],
        DataModel::Sequence(x) => opened(seq!['['], x.len() == 0, pretty) + list_body(x, t, pretty) + seq![']'],
        DataModel::Tuple(x) => tuple_wrap(Seq::empty(), x.len(), list_body(x, t, pretty), pretty),
        DataModel::TupleStruct { name, data } => tuple_wrap(name, data.len(), list_body(data, t, pretty), pretty),
        DataModel::TupleVariant { name, variant, data, .. } => tuple_wrap(
            name + seq![':', ':'] + variant,
            data.len(),
            list_body(data, t, pretty),
            pretty,
        ),
        DataModel::Mapping(x) => opened(seq!['{'], x.len() == 0, pretty) + map_body(x, t, pretty) + seq!['}'],
        DataModel::Struct { name, fields } => struct_wrap(name, fields.len(), fields_body(fields, t, pretty), pretty),
        DataModel::StructVariant { name, variant, fields, .. } => struct_wrap(
            name + seq![':', ':'] + variant,
            fields.len(),
            fields_body(fields, t, pretty),
            pretty,
        ),
    }
}

/// The entries of a byte array: each byte in decimal.
pub open spec fn bytes_body(b: Seq<u8>, pretty: bool) -> Seq<char>
    decreases b.len(),
{
    if b.len() == 0 {
        Seq::empty()
    } else {
        bytes_body(b.drop_last(), pretty) + piece(decimal(b.last() as nat), b.len() == 1, pretty)
    }
}

/// The entries of a list or tuple: each value's debug text.
pub open spec fn list_body(x: Seq<DataModel>, t: Seq<Seq<char>>, pretty: bool) -> Seq<char>
    decreases x,
{
    if x.len() == 0 {
        Seq::empty()
    } else {
        let k = t.len() - leaves_of(x.last()).len();
        list_body(x.drop_last(), t.take(k), pretty) + piece(
            data_debug_text(x.last(), t.skip(k), pretty),
            x.len() == 1,
            pretty,
        )
    }
}

/// The entries of a map: each key's debug text, a colon, and the value's.
pub open spec fn map_body(x: Seq<(DataModel, DataModel)>, t: Seq<Seq<char>>, pretty: bool) -> Seq<char>
    decreases x,
{
    if x.len() == 0 {
        Seq::empty()
    } else {
        let kv = t.len() - leaves_of(x.last().1).len();
        let kk = kv - leaves_of(x.last().0).len();
        map_body(x.drop_last(), t.take(kk), pretty) + piece(
            data_debug_text(x.last().0, t.subrange(kk, kv), pretty) + seq![':', ' '] + data_debug_text(
                x.last().1,
                t.skip(kv),
                pretty,
            ),
            x.len() == 1,
            pretty,
        )
    }
}

/// The entries of a struct: each field's name, a colon, and its value's debug text.
pub open spec fn fields_body(x: Seq<(Seq<char>, DataModel)>, t: Seq<Seq<char>>, pretty: bool) -> Seq<char>
    decreases x,
{
    if x.len() == 0 {
        Seq::empty()
    } else {
        let k = t.len() - leaves_of(x.last().1).len();
        fields_body(x.drop_last(), t.take(k), pretty) + piece(
            x.last().0 + seq![':', ' '] + data_debug_text(x.last().1, t.skip(k), pretty),
            x.len() == 1,
            pretty,
        )
    }
}

/// A tuple of `n` fields whose entries read `body`: its name alone when it has no fields, else
/// the entries in brackets after the name (with a comma after the single field of an unnamed
/// tuple in the compact form).
pub open spec fn tuple_wrap(name: Seq<char>, n: nat, body: Seq<char>, pretty: bool) -> Seq<char> {
    if n == 0 {
        name
    } else {
        opened(name + seq!['('], false, pretty) + body + (if !pretty && n == 1 && name.len() == 0 {
            seq![',']
        } else {
            Seq::empty()
        }) + seq![')']
    }
}

/// A struct of `n` fields whose entries read `body`: its name alone when it has no fields,
/// else the entries in braces after the name.
pub open spec fn struct_wrap(name: Seq<char>, n: nat, body: Seq<char>, pretty: bool) -> Seq<char> {
    if n == 0 {
        name
    } else if pretty {
        name + seq![' ', '{', '\n'] + body + seq!['}']
    } else {
        name + seq![' ', '{', ' '] + body + seq![' ', '}']
    }
}

/// The texts of a vector of strings.
pub open spec fn texts_of(v: Seq<String>) -> Seq<Seq<char>> {
    Seq::new(v.len(), |i: int| v[i]@)
}

/// Whether `c` is a decimal digit.
pub open spec fn is_digit(c: char) -> bool {
    '0' <= c <= '9'
}

/// The number that a string of decimal digits reads, most significant digit first.
pub open spec fn digits_value(s: Seq<char>) -> int
    decreases s.len(),
{
    if s.len() == 0 {
        0
    } else {
        digits_value(s.drop_last()) * 10 + (s.last() as int - '0' as int)
    }
}

/// Whether `s` writes `n` in decimal: digits only, at least one, no leading zero, reading `n`.
pub open spec fn writes_natural(s: Seq<char>, n: int) -> bool {
    &&& s.len() > 0
    &&& forall|i: int| 0 <= i < s.len() ==> is_digit(#[trigger] s[i])
    &&& digits_value(s) == n
    &&& s[0] == '0' ==> s.len() == 1
}

/// Whether `s` writes the integer `x` in decimal, with a minus sign before a negative one.
pub open spec fn writes_integer(s: Seq<char>, x: int) -> bool {
    if x < 0 {
        s.len() > 0 && s[0] == '-' && writes_natural(s.drop_first(), -x)
    } else {
        writes_natural(s, x)
    }
}

/// A digit character reads as its digit.
proof fn lemma_digit_reads(d: int)
    requires
        0 <= d < 10,
    ensures
        is_digit(digit(d)),
        digit(d) as int - '0' as int == d,
        digit(d) == '0' <==> d == 0,
{
    assert('0' as int == 48);
    assert('9' as int == 57);
    if d == 0 {
    } else if d == 1 {
        assert('1' as int == 49);
    } else if d == 2 {
        assert('2' as int == 50);
    } else if d == 3 {
        assert('3' as int == 51);
    } else if d == 4 {
        assert('4' as int == 52);
    } else if d == 5 {
        assert('5' as int == 53);
    } else if d == 6 {
        assert('6' as int == 54);
    } else if d == 7 {
        assert('7' as int == 55);
    } else if d == 8 {
        assert('8' as int == 56);
    } else {
    }
}

/// The decimal text of a number writes that number.
pub proof fn law_decimal_writes_the_number(n: nat)
    ensures
        writes_natural(decimal(n), n as int),
    decreases n,
{
    if n < 10 {
        lemma_digit_reads(n as int);
        let d = decimal(n);
        assert(d.drop_last() =~= Seq::<char>::empty());
        assert(digits_value(d.drop_last()) == 0);
        assert(d.last() == digit(n as int));
        assert(digits_value(d) == n);
        assert(is_digit(d[0]));
    } else {
        lemma_digit_reads((n % 10) as int);
        law_decimal_writes_the_number(n / 10);
        let d = decimal(n);
        let head = decimal(n / 10);
        assert(d.drop_last() =~= head);
        vstd::arithmetic::div_mod::lemma_fundamental_div_mod(n as int, 10);
        assert forall|i: int| 0 <= i < d.len() implies is_digit(#[trigger] d[i]) by {
            if i < head.len() {
                assert(d[i] == head[i]);
            }
        }
        assert(d[0] == head[0]);
        if head[0] == '0' {
            assert(head.len() == 1);
            assert(head.drop_last() =~= Seq::<char>::empty());
            assert(digits_value(head.drop_last()) == 0);
            assert(digits_value(head) == 0);
        }
        assert(d.last() == digit((n % 10) as int));
        assert(digits_value(d) == digits_value(head) * 10 + (n % 10));
        assert(digits_value(d) == n);
    }
}

/// A value of an integer variant prints as its payload written in decimal, with a minus sign
/// before a negative one.
pub proof fn law_integers_print_in_decimal(d: DataModel, t: Seq<Seq<char>>, pretty: bool)
    ensures
        d matches DataModel::I8(x) ==> writes_integer(data_debug_text(d, t, pretty), x as int),
        d matches DataModel::I16(x) ==> writes_integer(data_debug_text(d, t, pretty), x as int),
        d matches DataModel::I32(x) ==> writes_integer(data_debug_text(d, t, pretty), x as int),
        d matches DataModel::I64(x) ==> writes_integer(data_debug_text(d, t, pretty), x as int),
        d matches DataModel::I128(x) ==> writes_integer(data_debug_text(d, t, pretty), x as int),
        d matches DataModel::U8(x) ==> writes_integer(data_debug_text(d, t, pretty), x as int),
        d matches DataModel::U16(x) ==> writes_integer(data_debug_text(d, t, pretty), x as int),
        d matches DataModel::U32(x) ==> writes_integer(data_debug_text(d, t, pretty), x as int),
        d matches DataModel::U64(x) ==> writes_integer(data_debug_text(d, t, pretty), x as int),
        d matches DataModel::U128(x) ==> writes_integer(data_debug_text(d, t, pretty), x as int),
{
    let x: int = match d {
        DataModel::I8(x) => x as int,
        DataModel::I16(x) => x as int,
        DataModel::I32(x) => x as int,
        DataModel::I64(x) => x as int,
        DataModel::I128(x) => x as int,
        DataModel::U8(x) => x as int,
        DataModel::U16(x) => x as int,
        DataModel::U32(x) => x as int,
        DataModel::U64(x) => x as int,
        DataModel::U128(x) => x as int,
        _ => 0,
    };
    if x < 0 {
        law_decimal_writes_the_number((-x) as nat);
        assert((seq!['-'] + decimal((-x) as nat)).drop_first() =~= decimal((-x) as nat));
    } else {
        law_decimal_writes_the_number(x as nat);
    }
}

/// A variant of an enum prints as the struct, tuple struct, newtype or unit struct of the same
/// shape whose name is the enum's name, `::` and the variant's name would.
pub proof fn law_variants_print_as_qualified_structs(
    name: Seq<char>,
    index: u32,
    variant: Seq<char>,
    data: DataModel,
    items: Seq<DataModel>,
    fields: Seq<(Seq<char>, DataModel)>,
    t: Seq<Seq<char>>,
    pretty: bool,
)
    ensures
        ({
            let full = name + seq![':', ':'] + variant;
            &&& data_debug_text(DataModel::UnitVariant { name, variant_index: index, variant }, t, pretty)
                == data_debug_text(DataModel::UnitStruct { name: full }, t, pretty)
            &&& data_debug_text(
                DataModel::NewtypeVariant { name, variant_index: index, variant, data: Box::new(data) },
                t,
                pretty,
            ) == data_debug_text(DataModel::NewtypeStruct { name: full, data: Box::new(data) }, t, pretty)
            &&& data_debug_text(DataModel::TupleVariant { name, variant_index: index, variant, data: items }, t, pretty)
                == data_debug_text(DataModel::TupleStruct { name: full, data: items }, t, pretty)
            &&& data_debug_text(DataModel::StructVariant { name, variant_index: index, variant, fields }, t, pretty)
                == data_debug_text(DataModel::Struct { name: full, fields }, t, pretty)
        }),
{
    let full = name + seq![':', ':'] + variant;
    assert(full + seq!['('] + data_debug_text(data, t, false) + seq![')'] =~= name + seq![':', ':'] + variant
        + seq!['('] + data_debug_text(data, t, false) + seq![')']);
}

/// A named struct, tuple struct, newtype or unit struct prints beginning with its name, and as
/// its name alone when it has no fields.
pub proof fn law_structs_print_their_name_first(
    name: Seq<char>,
    data: DataModel,
    items: Seq<DataModel>,
    fields: Seq<(Seq<char>, DataModel)>,
    t: Seq<Seq<char>>,
    pretty: bool,
)
    ensures
        data_debug_text(DataModel::UnitStruct { name }, t, pretty) == name,
        data_debug_text(DataModel::NewtypeStruct { name, data: Box::new(data) }, t, pretty).take(name.len() as int)
            == name,
        data_debug_text(DataModel::TupleStruct { name, data: items }, t, pretty).take(name.len() as int) == name,
        data_debug_text(DataModel::Struct { name, fields }, t, pretty).take(name.len() as int) == name,
        data_debug_text(DataModel::TupleStruct { name, data: Seq::empty() }, t, pretty) == name,
        data_debug_text(DataModel::Struct { name, fields: Seq::empty() }, t, pretty) == name,
{
    let n = name.len() as int;
    assert((name + seq!['('] + data_debug_text(data, t, false) + seq![')']).take(n) =~= name);
    let tt = data_debug_text(DataModel::TupleStruct { name, data: items }, t, pretty);
    if items.len() > 0 {
        let body = list_body(items, t, pretty);
        let tail = (if !pretty && items.len() == 1 && name.len() == 0 {
            seq![',']
        } else {
            Seq::empty()
        }) + seq![')'];
        assert(tt == opened(name + seq!['('], false, pretty) + body + (if !pretty && items.len() == 1 && name.len()
            == 0 {
            seq![',']
        } else {
            Seq::empty()
        }) + seq![')']);
        assert(tt.take(n) =~= name);
    } else {
        assert(tt.take(n) =~= name);
    }
    let st = data_debug_text(DataModel::Struct { name, fields }, t, pretty);
    if fields.len() > 0 {
        assert(st.take(n) =~= name);
    } else {
        assert(st.take(n) =~= name);
    }
}

/// A floating-point leaf prints as the text given for it.
pub proof fn law_float_leaves_print_as_given(d: DataModel, text: Seq<char>, pretty: bool)
    requires
        d is F32 || d is F64,
    ensures
        leaves_of(d).len() == 1,
        data_debug_text(d, seq![text], pretty) == text,
{
}

/// The debug text of a character, as `char`'s `Debug` writes it. The text is named
/// [`char_debug_text`]: it depends on the character alone.
#[verifier::external_body]
fn char_debug(c: char) -> (r: String)
    ensures
        r@ == char_debug_text(c),
{
    format!("{:?}", c)
}

/// The debug text of a string, as `str`'s `Debug` writes it. The text is named
/// [`str_debug_text`]: it depends on the string alone.
#[verifier::external_body]
fn str_debug(s: &str) -> (r: String)
    ensures
        r@ == str_debug_text(s@),
{
    format!("{:?}", s)
}

/// The floating-point leaves that come before the `i`-th element of `x` are those of the
/// elements before it.
proof fn lemma_seq_leaves_prefix(x: Seq<DataModel>, i: int)
    requires
        0 <= i <= x.len(),
    ensures
        seq_leaves(x.take(i)).len() <= seq_leaves(x).len(),
    decreases x.len(),
{
    if i < x.len() {
        assert(x.drop_last().take(i) =~= x.take(i));
        lemma_seq_leaves_prefix(x.drop_last(), i);
    } else {
        assert(x.take(i) =~= x);
    }
}

/// Likewise for pairs.
proof fn lemma_pairs_leaves_prefix(x: Seq<(DataModel, DataModel)>, i: int)
    requires
        0 <= i <= x.len(),
    ensures
        pairs_leaves(x.take(i)).len() <= pairs_leaves(x).len(),
    decreases x.len(),
{
    if i < x.len() {
        assert(x.drop_last().take(i) =~= x.take(i));
        lemma_pairs_leaves_prefix(x.drop_last(), i);
    } else {
        assert(x.take(i) =~= x);
    }
}

/// Likewise for fields.
proof fn lemma_fields_leaves_prefix(x: Seq<(Seq<char>, DataModel)>, i: int)
    requires
        0 <= i <= x.len(),
    ensures
        fields_leaves(x.take(i)).len() <= fields_leaves(x).len(),
    decreases x.len(),
{
    if i < x.len() {
        assert(x.drop_last().take(i) =~= x.take(i));
        lemma_fields_leaves_prefix(x.drop_last(), i);
    } else {
        assert(x.take(i) =~= x);
    }
}

/// The character of a decimal digit, as a string.
fn digit_string(d: u128) -> (r: String)
    requires
        d < 10,
    ensures
        r@ == seq![digit(d as int)],
{
    proof {
        reveal_strlit("0");
        reveal_strlit("1");
        reveal_strlit("2");
        reveal_strlit("3");
        reveal_strlit("4");
        reveal_strlit("5");
        reveal_strlit("6");
        reveal_strlit("7");
        reveal_strlit("8");
        reveal_strlit("9");
    }
    let r = if d == 0 {
        String::from_str("0")
    } else if d == 1 {
        String::from_str("1")
    } else if d == 2 {
        String::from_str("2")
    } else if d == 3 {
        String::from_str("3")
    } else if d == 4 {
        String::from_str("4")
    } else if d == 5 {
        String::from_str("5")
    } else if d == 6 {
        String::from_str("6")
    } else if d == 7 {
        String::from_str("7")
    } else if d == 8 {
        String::from_str("8")
    } else {
        String::from_str("9")
    };
    assert(r@ =~= seq![digit(d as int)]);
    r
}

/// The decimal digits of `n` (see [`decimal`]).
pub fn decimal_string(n: u128) -> (r: String)
    ensures
        r@ == decimal(n as nat),
{
    let mut q = n;
    let mut acc = String::new();
    proof {
        assert(decimal(n as nat) =~= decimal(q as nat) + acc@);
    }
    loop
        invariant_except_break
            decimal(n as nat) == decimal(q as nat) + acc@,
        ensures
            decimal(n as nat) == acc@,
        decreases q,
    {
        let d = q % 10;
        let digit_text = digit_string(d);
        acc = digit_text.concat(acc.as_str());
        if q < 10 {
            proof {
                assert(decimal(n as nat) =~= acc@);
            }
            break;
        }
        proof {
            assert(decimal(q as nat) == decimal((q / 10) as nat) + seq![digit(d as int)]);
            assert(decimal(n as nat) =~= decimal((q / 10) as nat) + acc@);
        }
        q = q / 10;
    }
    acc
}

/// The decimal text of `x` (see [`signed_decimal`]).
pub fn signed_decimal_string(x: i128) -> (r: String)
    ensures
        r@ == signed_decimal(x as int),
{
    if x < 0 {
        let magnitude: u128 = ((-(x + 1)) as u128) + 1;
        let digits = decimal_string(magnitude);
        proof {
            reveal_strlit("-");
        }
        let r = String::from_str("-").concat(digits.as_str());
        assert(r@ =~= seq!['-'] + decimal((-x) as nat));
        r
    } else {
        decimal_string(x as u128)
    }
}

/// Breaking no line, `s` up to `i` is padded as it is up to `j`, followed by what lies between.
proof fn lemma_pad_lines_segment(s: Seq<char>, j: int, i: int)
    requires
        0 <= j <= i <= s.len(),
        forall|k: int| j <= k < i ==> s[k] != '\n',
    ensures
        pad_lines(s.take(i)) == pad_lines(s.take(j)) + s.subrange(j, i),
    decreases i - j,
{
    if i > j {
        lemma_pad_lines_segment(s, j, i - 1);
        assert(s.take(i).drop_last() =~= s.take(i - 1));
        assert(s.take(i).last() == s[i - 1]);
        assert(pad_lines(s.take(j)) + s.subrange(j, i) =~= pad_lines(s.take(j)) + s.subrange(j, i - 1) + seq![
            s[i - 1],
        ]);
    } else {
        assert(s.subrange(j, i) =~= Seq::<char>::empty());
        assert(pad_lines(s.take(j)) + s.subrange(j, i) =~= pad_lines(s.take(j)));
    }
}

/// `s` with each of its lines indented by four spaces (see [`indent`]).
fn indent_string(s: &String) -> (r: String)
    ensures
        r@ == indent(s@),
{
    let st = s.as_str();
    let n = st.unicode_len();
    proof {
        reveal_strlit("    ");
        reveal_strlit("\n    ");
        assert(st@.take(0) =~= Seq::<char>::empty());
    }
    let mut acc = String::from_str("    ");
    let mut seg: usize = 0;
    let mut i: usize = 0;
    while i < n
        invariant
            n == st@.len(),
            st@ == s@,
            seg <= i <= n,
            acc@ == seq![' ', ' ', ' ', ' '] + pad_lines(st@.take(seg as int)),
            forall|k: int| seg <= k < i ==> st@[k] != '\n',
        decreases n - i,
    {
        let c = st.get_char(i);
        proof {
            reveal_strlit("\n    ");
        }
        if c == '\n' {
            let part = st.substring_char(seg, i);
            let ghost before = acc@;
            acc = acc.concat(part).concat("\n    ");
            proof {
                lemma_pad_lines_segment(st@, seg as int, i as int);
                assert(st@.take(i + 1).drop_last() =~= st@.take(i as int));
                assert(st@.take(i + 1).last() == '\n');
                assert(acc@ =~= seq![' ', ' ', ' ', ' '] + pad_lines(st@.take(i + 1)));
            }
            seg = i + 1;
        }
        i = i + 1;
    }
    let part = st.substring_char(seg, n);
    proof {
        lemma_pad_lines_segment(st@, seg as int, n as int);
        assert(st@.take(n as int) =~= st@);
    }
    let r = acc.concat(part);
    assert(r@ =~= indent(s@));
    r
}

/// `acc` followed by what the entry `item` adds (see [`piece`]).
fn push_piece(acc: String, item: &String, first: bool, pretty: bool) -> (r: String)
    ensures
        r@ == acc@ + piece(item@, first, pretty),
{
    proof {
        reveal_strlit(",\n");
        reveal_strlit(", ");
    }
    if pretty {
        let indented = indent_string(item);
        let r = acc.concat(indented.as_str()).concat(",\n");
        assert(r@ =~= acc@ + piece(item@, first, pretty));
        r
    } else if first {
        acc.concat(item.as_str())
    } else {
        let r = acc.concat(", ").concat(item.as_str());
        assert(r@ =~= acc@ + piece(item@, first, pretty));
        r
    }
}

/// An opening bracket, with a line break after it in the pretty form when entries follow
/// (see [`opened`]).
fn open_with(open: &str, empty: bool, pretty: bool) -> (r: String)
    ensures
        r@ == opened(open@, empty, pretty),
{
    proof {
        reveal_strlit("\n");
    }
    let r = String::from_str(open);
    if pretty && !empty {
        let r = r.concat("\n");
        assert(r@ =~= opened(open@, empty, pretty));
        r
    } else {
        r
    }
}

/// The entries of a byte array (see [`bytes_body`]).
fn bytes_text(b: &Vec<u8>, pretty: bool) -> (r: String)
    ensures
        r@ == bytes_body(b@, pretty),
{
    let mut acc = String::new();
    let mut i: usize = 0;
    proof {
        assert(b@.take(0) =~= Seq::<u8>::empty());
        assert(acc@ =~= Seq::<char>::empty());
    }
    while i < b.len()
        invariant
            i <= b@.len(),
            acc@ == bytes_body(b@.take(i as int), pretty),
        decreases b@.len() - i,
    {
        let digits = decimal_string(b[i] as u128);
        acc = push_piece(acc, &digits, i == 0, pretty);
        proof {
            assert(b@.take(i + 1).drop_last() =~= b@.take(i as int));
            assert(b@.take(i + 1).last() == b@[i as int]);
        }
        i = i + 1;
    }
    proof {
        assert(b@.take(i as int) =~= b@);
    }
    acc
}

/// The debug text of `d`, with the texts of its floating-point leaves read from `texts`
/// from `start` on; returns it with the position after the last text read.
#[verifier::spinoff_prover]
#[verifier::rlimit(80)]
fn debug_from(d: &Data, texts: &Vec<String>, start: usize, pretty: bool) -> (r: (String, usize))
    requires
        start + leaves_of(d@).len() <= texts@.len(),
    ensures
        r.1 == start + leaves_of(d@).len(),
        r.0@ == data_debug_text(d@, texts_of(texts@).subrange(start as int, r.1 as int), pretty),
    decreases d,
{
    proof {
        reveal_strlit("true");
        reveal_strlit("false");
        reveal_strlit("[");
        reveal_strlit("]");
        reveal_strlit("{");
        reveal_strlit("}");
        reveal_strlit("(");
        reveal_strlit(")");
        reveal_strlit("::");
        reveal_strlit("None");
        reveal_strlit("Some(");
        reveal_strlit("()");
    }
    let ghost tv = texts_of(texts@);
    match d {
        Data::Bool(x) => {
            let r = if *x {
                String::from_str("true")
            } else {
                String::from_str("false")
            };
            assert(r@ =~= data_debug_text(d@, tv.subrange(start as int, start as int), pretty));
            (r, start)
        },
        Data::I8(x) => (signed_decimal_string(*x as i128), start),
        Data::I16(x) => (signed_decimal_string(*x as i128), start),
        Data::I32(x) => (signed_decimal_string(*x as i128), start),
        Data::I64(x) => (signed_decimal_string(*x as i128), start),
        Data::I128(x) => (signed_decimal_string(*x), start),
        Data::U8(x) => (decimal_string(*x as u128), start),
        Data::U16(x) => (decimal_string(*x as u128), start),
        Data::U32(x) => (decimal_string(*x as u128), start),
        Data::U64(x) => (decimal_string(*x as u128), start),
        Data::U128(x) => (decimal_string(*x), start),
        Data::F32(_) => {
            assert(leaves_of(d@).len() == 1);
            let n = texts.len();
            assert(start < n);
            let r = texts[start].clone();
            assert(tv.subrange(start as int, start + 1)[0] == texts@[start as int]@);
            (r, start + 1)
        },
        Data::F64(_) => {
            assert(leaves_of(d@).len() == 1);
            let n = texts.len();
            assert(start < n);
            let r = texts[start].clone();
            assert(tv.subrange(start as int, start + 1)[0] == texts@[start as int]@);
            (r, start + 1)
        },
        Data::Char(c) => (char_debug(*c), start),
        Data::String(s) => (str_debug(s.as_str()), start),
        Data::ByteArray(b) => {
            let r = open_with("[", b.len() == 0, pretty).concat(bytes_text(b, pretty).as_str()).concat("]");
            assert(r@ =~= data_debug_text(d@, tv.subrange(start as int, start as int), pretty));
            (r, start)
        },
        Data::Option(None) => {
            let r = String::from_str("None");
            assert(r@ =~= data_debug_text(d@, tv.subrange(start as int, start as int), pretty));
            (r, start)
        },
        Data::Option(Some(x)) => {
            let (inner, end) = debug_from(x, texts, start, pretty);
            let r = push_piece(open_with("Some(", false, pretty), &inner, true, pretty).concat(")");
            assert(r@ =~= data_debug_text(d@, tv.subrange(start as int, end as int), pretty));
            (r, end)
        },
        Data::Unit => {
            let r = String::from_str("()");
            assert(r@ =~= data_debug_text(d@, tv.subrange(start as int, start as int), pretty));
            (r, start)
        },
        Data::UnitStruct { name } => (name.clone(), start),
        Data::UnitVariant { name, variant, .. } => {
            let r = name.clone().concat("::").concat(variant.as_str());
            assert(r@ =~= data_debug_text(d@, tv.subrange(start as int, start as int), pretty));
            (r, start)
        },
        Data::NewtypeStruct { name, data } => {
            let (inner, end) = debug_from(data, texts, start, false);
            let r = name.clone().concat("(").concat(inner.as_str()).concat(")");
            assert(r@ =~= data_debug_text(d@, tv.subrange(start as int, end as int), pretty));
            (r, end)
        },
        Data::NewtypeVariant { name, variant, data, .. } => {
            let (inner, end) = debug_from(data, texts, start, false);
            let r = name.clone().concat("::").concat(variant.as_str()).concat("(").concat(inner.as_str()).concat(
                ")",
            );
            assert(r@ =~= data_debug_text(d@, tv.subrange(start as int, end as int), pretty));
            (r, end)
        },
        Data::Sequence(x) => {
            let (body, end) = list_from(x, texts, start, pretty);
            let r = open_with("[", x.len() == 0, pretty).concat(body.as_str()).concat("]");
            assert(r@ =~= data_debug_text(d@, tv.subrange(start as int, end as int), pretty));
            (r, end)
        },
        Data::Tuple(x) => {
            let name = String::new();
            let (body, end) = list_from(x, texts, start, pretty);
            let r = tuple_around(&name, x.len(), &body, pretty);
            assert(name@ =~= Seq::<char>::empty());
            (r, end)
        },
        Data::TupleStruct { name, data } => {
            let (body, end) = list_from(data, texts, start, pretty);
            (tuple_around(name, data.len(), &body, pretty), end)
        },
        Data::TupleVariant { name, variant, data, .. } => {
            let full = name.clone().concat("::").concat(variant.as_str());
            assert(full@ =~= name@ + seq![':', ':'] + variant@);
            let (body, end) = list_from(data, texts, start, pretty);
            (tuple_around(&full, data.len(), &body, pretty), end)
        },
        Data::Mapping(x) => {
            let (body, end) = map_from(x, texts, start, pretty);
            let r = open_with("{", x.len() == 0, pretty).concat(body.as_str()).concat("}");
            assert(r@ =~= data_debug_text(d@, tv.subrange(start as int, end as int), pretty));
            (r, end)
        },
        Data::Struct { name, fields } => {
            let (body, end) = fields_from(fields, texts, start, pretty);
            (struct_around(name, fields.len(), &body, pretty), end)
        },
        Data::StructVariant { name, variant, fields, .. } => {
            let full = name.clone().concat("::").concat(variant.as_str());
            assert(full@ =~= name@ + seq![':', ':'] + variant@);
            let (body, end) = fields_from(fields, texts, start, pretty);
            (struct_around(&full, fields.len(), &body, pretty), end)
        },
    }
}

/// A tuple named `name` of `n` fields whose entries read `body` (see [`tuple_wrap`]).
fn tuple_around(name: &String, n: usize, body: &String, pretty: bool) -> (r: String)
    ensures
        r@ == tuple_wrap(name@, n as nat, body@, pretty),
{
    proof {
        reveal_strlit("(");
        reveal_strlit(")");
        reveal_strlit(",)");
    }
    if n == 0 {
        return name.clone();
    }
    let head = open_with(name.clone().concat("(").as_str(), false, pretty).concat(body.as_str());
    let r = if !pretty && n == 1 && name.as_str().unicode_len() == 0 {
        head.concat(",)")
    } else {
        head.concat(")")
    };
    assert(r@ =~= tuple_wrap(name@, n as nat, body@, pretty));
    r
}

/// A struct named `name` of `n` fields whose entries read `body` (see [`struct_wrap`]).
fn struct_around(name: &String, n: usize, body: &String, pretty: bool) -> (r: String)
    ensures
        r@ == struct_wrap(name@, n as nat, body@, pretty),
{
    proof {
        reveal_strlit(" {\n");
        reveal_strlit(" { ");
        reveal_strlit(" }");
        reveal_strlit("}");
    }
    if n == 0 {
        return name.clone();
    }
    let r = if pretty {
        name.clone().concat(" {\n").concat(body.as_str()).concat("}")
    } else {
        name.clone().concat(" { ").concat(body.as_str()).concat(" }")
    };
    assert(r@ =~= struct_wrap(name@, n as nat, body@, pretty));
    r
}

/// The entries of a list or tuple (see [`list_body`]).
fn list_from(v: &Vec<Data>, texts: &Vec<String>, start: usize, pretty: bool) -> (r: (String, usize))
    requires
        start + seq_leaves(models(v@)).len() <= texts@.len(),
    ensures
        r.1 == start + seq_leaves(models(v@)).len(),
        r.0@ == list_body(models(v@), texts_of(texts@).subrange(start as int, r.1 as int), pretty),
    decreases v,
{
    let ghost x = models(v@);
    let ghost tv = texts_of(texts@);
    let mut acc = String::new();
    let mut pos = start;
    let mut i: usize = 0;
    proof {
        assert(x.take(0) =~= Seq::<DataModel>::empty());
        assert(acc@ =~= Seq::<char>::empty());
    }
    while i < v.len()
        invariant
            x == models(v@),
            tv == texts_of(texts@),
            x.len() == v@.len(),
            forall|j: int| 0 <= j < v@.len() ==> #[trigger] x[j] == v@[j]@,
            i <= v@.len(),
            start + seq_leaves(x).len() <= texts@.len(),
            pos == start + seq_leaves(x.take(i as int)).len(),
            acc@ == list_body(x.take(i as int), tv.subrange(start as int, pos as int), pretty),
        decreases v@.len() - i,
    {
        proof {
            assert(x.take(i + 1).drop_last() =~= x.take(i as int));
            assert(x.take(i + 1).last() == x[i as int]);
            lemma_seq_leaves_prefix(x, i + 1);
        }
        let (item, end) = debug_from(&v[i], texts, pos, pretty);
        acc = push_piece(acc, &item, i == 0, pretty);
        proof {
            let t = tv.subrange(start as int, end as int);
            let k = t.len() - leaves_of(x[i as int]).len();
            assert(k == pos - start);
            assert(t.take(k) =~= tv.subrange(start as int, pos as int));
            assert(t.skip(k) =~= tv.subrange(pos as int, end as int));
        }
        pos = end;
        i = i + 1;
    }
    proof {
        assert(x.take(i as int) =~= x);
    }
    (acc, pos)
}

/// The entries of a map (see [`map_body`]).
fn map_from(v: &Vec<(Data, Data)>, texts: &Vec<String>, start: usize, pretty: bool) -> (r: (String, usize))
    requires
        start + pairs_leaves(pair_models(v@)).len() <= texts@.len(),
    ensures
        r.1 == start + pairs_leaves(pair_models(v@)).len(),
        r.0@ == map_body(pair_models(v@), texts_of(texts@).subrange(start as int, r.1 as int), pretty),
    decreases v,
{
    let ghost x = pair_models(v@);
    let ghost tv = texts_of(texts@);
    let mut acc = String::new();
    let mut pos = start;
    let mut i: usize = 0;
    proof {
        assert(x.take(0) =~= Seq::<(DataModel, DataModel)>::empty());
        assert(acc@ =~= Seq::<char>::empty());
        reveal_strlit(": ");
    }
    while i < v.len()
        invariant
            x == pair_models(v@),
            tv == texts_of(texts@),
            x.len() == v@.len(),
            forall|j: int| 0 <= j < v@.len() ==> #[trigger] x[j] == (v@[j].0@, v@[j].1@),
            i <= v@.len(),
            start + pairs_leaves(x).len() <= texts@.len(),
            pos == start + pairs_leaves(x.take(i as int)).len(),
            acc@ == map_body(x.take(i as int), tv.subrange(start as int, pos as int), pretty),
        decreases v@.len() - i,
    {
        proof {
            assert(x.take(i + 1).drop_last() =~= x.take(i as int));
            assert(x.take(i + 1).last() == x[i as int]);
            lemma_pairs_leaves_prefix(x, i + 1);
        }
        proof {
            reveal_strlit(": ");
        }
        let (key, mid) = debug_from(&v[i].0, texts, pos, pretty);
        let (value, end) = debug_from(&v[i].1, texts, mid, pretty);
        let entry = key.concat(": ").concat(value.as_str());
        acc = push_piece(acc, &entry, i == 0, pretty);
        proof {
            let t = tv.subrange(start as int, end as int);
            let kv = t.len() - leaves_of(x[i as int].1).len();
            let kk = kv - leaves_of(x[i as int].0).len();
            assert(kk == pos - start && kv == mid - start);
            assert(t.take(kk) =~= tv.subrange(start as int, pos as int));
            assert(t.subrange(kk, kv) =~= tv.subrange(pos as int, mid as int));
            assert(t.skip(kv) =~= tv.subrange(mid as int, end as int));
            assert(entry@ =~= key@ + seq![':', ' '] + value@);
            assert(map_body(x.take(i + 1), t, pretty) == map_body(x.take(i as int), tv.subrange(start as int, pos as int), pretty)
                + piece(entry@, i == 0, pretty));
        }
        pos = end;
        i = i + 1;
    }
    proof {
        assert(x.take(i as int) =~= x);
    }
    (acc, pos)
}

/// The entries of a struct (see [`fields_body`]).
fn fields_from(v: &Vec<(String, Data)>, texts: &Vec<String>, start: usize, pretty: bool) -> (r: (String, usize))
    requires
        start + fields_leaves(field_models(v@)).len() <= texts@.len(),
    ensures
        r.1 == start + fields_leaves(field_models(v@)).len(),
        r.0@ == fields_body(field_models(v@), texts_of(texts@).subrange(start as int, r.1 as int), pretty),
    decreases v,
{
    let ghost x = field_models(v@);
    let ghost tv = texts_of(texts@);
    let mut acc = String::new();
    let mut pos = start;
    let mut i: usize = 0;
    proof {
        assert(x.take(0) =~= Seq::<(Seq<char>, DataModel)>::empty());
        assert(acc@ =~= Seq::<char>::empty());
        reveal_strlit(": ");
    }
    while i < v.len()
        invariant
            x == field_models(v@),
            tv == texts_of(texts@),
            x.len() == v@.len(),
            forall|j: int| 0 <= j < v@.len() ==> #[trigger] x[j] == (v@[j].0@, v@[j].1@),
            i <= v@.len(),
            start + fields_leaves(x).len() <= texts@.len(),
            pos == start + fields_leaves(x.take(i as int)).len(),
            acc@ == fields_body(x.take(i as int), tv.subrange(start as int, pos as int), pretty),
        decreases v@.len() - i,
    {
        proof {
            assert(x.take(i + 1).drop_last() =~= x.take(i as int));
            assert(x.take(i + 1).last() == x[i as int]);
            lemma_fields_leaves_prefix(x, i + 1);
        }
        proof {
            reveal_strlit(": ");
        }
        let (value, end) = debug_from(&v[i].1, texts, pos, pretty);
        let entry = v[i].0.clone().concat(": ").concat(value.as_str());
        acc = push_piece(acc, &entry, i == 0, pretty);
        proof {
            let t = tv.subrange(start as int, end as int);
            let k = t.len() - leaves_of(x[i as int].1).len();
            assert(k == pos - start);
            assert(t.take(k) =~= tv.subrange(start as int, pos as int));
            assert(t.skip(k) =~= tv.subrange(pos as int, end as int));
            assert(entry@ =~= v@[i as int].0@ + seq![':', ' '] + value@);
            assert(fields_body(x.take(i + 1), t, pretty) == fields_body(x.take(i as int), tv.subrange(start as int, pos as int), pretty)
                + piece(entry@, i == 0, pretty));
        }
        pos = end;
        i = i + 1;
    }
    proof {
        assert(x.take(i as int) =~= x);
    }
    (acc, pos)
}

impl Data {
    /// The floating-point leaves of this value, in the order in which its debug text shows
    /// them.
    pub fn float_leaves(&self) -> (r: Vec<FloatBits>)
        ensures
            r@ == leaves_of(self@),
        decreases self,
    {
        match self {
            Data::F32(x) => vec![FloatBits::F32(*x)],
            Data::F64(x) => vec![FloatBits::F64(*x)],
            Data::Option(Some(x)) => x.float_leaves(),
            Data::NewtypeStruct { data, .. } => data.float_leaves(),
            Data::NewtypeVariant { data, .. } => data.float_leaves(),
            Data::Sequence(x) => seq_float_leaves(x),
            Data::Tuple(x) => seq_float_leaves(x),
            Data::TupleStruct { data, .. } => seq_float_leaves(data),
            Data::TupleVariant { data, .. } => seq_float_leaves(data),
            Data::Mapping(x) => pairs_float_leaves(x),
            Data::Struct { fields, .. } => fields_float_leaves(fields),
            Data::StructVariant { fields, .. } => fields_float_leaves(fields),
            _ => Vec::new(),
        }
    }

    /// The debug text of this value, compact or, with `pretty`, one entry to a line and
    /// indented; the texts of its floating-point leaves are `float_texts`, in the order of
    /// [`Data::float_leaves`].
    pub fn debug_text(&self, float_texts: &Vec<String>, pretty: bool) -> (r: String)
        requires
            float_texts@.len() == leaves_of(self@).len(),
        ensures
            r@ == data_debug_text(self@, texts_of(float_texts@), pretty),
    {
        let (r, end) = debug_from(self, float_texts, 0, pretty);
        assert(texts_of(float_texts@).subrange(0, end as int) =~= texts_of(float_texts@));
        r
    }
}

/// The floating-point leaves of a vector of values, element after element.
fn seq_float_leaves(x: &Vec<Data>) -> (r: Vec<FloatBits>)
    ensures
        r@ == seq_leaves(models(x@)),
    decreases x,
{
    let mut r: Vec<FloatBits> = Vec::new();
    let mut i: usize = 0;
    proof {
        assert(models(x@).take(0) =~= Seq::<DataModel>::empty());
    }
    while i < x.len()
        invariant
            i <= x@.len(),
            r@ == seq_leaves(models(x@).take(i as int)),
        decreases x@.len() - i,
    {
        let mut k = x[i].float_leaves();
        r.append(&mut k);
        proof {
            assert(models(x@).take(i + 1).drop_last() =~= models(x@).take(i as int));
            assert(models(x@).take(i + 1).last() == models(x@)[i as int]);
        }
        i = i + 1;
    }
    proof {
        assert(models(x@).take(i as int) =~= models(x@));
    }
    r
}

/// The floating-point leaves of a vector of key-value pairs, each key before its value.
fn pairs_float_leaves(x: &Vec<(Data, Data)>) -> (r: Vec<FloatBits>)
    ensures
        r@ == pairs_leaves(pair_models(x@)),
    decreases x,
{
    let mut r: Vec<FloatBits> = Vec::new();
    let mut i: usize = 0;
    proof {
        assert(pair_models(x@).take(0) =~= Seq::<(DataModel, DataModel)>::empty());
    }
    while i < x.len()
        invariant
            i <= x@.len(),
            r@ == pairs_leaves(pair_models(x@).take(i as int)),
        decreases x@.len() - i,
    {
        let mut k = x[i].0.float_leaves();
        let mut v = x[i].1.float_leaves();
        let ghost before = r@;
        r.append(&mut k);
        r.append(&mut v);
        proof {
            assert(pair_models(x@).take(i + 1).drop_last() =~= pair_models(x@).take(i as int));
            assert(pair_models(x@).take(i + 1).last() == pair_models(x@)[i as int]);
        }
        i = i + 1;
    }
    proof {
        assert(pair_models(x@).take(i as int) =~= pair_models(x@));
    }
    r
}

/// The floating-point leaves of a vector of named fields, field after field.
fn fields_float_leaves(x: &Vec<(String, Data)>) -> (r: Vec<FloatBits>)
    ensures
        r@ == fields_leaves(field_models(x@)),
    decreases x,
{
    let mut r: Vec<FloatBits> = Vec::new();
    let mut i: usize = 0;
    proof {
        assert(field_models(x@).take(0) =~= Seq::<(Seq<char>, DataModel)>::empty());
    }
    while i < x.len()
        invariant
            i <= x@.len(),
            r@ == fields_leaves(field_models(x@).take(i as int)),
        decreases x@.len() - i,
    {
        let mut k = x[i].1.float_leaves();
        r.append(&mut k);
        proof {
            assert(field_models(x@).take(i + 1).drop_last() =~= field_models(x@).take(i as int));
            assert(field_models(x@).take(i + 1).last() == field_models(x@)[i as int]);
        }
        i = i + 1;
    }
    proof {
        assert(field_models(x@).take(i as int) =~= field_models(x@));
    }
    r
}

} // verus!
