use reflection::data::{Data, DataFields};
use reflection::data_debug::FloatBits;
use std::cmp::Ordering;

fn err<T>(r: Result<T, String>) -> String {
    match r {
        Err(e) => e,
        Ok(_) => panic!("expected an error"),
    }
}


#[test]
fn names_of_values() {
    assert_eq!(Data::Bool(true).name(), "bool");
    assert_eq!(Data::U16(1).name(), "u16");
    assert_eq!(Data::F64(0).name(), "f64");
    assert_eq!(Data::Sequence(vec![]).name(), "Seq");
    assert_eq!(Data::Mapping(vec![]).name(), "Map");
    assert_eq!(Data::Unit.name(), "Unit");
    assert_eq!(Data::UnitStruct { name: "Marker".to_string() }.name(), "Marker");
    assert_eq!(
        Data::StructVariant { name: "Shape".to_string(), variant_index: 1, variant: "Rect".to_string(), fields: vec![] }.name(),
        "Shape"
    );
}

#[test]
fn downcast_primitives() {
    assert_eq!(*Data::I64(-5).downcast_i64().unwrap(), -5);
    assert_eq!(err(Data::I64(-5).downcast_u64()), "value is not a u64");
    assert_eq!(err(Data::Bool(true).downcast_char()), "value is not a char");
    assert_eq!(err(Data::U8(1).downcast_string()), "value is not a String");
    assert_eq!(err(Data::U8(1).downcast_byte_array()), "value is not a Vec<u8>");
    assert_eq!(err(Data::U8(1).downcast_option()), "value is not a Option<Box<Data>>");
    assert_eq!(*Data::F32(1.5f32.to_bits()).downcast_f32().unwrap(), 1.5f32.to_bits());
}

#[test]
fn downcast_mut_changes_payload() {
    let mut d = Data::U32(3);
    *d.downcast_u32_mut().unwrap() = 4;
    assert!(d == Data::U32(4));
    let mut e = Data::U32(3);
    assert_eq!(err(e.downcast_i32_mut()), "value is not a i32");
    assert!(e == Data::U32(3));
}

#[test]
fn downcast_named_types() {
    let s = Data::Struct { name: "Point".to_string(), fields: vec![("x".to_string(), Data::I32(1))] };
    assert_eq!(s.downcast_struct("Point").unwrap().len(), 1);
    assert_eq!(err(s.downcast_struct("Line")), "Data Point is not of type Line");
    assert_eq!(err(Data::Unit.downcast_struct("Point")), "value is not a struct");

    let v = Data::UnitVariant { name: "Dir".to_string(), variant_index: 0, variant: "Up".to_string() };
    assert!(v.downcast_unit_variant("Dir", "Up").is_ok());
    assert_eq!(err(v.downcast_unit_variant("Dir", "Down")), "Data Dir::Up is not of type Dir::Down");
    assert_eq!(err(Data::Unit.downcast_unit_variant("Dir", "Up")), "value is not a unit variant");

    let n = Data::NewtypeStruct { name: "Meters".to_string(), data: Box::new(Data::F64(0)) };
    assert!(n.downcast_newtype_struct("Meters").is_ok());
    assert_eq!(err(n.downcast_newtype_struct("Feet")), "Data Meters is not of type Feet");

    let t = Data::TupleVariant { name: "Msg".to_string(), variant_index: 2, variant: "Move".to_string(), data: vec![] };
    assert_eq!(err(t.downcast_tuple_variant("Msg", "Quit")), "Data Msg::Move is not of type Msg::Quit");
    assert!(Data::Unit.downcast_unit().is_ok());
    assert_eq!(err(Data::Bool(false).downcast_unit()), "value is not a unit");
    assert_eq!(err(Data::Bool(false).downcast_unit_struct("A")), "value is not a unit struct");
}

#[test]
fn fields_and_pairs_lookup() {
    let mut fields: Vec<(String, Data)> = vec![
        ("a".to_string(), Data::U8(1)),
        ("b".to_string(), Data::U8(2)),
        ("a".to_string(), Data::U8(3)),
    ];
    assert!(*fields.get("a".to_string()).unwrap() == Data::U8(1));
    assert!(fields.get("c".to_string()).is_none());
    *fields.get_mut("b".to_string()).unwrap() = Data::U8(20);
    assert!(fields[1].1 == Data::U8(20));

    let zero_keyed: Vec<(Data, Data)> = vec![(Data::F64(0.0f64.to_bits()), Data::Unit)];
    assert!(zero_keyed.get(Data::F64((-0.0f64).to_bits())).is_some());
    let mut pairs: Vec<(Data, Data)> = vec![(Data::Char('x'), Data::Bool(false))];
    assert!(*pairs.get(Data::Char('x')).unwrap() == Data::Bool(false));
    assert!(pairs.get(Data::Char('y')).is_none());
    *pairs.get_mut(Data::Char('x')).unwrap() = Data::Bool(true);
    assert!(pairs[0].1 == Data::Bool(true));
}

#[test]
fn equality_and_clone() {
    let d = Data::Mapping(vec![(Data::String("k".to_string()), Data::Option(Some(Box::new(Data::I8(-1)))))]);
    let c = d.clone();
    assert!(c == d);
    assert!(Data::F32(0.0f32.to_bits()) == Data::F32((-0.0f32).to_bits()));
    assert!(Data::F64(f64::NAN.to_bits()) != Data::F64(f64::NAN.to_bits()));
    assert!(Data::F32(1.5f32.to_bits()) != Data::F32(2.5f32.to_bits()));
    assert!(Data::U8(1) != Data::I8(1));
    let nan_seq = Data::Sequence(vec![Data::F32(f32::NAN.to_bits())]);
    assert!(nan_seq != nan_seq.clone());
}

#[test]
fn values_order_by_variant_then_payload() {
    assert!(Data::Bool(false) < Data::Bool(true));
    assert!(Data::Bool(true) < Data::I8(-100));
    assert!(Data::I8(5) < Data::U8(0));
    assert!(Data::I64(-3) < Data::I64(2));
    assert!(Data::U128(7) > Data::U128(6));
    assert!(Data::Char('a') < Data::Char('b'));
    assert!(Data::String("ab".to_string()) < Data::String("b".to_string()));
    assert!(Data::String("ab".to_string()) > Data::String("a".to_string()));
    assert!(Data::String("é".to_string()) > Data::String("z".to_string()));
    assert!(Data::ByteArray(vec![1, 2]) < Data::ByteArray(vec![1, 3]));
    assert!(Data::Option(None) < Data::Option(Some(Box::new(Data::Unit))));
    assert_eq!(Data::Unit.partial_cmp(&Data::Unit), Some(Ordering::Equal));
    assert!(Data::Sequence(vec![Data::U8(1)]) < Data::Sequence(vec![Data::U8(1), Data::U8(0)]));
    assert!(Data::Sequence(vec![Data::U8(2)]) > Data::Sequence(vec![Data::U8(1), Data::U8(9)]));
    assert!(Data::Tuple(vec![]) > Data::Sequence(vec![Data::U8(1)]));
    let a = Data::Struct { name: "S".to_string(), fields: vec![("x".to_string(), Data::U8(1))] };
    let b = Data::Struct { name: "S".to_string(), fields: vec![("y".to_string(), Data::U8(0))] };
    assert!(a < b);
    let v1 = Data::UnitVariant { name: "E".to_string(), variant_index: 0, variant: "B".to_string() };
    let v2 = Data::UnitVariant { name: "E".to_string(), variant_index: 1, variant: "A".to_string() };
    assert!(v1 < v2);
    let m1 = Data::Mapping(vec![(Data::U8(1), Data::U8(5))]);
    let m2 = Data::Mapping(vec![(Data::U8(1), Data::U8(6))]);
    assert!(m1 < m2);
}

#[test]
fn floats_order_as_numbers() {
    let f = |x: f32| Data::F32(x.to_bits());
    let g = |x: f64| Data::F64(x.to_bits());
    assert!(f(-1.0) < f(0.5));
    assert!(f(-2.0) < f(-1.0));
    assert!(f(f32::NEG_INFINITY) < f(-1.0e30));
    assert!(f(1.0e30) < f(f32::INFINITY));
    assert_eq!(f(-0.0).partial_cmp(&f(0.0)), Some(Ordering::Equal));
    assert_eq!(f(f32::NAN).partial_cmp(&f(1.0)), None);
    assert_eq!(f(1.0).partial_cmp(&f(f32::NAN)), None);
    assert!(g(-0.5) < g(0.25));
    assert!(g(3.0) > g(-3.0));
    assert_eq!(g(f64::NAN).partial_cmp(&g(f64::NAN)), None);
    let nan_seq = Data::Sequence(vec![Data::F32(f32::NAN.to_bits())]);
    assert_eq!(nan_seq.partial_cmp(&nan_seq.clone()), None);
    let decided_first = Data::Tuple(vec![Data::U8(0), Data::F32(f32::NAN.to_bits())]);
    let later = Data::Tuple(vec![Data::U8(1), Data::F32(f32::NAN.to_bits())]);
    assert!(decided_first < later);
}

#[derive(Debug)]
struct Sample {
    flag: bool,
    items: Vec<u8>,
    pair: (i32,),
    inner: Option<Inner>,
}

#[derive(Debug)]
struct Inner(u64);

#[derive(Debug)]
struct Empty;

fn sample_data() -> Data {
    Data::Struct {
        name: "Sample".to_string(),
        fields: vec![
            ("flag".to_string(), Data::Bool(true)),
            ("items".to_string(), Data::ByteArray(vec![1, 2])),
            ("pair".to_string(), Data::Tuple(vec![Data::I32(-7)])),
            (
                "inner".to_string(),
                Data::Option(Some(Box::new(Data::TupleStruct {
                    name: "Inner".to_string(),
                    data: vec![Data::U64(9)],
                }))),
            ),
        ],
    }
}

#[test]
fn debug_text_matches_the_standard_layout() {
    let value = Sample { flag: true, items: vec![1, 2], pair: (-7,), inner: Some(Inner(9)) };
    let data = sample_data();
    assert_eq!(data.debug_text(&vec![], false), format!("{:?}", value));
    assert_eq!(data.debug_text(&vec![], true), format!("{:#?}", value));
    let empty = Data::UnitStruct { name: "Empty".to_string() };
    assert_eq!(empty.debug_text(&vec![], true), format!("{:#?}", Empty));
    assert_eq!(Data::Tuple(vec![]).debug_text(&vec![], false), "");
    assert_eq!(Data::Sequence(vec![]).debug_text(&vec![], true), "[]");
    assert_eq!(Data::Unit.debug_text(&vec![], false), "()");
    assert_eq!(Data::Option(None).debug_text(&vec![], false), "None");
}

#[test]
fn debug_text_of_leaves() {
    assert_eq!(Data::I128(i128::MIN).debug_text(&vec![], false), i128::MIN.to_string());
    assert_eq!(Data::U128(u128::MAX).debug_text(&vec![], false), u128::MAX.to_string());
    assert_eq!(Data::I8(0).debug_text(&vec![], false), "0");
    assert_eq!(Data::U16(1200).debug_text(&vec![], false), "1200");
    assert_eq!(Data::Char('\n').debug_text(&vec![], false), format!("{:?}", '\n'));
    let s = "a\"b\n\u{301}".to_string();
    assert_eq!(Data::String(s.clone()).debug_text(&vec![], false), format!("{:?}", s));
    let v = Data::UnitVariant { name: "E".to_string(), variant_index: 2, variant: "C".to_string() };
    assert_eq!(v.debug_text(&vec![], false), "E::C");
    let n = Data::NewtypeVariant {
        name: "E".to_string(),
        variant_index: 0,
        variant: "N".to_string(),
        data: Box::new(Data::Sequence(vec![Data::U8(1), Data::U8(2)])),
    };
    assert_eq!(n.debug_text(&vec![], true), "E::N([1, 2])");
}

#[test]
fn debug_text_takes_float_texts_in_order() {
    let data = Data::Mapping(vec![
        (Data::F32(1.5f32.to_bits()), Data::Tuple(vec![Data::F64(2.25f64.to_bits()), Data::U8(3)])),
        (Data::String("k".to_string()), Data::F32((-0.0f32).to_bits())),
    ]);
    let leaves = data.float_leaves();
    assert_eq!(
        leaves,
        vec![FloatBits::F32(1.5f32.to_bits()), FloatBits::F64(2.25f64.to_bits()), FloatBits::F32((-0.0f32).to_bits())]
    );
    let texts = vec![format!("{:?}", 1.5f32), format!("{:?}", 2.25f64), format!("{:?}", -0.0f32)];
    assert_eq!(data.debug_text(&texts, false), "{1.5: (2.25, 3), \"k\": -0.0}");
    let mut expected = std::collections::BTreeMap::new();
    expected.insert("k", -0.5f32);
    assert_eq!(
        Data::Mapping(vec![(Data::String("k".to_string()), Data::F32((-0.5f32).to_bits()))])
            .debug_text(&vec![format!("{:?}", -0.5f32)], true),
        format!("{:#?}", expected)
    );
}
