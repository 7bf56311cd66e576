use reflection::data::Data;
use reflection::serializer::{ElementKind, Error, Serializer};

#[test]
fn builds_a_tuple() {
    let mut s = Serializer::new(true);
    assert!(s.is_human_readable());
    s.serialize_tuple(2);
    assert!(s.serialize_element(ElementKind::Tuple, Data::U8(1)).is_ok());
    assert!(s.serialize_element(ElementKind::Tuple, Data::U8(2)).is_ok());
    let d = s.end().ok().unwrap();
    assert!(d == Data::Tuple(vec![Data::U8(1), Data::U8(2)]));
}

#[test]
fn builds_a_struct_and_a_map() {
    let mut s = Serializer::new(false);
    assert!(!s.is_human_readable());
    s.serialize_struct("Point", 2);
    assert!(s.serialize_field(false, "x", Data::I32(1)).is_ok());
    assert!(s.serialize_field(false, "y", Data::I32(2)).is_ok());
    let d = s.end().ok().unwrap();
    assert!(
        d == Data::Struct {
            name: "Point".to_string(),
            fields: vec![("x".to_string(), Data::I32(1)), ("y".to_string(), Data::I32(2))]
        }
    );

    s.serialize_map(None);
    s.serialize_key(Data::String("k".to_string()));
    assert!(s.serialize_value(Data::Bool(true)).is_ok());
    assert!(s.serialize_entry(Data::String("j".to_string()), Data::Bool(false)).is_ok());
    let m = s.end().ok().unwrap();
    assert!(
        m == Data::Mapping(vec![
            (Data::String("k".to_string()), Data::Bool(true)),
            (Data::String("j".to_string()), Data::Bool(false))
        ])
    );
}

#[test]
fn builds_variants() {
    let mut s = Serializer::new(true);
    s.serialize_tuple_variant("Msg", 1, "Move", 1);
    assert!(s.serialize_element(ElementKind::TupleVariant, Data::I16(-3)).is_ok());
    let d = s.end().ok().unwrap();
    assert!(
        d == Data::TupleVariant {
            name: "Msg".to_string(),
            variant_index: 1,
            variant: "Move".to_string(),
            data: vec![Data::I16(-3)]
        }
    );
    s.serialize_struct_variant("Shape", 0, "Circle", 1);
    assert!(s.serialize_field(true, "r", Data::U32(2)).is_ok());
    let c = s.end().ok().unwrap();
    assert!(
        c == Data::StructVariant {
            name: "Shape".to_string(),
            variant_index: 0,
            variant: "Circle".to_string(),
            fields: vec![("r".to_string(), Data::U32(2))]
        }
    );
}

#[test]
fn errors() {
    let mut s = Serializer::new(true);
    assert!(matches!(s.end(), Err(Error::MissingPendingData)));
    assert!(matches!(s.serialize_element(ElementKind::Sequence, Data::Unit), Err(Error::InvalidPendingData)));
    s.serialize_seq(None);
    assert!(matches!(s.serialize_element(ElementKind::Tuple, Data::Unit), Err(Error::InvalidPendingData)));
    assert!(matches!(s.serialize_field(false, "a", Data::Unit), Err(Error::InvalidPendingData)));
    assert!(matches!(s.take_key(), Err(Error::MissingPendingKey)));
    assert!(matches!(s.serialize_value(Data::Unit), Err(Error::MissingPendingKey)));
    s.serialize_key(Data::U8(0));
    assert!(matches!(s.serialize_value(Data::Unit), Err(Error::InvalidPendingData)));
    assert_eq!(Error::InvalidPendingData.message(), "Invalid pending data");
    assert_eq!(Error::MissingPendingData.message(), "Missing pending data");
    assert_eq!(Error::MissingPendingKey.message(), "Missing pending key");
    assert_eq!(Error::Custom("boom".to_string()).message(), "boom");
}

#[test]
fn nested_sequences_end_in_order() {
    let mut s = Serializer::new(true);
    s.serialize_seq(Some(1));
    s.serialize_seq(Some(1));
    assert!(s.serialize_element(ElementKind::Sequence, Data::Char('z')).is_ok());
    let inner = s.end().ok().unwrap();
    assert!(s.serialize_element(ElementKind::Sequence, inner).is_ok());
    let outer = s.end().ok().unwrap();
    assert!(outer == Data::Sequence(vec![Data::Sequence(vec![Data::Char('z')])]));
}

#[test]
fn default_serializer_is_not_human_readable() {
    let mut s = Serializer::default();
    assert!(!s.is_human_readable());
    assert!(matches!(s.end(), Err(Error::MissingPendingData)));
    let e = Error::Custom("x".to_string());
    assert_eq!(format!("{:?}", e.clone()), "Custom(\"x\")");
}
