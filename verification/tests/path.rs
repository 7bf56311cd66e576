use reflection::data::Data;
use reflection::index::Index;
use reflection::path::Path;

fn f32_data(v: f32) -> Data {
    Data::F32(v.to_bits())
}

fn my_struct() -> Data {
    Data::Struct {
        name: "MyStruct".to_string(),
        fields: vec![
            ("position".to_string(), Data::Tuple(vec![f32_data(0.0), f32_data(0.0)])),
            ("rotation".to_string(), f32_data(0.0)),
            ("scale".to_string(), Data::Tuple(vec![f32_data(1.0), f32_data(1.0)])),
        ],
    }
}

#[test]
fn test_path() {
    let data = my_struct();
    let path = Path::string("position").push(Path::integer(0));
    let result = path.walk(&data);
    assert!(*result == f32_data(0.0));
}

#[test]
fn walk_reaches_nested_value() {
    let data = my_struct();
    let path = Path::string("scale").push(Path::integer(1));
    assert!(*path.walk(&data) == f32_data(1.0));
    let path = Path::string("rotation");
    assert!(*path.walk(&data) == f32_data(0.0));
}

#[test]
fn pop_undoes_push() {
    let data = my_struct();
    let path = Path::string("scale").push(Path::integer(1));
    let popped = path.pop();
    assert!(*popped.walk(&data) == Data::Tuple(vec![f32_data(1.0), f32_data(1.0)]));
}

#[test]
fn walk_mut_writes_through() {
    let mut data = my_struct();
    let path = Path::string("position").push(Path::integer(1));
    *path.walk_mut(&mut data) = f32_data(5.0);
    assert!(*path.walk(&data) == f32_data(5.0));
    assert!(*Path::string("position").push(Path::integer(0)).walk(&data) == f32_data(0.0));
}

#[test]
fn into_data_takes_value_out() {
    let data = my_struct();
    let path = Path::string("scale").push(Path::integer(0));
    assert!(path.into_data(data) == f32_data(1.0));
}

#[test]
fn data_index_yields_map_key() {
    let map = Data::Mapping(vec![
        (Data::String("a".to_string()), Data::U8(1)),
        (Data::String("b".to_string()), Data::U8(2)),
    ]);
    let path = Path::data(Data::String("b".to_string()));
    assert!(*path.walk(&map) == Data::String("b".to_string()));
}

#[test]
fn index_selects_elements_and_fields() {
    let data = my_struct();
    let field = Index::String("rotation".to_string());
    assert!(*field.index(&data) == f32_data(0.0));
    let tuple = Data::Tuple(vec![Data::U8(7), Data::U8(9)]);
    assert!(*Index::Integer(1).index(&tuple) == Data::U8(9));
    let newtype = Data::NewtypeStruct { name: "Meters".to_string(), data: Box::new(Data::U32(3)) };
    assert!(*Index::Integer(0).index(&newtype) == Data::U32(3));
}

#[test]
fn index_mut_replaces_element() {
    let mut seq = Data::Sequence(vec![Data::I32(1), Data::I32(2), Data::I32(3)]);
    *Index::Integer(2).index_mut(&mut seq) = Data::I32(30);
    assert!(seq == Data::Sequence(vec![Data::I32(1), Data::I32(2), Data::I32(30)]));
}

#[test]
fn into_index_takes_field() {
    let data = my_struct();
    let taken = Index::String("scale".to_string()).into_index(data);
    assert!(taken == Data::Tuple(vec![f32_data(1.0), f32_data(1.0)]));
}

#[test]
fn paths_and_indices_clone() {
    let data = my_struct();
    let path = Path::string("scale").push(Path::integer(1));
    let copy = path.clone();
    assert!(*copy.walk(&data) == f32_data(1.0));
    let index = Index::Data(Data::I8(-1));
    let map = Data::Mapping(vec![(Data::I8(-1), Data::Unit)]);
    assert!(*index.clone().index(&map) == Data::I8(-1));
}
