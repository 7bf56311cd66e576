//! In-memory representation of the serde data model, with a mathematical model of it.
use vstd::prelude::*;

verus! {

/// Error produced when a [`Data`] value does not have the shape that was asked for.
pub type Error = String;

/// Enum representation of the serde data model.
///
/// Floating-point values are carried by their IEEE-754 bit patterns (`F32` by the bits of an
/// `f32`, `F64` by those of an `f64`); names are owned strings.
pub enum Data {
    Bool(bool),
    I8(i8),
    I16(i16),
    I32(i32),
    I64(i64),
    I128(i128),
    U8(u8),
    U16(u16),
    U32(u32),
    U64(u64),
    U128(u128),
    F32(u32),
    F64(u64),
    Char(char),
    String(String),
    ByteArray(Vec<u8>),
    Option(Option<Box<Data>>),
    Unit,
    UnitStruct { name: String },
    UnitVariant { name: String, variant_index: u32, variant: String },
    NewtypeStruct { name: String, data: Box<Data> },
    NewtypeVariant { name: String, variant_index: u32, variant: String, data: Box<Data> },
    Sequence(Vec<Data>),
    Tuple(Vec<Data>),
    TupleStruct { name: String, data: Vec<Data> },
    TupleVariant { name: String, variant_index: u32, variant: String, data: Vec<Data> },
    Mapping(Vec<(Data, Data)>),
    Struct { name: String, fields: Vec<(String, Data)> },
    StructVariant { name: String, variant_index: u32, variant: String, fields: Vec<(String, Data)> },
}

/// Mathematical model of [`Data`]: strings by their characters, vectors by their sequences.
pub enum DataModel {
    Bool(bool),
    I8(i8),
    I16(i16),
    I32(i32),
    I64(i64),
    I128(i128),
    U8(u8),
    U16(u16),
    U32(u32),
    U64(u64),
    U128(u128),
    F32(u32),
    F64(u64),
    Char(char),
    String(Seq<char>),
    ByteArray(Seq<u8>),
    Option(Option<Box<DataModel>>),
    Unit,
    UnitStruct { name: Seq<char> },
    UnitVariant { name: Seq<char>, variant_index: u32, variant: Seq<char> },
    NewtypeStruct { name: Seq<char>, data: Box<DataModel> },
    NewtypeVariant { name: Seq<char>, variant_index: u32, variant: Seq<char>, data: Box<DataModel> },
    Sequence(Seq<DataModel>),
    Tuple(Seq<DataModel>),
    TupleStruct { name: Seq<char>, data: Seq<DataModel> },
    TupleVariant { name: Seq<char>, variant_index: u32, variant: Seq<char>, data: Seq<DataModel> },
    Mapping(Seq<(DataModel, DataModel)>),
    Struct { name: Seq<char>, fields: Seq<(Seq<char>, DataModel)> },
    StructVariant { name: Seq<char>, variant_index: u32, variant: Seq<char>, fields: Seq<(Seq<char>, DataModel)> },
}

/// The models of a vector of values, element by element.
pub open spec fn models(v: Seq<Data>) -> Seq<DataModel>
    decreases v,
{
    Seq::new(v.len(), |i: int| if 0 <= i < v.len() { v[i].model() } else { DataModel::Unit })
}

/// The models of a vector of key-value pairs, pair by pair.
pub open spec fn pair_models(v: Seq<(Data, Data)>) -> Seq<(DataModel, DataModel)>
    decreases v,
{
    Seq::new(v.len(), |i: int| if 0 <= i < v.len() { (v[i].0.model(), v[i].1.model()) } else { (DataModel::Unit, DataModel::Unit) })
}

/// The models of a vector of named fields, field by field.
pub open spec fn field_models(v: Seq<(String, Data)>) -> Seq<(Seq<char>, DataModel)>
    decreases v,
{
    Seq::new(v.len(), |i: int| if 0 <= i < v.len() { (v[i].0@, v[i].1.model()) } else { (Seq::empty(), DataModel::Unit) })
}

/// The models of a vector of values are those of its elements.
pub broadcast proof fn lemma_models(v: Seq<Data>)
    ensures
        #[trigger] models(v).len() == v.len(),
        forall|i: int| 0 <= i < v.len() ==> #[trigger] models(v)[i] == v[i].model(),
{
}

/// The models of a vector of pairs are those of its pairs.
pub broadcast proof fn lemma_pair_models(v: Seq<(Data, Data)>)
    ensures
        #[trigger] pair_models(v).len() == v.len(),
        forall|i: int| 0 <= i < v.len() ==> #[trigger] pair_models(v)[i] == (v[i].0.model(), v[i].1.model()),
{
}

/// The models of a vector of fields are those of its fields.
pub broadcast proof fn lemma_field_models(v: Seq<(String, Data)>)
    ensures
        #[trigger] field_models(v).len() == v.len(),
        forall|i: int| 0 <= i < v.len() ==> #[trigger] field_models(v)[i] == (v[i].0@, v[i].1.model()),
{
}

/// The models of empty vectors are empty.
pub broadcast proof fn lemma_models_empty()
    ensures
        #[trigger] models(Seq::<Data>::empty()) == Seq::<DataModel>::empty(),
        #[trigger] pair_models(Seq::<(Data, Data)>::empty()) == Seq::<(DataModel, DataModel)>::empty(),
        #[trigger] field_models(Seq::<(String, Data)>::empty()) == Seq::<(Seq<char>, DataModel)>::empty(),
{
    assert(models(Seq::<Data>::empty()) =~= Seq::<DataModel>::empty());
    assert(pair_models(Seq::<(Data, Data)>::empty()) =~= Seq::<(DataModel, DataModel)>::empty());
    assert(field_models(Seq::<(String, Data)>::empty()) =~= Seq::<(Seq<char>, DataModel)>::empty());
}

/// The facts that relate vectors to their models.
pub broadcast group group_models {
    lemma_models,
    lemma_pair_models,
    lemma_field_models,
    lemma_models_empty,
}

impl Data {
    /// The mathematical model of this value.
    pub open spec fn model(&self) -> DataModel
        decreases self,
    {
        match self {
            Data::Bool(x) => DataModel::Bool(*x),
            Data::I8(x) => DataModel::I8(*x),
            Data::I16(x) => DataModel::I16(*x),
            Data::I32(x) => DataModel::I32(*x),
            Data::I64(x) => DataModel::I64(*x),
            Data::I128(x) => DataModel::I128(*x),
            Data::U8(x) => DataModel::U8(*x),
            Data::U16(x) => DataModel::U16(*x),
            Data::U32(x) => DataModel::U32(*x),
            Data::U64(x) => DataModel::U64(*x),
            Data::U128(x) => DataModel::U128(*x),
            Data::F32(x) => DataModel::F32(*x),
            Data::F64(x) => DataModel::F64(*x),
            Data::Char(x) => DataModel::Char(*x),
            Data::String(s) => DataModel::String(s@),
            Data::ByteArray(b) => DataModel::ByteArray(b@),
            Data::Option(o) => DataModel::Option(
                match o {
                    Some(d) => Some(Box::new(d.model())),
                    None => None,
                },
            ),
            Data::Unit => DataModel::Unit,
            Data::UnitStruct { name } => DataModel::UnitStruct { name: name@ },
            Data::UnitVariant { name, variant_index, variant } => DataModel::UnitVariant {
                name: name@,
                variant_index: *variant_index,
                variant: variant@,
            },
            Data::NewtypeStruct { name, data } => DataModel::NewtypeStruct {
                name: name@,
                data: Box::new(data.model()),
            },
            Data::NewtypeVariant { name, variant_index, variant, data } => DataModel::NewtypeVariant {
                name: name@,
                variant_index: *variant_index,
                variant: variant@,
                data: Box::new(data.model()),
            },
            Data::Sequence(v) => DataModel::Sequence(models(v@)),
            Data::Tuple(v) => DataModel::Tuple(models(v@)),
            Data::TupleStruct { name, data } => DataModel::TupleStruct { name: name@, data: models(data@) },
            Data::TupleVariant { name, variant_index, variant, data } => DataModel::TupleVariant {
                name: name@,
                variant_index: *variant_index,
                variant: variant@,
                data: models(data@),
            },
            Data::Mapping(v) => DataModel::Mapping(pair_models(v@)),
            Data::Struct { name, fields } => DataModel::Struct { name: name@, fields: field_models(fields@) },
            Data::StructVariant { name, variant_index, variant, fields } => DataModel::StructVariant {
                name: name@,
                variant_index: *variant_index,
                variant: variant@,
                fields: field_models(fields@),
            },
        }
    }
}

impl View for Data {
    type V = DataModel;

    open spec fn view(&self) -> DataModel {
        self.model()
    }
}

/// The name that [`Data::name`] reports for a value: its type's name for named types,
/// otherwise the name of its kind.
pub open spec fn data_type_name(m: DataModel) -> Seq<char> {
    match m {
        DataModel::Bool(_) => "bool"@,
        DataModel::I8(_) => "i8"@,
        DataModel::I16(_) => "i16"@,
        DataModel::I32(_) => "i32"@,
        DataModel::I64(_) => "i64"@,
        DataModel::I128(_) => "i128"@,
        DataModel::U8(_) => "u8"@,
        DataModel::U16(_) => "u16"@,
        DataModel::U32(_) => "u32"@,
        DataModel::U64(_) => "u64"@,
        DataModel::U128(_) => "u128"@,
        DataModel::F32(_) => "f32"@,
        DataModel::F64(_) => "f64"@,
        DataModel::Char(_) => "char"@,
        DataModel::String(_) => "String"@,
        DataModel::ByteArray(_) => "ByteArray"@,
        DataModel::Option(_) => "Option"@,
        DataModel::Unit => "Unit"@,
        DataModel::UnitStruct { name } => name,
        DataModel::UnitVariant { name, .. } => name,
        DataModel::NewtypeStruct { name, .. } => name,
        DataModel::NewtypeVariant { name, .. } => name,
        DataModel::Sequence(_) => "Seq"@,
        DataModel::Tuple(_) => "Tuple"@,
        DataModel::TupleStruct { name, .. } => name,
        DataModel::TupleVariant { name, .. } => name,
        DataModel::Mapping(_) => "Map"@,
        DataModel::Struct { name, .. } => name,
        DataModel::StructVariant { name, .. } => name,
    }
}

/// The message of the error for a value `name` that is not of type `expected_type`.
pub open spec fn wrong_type_message(name: Seq<char>, expected_type: Seq<char>) -> Seq<char> {
    "Data "@ + name + " is not of type "@ + expected_type
}

/// The message of the error for a variant `name::variant` that is not `expected_type::expected_variant`.
pub open spec fn wrong_variant_message(
    name: Seq<char>,
    variant: Seq<char>,
    expected_type: Seq<char>,
    expected_variant: Seq<char>,
) -> Seq<char> {
    "Data "@ + name + "::"@ + variant + " is not of type "@ + expected_type + "::"@ + expected_variant
}

/// Builds the error for a value `name` that is not of type `expected_type`.
fn wrong_type_error(name: &str, expected_type: &str) -> (e: Error)
    ensures
        e@ == wrong_type_message(name@, expected_type@),
{
    String::from_str("Data ").concat(name).concat(" is not of type ").concat(expected_type)
}

/// Builds the error for a variant `name::variant` that is not `expected_type::expected_variant`.
fn wrong_variant_error(name: &str, variant: &str, expected_type: &str, expected_variant: &str) -> (e: Error)
    ensures
        e@ == wrong_variant_message(name@, variant@, expected_type@, expected_variant@),
{
    String::from_str("Data ").concat(name).concat("::").concat(variant).concat(" is not of type ")
        .concat(expected_type).concat("::").concat(expected_variant)
}

/// Whether an owned name equals a borrowed one.
pub(crate) fn name_is(name: &String, expected: &str) -> (r: bool)
    ensures
        r == (name@ == expected@),
{
    let expected = String::from_str(expected);
    *name == expected
}

impl Data {
    /// The name of this value's type.
    pub fn name(&self) -> (r: String)
        ensures
            r@ == data_type_name(self@),
    {
        match self {
            Data::Bool(_) => String::from_str("bool"),
            Data::I8(_) => String::from_str("i8"),
            Data::I16(_) => String::from_str("i16"),
            Data::I32(_) => String::from_str("i32"),
            Data::I64(_) => String::from_str("i64"),
            Data::I128(_) => String::from_str("i128"),
            Data::U8(_) => String::from_str("u8"),
            Data::U16(_) => String::from_str("u16"),
            Data::U32(_) => String::from_str("u32"),
            Data::U64(_) => String::from_str("u64"),
            Data::U128(_) => String::from_str("u128"),
            Data::F32(_) => String::from_str("f32"),
            Data::F64(_) => String::from_str("f64"),
            Data::Char(_) => String::from_str("char"),
            Data::String(_) => String::from_str("String"),
            Data::ByteArray(_) => String::from_str("ByteArray"),
            Data::Option(_) => String::from_str("Option"),
            Data::Unit => String::from_str("Unit"),
            Data::UnitStruct { name } => name.clone(),
            Data::UnitVariant { name, .. } => name.clone(),
            Data::NewtypeStruct { name, .. } => name.clone(),
            Data::NewtypeVariant { name, .. } => name.clone(),
            Data::Sequence(_) => String::from_str("Seq"),
            Data::Tuple(_) => String::from_str("Tuple"),
            Data::TupleStruct { name, .. } => name.clone(),
            Data::TupleVariant { name, .. } => name.clone(),
            Data::Mapping(_) => String::from_str("Map"),
            Data::Struct { name, .. } => name.clone(),
            Data::StructVariant { name, .. } => name.clone(),
        }
    }

    /// The payload of a `Bool` value.
    pub fn downcast_bool(&self) -> (r: Result<&bool, Error>)
        ensures
            r is Ok <==> self is Bool,
            r matches Ok(v) ==> *self == Data::Bool(*v),
            r matches Err(e) ==> e@ == "value is not a bool"@,
    {
        match self {
            Data::Bool(v) => Ok(v),
            _ => Err(String::from_str("value is not a bool")),
        }
    }

    /// Mutable access to the payload of a `Bool` value.
    pub fn downcast_bool_mut(&mut self) -> (r: Result<&mut bool, Error>)
        ensures
            r is Ok <==> (*old(self)) is Bool,
            r is Ok ==> *old(self) == Data::Bool(*r->Ok_0) && *final(self) == Data::Bool(*final(r->Ok_0)),
            r is Err ==> *final(self) == *old(self) && r->Err_0@ == "value is not a bool"@,
    {
        match self {
            Data::Bool(v) => Ok(v),
            _ => Err(String::from_str("value is not a bool")),
        }
    }

    /// The payload of a `I8` value.
    pub fn downcast_i8(&self) -> (r: Result<&i8, Error>)
        ensures
            r is Ok <==> self is I8,
            r matches Ok(v) ==> *self == Data::I8(*v),
            r matches Err(e) ==> e@ == "value is not a i8"@,
    {
        match self {
            Data::I8(v) => Ok(v),
            _ => Err(String::from_str("value is not a i8")),
        }
    }

    /// Mutable access to the payload of a `I8` value.
    pub fn downcast_i8_mut(&mut self) -> (r: Result<&mut i8, Error>)
        ensures
            r is Ok <==> (*old(self)) is I8,
            r is Ok ==> *old(self) == Data::I8(*r->Ok_0) && *final(self) == Data::I8(*final(r->Ok_0)),
            r is Err ==> *final(self) == *old(self) && r->Err_0@ == "value is not a i8"@,
    {
        match self {
            Data::I8(v) => Ok(v),
            _ => Err(String::from_str("value is not a i8")),
        }
    }

    /// The payload of a `I16` value.
    pub fn downcast_i16(&self) -> (r: Result<&i16, Error>)
        ensures
            r is Ok <==> self is I16,
            r matches Ok(v) ==> *self == Data::I16(*v),
            r matches Err(e) ==> e@ == "value is not a i16"@,
    {
        match self {
            Data::I16(v) => Ok(v),
            _ => Err(String::from_str("value is not a i16")),
        }
    }

    /// Mutable access to the payload of a `I16` value.
    pub fn downcast_i16_mut(&mut self) -> (r: Result<&mut i16, Error>)
        ensures
            r is Ok <==> (*old(self)) is I16,
            r is Ok ==> *old(self) == Data::I16(*r->Ok_0) && *final(self) == Data::I16(*final(r->Ok_0)),
            r is Err ==> *final(self) == *old(self) && r->Err_0@ == "value is not a i16"@,
    {
        match self {
            Data::I16(v) => Ok(v),
            _ => Err(String::from_str("value is not a i16")),
        }
    }

    /// The payload of a `I32` value.
    pub fn downcast_i32(&self) -> (r: Result<&i32, Error>)
        ensures
            r is Ok <==> self is I32,
            r matches Ok(v) ==> *self == Data::I32(*v),
            r matches Err(e) ==> e@ == "value is not a i32"@,
    {
        match self {
            Data::I32(v) => Ok(v),
            _ => Err(String::from_str("value is not a i32")),
        }
    }

    /// Mutable access to the payload of a `I32` value.
    pub fn downcast_i32_mut(&mut self) -> (r: Result<&mut i32, Error>)
        ensures
            r is Ok <==> (*old(self)) is I32,
            r is Ok ==> *old(self) == Data::I32(*r->Ok_0) && *final(self) == Data::I32(*final(r->Ok_0)),
            r is Err ==> *final(self) == *old(self) && r->Err_0@ == "value is not a i32"@,
    {
        match self {
            Data::I32(v) => Ok(v),
            _ => Err(String::from_str("value is not a i32")),
        }
    }

    /// The payload of a `I64` value.
    pub fn downcast_i64(&self) -> (r: Result<&i64, Error>)
        ensures
            r is Ok <==> self is I64,
            r matches Ok(v) ==> *self == Data::I64(*v),
            r matches Err(e) ==> e@ == "value is not a i64"@,
    {
        match self {
            Data::I64(v) => Ok(v),
            _ => Err(String::from_str("value is not a i64")),
        }
    }

    /// Mutable access to the payload of a `I64` value.
    pub fn downcast_i64_mut(&mut self) -> (r: Result<&mut i64, Error>)
        ensures
            r is Ok <==> (*old(self)) is I64,
            r is Ok ==> *old(self) == Data::I64(*r->Ok_0) && *final(self) == Data::I64(*final(r->Ok_0)),
            r is Err ==> *final(self) == *old(self) && r->Err_0@ == "value is not a i64"@,
    {
        match self {
            Data::I64(v) => Ok(v),
            _ => Err(String::from_str("value is not a i64")),
        }
    }

    /// The payload of a `I128` value.
    pub fn downcast_i128(&self) -> (r: Result<&i128, Error>)
        ensures
            r is Ok <==> self is I128,
            r matches Ok(v) ==> *self == Data::I128(*v),
            r matches Err(e) ==> e@ == "value is not a i128"@,
    {
        match self {
            Data::I128(v) => Ok(v),
            _ => Err(String::from_str("value is not a i128")),
        }
    }

    /// Mutable access to the payload of a `I128` value.
    pub fn downcast_i128_mut(&mut self) -> (r: Result<&mut i128, Error>)
        ensures
            r is Ok <==> (*old(self)) is I128,
            r is Ok ==> *old(self) == Data::I128(*r->Ok_0) && *final(self) == Data::I128(*final(r->Ok_0)),
            r is Err ==> *final(self) == *old(self) && r->Err_0@ == "value is not a i128"@,
    {
        match self {
            Data::I128(v) => Ok(v),
            _ => Err(String::from_str("value is not a i128")),
        }
    }

    /// The payload of a `U8` value.
    pub fn downcast_u8(&self) -> (r: Result<&u8, Error>)
        ensures
            r is Ok <==> self is U8,
            r matches Ok(v) ==> *self == Data::U8(*v),
            r matches Err(e) ==> e@ == "value is not a u8"@,
    {
        match self {
            Data::U8(v) => Ok(v),
            _ => Err(String::from_str("value is not a u8")),
        }
    }

    /// Mutable access to the payload of a `U8` value.
    pub fn downcast_u8_mut(&mut self) -> (r: Result<&mut u8, Error>)
        ensures
            r is Ok <==> (*old(self)) is U8,
            r is Ok ==> *old(self) == Data::U8(*r->Ok_0) && *final(self) == Data::U8(*final(r->Ok_0)),
            r is Err ==> *final(self) == *old(self) && r->Err_0@ == "value is not a u8"@,
    {
        match self {
            Data::U8(v) => Ok(v),
            _ => Err(String::from_str("value is not a u8")),
        }
    }

    /// The payload of a `U16` value.
    pub fn downcast_u16(&self) -> (r: Result<&u16, Error>)
        ensures
            r is Ok <==> self is U16,
            r matches Ok(v) ==> *self == Data::U16(*v),
            r matches Err(e) ==> e@ == "value is not a u16"@,
    {
        match self {
            Data::U16(v) => Ok(v),
            _ => Err(String::from_str("value is not a u16")),
        }
    }

    /// Mutable access to the payload of a `U16` value.
    pub fn downcast_u16_mut(&mut self) -> (r: Result<&mut u16, Error>)
        ensures
            r is Ok <==> (*old(self)) is U16,
            r is Ok ==> *old(self) == Data::U16(*r->Ok_0) && *final(self) == Data::U16(*final(r->Ok_0)),
            r is Err ==> *final(self) == *old(self) && r->Err_0@ == "value is not a u16"@,
    {
        match self {
            Data::U16(v) => Ok(v),
            _ => Err(String::from_str("value is not a u16")),
        }
    }

    /// The payload of a `U32` value.
    pub fn downcast_u32(&self) -> (r: Result<&u32, Error>)
        ensures
            r is Ok <==> self is U32,
            r matches Ok(v) ==> *self == Data::U32(*v),
            r matches Err(e) ==> e@ == "value is not a u32"@,
    {
        match self {
            Data::U32(v) => Ok(v),
            _ => Err(String::from_str("value is not a u32")),
        }
    }

    /// Mutable access to the payload of a `U32` value.
    pub fn downcast_u32_mut(&mut self) -> (r: Result<&mut u32, Error>)
        ensures
            r is Ok <==> (*old(self)) is U32,
            r is Ok ==> *old(self) == Data::U32(*r->Ok_0) && *final(self) == Data::U32(*final(r->Ok_0)),
            r is Err ==> *final(self) == *old(self) && r->Err_0@ == "value is not a u32"@,
    {
        match self {
            Data::U32(v) => Ok(v),
            _ => Err(String::from_str("value is not a u32")),
        }
    }

    /// The payload of a `U64` value.
    pub fn downcast_u64(&self) -> (r: Result<&u64, Error>)
        ensures
            r is Ok <==> self is U64,
            r matches Ok(v) ==> *self == Data::U64(*v),
            r matches Err(e) ==> e@ == "value is not a u64"@,
    {
        match self {
            Data::U64(v) => Ok(v),
            _ => Err(String::from_str("value is not a u64")),
        }
    }

    /// Mutable access to the payload of a `U64` value.
    pub fn downcast_u64_mut(&mut self) -> (r: Result<&mut u64, Error>)
        ensures
            r is Ok <==> (*old(self)) is U64,
            r is Ok ==> *old(self) == Data::U64(*r->Ok_0) && *final(self) == Data::U64(*final(r->Ok_0)),
            r is Err ==> *final(self) == *old(self) && r->Err_0@ == "value is not a u64"@,
    {
        match self {
            Data::U64(v) => Ok(v),
            _ => Err(String::from_str("value is not a u64")),
        }
    }

    /// The payload of a `U128` value.
    pub fn downcast_u128(&self) -> (r: Result<&u128, Error>)
        ensures
            r is Ok <==> self is U128,
            r matches Ok(v) ==> *self == Data::U128(*v),
            r matches Err(e) ==> e@ == "value is not a u128"@,
    {
        match self {
            Data::U128(v) => Ok(v),
            _ => Err(String::from_str("value is not a u128")),
        }
    }

    /// Mutable access to the payload of a `U128` value.
    pub fn downcast_u128_mut(&mut self) -> (r: Result<&mut u128, Error>)
        ensures
            r is Ok <==> (*old(self)) is U128,
            r is Ok ==> *old(self) == Data::U128(*r->Ok_0) && *final(self) == Data::U128(*final(r->Ok_0)),
            r is Err ==> *final(self) == *old(self) && r->Err_0@ == "value is not a u128"@,
    {
        match self {
            Data::U128(v) => Ok(v),
            _ => Err(String::from_str("value is not a u128")),
        }
    }

    /// The payload of a `F32` value (the bits of the float).
    pub fn downcast_f32(&self) -> (r: Result<&u32, Error>)
        ensures
            r is Ok <==> self is F32,
            r matches Ok(v) ==> *self == Data::F32(*v),
            r matches Err(e) ==> e@ == "value is not a f32"@,
    {
        match self {
            Data::F32(v) => Ok(v),
            _ => Err(String::from_str("value is not a f32")),
        }
    }

    /// Mutable access to the payload of a `F32` value.
    pub fn downcast_f32_mut(&mut self) -> (r: Result<&mut u32, Error>)
        ensures
            r is Ok <==> (*old(self)) is F32,
            r is Ok ==> *old(self) == Data::F32(*r->Ok_0) && *final(self) == Data::F32(*final(r->Ok_0)),
            r is Err ==> *final(self) == *old(self) && r->Err_0@ == "value is not a f32"@,
    {
        match self {
            Data::F32(v) => Ok(v),
            _ => Err(String::from_str("value is not a f32")),
        }
    }

    /// The payload of a `F64` value (the bits of the float).
    pub fn downcast_f64(&self) -> (r: Result<&u64, Error>)
        ensures
            r is Ok <==> self is F64,
            r matches Ok(v) ==> *self == Data::F64(*v),
            r matches Err(e) ==> e@ == "value is not a f64"@,
    {
        match self {
            Data::F64(v) => Ok(v),
            _ => Err(String::from_str("value is not a f64")),
        }
    }

    /// Mutable access to the payload of a `F64` value.
    pub fn downcast_f64_mut(&mut self) -> (r: Result<&mut u64, Error>)
        ensures
            r is Ok <==> (*old(self)) is F64,
            r is Ok ==> *old(self) == Data::F64(*r->Ok_0) && *final(self) == Data::F64(*final(r->Ok_0)),
            r is Err ==> *final(self) == *old(self) && r->Err_0@ == "value is not a f64"@,
    {
        match self {
            Data::F64(v) => Ok(v),
            _ => Err(String::from_str("value is not a f64")),
        }
    }

    /// The payload of a `Char` value.
    pub fn downcast_char(&self) -> (r: Result<&char, Error>)
        ensures
            r is Ok <==> self is Char,
            r matches Ok(v) ==> *self == Data::Char(*v),
            r matches Err(e) ==> e@ == "value is not a char"@,
    {
        match self {
            Data::Char(v) => Ok(v),
            _ => Err(String::from_str("value is not a char")),
        }
    }

    /// Mutable access to the payload of a `Char` value.
    pub fn downcast_char_mut(&mut self) -> (r: Result<&mut char, Error>)
        ensures
            r is Ok <==> (*old(self)) is Char,
            r is Ok ==> *old(self) == Data::Char(*r->Ok_0) && *final(self) == Data::Char(*final(r->Ok_0)),
            r is Err ==> *final(self) == *old(self) && r->Err_0@ == "value is not a char"@,
    {
        match self {
            Data::Char(v) => Ok(v),
            _ => Err(String::from_str("value is not a char")),
        }
    }

    /// The payload of a `String` value.
    pub fn downcast_string(&self) -> (r: Result<&String, Error>)
        ensures
            r is Ok <==> self is String,
            r matches Ok(v) ==> *self == Data::String(*v),
            r matches Err(e) ==> e@ == "value is not a String"@,
    {
        match self {
            Data::String(v) => Ok(v),
            _ => Err(String::from_str("value is not a String")),
        }
    }

    /// Mutable access to the payload of a `String` value.
    pub fn downcast_string_mut(&mut self) -> (r: Result<&mut String, Error>)
        ensures
            r is Ok <==> (*old(self)) is String,
            r is Ok ==> *old(self) == Data::String(*r->Ok_0) && *final(self) == Data::String(*final(r->Ok_0)),
            r is Err ==> *final(self) == *old(self) && r->Err_0@ == "value is not a String"@,
    {
        match self {
            Data::String(v) => Ok(v),
            _ => Err(String::from_str("value is not a String")),
        }
    }

    /// The payload of a `ByteArray` value.
    pub fn downcast_byte_array(&self) -> (r: Result<&Vec<u8>, Error>)
        ensures
            r is Ok <==> self is ByteArray,
            r matches Ok(v) ==> *self == Data::ByteArray(*v),
            r matches Err(e) ==> e@ == "value is not a Vec<u8>"@,
    {
        match self {
            Data::ByteArray(v) => Ok(v),
            _ => Err(String::from_str("value is not a Vec<u8>")),
        }
    }

    /// Mutable access to the payload of a `ByteArray` value.
    pub fn downcast_byte_array_mut(&mut self) -> (r: Result<&mut Vec<u8>, Error>)
        ensures
            r is Ok <==> (*old(self)) is ByteArray,
            r is Ok ==> *old(self) == Data::ByteArray(*r->Ok_0) && *final(self) == Data::ByteArray(*final(r->Ok_0)),
            r is Err ==> *final(self) == *old(self) && r->Err_0@ == "value is not a Vec<u8>"@,
    {
        match self {
            Data::ByteArray(v) => Ok(v),
            _ => Err(String::from_str("value is not a Vec<u8>")),
        }
    }

    /// The payload of a `Option` value.
    pub fn downcast_option(&self) -> (r: Result<&Option<Box<Data>>, Error>)
        ensures
            r is Ok <==> self is Option,
            r matches Ok(v) ==> *self == Data::Option(*v),
            r matches Err(e) ==> e@ == "value is not a Option<Box<Data>>"@,
    {
        match self {
            Data::Option(v) => Ok(v),
            _ => Err(String::from_str("value is not a Option<Box<Data>>")),
        }
    }

    /// Mutable access to the payload of a `Option` value.
    pub fn downcast_option_mut(&mut self) -> (r: Result<&mut Option<Box<Data>>, Error>)
        ensures
            r is Ok <==> (*old(self)) is Option,
            r is Ok ==> *old(self) == Data::Option(*r->Ok_0) && *final(self) == Data::Option(*final(r->Ok_0)),
            r is Err ==> *final(self) == *old(self) && r->Err_0@ == "value is not a Option<Box<Data>>"@,
    {
        match self {
            Data::Option(v) => Ok(v),
            _ => Err(String::from_str("value is not a Option<Box<Data>>")),
        }
    }

    /// Succeeds on the unit value.
    pub fn downcast_unit(&self) -> (r: Result<(), Error>)
        ensures
            r is Ok <==> self is Unit,
            r matches Err(e) ==> e@ == "value is not a unit"@,
    {
        match self {
            Data::Unit => Ok(()),
            _ => Err(String::from_str("value is not a unit")),
        }
    }

    /// Succeeds on a unit struct named `expected_type`.
    pub fn downcast_unit_struct(&self, expected_type: &str) -> (r: Result<(), Error>)
        ensures
            r is Ok <==> (self is UnitStruct && self->UnitStruct_name@ == expected_type@),
            r matches Err(e) ==> e@ == if self is UnitStruct {
                wrong_type_message(self->UnitStruct_name@, expected_type@)
            } else {
                "value is not a unit struct"@
            },
    {
        match self {
            Data::UnitStruct { name } => {
                if name_is(name, expected_type) {
                    Ok(())
                } else {
                    Err(wrong_type_error(name.as_str(), expected_type))
                }
            },
            _ => Err(String::from_str("value is not a unit struct")),
        }
    }

    /// Succeeds on the unit variant `expected_type::expected_variant`.
    pub fn downcast_unit_variant(&self, expected_type: &str, expected_variant: &str) -> (r: Result<(), Error>)
        ensures
            r is Ok <==> (self is UnitVariant && self->UnitVariant_name@ == expected_type@
                && self->UnitVariant_variant@ == expected_variant@),
            r matches Err(e) ==> e@ == if self is UnitVariant {
                wrong_variant_message(self->UnitVariant_name@, self->UnitVariant_variant@, expected_type@, expected_variant@)
            } else {
                "value is not a unit variant"@
            },
    {
        match self {
            Data::UnitVariant { name, variant, .. } => {
                if name_is(name, expected_type) && name_is(variant, expected_variant) {
                    Ok(())
                } else {
                    Err(wrong_variant_error(name.as_str(), variant.as_str(), expected_type, expected_variant))
                }
            },
            _ => Err(String::from_str("value is not a unit variant")),
        }
    }

    /// The contents of a newtype struct of the type `expected_type`.
    pub fn downcast_newtype_struct(&self, expected_type: &str) -> (r: Result<&Box<Data>, Error>)
        ensures
            r is Ok <==> (self is NewtypeStruct && self->NewtypeStruct_name@ == expected_type@),
            r matches Ok(v) ==> *v == self->NewtypeStruct_data,
            r matches Err(e) ==> e@ == if self is NewtypeStruct {
                wrong_type_message(self->NewtypeStruct_name@, expected_type@)
            } else {
                "value is not a newtype struct"@
            },
    {
        match self {
            Data::NewtypeStruct { name, data } => {
                if name_is(name, expected_type) {
                    Ok(data)
                } else {
                    Err(wrong_type_error(name.as_str(), expected_type))
                }
            },
            _ => Err(String::from_str("value is not a newtype struct")),
        }
    }

    /// Mutable access to the contents of a newtype struct of the type `expected_type`.
    pub fn downcast_newtype_struct_mut(&mut self, expected_type: &str) -> (r: Result<&mut Box<Data>, Error>)
        ensures
            r is Ok <==> ((*old(self)) is NewtypeStruct && (*old(self))->NewtypeStruct_name@ == expected_type@),
            r is Ok ==> *r->Ok_0 == (*old(self))->NewtypeStruct_data && *final(self) == (Data::NewtypeStruct { name: (*old(self))->NewtypeStruct_name, data: *final(r->Ok_0) }),
            r is Err ==> *final(self) == *old(self) && r->Err_0@ == if (*old(self)) is NewtypeStruct {
                wrong_type_message((*old(self))->NewtypeStruct_name@, expected_type@)
            } else {
                "value is not a newtype struct"@
            },
    {
        match self {
            Data::NewtypeStruct { name, data } => {
                if name_is(name, expected_type) {
                    Ok(data)
                } else {
                    Err(wrong_type_error(name.as_str(), expected_type))
                }
            },
            _ => Err(String::from_str("value is not a newtype struct")),
        }
    }

    /// The contents of a newtype variant of the variant `expected_type::expected_variant`.
    pub fn downcast_newtype_variant(&self, expected_type: &str, expected_variant: &str) -> (r: Result<&Box<Data>, Error>)
        ensures
            r is Ok <==> (self is NewtypeVariant && self->NewtypeVariant_name@ == expected_type@ && self->NewtypeVariant_variant@ == expected_variant@),
            r matches Ok(v) ==> *v == self->NewtypeVariant_data,
            r matches Err(e) ==> e@ == if self is NewtypeVariant {
                wrong_variant_message(self->NewtypeVariant_name@, self->NewtypeVariant_variant@, expected_type@, expected_variant@)
            } else {
                "value is not a newtype variant"@
            },
    {
        match self {
            Data::NewtypeVariant { name, variant, data, .. } => {
                if name_is(name, expected_type) && name_is(variant, expected_variant) {
                    Ok(data)
                } else {
                    Err(wrong_variant_error(name.as_str(), variant.as_str(), expected_type, expected_variant))
                }
            },
            _ => Err(String::from_str("value is not a newtype variant")),
        }
    }

    /// Mutable access to the contents of a newtype variant of the variant `expected_type::expected_variant`.
    pub fn downcast_newtype_variant_mut(&mut self, expected_type: &str, expected_variant: &str) -> (r: Result<&mut Box<Data>, Error>)
        ensures
            r is Ok <==> ((*old(self)) is NewtypeVariant && (*old(self))->NewtypeVariant_name@ == expected_type@ && (*old(self))->NewtypeVariant_variant@ == expected_variant@),
            r is Ok ==> *r->Ok_0 == (*old(self))->NewtypeVariant_data && *final(self) == (Data::NewtypeVariant { name: (*old(self))->NewtypeVariant_name, variant_index: (*old(self))->NewtypeVariant_variant_index, variant: (*old(self))->NewtypeVariant_variant, data: *final(r->Ok_0) }),
            r is Err ==> *final(self) == *old(self) && r->Err_0@ == if (*old(self)) is NewtypeVariant {
                wrong_variant_message((*old(self))->NewtypeVariant_name@, (*old(self))->NewtypeVariant_variant@, expected_type@, expected_variant@)
            } else {
                "value is not a newtype variant"@
            },
    {
        match self {
            Data::NewtypeVariant { name, variant, data, .. } => {
                if name_is(name, expected_type) && name_is(variant, expected_variant) {
                    Ok(data)
                } else {
                    Err(wrong_variant_error(name.as_str(), variant.as_str(), expected_type, expected_variant))
                }
            },
            _ => Err(String::from_str("value is not a newtype variant")),
        }
    }

    /// The elements of a sequence.
    pub fn downcast_seq(&self) -> (r: Result<&Vec<Data>, Error>)
        ensures
            r is Ok <==> self is Sequence,
            r matches Ok(v) ==> *self == Data::Sequence(*v),
            r matches Err(e) ==> e@ == "value is not a sequence"@,
    {
        match self {
            Data::Sequence(v) => Ok(v),
            _ => Err(String::from_str("value is not a sequence")),
        }
    }

    /// Mutable access to the elements of a sequence.
    pub fn downcast_seq_mut(&mut self) -> (r: Result<&mut Vec<Data>, Error>)
        ensures
            r is Ok <==> (*old(self)) is Sequence,
            r is Ok ==> *old(self) == Data::Sequence(*r->Ok_0) && *final(self) == Data::Sequence(*final(r->Ok_0)),
            r is Err ==> *final(self) == *old(self) && r->Err_0@ == "value is not a sequence"@,
    {
        match self {
            Data::Sequence(v) => Ok(v),
            _ => Err(String::from_str("value is not a sequence")),
        }
    }

    /// The elements of a tuple.
    pub fn downcast_tuple(&self) -> (r: Result<&Vec<Data>, Error>)
        ensures
            r is Ok <==> self is Tuple,
            r matches Ok(v) ==> *self == Data::Tuple(*v),
            r matches Err(e) ==> e@ == "value is not a tuple"@,
    {
        match self {
            Data::Tuple(v) => Ok(v),
            _ => Err(String::from_str("value is not a tuple")),
        }
    }

    /// Mutable access to the elements of a tuple.
    pub fn downcast_tuple_mut(&mut self) -> (r: Result<&mut Vec<Data>, Error>)
        ensures
            r is Ok <==> (*old(self)) is Tuple,
            r is Ok ==> *old(self) == Data::Tuple(*r->Ok_0) && *final(self) == Data::Tuple(*final(r->Ok_0)),
            r is Err ==> *final(self) == *old(self) && r->Err_0@ == "value is not a tuple"@,
    {
        match self {
            Data::Tuple(v) => Ok(v),
            _ => Err(String::from_str("value is not a tuple")),
        }
    }

    /// The contents of a tuple struct of the type `expected_type`.
    pub fn downcast_tuple_struct(&self, expected_type: &str) -> (r: Result<&Vec<Data>, Error>)
        ensures
            r is Ok <==> (self is TupleStruct && self->TupleStruct_name@ == expected_type@),
            r matches Ok(v) ==> *v == self->TupleStruct_data,
            r matches Err(e) ==> e@ == if self is TupleStruct {
                wrong_type_message(self->TupleStruct_name@, expected_type@)
            } else {
                "value is not a tuple struct"@
            },
    {
        match self {
            Data::TupleStruct { name, data } => {
                if name_is(name, expected_type) {
                    Ok(data)
                } else {
                    Err(wrong_type_error(name.as_str(), expected_type))
                }
            },
            _ => Err(String::from_str("value is not a tuple struct")),
        }
    }

    /// Mutable access to the contents of a tuple struct of the type `expected_type`.
    pub fn downcast_tuple_struct_mut(&mut self, expected_type: &str) -> (r: Result<&mut Vec<Data>, Error>)
        ensures
            r is Ok <==> ((*old(self)) is TupleStruct && (*old(self))->TupleStruct_name@ == expected_type@),
            r is Ok ==> *r->Ok_0 == (*old(self))->TupleStruct_data && *final(self) == (Data::TupleStruct { name: (*old(self))->TupleStruct_name, data: *final(r->Ok_0) }),
            r is Err ==> *final(self) == *old(self) && r->Err_0@ == if (*old(self)) is TupleStruct {
                wrong_type_message((*old(self))->TupleStruct_name@, expected_type@)
            } else {
                "value is not a tuple struct"@
            },
    {
        match self {
            Data::TupleStruct { name, data } => {
                if name_is(name, expected_type) {
                    Ok(data)
                } else {
                    Err(wrong_type_error(name.as_str(), expected_type))
                }
            },
            _ => Err(String::from_str("value is not a tuple struct")),
        }
    }

    /// The contents of a tuple variant of the variant `expected_type::expected_variant`.
    pub fn downcast_tuple_variant(&self, expected_type: &str, expected_variant: &str) -> (r: Result<&Vec<Data>, Error>)
        ensures
            r is Ok <==> (self is TupleVariant && self->TupleVariant_name@ == expected_type@ && self->TupleVariant_variant@ == expected_variant@),
            r matches Ok(v) ==> *v == self->TupleVariant_data,
            r matches Err(e) ==> e@ == if self is TupleVariant {
                wrong_variant_message(self->TupleVariant_name@, self->TupleVariant_variant@, expected_type@, expected_variant@)
            } else {
                "value is not a tuple variant"@
            },
    {
        match self {
            Data::TupleVariant { name, variant, data, .. } => {
                if name_is(name, expected_type) && name_is(variant, expected_variant) {
                    Ok(data)
                } else {
                    Err(wrong_variant_error(name.as_str(), variant.as_str(), expected_type, expected_variant))
                }
            },
            _ => Err(String::from_str("value is not a tuple variant")),
        }
    }

    /// Mutable access to the contents of a tuple variant of the variant `expected_type::expected_variant`.
    pub fn downcast_tuple_variant_mut(&mut self, expected_type: &str, expected_variant: &str) -> (r: Result<&mut Vec<Data>, Error>)
        ensures
            r is Ok <==> ((*old(self)) is TupleVariant && (*old(self))->TupleVariant_name@ == expected_type@ && (*old(self))->TupleVariant_variant@ == expected_variant@),
            r is Ok ==> *r->Ok_0 == (*old(self))->TupleVariant_data && *final(self) == (Data::TupleVariant { name: (*old(self))->TupleVariant_name, variant_index: (*old(self))->TupleVariant_variant_index, variant: (*old(self))->TupleVariant_variant, data: *final(r->Ok_0) }),
            r is Err ==> *final(self) == *old(self) && r->Err_0@ == if (*old(self)) is TupleVariant {
                wrong_variant_message((*old(self))->TupleVariant_name@, (*old(self))->TupleVariant_variant@, expected_type@, expected_variant@)
            } else {
                "value is not a tuple variant"@
            },
    {
        match self {
            Data::TupleVariant { name, variant, data, .. } => {
                if name_is(name, expected_type) && name_is(variant, expected_variant) {
                    Ok(data)
                } else {
                    Err(wrong_variant_error(name.as_str(), variant.as_str(), expected_type, expected_variant))
                }
            },
            _ => Err(String::from_str("value is not a tuple variant")),
        }
    }

    /// The elements of a map.
    pub fn downcast_map(&self) -> (r: Result<&Vec<(Data, Data)>, Error>)
        ensures
            r is Ok <==> self is Mapping,
            r matches Ok(v) ==> *self == Data::Mapping(*v),
            r matches Err(e) ==> e@ == "value is not a map"@,
    {
        match self {
            Data::Mapping(v) => Ok(v),
            _ => Err(String::from_str("value is not a map")),
        }
    }

    /// Mutable access to the elements of a map.
    pub fn downcast_map_mut(&mut self) -> (r: Result<&mut Vec<(Data, Data)>, Error>)
        ensures
            r is Ok <==> (*old(self)) is Mapping,
            r is Ok ==> *old(self) == Data::Mapping(*r->Ok_0) && *final(self) == Data::Mapping(*final(r->Ok_0)),
            r is Err ==> *final(self) == *old(self) && r->Err_0@ == "value is not a map"@,
    {
        match self {
            Data::Mapping(v) => Ok(v),
            _ => Err(String::from_str("value is not a map")),
        }
    }

    /// The contents of a struct of the type `expected_type`.
    pub fn downcast_struct(&self, expected_type: &str) -> (r: Result<&Vec<(String, Data)>, Error>)
        ensures
            r is Ok <==> (self is Struct && self->Struct_name@ == expected_type@),
            r matches Ok(v) ==> *v == self->Struct_fields,
            r matches Err(e) ==> e@ == if self is Struct {
                wrong_type_message(self->Struct_name@, expected_type@)
            } else {
                "value is not a struct"@
            },
    {
        match self {
            Data::Struct { name, fields } => {
                if name_is(name, expected_type) {
                    Ok(fields)
                } else {
                    Err(wrong_type_error(name.as_str(), expected_type))
                }
            },
            _ => Err(String::from_str("value is not a struct")),
        }
    }

    /// Mutable access to the contents of a struct of the type `expected_type`.
    pub fn downcast_struct_mut(&mut self, expected_type: &str) -> (r: Result<&mut Vec<(String, Data)>, Error>)
        ensures
            r is Ok <==> ((*old(self)) is Struct && (*old(self))->Struct_name@ == expected_type@),
            r is Ok ==> *r->Ok_0 == (*old(self))->Struct_fields && *final(self) == (Data::Struct { name: (*old(self))->Struct_name, fields: *final(r->Ok_0) }),
            r is Err ==> *final(self) == *old(self) && r->Err_0@ == if (*old(self)) is Struct {
                wrong_type_message((*old(self))->Struct_name@, expected_type@)
            } else {
                "value is not a struct"@
            },
    {
        match self {
            Data::Struct { name, fields } => {
                if name_is(name, expected_type) {
                    Ok(fields)
                } else {
                    Err(wrong_type_error(name.as_str(), expected_type))
                }
            },
            _ => Err(String::from_str("value is not a struct")),
        }
    }

    /// The contents of a struct variant of the variant `expected_type::expected_variant`.
    pub fn downcast_struct_variant(&self, expected_type: &str, expected_variant: &str) -> (r: Result<&Vec<(String, Data)>, Error>)
        ensures
            r is Ok <==> (self is StructVariant && self->StructVariant_name@ == expected_type@ && self->StructVariant_variant@ == expected_variant@),
            r matches Ok(v) ==> *v == self->StructVariant_fields,
            r matches Err(e) ==> e@ == if self is StructVariant {
                wrong_variant_message(self->StructVariant_name@, self->StructVariant_variant@, expected_type@, expected_variant@)
            } else {
                "value is not a struct variant"@
            },
    {
        match self {
            Data::StructVariant { name, variant, fields, .. } => {
                if name_is(name, expected_type) && name_is(variant, expected_variant) {
                    Ok(fields)
                } else {
                    Err(wrong_variant_error(name.as_str(), variant.as_str(), expected_type, expected_variant))
                }
            },
            _ => Err(String::from_str("value is not a struct variant")),
        }
    }

    /// Mutable access to the contents of a struct variant of the variant `expected_type::expected_variant`.
    pub fn downcast_struct_variant_mut(&mut self, expected_type: &str, expected_variant: &str) -> (r: Result<&mut Vec<(String, Data)>, Error>)
        ensures
            r is Ok <==> ((*old(self)) is StructVariant && (*old(self))->StructVariant_name@ == expected_type@ && (*old(self))->StructVariant_variant@ == expected_variant@),
            r is Ok ==> *r->Ok_0 == (*old(self))->StructVariant_fields && *final(self) == (Data::StructVariant { name: (*old(self))->StructVariant_name, variant_index: (*old(self))->StructVariant_variant_index, variant: (*old(self))->StructVariant_variant, fields: *final(r->Ok_0) }),
            r is Err ==> *final(self) == *old(self) && r->Err_0@ == if (*old(self)) is StructVariant {
                wrong_variant_message((*old(self))->StructVariant_name@, (*old(self))->StructVariant_variant@, expected_type@, expected_variant@)
            } else {
                "value is not a struct variant"@
            },
    {
        match self {
            Data::StructVariant { name, variant, fields, .. } => {
                if name_is(name, expected_type) && name_is(variant, expected_variant) {
                    Ok(fields)
                } else {
                    Err(wrong_variant_error(name.as_str(), variant.as_str(), expected_type, expected_variant))
                }
            },
            _ => Err(String::from_str("value is not a struct variant")),
        }
    }
}

/// Whether two byte vectors hold the same bytes.
fn bytes_eq(a: &Vec<u8>, b: &Vec<u8>) -> (r: bool)
    ensures
        r == (a@ == b@),
{
    if a.len() != b.len() {
        return false;
    }
    let mut i: usize = 0;
    while i < a.len()
        invariant
            a@.len() == b@.len(),
            i <= a@.len(),
            forall|j: int| 0 <= j < i ==> a@[j] == b@[j],
        decreases a@.len() - i,
    {
        if a[i] != b[i] {
            return false;
        }
        i = i + 1;
    }
    assert(a@ =~= b@);
    true
}

/// Whether the bits of an `f32` encode NaN.
pub open spec fn f32_bits_nan(x: u32) -> bool {
    x & 0x7f80_0000 == 0x7f80_0000 && x & 0x007f_ffff != 0
}

/// Whether the bits of an `f64` encode NaN.
pub open spec fn f64_bits_nan(x: u64) -> bool {
    x & 0x7ff0_0000_0000_0000 == 0x7ff0_0000_0000_0000 && x & 0x000f_ffff_ffff_ffff != 0
}

/// IEEE-754 equality of two `f32`s given by their bits: NaN equals nothing, and the two zeros
/// are equal.
pub open spec fn f32_bits_eq(x: u32, y: u32) -> bool {
    !f32_bits_nan(x) && !f32_bits_nan(y) && (x == y || (x | y) & 0x7fff_ffff == 0)
}

/// IEEE-754 equality of two `f64`s given by their bits: NaN equals nothing, and the two zeros
/// are equal.
pub open spec fn f64_bits_eq(x: u64, y: u64) -> bool {
    !f64_bits_nan(x) && !f64_bits_nan(y) && (x == y || (x | y) & 0x7fff_ffff_ffff_ffff == 0)
}

/// Equality of values: same shape, same names and payloads, floating-point payloads compared
/// as floating-point numbers.
pub open spec fn data_equal(a: DataModel, b: DataModel) -> bool
    decreases a,
{
    match (a, b) {
        (DataModel::F32(x), DataModel::F32(y)) => f32_bits_eq(x, y),
        (DataModel::F64(x), DataModel::F64(y)) => f64_bits_eq(x, y),
        (DataModel::Option(x), DataModel::Option(y)) => match (x, y) {
            (Some(x), Some(y)) => data_equal(*x, *y),
            (None, None) => true,
            _ => false,
        },
        (DataModel::NewtypeStruct { name: n1, data: d1 }, DataModel::NewtypeStruct { name: n2, data: d2 }) => n1
            == n2 && data_equal(*d1, *d2),
        (
            DataModel::NewtypeVariant { name: n1, variant_index: i1, variant: v1, data: d1 },
            DataModel::NewtypeVariant { name: n2, variant_index: i2, variant: v2, data: d2 },
        ) => n1 == n2 && i1 == i2 && v1 == v2 && data_equal(*d1, *d2),
        (DataModel::Sequence(x), DataModel::Sequence(y)) => seq_equal(x, y),
        (DataModel::Tuple(x), DataModel::Tuple(y)) => seq_equal(x, y),
        (DataModel::TupleStruct { name: n1, data: d1 }, DataModel::TupleStruct { name: n2, data: d2 }) => n1
            == n2 && seq_equal(d1, d2),
        (
            DataModel::TupleVariant { name: n1, variant_index: i1, variant: v1, data: d1 },
            DataModel::TupleVariant { name: n2, variant_index: i2, variant: v2, data: d2 },
        ) => n1 == n2 && i1 == i2 && v1 == v2 && seq_equal(d1, d2),
        (DataModel::Mapping(x), DataModel::Mapping(y)) => pairs_equal(x, y),
        (DataModel::Struct { name: n1, fields: f1 }, DataModel::Struct { name: n2, fields: f2 }) => n1 == n2
            && fields_equal(f1, f2),
        (
            DataModel::StructVariant { name: n1, variant_index: i1, variant: v1, fields: f1 },
            DataModel::StructVariant { name: n2, variant_index: i2, variant: v2, fields: f2 },
        ) => n1 == n2 && i1 == i2 && v1 == v2 && fields_equal(f1, f2),
        _ => a == b,
    }
}

/// Equality of sequences of values, element by element.
pub open spec fn seq_equal(x: Seq<DataModel>, y: Seq<DataModel>) -> bool
    decreases x,
{
    if x.len() == 0 || y.len() == 0 {
        x.len() == y.len()
    } else {
        data_equal(x[0], y[0]) && seq_equal(x.drop_first(), y.drop_first())
    }
}

/// Equality of sequences of key-value pairs, pair by pair.
pub open spec fn pairs_equal(x: Seq<(DataModel, DataModel)>, y: Seq<(DataModel, DataModel)>) -> bool
    decreases x,
{
    if x.len() == 0 || y.len() == 0 {
        x.len() == y.len()
    } else {
        data_equal(x[0].0, y[0].0) && data_equal(x[0].1, y[0].1) && pairs_equal(x.drop_first(), y.drop_first())
    }
}

/// Whether two field names are the same.
pub open spec fn same_name(a: Seq<char>, b: Seq<char>) -> bool {
    a == b
}

/// Equality of sequences of named fields, field by field.
pub open spec fn fields_equal(x: Seq<(Seq<char>, DataModel)>, y: Seq<(Seq<char>, DataModel)>) -> bool
    decreases x,
{
    if x.len() == 0 || y.len() == 0 {
        x.len() == y.len()
    } else {
        same_name(x[0].0, y[0].0) && data_equal(x[0].1, y[0].1) && fields_equal(x.drop_first(), y.drop_first())
    }
}

/// Equal sequences of values have one length.
proof fn lemma_seq_equal_len(x: Seq<DataModel>, y: Seq<DataModel>)
    ensures
        seq_equal(x, y) ==> x.len() == y.len(),
    decreases x.len(),
{
    if x.len() > 0 && y.len() > 0 {
        lemma_seq_equal_len(x.drop_first(), y.drop_first());
    }
}

/// Equal sequences of pairs have one length.
proof fn lemma_pairs_equal_len(x: Seq<(DataModel, DataModel)>, y: Seq<(DataModel, DataModel)>)
    ensures
        pairs_equal(x, y) ==> x.len() == y.len(),
    decreases x.len(),
{
    if x.len() > 0 && y.len() > 0 {
        lemma_pairs_equal_len(x.drop_first(), y.drop_first());
    }
}

/// Equal sequences of fields have one length.
proof fn lemma_fields_equal_len(x: Seq<(Seq<char>, DataModel)>, y: Seq<(Seq<char>, DataModel)>)
    ensures
        fields_equal(x, y) ==> x.len() == y.len(),
    decreases x.len(),
{
    if x.len() > 0 && y.len() > 0 {
        lemma_fields_equal_len(x.drop_first(), y.drop_first());
    }
}

/// Equality of values is symmetric.
pub proof fn law_equality_symmetric(a: DataModel, b: DataModel)
    ensures
        data_equal(a, b) == data_equal(b, a),
    decreases a,
{
    match (a, b) {
        (DataModel::F32(x), DataModel::F32(y)) => {
            assert(x | y == y | x) by (bit_vector);
        },
        (DataModel::F64(x), DataModel::F64(y)) => {
            assert(x | y == y | x) by (bit_vector);
        },
        (DataModel::Option(x), DataModel::Option(y)) => match (x, y) {
            (Some(x), Some(y)) => law_equality_symmetric(*x, *y),
            _ => {},
        },
        (DataModel::NewtypeStruct { data: d1, .. }, DataModel::NewtypeStruct { data: d2, .. }) => {
            law_equality_symmetric(*d1, *d2);
        },
        (DataModel::NewtypeVariant { data: d1, .. }, DataModel::NewtypeVariant { data: d2, .. }) => {
            law_equality_symmetric(*d1, *d2);
        },
        (DataModel::Sequence(x), DataModel::Sequence(y)) => lemma_seq_equal_symmetric(x, y),
        (DataModel::Tuple(x), DataModel::Tuple(y)) => lemma_seq_equal_symmetric(x, y),
        (DataModel::TupleStruct { data: d1, .. }, DataModel::TupleStruct { data: d2, .. }) => {
            lemma_seq_equal_symmetric(d1, d2);
        },
        (DataModel::TupleVariant { data: d1, .. }, DataModel::TupleVariant { data: d2, .. }) => {
            lemma_seq_equal_symmetric(d1, d2);
        },
        (DataModel::Mapping(x), DataModel::Mapping(y)) => lemma_pairs_equal_symmetric(x, y),
        (DataModel::Struct { fields: f1, .. }, DataModel::Struct { fields: f2, .. }) => {
            lemma_fields_equal_symmetric(f1, f2);
        },
        (DataModel::StructVariant { fields: f1, .. }, DataModel::StructVariant { fields: f2, .. }) => {
            lemma_fields_equal_symmetric(f1, f2);
        },
        _ => {},
    }
}

/// Equality of sequences of values is symmetric.
proof fn lemma_seq_equal_symmetric(x: Seq<DataModel>, y: Seq<DataModel>)
    ensures
        seq_equal(x, y) == seq_equal(y, x),
    decreases x,
{
    if x.len() > 0 && y.len() > 0 {
        law_equality_symmetric(x[0], y[0]);
        lemma_seq_equal_symmetric(x.drop_first(), y.drop_first());
    }
}

/// Equality of sequences of pairs is symmetric.
proof fn lemma_pairs_equal_symmetric(x: Seq<(DataModel, DataModel)>, y: Seq<(DataModel, DataModel)>)
    ensures
        pairs_equal(x, y) == pairs_equal(y, x),
    decreases x,
{
    if x.len() > 0 && y.len() > 0 {
        law_equality_symmetric(x[0].0, y[0].0);
        law_equality_symmetric(x[0].1, y[0].1);
        lemma_pairs_equal_symmetric(x.drop_first(), y.drop_first());
    }
}

/// Equality of sequences of fields is symmetric.
proof fn lemma_fields_equal_symmetric(x: Seq<(Seq<char>, DataModel)>, y: Seq<(Seq<char>, DataModel)>)
    ensures
        fields_equal(x, y) == fields_equal(y, x),
    decreases x,
{
    if x.len() > 0 && y.len() > 0 {
        law_equality_symmetric(x[0].1, y[0].1);
        lemma_fields_equal_symmetric(x.drop_first(), y.drop_first());
    }
}

/// Whether no floating-point payload of `a` is NaN.
pub open spec fn nan_free(a: DataModel) -> bool
    decreases a,
{
    match a {
        DataModel::F32(x) => !f32_bits_nan(x),
        DataModel::F64(x) => !f64_bits_nan(x),
        DataModel::Option(x) => match x {
            Some(x) => nan_free(*x),
            None => true,
        },
        DataModel::NewtypeStruct { data, .. } => nan_free(*data),
        DataModel::NewtypeVariant { data, .. } => nan_free(*data),
        DataModel::Sequence(x) => seq_nan_free(x),
        DataModel::Tuple(x) => seq_nan_free(x),
        DataModel::TupleStruct { data, .. } => seq_nan_free(data),
        DataModel::TupleVariant { data, .. } => seq_nan_free(data),
        DataModel::Mapping(x) => pairs_nan_free(x),
        DataModel::Struct { fields, .. } => fields_nan_free(fields),
        DataModel::StructVariant { fields, .. } => fields_nan_free(fields),
        _ => true,
    }
}

/// Whether no value of `x` holds a NaN.
pub open spec fn seq_nan_free(x: Seq<DataModel>) -> bool
    decreases x,
{
    x.len() == 0 || (nan_free(x[0]) && seq_nan_free(x.drop_first()))
}

/// Whether no key or value of `x` holds a NaN.
pub open spec fn pairs_nan_free(x: Seq<(DataModel, DataModel)>) -> bool
    decreases x,
{
    x.len() == 0 || (nan_free(x[0].0) && nan_free(x[0].1) && pairs_nan_free(x.drop_first()))
}

/// Whether no field of `x` holds a NaN.
pub open spec fn fields_nan_free(x: Seq<(Seq<char>, DataModel)>) -> bool
    decreases x,
{
    x.len() == 0 || (nan_free(x[0].1) && fields_nan_free(x.drop_first()))
}

/// A value without NaN equals itself.
pub proof fn law_equality_reflexive(a: DataModel)
    requires
        nan_free(a),
    ensures
        data_equal(a, a),
    decreases a,
{
    match a {
        DataModel::Option(x) => match x {
            Some(x) => law_equality_reflexive(*x),
            None => {},
        },
        DataModel::NewtypeStruct { data, .. } => law_equality_reflexive(*data),
        DataModel::NewtypeVariant { data, .. } => law_equality_reflexive(*data),
        DataModel::Sequence(x) => lemma_seq_equal_reflexive(x),
        DataModel::Tuple(x) => lemma_seq_equal_reflexive(x),
        DataModel::TupleStruct { data, .. } => lemma_seq_equal_reflexive(data),
        DataModel::TupleVariant { data, .. } => lemma_seq_equal_reflexive(data),
        DataModel::Mapping(x) => lemma_pairs_equal_reflexive(x),
        DataModel::Struct { fields, .. } => lemma_fields_equal_reflexive(fields),
        DataModel::StructVariant { fields, .. } => lemma_fields_equal_reflexive(fields),
        _ => {},
    }
}

/// A sequence of values without NaN equals itself.
proof fn lemma_seq_equal_reflexive(x: Seq<DataModel>)
    requires
        seq_nan_free(x),
    ensures
        seq_equal(x, x),
    decreases x,
{
    if x.len() > 0 {
        law_equality_reflexive(x[0]);
        lemma_seq_equal_reflexive(x.drop_first());
    }
}

/// A sequence of pairs without NaN equals itself.
proof fn lemma_pairs_equal_reflexive(x: Seq<(DataModel, DataModel)>)
    requires
        pairs_nan_free(x),
    ensures
        pairs_equal(x, x),
    decreases x,
{
    if x.len() > 0 {
        law_equality_reflexive(x[0].0);
        law_equality_reflexive(x[0].1);
        lemma_pairs_equal_reflexive(x.drop_first());
    }
}

/// A sequence of fields without NaN equals itself.
proof fn lemma_fields_equal_reflexive(x: Seq<(Seq<char>, DataModel)>)
    requires
        fields_nan_free(x),
    ensures
        fields_equal(x, x),
    decreases x,
{
    if x.len() > 0 {
        law_equality_reflexive(x[0].1);
        lemma_fields_equal_reflexive(x.drop_first());
    }
}

/// IEEE-754 equality of two `f32`s given by their bits.
fn f32_eq(x: u32, y: u32) -> (r: bool)
    ensures
        r == f32_bits_eq(x, y),
{
    let x_nan = x & 0x7f80_0000 == 0x7f80_0000 && x & 0x007f_ffff != 0;
    let y_nan = y & 0x7f80_0000 == 0x7f80_0000 && y & 0x007f_ffff != 0;
    !x_nan && !y_nan && (x == y || (x | y) & 0x7fff_ffff == 0)
}

/// IEEE-754 equality of two `f64`s given by their bits.
fn f64_eq(x: u64, y: u64) -> (r: bool)
    ensures
        r == f64_bits_eq(x, y),
{
    let x_nan = x & 0x7ff0_0000_0000_0000 == 0x7ff0_0000_0000_0000 && x & 0x000f_ffff_ffff_ffff != 0;
    let y_nan = y & 0x7ff0_0000_0000_0000 == 0x7ff0_0000_0000_0000 && y & 0x000f_ffff_ffff_ffff != 0;
    !x_nan && !y_nan && (x == y || (x | y) & 0x7fff_ffff_ffff_ffff == 0)
}

/// Whether two values are equal (see [`data_equal`]).
pub fn data_eq(a: &Data, b: &Data) -> (r: bool)
    ensures
        r == data_equal(a@, b@),
    decreases a,
{
    match (a, b) {
        (Data::Bool(x), Data::Bool(y)) => *x == *y,
        (Data::I8(x), Data::I8(y)) => *x == *y,
        (Data::I16(x), Data::I16(y)) => *x == *y,
        (Data::I32(x), Data::I32(y)) => *x == *y,
        (Data::I64(x), Data::I64(y)) => *x == *y,
        (Data::I128(x), Data::I128(y)) => *x == *y,
        (Data::U8(x), Data::U8(y)) => *x == *y,
        (Data::U16(x), Data::U16(y)) => *x == *y,
        (Data::U32(x), Data::U32(y)) => *x == *y,
        (Data::U64(x), Data::U64(y)) => *x == *y,
        (Data::U128(x), Data::U128(y)) => *x == *y,
        (Data::F32(x), Data::F32(y)) => f32_eq(*x, *y),
        (Data::F64(x), Data::F64(y)) => f64_eq(*x, *y),
        (Data::Char(x), Data::Char(y)) => *x == *y,
        (Data::String(x), Data::String(y)) => *x == *y,
        (Data::ByteArray(x), Data::ByteArray(y)) => bytes_eq(x, y),
        (Data::Option(x), Data::Option(y)) => match (x, y) {
            (Some(x), Some(y)) => data_eq(x, y),
            (None, None) => true,
            _ => false,
        },
        (Data::Unit, Data::Unit) => true,
        (Data::UnitStruct { name: n1 }, Data::UnitStruct { name: n2 }) => *n1 == *n2,
        (
            Data::UnitVariant { name: n1, variant_index: i1, variant: v1 },
            Data::UnitVariant { name: n2, variant_index: i2, variant: v2 },
        ) => *n1 == *n2 && *i1 == *i2 && *v1 == *v2,
        (Data::NewtypeStruct { name: n1, data: d1 }, Data::NewtypeStruct { name: n2, data: d2 }) => {
            *n1 == *n2 && data_eq(d1, d2)
        },
        (
            Data::NewtypeVariant { name: n1, variant_index: i1, variant: v1, data: d1 },
            Data::NewtypeVariant { name: n2, variant_index: i2, variant: v2, data: d2 },
        ) => *n1 == *n2 && *i1 == *i2 && *v1 == *v2 && data_eq(d1, d2),
        (Data::Sequence(x), Data::Sequence(y)) => vec_eq(x, y),
        (Data::Tuple(x), Data::Tuple(y)) => vec_eq(x, y),
        (Data::TupleStruct { name: n1, data: d1 }, Data::TupleStruct { name: n2, data: d2 }) => {
            *n1 == *n2 && vec_eq(d1, d2)
        },
        (
            Data::TupleVariant { name: n1, variant_index: i1, variant: v1, data: d1 },
            Data::TupleVariant { name: n2, variant_index: i2, variant: v2, data: d2 },
        ) => *n1 == *n2 && *i1 == *i2 && *v1 == *v2 && vec_eq(d1, d2),
        (Data::Mapping(x), Data::Mapping(y)) => pairs_eq(x, y),
        (Data::Struct { name: n1, fields: f1 }, Data::Struct { name: n2, fields: f2 }) => {
            *n1 == *n2 && fields_eq(f1, f2)
        },
        (
            Data::StructVariant { name: n1, variant_index: i1, variant: v1, fields: f1 },
            Data::StructVariant { name: n2, variant_index: i2, variant: v2, fields: f2 },
        ) => *n1 == *n2 && *i1 == *i2 && *v1 == *v2 && fields_eq(f1, f2),
        _ => false,
    }
}

/// Whether two vectors of values are equal element by element.
fn vec_eq(a: &Vec<Data>, b: &Vec<Data>) -> (r: bool)
    ensures
        r == seq_equal(models(a@), models(b@)),
    decreases a,
{
    proof {
        lemma_models(a@);
        lemma_models(b@);
    }
    if a.len() != b.len() {
        proof {
            lemma_seq_equal_len(models(a@), models(b@));
        }
        return false;
    }
    let ghost (x, y) = (models(a@), models(b@));
    let mut i: usize = 0;
    assert(x.skip(0) =~= x && y.skip(0) =~= y);
    while i < a.len()
        invariant
            a@.len() == b@.len(),
            x == models(a@) && y == models(b@),
            x.len() == a@.len() && y.len() == b@.len(),
            forall|j: int| 0 <= j < a@.len() ==> #[trigger] x[j] == a@[j]@ && y[j] == b@[j]@,
            i <= a@.len(),
            seq_equal(x, y) == seq_equal(x.skip(i as int), y.skip(i as int)),
        decreases a@.len() - i,
    {
        assert(x.skip(i as int)[0] == x[i as int] && y.skip(i as int)[0] == y[i as int]);
        assert(x.skip(i as int).drop_first() =~= x.skip(i + 1) && y.skip(i as int).drop_first() =~= y.skip(i + 1));
        if !data_eq(&a[i], &b[i]) {
            return false;
        }
        i = i + 1;
    }
    true
}

/// Whether two vectors of key-value pairs are equal pair by pair.
fn pairs_eq(a: &Vec<(Data, Data)>, b: &Vec<(Data, Data)>) -> (r: bool)
    ensures
        r == pairs_equal(pair_models(a@), pair_models(b@)),
    decreases a,
{
    proof {
        lemma_pair_models(a@);
        lemma_pair_models(b@);
    }
    if a.len() != b.len() {
        proof {
            lemma_pairs_equal_len(pair_models(a@), pair_models(b@));
        }
        return false;
    }
    let ghost (x, y) = (pair_models(a@), pair_models(b@));
    let mut i: usize = 0;
    assert(x.skip(0) =~= x && y.skip(0) =~= y);
    while i < a.len()
        invariant
            a@.len() == b@.len(),
            x == pair_models(a@) && y == pair_models(b@),
            x.len() == a@.len() && y.len() == b@.len(),
            forall|j: int| 0 <= j < a@.len() ==> #[trigger] x[j] == (a@[j].0@, a@[j].1@) && y[j] == (b@[j].0@, b@[j].1@),
            i <= a@.len(),
            pairs_equal(x, y) == pairs_equal(x.skip(i as int), y.skip(i as int)),
        decreases a@.len() - i,
    {
        assert(x.skip(i as int)[0] == x[i as int] && y.skip(i as int)[0] == y[i as int]);
        assert(x.skip(i as int).drop_first() =~= x.skip(i + 1) && y.skip(i as int).drop_first() =~= y.skip(i + 1));
        if !data_eq(&a[i].0, &b[i].0) || !data_eq(&a[i].1, &b[i].1) {
            return false;
        }
        i = i + 1;
    }
    true
}

/// Whether two vectors of named fields are equal field by field.
fn fields_eq(a: &Vec<(String, Data)>, b: &Vec<(String, Data)>) -> (r: bool)
    ensures
        r == fields_equal(field_models(a@), field_models(b@)),
    decreases a,
{
    proof {
        lemma_field_models(a@);
        lemma_field_models(b@);
    }
    if a.len() != b.len() {
        proof {
            lemma_fields_equal_len(field_models(a@), field_models(b@));
        }
        return false;
    }
    let ghost (x, y) = (field_models(a@), field_models(b@));
    let mut i: usize = 0;
    assert(x.skip(0) =~= x && y.skip(0) =~= y);
    while i < a.len()
        invariant
            a@.len() == b@.len(),
            x == field_models(a@) && y == field_models(b@),
            x.len() == a@.len() && y.len() == b@.len(),
            forall|j: int| 0 <= j < a@.len() ==> #[trigger] x[j] == (a@[j].0@, a@[j].1@) && y[j] == (b@[j].0@, b@[j].1@),
            i <= a@.len(),
            fields_equal(x, y) == fields_equal(x.skip(i as int), y.skip(i as int)),
        decreases a@.len() - i,
    {
        assert(x.skip(i as int)[0] == x[i as int] && y.skip(i as int)[0] == y[i as int]);
        assert(x.skip(i as int).drop_first() =~= x.skip(i + 1) && y.skip(i as int).drop_first() =~= y.skip(i + 1));
        if !(a[i].0 == b[i].0) || !data_eq(&a[i].1, &b[i].1) {
            return false;
        }
        i = i + 1;
    }
    true
}

impl PartialEq for Data {
    fn eq(&self, other: &Self) -> (r: bool) {
        data_eq(self, other)
    }
}

impl vstd::std_specs::cmp::PartialEqSpecImpl for Data {
    open spec fn obeys_eq_spec() -> bool {
        true
    }

    open spec fn eq_spec(&self, other: &Self) -> bool {
        data_equal(self@, other@)
    }
}

/// A copy of a byte vector.
fn bytes_clone(a: &Vec<u8>) -> (r: Vec<u8>)
    ensures
        r@ == a@,
{
    let r = a.clone();
    assert(r@ =~= a@);
    r
}

/// A deep copy of a value.
pub fn data_clone(d: &Data) -> (r: Data)
    ensures
        r@ == d@,
    decreases d,
{
    match d {
        Data::Bool(x) => Data::Bool(*x),
        Data::I8(x) => Data::I8(*x),
        Data::I16(x) => Data::I16(*x),
        Data::I32(x) => Data::I32(*x),
        Data::I64(x) => Data::I64(*x),
        Data::I128(x) => Data::I128(*x),
        Data::U8(x) => Data::U8(*x),
        Data::U16(x) => Data::U16(*x),
        Data::U32(x) => Data::U32(*x),
        Data::U64(x) => Data::U64(*x),
        Data::U128(x) => Data::U128(*x),
        Data::F32(x) => Data::F32(*x),
        Data::F64(x) => Data::F64(*x),
        Data::Char(x) => Data::Char(*x),
        Data::String(x) => Data::String(x.clone()),
        Data::ByteArray(x) => Data::ByteArray(bytes_clone(x)),
        Data::Option(x) => Data::Option(
            match x {
                Some(x) => Some(Box::new(data_clone(x))),
                None => None,
            },
        ),
        Data::Unit => Data::Unit,
        Data::UnitStruct { name } => Data::UnitStruct { name: name.clone() },
        Data::UnitVariant { name, variant_index, variant } => Data::UnitVariant {
            name: name.clone(),
            variant_index: *variant_index,
            variant: variant.clone(),
        },
        Data::NewtypeStruct { name, data } => Data::NewtypeStruct {
            name: name.clone(),
            data: Box::new(data_clone(data)),
        },
        Data::NewtypeVariant { name, variant_index, variant, data } => Data::NewtypeVariant {
            name: name.clone(),
            variant_index: *variant_index,
            variant: variant.clone(),
            data: Box::new(data_clone(data)),
        },
        Data::Sequence(x) => Data::Sequence(vec_clone(x)),
        Data::Tuple(x) => Data::Tuple(vec_clone(x)),
        Data::TupleStruct { name, data } => Data::TupleStruct { name: name.clone(), data: vec_clone(data) },
        Data::TupleVariant { name, variant_index, variant, data } => Data::TupleVariant {
            name: name.clone(),
            variant_index: *variant_index,
            variant: variant.clone(),
            data: vec_clone(data),
        },
        Data::Mapping(x) => Data::Mapping(pairs_clone(x)),
        Data::Struct { name, fields } => Data::Struct { name: name.clone(), fields: fields_clone(fields) },
        Data::StructVariant { name, variant_index, variant, fields } => Data::StructVariant {
            name: name.clone(),
            variant_index: *variant_index,
            variant: variant.clone(),
            fields: fields_clone(fields),
        },
    }
}

/// A deep copy of a vector of values.
fn vec_clone(a: &Vec<Data>) -> (r: Vec<Data>)
    ensures
        models(r@) == models(a@),
    decreases a,
{
    let mut r: Vec<Data> = Vec::new();
    let mut i: usize = 0;
    while i < a.len()
        invariant
            i <= a@.len(),
            r@.len() == i,
            forall|j: int| 0 <= j < i ==> r@[j].model() == a@[j].model(),
        decreases a@.len() - i,
    {
        r.push(data_clone(&a[i]));
        i = i + 1;
    }
    assert(models(r@) =~= models(a@));
    r
}

/// A deep copy of a vector of key-value pairs.
fn pairs_clone(a: &Vec<(Data, Data)>) -> (r: Vec<(Data, Data)>)
    ensures
        pair_models(r@) == pair_models(a@),
    decreases a,
{
    let mut r: Vec<(Data, Data)> = Vec::new();
    let mut i: usize = 0;
    while i < a.len()
        invariant
            i <= a@.len(),
            r@.len() == i,
            forall|j: int| 0 <= j < i ==> r@[j].0.model() == a@[j].0.model() && r@[j].1.model() == a@[j].1.model(),
        decreases a@.len() - i,
    {
        r.push((data_clone(&a[i].0), data_clone(&a[i].1)));
        i = i + 1;
    }
    assert(pair_models(r@) =~= pair_models(a@));
    r
}

/// A deep copy of a vector of named fields.
fn fields_clone(a: &Vec<(String, Data)>) -> (r: Vec<(String, Data)>)
    ensures
        field_models(r@) == field_models(a@),
    decreases a,
{
    let mut r: Vec<(String, Data)> = Vec::new();
    let mut i: usize = 0;
    while i < a.len()
        invariant
            i <= a@.len(),
            r@.len() == i,
            forall|j: int| 0 <= j < i ==> r@[j].0@ == a@[j].0@ && r@[j].1.model() == a@[j].1.model(),
        decreases a@.len() - i,
    {
        r.push((a[i].0.clone(), data_clone(&a[i].1)));
        i = i + 1;
    }
    assert(field_models(r@) =~= field_models(a@));
    r
}

impl Clone for Data {
    fn clone(&self) -> (r: Self)
        ensures
            r@ == self@,
    {
        data_clone(self)
    }
}

/// The position of the first element of `s` that satisfies `p`, if any.
pub open spec fn first_match<A>(s: Seq<A>, p: spec_fn(A) -> bool) -> Option<int>
    decreases s.len(),
{
    if s.len() == 0 {
        None
    } else if p(s[0]) {
        Some(0)
    } else {
        match first_match(s.drop_first(), p) {
            Some(i) => Some(i + 1),
            None => None,
        }
    }
}

/// [`first_match`] is the position of a satisfying element with none before it, or `None`
/// when no element satisfies the predicate.
pub proof fn lemma_first_match<A>(s: Seq<A>, p: spec_fn(A) -> bool)
    ensures
        first_match(s, p) matches Some(i) ==> 0 <= i < s.len() && p(s[i]) && forall|j: int|
            0 <= j < i ==> !p(#[trigger] s[j]),
        first_match(s, p) is None ==> forall|j: int| 0 <= j < s.len() ==> !p(#[trigger] s[j]),
    decreases s.len(),
{
    if s.len() > 0 && !p(s[0]) {
        lemma_first_match(s.drop_first(), p);
        assert forall|j: int| 1 <= j < s.len() implies s[j] == #[trigger] s.drop_first()[j - 1] by {}
        if first_match(s, p) is None {
            assert forall|j: int| 0 <= j < s.len() implies !p(#[trigger] s[j]) by {
                if j > 0 {
                    assert(s[j] == s.drop_first()[j - 1]);
                }
            }
        } else {
            let i = first_match(s, p)->0;
            assert forall|j: int| 0 <= j < i implies !p(#[trigger] s[j]) by {
                if j > 0 {
                    assert(s[j] == s.drop_first()[j - 1]);
                }
            }
        }
    }
}

/// A satisfying element with none before it is the first match.
pub proof fn lemma_first_match_at<A>(s: Seq<A>, p: spec_fn(A) -> bool, i: int)
    requires
        0 <= i < s.len(),
        p(s[i]),
        forall|j: int| 0 <= j < i ==> !p(#[trigger] s[j]),
    ensures
        first_match(s, p) == Some(i),
    decreases i,
{
    if i > 0 {
        assert(!p(s[0]));
        assert forall|j: int| 0 <= j < i - 1 implies !p(#[trigger] s.drop_first()[j]) by {
            assert(s.drop_first()[j] == s[j + 1]);
        }
        lemma_first_match_at(s.drop_first(), p, i - 1);
    }
}

/// When no element satisfies the predicate there is no first match.
pub proof fn lemma_first_match_none<A>(s: Seq<A>, p: spec_fn(A) -> bool)
    requires
        forall|j: int| 0 <= j < s.len() ==> !p(#[trigger] s[j]),
    ensures
        first_match(s, p) is None,
    decreases s.len(),
{
    if s.len() > 0 {
        assert forall|j: int| 0 <= j < s.len() - 1 implies !p(#[trigger] s.drop_first()[j]) by {
            assert(s.drop_first()[j] == s[j + 1]);
        }
        lemma_first_match_none(s.drop_first(), p);
    }
}

/// Matches an entry of a list of fields whose name is `key`.
pub open spec fn has_name<V>(key: Seq<char>) -> spec_fn((String, V)) -> bool {
    |f: (String, V)| f.0@ == key
}

/// Matches an entry of a list of pairs whose key equals `key` (see [`data_equal`]).
pub open spec fn has_key<V>(key: DataModel) -> spec_fn((Data, V)) -> bool {
    |f: (Data, V)| data_equal(f.0@, key)
}

/// The position of the first field named `key`.
pub fn position_of_name<V>(fields: &Vec<(String, V)>, key: &str) -> (r: Option<usize>)
    ensures
        r matches Some(i) ==> i < fields@.len() && first_match(fields@, has_name::<V>(key@)) == Some(
            i as int,
        ),
        r is None ==> first_match(fields@, has_name::<V>(key@)) is None,
{
    let wanted = String::from_str(key);
    let mut i: usize = 0;
    while i < fields.len()
        invariant
            i <= fields@.len(),
            wanted@ == key@,
            forall|j: int| 0 <= j < i ==> !has_name::<V>(key@)(#[trigger] fields@[j]),
        decreases fields@.len() - i,
    {
        if fields[i].0 == wanted {
            proof {
                lemma_first_match_at(fields@, has_name::<V>(key@), i as int);
            }
            return Some(i);
        }
        i = i + 1;
    }
    proof {
        lemma_first_match_none(fields@, has_name::<V>(key@));
    }
    None
}

/// The position of the first pair whose key equals `key`.
pub fn position_of_key<V>(pairs: &Vec<(Data, V)>, key: &Data) -> (r: Option<usize>)
    ensures
        r matches Some(i) ==> i < pairs@.len() && first_match(pairs@, has_key::<V>(key@)) == Some(
            i as int,
        ),
        r is None ==> first_match(pairs@, has_key::<V>(key@)) is None,
{
    let mut i: usize = 0;
    while i < pairs.len()
        invariant
            i <= pairs@.len(),
            forall|j: int| 0 <= j < i ==> !has_key::<V>(key@)(#[trigger] pairs@[j]),
        decreases pairs@.len() - i,
    {
        if data_eq(&pairs[i].0, key) {
            proof {
                lemma_first_match_at(pairs@, has_key::<V>(key@), i as int);
            }
            return Some(i);
        }
        i = i + 1;
    }
    proof {
        lemma_first_match_none(pairs@, has_key::<V>(key@));
    }
    None
}

/// Lookup of entries by key in a list of key-value pairs.
pub trait DataFields {
    type Key;

    type Value;

    /// The value of the first entry with the given key.
    fn get(&self, key: Self::Key) -> Option<&Self::Value>;

    /// Mutable access to the value of the first entry with the given key.
    fn get_mut(&mut self, key: Self::Key) -> Option<&mut Self::Value>;
}

impl<V> DataFields for Vec<(String, V)> {
    type Key = String;

    type Value = V;

    fn get(&self, key: String) -> (r: Option<&V>)
        ensures
            r is Some <==> first_match(self@, has_name::<V>(key@)) is Some,
            r matches Some(v) ==> *v == self@[first_match(self@, has_name::<V>(key@))->0].1,
    {
        match position_of_name(self, key.as_str()) {
            Some(i) => Some(&self[i].1),
            None => None,
        }
    }

    fn get_mut(&mut self, key: String) -> (r: Option<&mut V>)
        ensures
            r is Some <==> first_match(old(self)@, has_name::<V>(key@)) is Some,
            r is Some ==> {
                let i = first_match(old(self)@, has_name::<V>(key@))->0;
                &&& *r->Some_0 == old(self)@[i].1
                &&& final(self)@ == old(self)@.update(i, (old(self)@[i].0, *final(r->Some_0)))
            },
            r is None ==> final(self)@ == old(self)@,
    {
        match position_of_name(self, key.as_str()) {
            Some(i) => Some(&mut self[i].1),
            None => None,
        }
    }
}

impl<V> DataFields for Vec<(Data, V)> {
    type Key = Data;

    type Value = V;

    fn get(&self, key: Data) -> (r: Option<&V>)
        ensures
            r is Some <==> first_match(self@, has_key::<V>(key@)) is Some,
            r matches Some(v) ==> *v == self@[first_match(self@, has_key::<V>(key@))->0].1,
    {
        match position_of_key(self, &key) {
            Some(i) => Some(&self[i].1),
            None => None,
        }
    }

    fn get_mut(&mut self, key: Data) -> (r: Option<&mut V>)
        ensures
            r is Some <==> first_match(old(self)@, has_key::<V>(key@)) is Some,
            r is Some ==> {
                let i = first_match(old(self)@, has_key::<V>(key@))->0;
                &&& *r->Some_0 == old(self)@[i].1
                &&& final(self)@ == old(self)@.update(i, (old(self)@[i].0, *final(r->Some_0)))
            },
            r is None ==> final(self)@ == old(self)@,
    {
        match position_of_key(self, &key) {
            Some(i) => Some(&mut self[i].1),
            None => None,
        }
    }
}

/// Two predicates that agree element by element have the same first match.
pub proof fn lemma_first_match_agree<A, B>(
    s: Seq<A>,
    p: spec_fn(A) -> bool,
    t: Seq<B>,
    q: spec_fn(B) -> bool,
)
    requires
        s.len() == t.len(),
        forall|i: int| 0 <= i < s.len() ==> p(#[trigger] s[i]) == q(t[i]),
    ensures
        first_match(s, p) == first_match(t, q),
{
    lemma_first_match(s, p);
    match first_match(s, p) {
        Some(i) => {
            assert forall|j: int| 0 <= j < i implies !q(#[trigger] t[j]) by {
                assert(p(s[j]) == q(t[j]));
            }
            lemma_first_match_at(t, q, i);
        },
        None => {
            assert forall|j: int| 0 <= j < t.len() implies !q(#[trigger] t[j]) by {
                assert(p(s[j]) == q(t[j]));
            }
            lemma_first_match_none(t, q);
        },
    }
}

} // verus!
