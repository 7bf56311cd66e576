//! Builds [`Data`] values from the calls that a serializer receives, keeping a stack of the
//! compound values under construction.
use vstd::prelude::*;

use crate::data::{field_models, group_models, models, pair_models, Data, DataModel};

verus! {

broadcast use group_models;

/// Error type for reflection data serialization.
#[derive(Debug, Clone)]
pub enum Error {
    /// The value under construction is not of the kind that the call adds to.
    InvalidPendingData,
    /// No value is under construction.
    MissingPendingData,
    /// A map value arrived without a key before it.
    MissingPendingKey,
    /// An error reported by the value being serialized.
    Custom(String),
}

impl Error {
    /// The text that describes this error.
    pub fn message(&self) -> (r: String)
        ensures
            r@ == match self {
                Error::InvalidPendingData => "Invalid pending data"@,
                Error::MissingPendingData => "Missing pending data"@,
                Error::MissingPendingKey => "Missing pending key"@,
                Error::Custom(msg) => msg@,
            },
    {
        match self {
            Error::InvalidPendingData => String::from_str("Invalid pending data"),
            Error::MissingPendingData => String::from_str("Missing pending data"),
            Error::MissingPendingKey => String::from_str("Missing pending key"),
            Error::Custom(msg) => msg.clone(),
        }
    }
}

/// The kinds of compound values that take unnamed elements.
pub enum ElementKind {
    Sequence,
    Tuple,
    TupleStruct,
    TupleVariant,
}

/// `top` with `v` appended to its elements, when `top` is a compound value of kind `kind`.
pub open spec fn with_element(top: DataModel, kind: ElementKind, v: DataModel) -> Option<DataModel> {
    match (kind, top) {
        (ElementKind::Sequence, DataModel::Sequence(s)) => Some(DataModel::Sequence(s.push(v))),
        (ElementKind::Tuple, DataModel::Tuple(s)) => Some(DataModel::Tuple(s.push(v))),
        (ElementKind::TupleStruct, DataModel::TupleStruct { name, data }) => Some(
            DataModel::TupleStruct { name, data: data.push(v) },
        ),
        (ElementKind::TupleVariant, DataModel::TupleVariant { name, variant_index, variant, data }) => Some(
            DataModel::TupleVariant { name, variant_index, variant, data: data.push(v) },
        ),
        _ => None,
    }
}

/// `top` with the field `(key, v)` appended, when `top` is a struct (or, with `variant`, a
/// struct variant).
pub open spec fn with_field(top: DataModel, variant: bool, key: Seq<char>, v: DataModel) -> Option<
    DataModel,
> {
    match top {
        DataModel::Struct { name, fields } => if !variant {
            Some(DataModel::Struct { name, fields: fields.push((key, v)) })
        } else {
            None
        },
        DataModel::StructVariant { name, variant_index, variant: vname, fields } => if variant {
            Some(DataModel::StructVariant { name, variant_index, variant: vname, fields: fields.push((key, v)) })
        } else {
            None
        },
        _ => None,
    }
}

/// `top` with the entry `(key, v)` appended, when `top` is a map.
pub open spec fn with_entry(top: DataModel, key: DataModel, v: DataModel) -> Option<DataModel> {
    match top {
        DataModel::Mapping(entries) => Some(DataModel::Mapping(entries.push((key, v)))),
        _ => None,
    }
}

/// The stack with its top value replaced by `top`, if the stack has one and `top` is defined.
pub open spec fn replace_top(stack: Seq<DataModel>, top: Option<DataModel>) -> Option<Seq<DataModel>> {
    match top {
        Some(t) => if stack.len() > 0 {
            Some(stack.drop_last().push(t))
        } else {
            None
        },
        None => None,
    }
}

/// The top of a non-empty stack.
pub open spec fn top_of(stack: Seq<DataModel>) -> DataModel {
    stack.last()
}

/// The stack after adding an element of kind `kind` to its top value, or `None` when the top
/// value does not take it.
pub open spec fn stack_with_element(stack: Seq<DataModel>, kind: ElementKind, v: DataModel) -> Option<
    Seq<DataModel>,
> {
    if stack.len() > 0 {
        replace_top(stack, with_element(top_of(stack), kind, v))
    } else {
        None
    }
}

/// The stack after adding a field to its top value, or `None` when the top value does not take it.
pub open spec fn stack_with_field(stack: Seq<DataModel>, variant: bool, key: Seq<char>, v: DataModel) -> Option<
    Seq<DataModel>,
> {
    if stack.len() > 0 {
        replace_top(stack, with_field(top_of(stack), variant, key, v))
    } else {
        None
    }
}

/// The stack after adding an entry to its top value, or `None` when the top value is not a map.
pub open spec fn stack_with_entry(stack: Seq<DataModel>, key: DataModel, v: DataModel) -> Option<
    Seq<DataModel>,
> {
    if stack.len() > 0 {
        replace_top(stack, with_entry(top_of(stack), key, v))
    } else {
        None
    }
}

/// Reflection data serializer: the values under construction, innermost last, and the map
/// keys still waiting for their values.
#[derive(Clone)]
pub struct Serializer {
    human_readable: bool,
    pending_data: Vec<Data>,
    pending_keys: Vec<Data>,
}

impl Default for Serializer {
    /// A serializer that is not human-readable, with nothing under construction.
    fn default() -> (r: Self)
        ensures
            !r.spec_human_readable(),
            r.pending() == Seq::<DataModel>::empty(),
            r.keys() == Seq::<DataModel>::empty(),
    {
        Serializer::new(false)
    }
}

impl Serializer {
    /// Whether the serializer reports itself as human-readable.
    pub closed spec fn spec_human_readable(&self) -> bool {
        self.human_readable
    }

    /// The values under construction, innermost last.
    pub closed spec fn pending(&self) -> Seq<DataModel> {
        models(self.pending_data@)
    }

    /// The map keys waiting for their values, latest last.
    pub closed spec fn keys(&self) -> Seq<DataModel> {
        models(self.pending_keys@)
    }

    /// A serializer with nothing under construction.
    pub fn new(human_readable: bool) -> (r: Self)
        ensures
            r.spec_human_readable() == human_readable,
            r.pending() == Seq::<DataModel>::empty(),
            r.keys() == Seq::<DataModel>::empty(),
    {
        let r = Serializer { human_readable, pending_data: Vec::new(), pending_keys: Vec::new() };
        assert(r.pending() =~= Seq::<DataModel>::empty());
        assert(r.keys() =~= Seq::<DataModel>::empty());
        r
    }

    /// Whether the serializer reports itself as human-readable.
    pub fn is_human_readable(&self) -> (r: bool)
        ensures
            r == self.spec_human_readable(),
    {
        self.human_readable
    }

    /// Starts a compound value.
    fn begin(&mut self, value: Data)
        ensures
            final(self).pending() == old(self).pending().push(value@),
            final(self).keys() == old(self).keys(),
            final(self).spec_human_readable() == old(self).spec_human_readable(),
    {
        self.pending_data.push(value);
        assert(self.pending() =~= old(self).pending().push(value@));
    }

    /// Starts a sequence.
    pub fn serialize_seq(&mut self, _len: Option<usize>)
        ensures
            final(self).pending() == old(self).pending().push(DataModel::Sequence(Seq::empty())),
            final(self).keys() == old(self).keys(),
            final(self).spec_human_readable() == old(self).spec_human_readable(),
    {
        let v = Data::Sequence(Vec::new());
        assert(v@ == DataModel::Sequence(Seq::empty()));
        self.begin(v);
    }

    /// Starts a tuple.
    pub fn serialize_tuple(&mut self, _len: usize)
        ensures
            final(self).pending() == old(self).pending().push(DataModel::Tuple(Seq::empty())),
            final(self).keys() == old(self).keys(),
            final(self).spec_human_readable() == old(self).spec_human_readable(),
    {
        let v = Data::Tuple(Vec::new());
        assert(v@ == DataModel::Tuple(Seq::empty()));
        self.begin(v);
    }

    /// Starts a tuple struct.
    pub fn serialize_tuple_struct(&mut self, name: &str, _len: usize)
        ensures
            final(self).pending() == old(self).pending().push(
                DataModel::TupleStruct { name: name@, data: Seq::empty() },
            ),
            final(self).keys() == old(self).keys(),
            final(self).spec_human_readable() == old(self).spec_human_readable(),
    {
        let v = Data::TupleStruct { name: String::from_str(name), data: Vec::new() };
        assert(v@ == (DataModel::TupleStruct { name: name@, data: Seq::empty() }));
        self.begin(v);
    }

    /// Starts a tuple variant.
    pub fn serialize_tuple_variant(&mut self, name: &str, variant_index: u32, variant: &str, _len: usize)
        ensures
            final(self).pending() == old(self).pending().push(
                DataModel::TupleVariant { name: name@, variant_index, variant: variant@, data: Seq::empty() },
            ),
            final(self).keys() == old(self).keys(),
            final(self).spec_human_readable() == old(self).spec_human_readable(),
    {
        let v = Data::TupleVariant {
            name: String::from_str(name),
            variant_index,
            variant: String::from_str(variant),
            data: Vec::new(),
        };
        assert(v@ == (DataModel::TupleVariant {
            name: name@,
            variant_index,
            variant: variant@,
            data: Seq::empty(),
        }));
        self.begin(v);
    }

    /// Starts a map.
    pub fn serialize_map(&mut self, _len: Option<usize>)
        ensures
            final(self).pending() == old(self).pending().push(DataModel::Mapping(Seq::empty())),
            final(self).keys() == old(self).keys(),
            final(self).spec_human_readable() == old(self).spec_human_readable(),
    {
        let v = Data::Mapping(Vec::new());
        assert(v@ == DataModel::Mapping(Seq::empty()));
        self.begin(v);
    }

    /// Starts a struct.
    pub fn serialize_struct(&mut self, name: &str, _len: usize)
        ensures
            final(self).pending() == old(self).pending().push(
                DataModel::Struct { name: name@, fields: Seq::empty() },
            ),
            final(self).keys() == old(self).keys(),
            final(self).spec_human_readable() == old(self).spec_human_readable(),
    {
        let v = Data::Struct { name: String::from_str(name), fields: Vec::new() };
        assert(v@ == (DataModel::Struct { name: name@, fields: Seq::empty() }));
        self.begin(v);
    }

    /// Starts a struct variant.
    pub fn serialize_struct_variant(&mut self, name: &str, variant_index: u32, variant: &str, _len: usize)
        ensures
            final(self).pending() == old(self).pending().push(
                DataModel::StructVariant { name: name@, variant_index, variant: variant@, fields: Seq::empty() },
            ),
            final(self).keys() == old(self).keys(),
            final(self).spec_human_readable() == old(self).spec_human_readable(),
    {
        let v = Data::StructVariant {
            name: String::from_str(name),
            variant_index,
            variant: String::from_str(variant),
            fields: Vec::new(),
        };
        assert(v@ == (DataModel::StructVariant {
            name: name@,
            variant_index,
            variant: variant@,
            fields: Seq::empty(),
        }));
        self.begin(v);
    }

    /// Removes the value under construction, if there is one.
    fn pop_pending(&mut self) -> (r: Option<Data>)
        ensures
            old(self).pending().len() == 0 ==> r is None && final(self).pending() == old(self).pending(),
            old(self).pending().len() > 0 ==> r is Some && r->0@ == old(self).pending().last()
                && final(self).pending() == old(self).pending().drop_last(),
            final(self).keys() == old(self).keys(),
            final(self).spec_human_readable() == old(self).spec_human_readable(),
    {
        let r = self.pending_data.pop();
        assert(self.pending() =~= if old(self).pending().len() > 0 {
            old(self).pending().drop_last()
        } else {
            old(self).pending()
        });
        r
    }

    /// Adds an element to the compound value under construction, which must be of kind `kind`.
    pub fn serialize_element(&mut self, kind: ElementKind, value: Data) -> (r: Result<(), Error>)
        ensures
            match stack_with_element(old(self).pending(), kind, value@) {
                Some(s) => r is Ok && final(self).pending() == s,
                None => r matches Err(e) && e is InvalidPendingData && final(self).pending() == old(self).pending(),
            },
            final(self).keys() == old(self).keys(),
            final(self).spec_human_readable() == old(self).spec_human_readable(),
    {
        let ghost before = self.pending();
        match self.pop_pending() {
            None => Err(Error::InvalidPendingData),
            Some(top) => {
                let ghost top_model = top@;
                let (new_top, ok) = match (kind, top) {
                    (ElementKind::Sequence, Data::Sequence(mut v)) => {
                        let ghost old_v = v@;
                        v.push(value);
                        assert(models(v@) =~= models(old_v).push(value@));
                        (Data::Sequence(v), true)
                    },
                    (ElementKind::Tuple, Data::Tuple(mut v)) => {
                        let ghost old_v = v@;
                        v.push(value);
                        assert(models(v@) =~= models(old_v).push(value@));
                        (Data::Tuple(v), true)
                    },
                    (ElementKind::TupleStruct, Data::TupleStruct { name, mut data }) => {
                        let ghost old_v = data@;
                        data.push(value);
                        assert(models(data@) =~= models(old_v).push(value@));
                        (Data::TupleStruct { name, data }, true)
                    },
                    (ElementKind::TupleVariant, Data::TupleVariant { name, variant_index, variant, mut data }) => {
                        let ghost old_v = data@;
                        data.push(value);
                        assert(models(data@) =~= models(old_v).push(value@));
                        (Data::TupleVariant { name, variant_index, variant, data }, true)
                    },
                    (_, other) => (other, false),
                };
                assert(ok ==> with_element(top_model, kind, value@) == Some(new_top@));
                assert(!ok ==> with_element(top_model, kind, value@) is None && new_top@ == top_model);
                self.begin(new_top);
                if ok {
                    Ok(())
                } else {
                    assert(self.pending() =~= before);
                    Err(Error::InvalidPendingData)
                }
            },
        }
    }

    /// Adds the field `(key, value)` to the struct (or, with `variant`, the struct variant)
    /// under construction.
    pub fn serialize_field(&mut self, variant: bool, key: &str, value: Data) -> (r: Result<(), Error>)
        ensures
            match stack_with_field(old(self).pending(), variant, key@, value@) {
                Some(s) => r is Ok && final(self).pending() == s,
                None => r matches Err(e) && e is InvalidPendingData && final(self).pending() == old(self).pending(),
            },
            final(self).keys() == old(self).keys(),
            final(self).spec_human_readable() == old(self).spec_human_readable(),
    {
        let ghost before = self.pending();
        match self.pop_pending() {
            None => Err(Error::InvalidPendingData),
            Some(top) => {
                let ghost top_model = top@;
                let (new_top, ok) = match top {
                    Data::Struct { name, mut fields } => {
                        if !variant {
                            let ghost old_f = fields@;
                            fields.push((String::from_str(key), value));
                            assert(field_models(fields@) =~= field_models(old_f).push((key@, value@)));
                            (Data::Struct { name, fields }, true)
                        } else {
                            (Data::Struct { name, fields }, false)
                        }
                    },
                    Data::StructVariant { name, variant_index, variant: vname, mut fields } => {
                        if variant {
                            let ghost old_f = fields@;
                            fields.push((String::from_str(key), value));
                            assert(field_models(fields@) =~= field_models(old_f).push((key@, value@)));
                            (Data::StructVariant { name, variant_index, variant: vname, fields }, true)
                        } else {
                            (Data::StructVariant { name, variant_index, variant: vname, fields }, false)
                        }
                    },
                    other => (other, false),
                };
                assert(ok ==> with_field(top_model, variant, key@, value@) == Some(new_top@));
                assert(!ok ==> with_field(top_model, variant, key@, value@) is None && new_top@ == top_model);
                self.begin(new_top);
                if ok {
                    Ok(())
                } else {
                    assert(self.pending() =~= before);
                    Err(Error::InvalidPendingData)
                }
            },
        }
    }

    /// Records a map key, to be paired with the next map value.
    pub fn serialize_key(&mut self, key: Data)
        ensures
            final(self).keys() == old(self).keys().push(key@),
            final(self).pending() == old(self).pending(),
            final(self).spec_human_readable() == old(self).spec_human_readable(),
    {
        self.pending_keys.push(key);
        assert(self.keys() =~= old(self).keys().push(key@));
    }

    /// Takes the latest map key that is waiting for its value.
    pub fn take_key(&mut self) -> (r: Result<Data, Error>)
        ensures
            old(self).keys().len() > 0 ==> r is Ok && r->Ok_0@ == old(self).keys().last()
                && final(self).keys() == old(self).keys().drop_last(),
            old(self).keys().len() == 0 ==> (r matches Err(e) && e is MissingPendingKey && final(self).keys()
                == old(self).keys()),
            final(self).pending() == old(self).pending(),
            final(self).spec_human_readable() == old(self).spec_human_readable(),
    {
        let r = self.pending_keys.pop();
        assert(self.keys() =~= if old(self).keys().len() > 0 {
            old(self).keys().drop_last()
        } else {
            old(self).keys()
        });
        match r {
            Some(k) => Ok(k),
            None => Err(Error::MissingPendingKey),
        }
    }

    /// Adds the entry `(key, value)` to the map under construction.
    pub fn serialize_entry(&mut self, key: Data, value: Data) -> (r: Result<(), Error>)
        ensures
            match stack_with_entry(old(self).pending(), key@, value@) {
                Some(s) => r is Ok && final(self).pending() == s,
                None => r matches Err(e) && e is InvalidPendingData && final(self).pending() == old(self).pending(),
            },
            final(self).keys() == old(self).keys(),
            final(self).spec_human_readable() == old(self).spec_human_readable(),
    {
        let ghost before = self.pending();
        match self.pop_pending() {
            None => Err(Error::InvalidPendingData),
            Some(top) => {
                let ghost top_model = top@;
                let (new_top, ok) = match top {
                    Data::Mapping(mut entries) => {
                        let ghost old_e = entries@;
                        entries.push((key, value));
                        assert(pair_models(entries@) =~= pair_models(old_e).push((key@, value@)));
                        (Data::Mapping(entries), true)
                    },
                    other => (other, false),
                };
                assert(ok ==> with_entry(top_model, key@, value@) == Some(new_top@));
                assert(!ok ==> with_entry(top_model, key@, value@) is None && new_top@ == top_model);
                self.begin(new_top);
                if ok {
                    Ok(())
                } else {
                    assert(self.pending() =~= before);
                    Err(Error::InvalidPendingData)
                }
            },
        }
    }

    /// Pairs `value` with the latest map key that is waiting for its value, and adds the
    /// entry to the map under construction.
    pub fn serialize_value(&mut self, value: Data) -> (r: Result<(), Error>)
        ensures
            old(self).keys().len() == 0 ==> (r matches Err(e) && e is MissingPendingKey && final(self).keys()
                == old(self).keys() && final(self).pending() == old(self).pending()),
            old(self).keys().len() > 0 ==> final(self).keys() == old(self).keys().drop_last() && match stack_with_entry(
                old(self).pending(),
                old(self).keys().last(),
                value@,
            ) {
                Some(s) => r is Ok && final(self).pending() == s,
                None => r matches Err(e) && e is InvalidPendingData && final(self).pending() == old(self).pending(),
            },
            final(self).spec_human_readable() == old(self).spec_human_readable(),
    {
        let key = match self.take_key() {
            Ok(k) => k,
            Err(e) => return Err(e),
        };
        self.serialize_entry(key, value)
    }

    /// Finishes the compound value under construction and hands it out.
    pub fn end(&mut self) -> (r: Result<Data, Error>)
        ensures
            old(self).pending().len() > 0 ==> r is Ok && r->Ok_0@ == old(self).pending().last()
                && final(self).pending() == old(self).pending().drop_last(),
            old(self).pending().len() == 0 ==> (r matches Err(e) && e is MissingPendingData
                && final(self).pending() == old(self).pending()),
            final(self).keys() == old(self).keys(),
            final(self).spec_human_readable() == old(self).spec_human_readable(),
    {
        match self.pop_pending() {
            Some(d) => Ok(d),
            None => Err(Error::MissingPendingData),
        }
    }
}

/// The stack after adding the elements `vs` in turn to its top value, or `None` when one of
/// them is refused.
pub open spec fn stack_with_elements(stack: Seq<DataModel>, kind: ElementKind, vs: Seq<DataModel>) -> Option<
    Seq<DataModel>,
>
    decreases vs.len(),
{
    if vs.len() == 0 {
        Some(stack)
    } else {
        match stack_with_element(stack, kind, vs[0]) {
            Some(s) => stack_with_elements(s, kind, vs.drop_first()),
            None => None,
        }
    }
}

/// The compound value `top` with the elements `vs` appended, when it is of kind `kind`.
pub open spec fn appended(top: DataModel, kind: ElementKind, vs: Seq<DataModel>) -> Option<DataModel> {
    match (kind, top) {
        (ElementKind::Sequence, DataModel::Sequence(s)) => Some(DataModel::Sequence(s + vs)),
        (ElementKind::Tuple, DataModel::Tuple(s)) => Some(DataModel::Tuple(s + vs)),
        (ElementKind::TupleStruct, DataModel::TupleStruct { name, data }) => Some(
            DataModel::TupleStruct { name, data: data + vs },
        ),
        (ElementKind::TupleVariant, DataModel::TupleVariant { name, variant_index, variant, data }) => Some(
            DataModel::TupleVariant { name, variant_index, variant, data: data + vs },
        ),
        _ => None,
    }
}

/// Elements land in the innermost value under construction, in the order they are added, and
/// nothing beneath it changes.
pub proof fn law_elements_collected(
    stack: Seq<DataModel>,
    top: DataModel,
    kind: ElementKind,
    vs: Seq<DataModel>,
)
    requires
        appended(top, kind, Seq::empty()) is Some,
    ensures
        stack_with_elements(stack.push(top), kind, vs) == Some(stack.push(appended(top, kind, vs)->0)),
    decreases vs.len(),
{
    if vs.len() == 0 {
        assert(appended(top, kind, vs)->0 == top) by {
            match (kind, top) {
                (ElementKind::Sequence, DataModel::Sequence(s)) => assert(s + vs =~= s),
                (ElementKind::Tuple, DataModel::Tuple(s)) => assert(s + vs =~= s),
                (ElementKind::TupleStruct, DataModel::TupleStruct { data, .. }) => assert(data + vs =~= data),
                (ElementKind::TupleVariant, DataModel::TupleVariant { data, .. }) => assert(data + vs =~= data),
                _ => {},
            }
        }
    } else {
        let next = with_element(top, kind, vs[0])->0;
        assert(stack.push(top).drop_last() =~= stack);
        assert(stack_with_element(stack.push(top), kind, vs[0]) == Some(stack.push(next)));
        law_elements_collected(stack, next, kind, vs.drop_first());
        assert(appended(next, kind, vs.drop_first()) == appended(top, kind, vs)) by {
            match (kind, top) {
                (ElementKind::Sequence, DataModel::Sequence(s)) => assert(s.push(vs[0]) + vs.drop_first() =~= s + vs),
                (ElementKind::Tuple, DataModel::Tuple(s)) => assert(s.push(vs[0]) + vs.drop_first() =~= s + vs),
                (ElementKind::TupleStruct, DataModel::TupleStruct { data, .. }) => assert(data.push(vs[0])
                    + vs.drop_first() =~= data + vs),
                (ElementKind::TupleVariant, DataModel::TupleVariant { data, .. }) => assert(data.push(vs[0])
                    + vs.drop_first() =~= data + vs),
                _ => {},
            }
        }
    }
}

/// Adding an element to a value of another kind, or with nothing under construction, is
/// refused; the serializer's ensures then leave its stack as it was.
pub proof fn law_element_of_wrong_kind_refused(stack: Seq<DataModel>, kind: ElementKind, v: DataModel)
    requires
        stack.len() == 0 || with_element(stack.last(), kind, v) is None,
    ensures
        stack_with_element(stack, kind, v) is None,
{
}

/// Finishing right after starting a value hands that value back and restores the stack.
pub proof fn law_end_undoes_begin(stack: Seq<DataModel>, top: DataModel)
    ensures
        stack.push(top).last() == top,
        stack.push(top).drop_last() == stack,
{
    assert(stack.push(top).drop_last() =~= stack);
}

/// Taking a key right after recording it gives it back and restores the waiting keys.
pub proof fn law_take_key_undoes_serialize_key(keys: Seq<DataModel>, key: DataModel)
    ensures
        keys.push(key).last() == key,
        keys.push(key).drop_last() == keys,
{
    assert(keys.push(key).drop_last() =~= keys);
}

} // verus!
