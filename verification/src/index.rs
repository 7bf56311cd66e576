//! Indices into [`Data`] values.
use vstd::prelude::*;

use crate::data::{
    field_models, models, first_match, lemma_first_match, has_key, has_name, lemma_first_match_agree, pair_models, position_of_key,
    position_of_name, group_models, data_equal, Data, DataModel,
};

verus! {

broadcast use group_models;

/// Type for indexing [`Data`].
pub enum Index {
    /// A position in a sequence, tuple or tuple-like value; `0` for a newtype's contents.
    Integer(usize),
    /// A field name of a struct or struct variant.
    String(String),
    /// A key of a map.
    Data(Data),
}

/// Mathematical model of an [`Index`].
pub enum IndexModel {
    Integer(usize),
    String(Seq<char>),
    Data(DataModel),
}

impl Clone for Index {
    /// A deep copy of the index.
    fn clone(&self) -> (r: Self)
        ensures
            r@ == self@,
    {
        match self {
            Index::Integer(i) => Index::Integer(*i),
            Index::String(s) => Index::String(s.clone()),
            Index::Data(d) => Index::Data(crate::data::data_clone(d)),
        }
    }
}

impl View for Index {
    type V = IndexModel;

    open spec fn view(&self) -> IndexModel {
        match self {
            Index::Integer(i) => IndexModel::Integer(*i),
            Index::String(s) => IndexModel::String(s@),
            Index::Data(d) => IndexModel::Data(d@),
        }
    }
}

/// Matches a field of a struct model whose name is `key`.
pub open spec fn field_named(key: Seq<char>) -> spec_fn((Seq<char>, DataModel)) -> bool {
    |f: (Seq<char>, DataModel)| f.0 == key
}

/// Matches an entry of a map model whose key equals `key` (see [`data_equal`]).
pub open spec fn entry_keyed(key: DataModel) -> spec_fn((DataModel, DataModel)) -> bool {
    |e: (DataModel, DataModel)| data_equal(e.0, key)
}

/// The element of a sequence model at position `i`, if there is one.
pub open spec fn element_at(v: Seq<DataModel>, i: usize) -> Option<DataModel> {
    if i < v.len() {
        Some(v[i as int])
    } else {
        None
    }
}

/// The value of the first field named `key`, if there is one.
pub open spec fn field_value(fields: Seq<(Seq<char>, DataModel)>, key: Seq<char>) -> Option<DataModel> {
    match first_match(fields, field_named(key)) {
        Some(p) => Some(fields[p].1),
        None => None,
    }
}

/// The first key equal to `key` in a map's entries (the key, not its value), if there is one.
pub open spec fn entry_key(entries: Seq<(DataModel, DataModel)>, key: DataModel) -> Option<DataModel> {
    match first_match(entries, entry_keyed(key)) {
        Some(p) => Some(entries[p].0),
        None => None,
    }
}

/// What indexing `d` by `i` yields, or `None` where indexing fails.
pub open spec fn index_model(i: IndexModel, d: DataModel) -> Option<DataModel> {
    match i {
        IndexModel::Integer(n) => match d {
            DataModel::NewtypeStruct { data, .. } => if n == 0 {
                Some(*data)
            } else {
                None
            },
            DataModel::NewtypeVariant { data, .. } => if n == 0 {
                Some(*data)
            } else {
                None
            },
            DataModel::Sequence(v) => element_at(v, n),
            DataModel::Tuple(v) => element_at(v, n),
            DataModel::TupleStruct { data, .. } => element_at(data, n),
            DataModel::TupleVariant { data, .. } => element_at(data, n),
            _ => None,
        },
        IndexModel::String(key) => match d {
            DataModel::Struct { fields, .. } => field_value(fields, key),
            DataModel::StructVariant { fields, .. } => field_value(fields, key),
            _ => None,
        },
        IndexModel::Data(key) => match d {
            DataModel::Mapping(entries) => entry_key(entries, key),
            _ => None,
        },
    }
}

/// The first field of a list of fields named `key` is found at the same position in the
/// models of the fields.
pub proof fn lemma_field_position(fields: Seq<(String, Data)>, key: Seq<char>)
    ensures
        first_match(field_models(fields), field_named(key)) == first_match(fields, has_name::<Data>(key)),
{
    lemma_first_match_agree(field_models(fields), field_named(key), fields, has_name::<Data>(key));
}

/// The first entry of a map keyed by `key` is found at the same position in the models of
/// the entries.
pub proof fn lemma_entry_position(entries: Seq<(Data, Data)>, key: DataModel)
    ensures
        first_match(pair_models(entries), entry_keyed(key)) == first_match(entries, has_key::<Data>(key)),
{
    lemma_first_match_agree(pair_models(entries), entry_keyed(key), entries, has_key::<Data>(key));
}

/// `new` is `old` with the value that `i` indexes replaced by `child`.
pub open spec fn replaced(i: IndexModel, old: Data, new: Data, child: Data) -> bool {
    match i {
        IndexModel::Integer(n) => match old {
            Data::NewtypeStruct { name, .. } => new == (Data::NewtypeStruct { name, data: Box::new(child) }),
            Data::NewtypeVariant { name, variant_index, variant, .. } => new == (Data::NewtypeVariant {
                name,
                variant_index,
                variant,
                data: Box::new(child),
            }),
            Data::Sequence(v) => new is Sequence && new->Sequence_0@ == v@.update(n as int, child),
            Data::Tuple(v) => new is Tuple && new->Tuple_0@ == v@.update(n as int, child),
            Data::TupleStruct { name, data } => new is TupleStruct && new->TupleStruct_name == name
                && new->TupleStruct_data@ == data@.update(n as int, child),
            Data::TupleVariant { name, variant_index, variant, data } => new is TupleVariant
                && new->TupleVariant_name == name && new->TupleVariant_variant_index == variant_index
                && new->TupleVariant_variant == variant && new->TupleVariant_data@ == data@.update(
                n as int,
                child,
            ),
            _ => false,
        },
        IndexModel::String(key) => match old {
            Data::Struct { name, fields } => {
                let p = first_match(fields@, has_name::<Data>(key))->0;
                new is Struct && new->Struct_name == name && new->Struct_fields@ == fields@.update(
                    p,
                    (fields@[p].0, child),
                )
            },
            Data::StructVariant { name, variant_index, variant, fields } => {
                let p = first_match(fields@, has_name::<Data>(key))->0;
                new is StructVariant && new->StructVariant_name == name
                    && new->StructVariant_variant_index == variant_index
                    && new->StructVariant_variant == variant && new->StructVariant_fields@
                    == fields@.update(p, (fields@[p].0, child))
            },
            _ => false,
        },
        IndexModel::Data(key) => match old {
            Data::Mapping(entries) => {
                let p = first_match(entries@, has_key::<Data>(key))->0;
                new is Mapping && new->Mapping_0@ == entries@.update(p, (child, entries@[p].1))
            },
            _ => false,
        },
    }
}

/// The model `d` with the value that `i` indexes replaced by `c`.
pub open spec fn update_model(i: IndexModel, d: DataModel, c: DataModel) -> DataModel {
    match i {
        IndexModel::Integer(n) => match d {
            DataModel::NewtypeStruct { name, .. } => DataModel::NewtypeStruct { name, data: Box::new(c) },
            DataModel::NewtypeVariant { name, variant_index, variant, .. } => DataModel::NewtypeVariant {
                name,
                variant_index,
                variant,
                data: Box::new(c),
            },
            DataModel::Sequence(v) => DataModel::Sequence(v.update(n as int, c)),
            DataModel::Tuple(v) => DataModel::Tuple(v.update(n as int, c)),
            DataModel::TupleStruct { name, data } => DataModel::TupleStruct { name, data: data.update(n as int, c) },
            DataModel::TupleVariant { name, variant_index, variant, data } => DataModel::TupleVariant {
                name,
                variant_index,
                variant,
                data: data.update(n as int, c),
            },
            _ => d,
        },
        IndexModel::String(key) => match d {
            DataModel::Struct { name, fields } => {
                let p = first_match(fields, field_named(key))->0;
                DataModel::Struct { name, fields: fields.update(p, (fields[p].0, c)) }
            },
            DataModel::StructVariant { name, variant_index, variant, fields } => {
                let p = first_match(fields, field_named(key))->0;
                DataModel::StructVariant { name, variant_index, variant, fields: fields.update(p, (fields[p].0, c)) }
            },
            _ => d,
        },
        IndexModel::Data(key) => match d {
            DataModel::Mapping(entries) => {
                let p = first_match(entries, entry_keyed(key))->0;
                DataModel::Mapping(entries.update(p, (c, entries[p].1)))
            },
            _ => d,
        },
    }
}

/// Replacing an indexed value, seen through the models.
pub broadcast proof fn lemma_replaced_model(i: IndexModel, old: Data, new: Data, child: Data)
    ensures
        index_model(i, old@) is Some && #[trigger] replaced(i, old, new, child) ==> new@ == update_model(
            i,
            old@,
            child@,
        ),
{
    if !(index_model(i, old@) is Some && replaced(i, old, new, child)) {
        return;
    }
    match i {
        IndexModel::Integer(n) => match old {
            Data::Sequence(v) => {
                assert(models(new->Sequence_0@) =~= models(v@).update(n as int, child@));
            },
            Data::Tuple(v) => {
                assert(models(new->Tuple_0@) =~= models(v@).update(n as int, child@));
            },
            Data::TupleStruct { name, data } => {
                assert(models(new->TupleStruct_data@) =~= models(data@).update(n as int, child@));
            },
            Data::TupleVariant { name, variant_index, variant, data } => {
                assert(models(new->TupleVariant_data@) =~= models(data@).update(n as int, child@));
            },
            _ => {},
        },
        IndexModel::String(key) => match old {
            Data::Struct { name, fields } => {
                lemma_field_position(fields@, key);
                let p = first_match(fields@, has_name::<Data>(key))->0;
                lemma_first_match(fields@, has_name::<Data>(key));
                assert(field_models(new->Struct_fields@) =~= field_models(fields@).update(
                    p,
                    (field_models(fields@)[p].0, child@),
                ));
            },
            Data::StructVariant { name, variant_index, variant, fields } => {
                lemma_field_position(fields@, key);
                let p = first_match(fields@, has_name::<Data>(key))->0;
                lemma_first_match(fields@, has_name::<Data>(key));
                assert(field_models(new->StructVariant_fields@) =~= field_models(fields@).update(
                    p,
                    (field_models(fields@)[p].0, child@),
                ));
            },
            _ => {},
        },
        IndexModel::Data(key) => match old {
            Data::Mapping(entries) => {
                lemma_entry_position(entries@, key);
                let p = first_match(entries@, has_key::<Data>(key))->0;
                lemma_first_match(entries@, has_key::<Data>(key));
                assert(pair_models(new->Mapping_0@) =~= pair_models(entries@).update(
                    p,
                    (child@, pair_models(entries@)[p].1),
                ));
            },
            _ => {},
        },
    }
}

impl Index {
    /// The value that this index selects in `data`.
    ///
    /// An integer selects an element of a sequence, tuple, tuple struct or tuple variant, or
    /// (as `0`) the contents of a newtype; a string selects the first field of that name of a
    /// struct or struct variant; a data index selects the first key of a map equal to it, and
    /// yields that key.
    pub fn index<'a>(&self, data: &'a Data) -> (r: &'a Data)
        requires
            index_model(self@, data@) is Some,
        ensures
            r@ == index_model(self@, data@)->0,
    {
        match self {
            Index::Integer(index) => match data {
                Data::NewtypeStruct { data, .. } => data,
                Data::NewtypeVariant { data, .. } => data,
                Data::Sequence(seq) => {
                    assert(data@ == DataModel::Sequence(models(seq@)));
                    &seq[*index]
                },
                Data::Tuple(tuple) => {
                    assert(data@ == DataModel::Tuple(models(tuple@)));
                    &tuple[*index]
                },
                Data::TupleStruct { name, data: items } => {
                    assert(data@ == (DataModel::TupleStruct { name: name@, data: models(items@) }));
                    &items[*index]
                },
                Data::TupleVariant { name, variant_index, variant, data: items } => {
                    assert(data@ == (DataModel::TupleVariant {
                        name: name@,
                        variant_index: *variant_index,
                        variant: variant@,
                        data: models(items@),
                    }));
                    &items[*index]
                },
                _ => {
                    proof {
                        assert(false);
                    }
                    data
                },
            },
            Index::String(key) => match data {
                Data::Struct { fields, .. } => {
                    proof {
                        lemma_field_position(fields@, key@);
                    }
                    let p = position_of_name(fields, key.as_str()).unwrap();
                    &fields[p].1
                },
                Data::StructVariant { fields, .. } => {
                    proof {
                        lemma_field_position(fields@, key@);
                    }
                    let p = position_of_name(fields, key.as_str()).unwrap();
                    &fields[p].1
                },
                _ => {
                    proof {
                        assert(false);
                    }
                    data
                },
            },
            Index::Data(key) => match data {
                Data::Mapping(entries) => {
                    proof {
                        lemma_entry_position(entries@, key@);
                    }
                    let p = position_of_key(entries, key).unwrap();
                    &entries[p].0
                },
                _ => {
                    proof {
                        assert(false);
                    }
                    data
                },
            },
        }
    }

    /// Mutable access to the value that this index selects in `data` (see [`Index::index`]).
    pub fn index_mut<'a>(&self, data: &'a mut Data) -> (r: &'a mut Data)
        requires
            index_model(self@, old(data)@) is Some,
        ensures
            (*r)@ == index_model(self@, old(data)@)->0,
            replaced(self@, *old(data), *final(data), *final(r)),
    {
        let ghost before = *data;
        match self {
            Index::Integer(index) => match data {
                Data::NewtypeStruct { data, .. } => data,
                Data::NewtypeVariant { data, .. } => data,
                Data::Sequence(seq) => {
                    assert(before@ == DataModel::Sequence(models(seq@)));
                    &mut seq[*index]
                },
                Data::Tuple(tuple) => {
                    assert(before@ == DataModel::Tuple(models(tuple@)));
                    &mut tuple[*index]
                },
                Data::TupleStruct { name, data: items } => {
                    assert(before@ == (DataModel::TupleStruct { name: name@, data: models(items@) }));
                    &mut items[*index]
                },
                Data::TupleVariant { name, variant_index, variant, data: items } => {
                    assert(before@ == (DataModel::TupleVariant {
                        name: name@,
                        variant_index: *variant_index,
                        variant: variant@,
                        data: models(items@),
                    }));
                    &mut items[*index]
                },
                _ => {
                    proof {
                        assert(false);
                    }
                    data
                },
            },
            Index::String(key) => match data {
                Data::Struct { fields, .. } => {
                    proof {
                        lemma_field_position(fields@, key@);
                    }
                    let p = position_of_name(fields, key.as_str()).unwrap();
                    &mut fields[p].1
                },
                Data::StructVariant { fields, .. } => {
                    proof {
                        lemma_field_position(fields@, key@);
                    }
                    let p = position_of_name(fields, key.as_str()).unwrap();
                    &mut fields[p].1
                },
                _ => {
                    proof {
                        assert(false);
                    }
                    data
                },
            },
            Index::Data(key) => match data {
                Data::Mapping(entries) => {
                    proof {
                        lemma_entry_position(entries@, key@);
                    }
                    let p = position_of_key(entries, key).unwrap();
                    &mut entries[p].0
                },
                _ => {
                    proof {
                        assert(false);
                    }
                    data
                },
            },
        }
    }

    /// The value that this index selects in `data`, taken out of it (see [`Index::index`]).
    pub fn into_index(&self, data: Data) -> (r: Data)
        requires
            index_model(self@, data@) is Some,
        ensures
            r@ == index_model(self@, data@)->0,
    {
        let ghost before = data;
        match self {
            Index::Integer(index) => match data {
                Data::NewtypeStruct { data, .. } => *data,
                Data::NewtypeVariant { data, .. } => *data,
                Data::Sequence(mut seq) => {
                    assert(before@ == DataModel::Sequence(models(seq@)));
                    seq.remove(*index)
                },
                Data::Tuple(mut tuple) => {
                    assert(before@ == DataModel::Tuple(models(tuple@)));
                    tuple.remove(*index)
                },
                Data::TupleStruct { name, data: mut items } => {
                    assert(before@ == (DataModel::TupleStruct { name: name@, data: models(items@) }));
                    items.remove(*index)
                },
                Data::TupleVariant { name, variant_index, variant, data: mut items } => {
                    assert(before@ == (DataModel::TupleVariant {
                        name: name@,
                        variant_index: variant_index,
                        variant: variant@,
                        data: models(items@),
                    }));
                    items.remove(*index)
                },
                _ => {
                    proof {
                        assert(false);
                    }
                    Data::Unit
                },
            },
            Index::String(key) => match data {
                Data::Struct { mut fields, .. } => {
                    proof {
                        lemma_field_position(fields@, key@);
                    }
                    let p = position_of_name(&fields, key.as_str()).unwrap();
                    fields.remove(p).1
                },
                Data::StructVariant { mut fields, .. } => {
                    proof {
                        lemma_field_position(fields@, key@);
                    }
                    let p = position_of_name(&fields, key.as_str()).unwrap();
                    fields.remove(p).1
                },
                _ => {
                    proof {
                        assert(false);
                    }
                    Data::Unit
                },
            },
            Index::Data(key) => match data {
                Data::Mapping(mut entries) => {
                    proof {
                        lemma_entry_position(entries@, key@);
                    }
                    let p = position_of_key(&entries, key).unwrap();
                    entries.remove(p).0
                },
                _ => {
                    proof {
                        assert(false);
                    }
                    Data::Unit
                },
            },
        }
    }
}

} // verus!
