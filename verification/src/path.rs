//! Paths through nested [`Data`] values.
use vstd::prelude::*;

use crate::data::{group_models, Data, DataModel};
use crate::data::{first_match, lemma_first_match, lemma_first_match_agree};
use crate::index::{field_named, index_model, lemma_replaced_model, update_model, Index, IndexModel};

verus! {

broadcast use group_models;

/// Type for traversing nested [`Data`] structures: a non-empty chain of indices.
pub struct Path {
    index: Index,
    next: Option<Box<Path>>,
}

/// The value reached from `d` by following the indices of `path` in turn, or `None` where one
/// of them fails.
pub open spec fn walk_model(path: Seq<IndexModel>, d: DataModel) -> Option<DataModel>
    decreases path.len(),
{
    if path.len() == 0 {
        Some(d)
    } else {
        match index_model(path[0], d) {
            Some(c) => walk_model(path.drop_first(), c),
            None => None,
        }
    }
}

/// `d` with the value reached by following `path` replaced by `c`.
pub open spec fn path_update(path: Seq<IndexModel>, d: DataModel, c: DataModel) -> DataModel
    decreases path.len(),
{
    if path.len() == 0 {
        c
    } else {
        match index_model(path[0], d) {
            Some(child) => update_model(path[0], d, path_update(path.drop_first(), child, c)),
            None => d,
        }
    }
}

/// Whether no index of `path` is a map key.
pub open spec fn without_map_keys(path: Seq<IndexModel>) -> bool {
    forall|i: int| 0 <= i < path.len() ==> !(#[trigger] path[i] is Data)
}

/// Following `p + q` from `d` is following `p` and then `q` from where `p` leads.
pub proof fn law_walk_concat(p: Seq<IndexModel>, q: Seq<IndexModel>, d: DataModel)
    ensures
        walk_model(p + q, d) == match walk_model(p, d) {
            Some(m) => walk_model(q, m),
            None => None,
        },
    decreases p.len(),
{
    if p.len() > 0 {
        assert((p + q).drop_first() =~= p.drop_first() + q);
        assert((p + q)[0] == p[0]);
        if let Some(c) = index_model(p[0], d) {
            law_walk_concat(p.drop_first(), q, c);
        }
    } else {
        assert(p + q =~= q);
    }
}

/// Replacing the value that an index selects and selecting again gives the new value, for
/// indices that are not map keys.
pub proof fn law_index_after_update(i: IndexModel, d: DataModel, c: DataModel)
    requires
        index_model(i, d) is Some,
        !(i is Data),
    ensures
        index_model(i, update_model(i, d, c)) == Some(c),
{
    match i {
        IndexModel::String(key) => match d {
            DataModel::Struct { name, fields } => {
                lemma_first_match(fields, field_named(key));
                let p = first_match(fields, field_named(key))->0;
                let new_fields = fields.update(p, (fields[p].0, c));
                lemma_first_match_agree(new_fields, field_named(key), fields, field_named(key));
            },
            DataModel::StructVariant { name, variant_index, variant, fields } => {
                lemma_first_match(fields, field_named(key));
                let p = first_match(fields, field_named(key))->0;
                let new_fields = fields.update(p, (fields[p].0, c));
                lemma_first_match_agree(new_fields, field_named(key), fields, field_named(key));
            },
            _ => {},
        },
        _ => {},
    }
}

/// Writing a value at the end of a path and then walking the path reads that value back, for
/// paths without map keys.
pub proof fn law_walk_after_update(p: Seq<IndexModel>, d: DataModel, c: DataModel)
    requires
        walk_model(p, d) is Some,
        without_map_keys(p),
    ensures
        walk_model(p, path_update(p, d, c)) == Some(c),
    decreases p.len(),
{
    if p.len() > 0 {
        let child = index_model(p[0], d)->0;
        let rest = p.drop_first();
        assert(without_map_keys(rest)) by {
            assert forall|i: int| 0 <= i < rest.len() implies !(#[trigger] rest[i] is Data) by {
                assert(rest[i] == p[i + 1]);
            }
        }
        assert(!(p[0] is Data));
        law_walk_after_update(rest, child, c);
        law_index_after_update(p[0], d, path_update(rest, child, c));
    }
}

impl Path {
    /// The indices of this path, outermost first.
    pub closed spec fn model(&self) -> Seq<IndexModel>
        decreases self,
    {
        match &self.next {
            Some(n) => seq![self.index@] + n.model(),
            None => seq![self.index@],
        }
    }

    /// A path is never empty.
    proof fn lemma_non_empty(&self)
        ensures
            self@.len() >= 1,
            self@[0] == self.index@,
        decreases self,
    {
        if let Some(n) = &self.next {
            n.lemma_non_empty();
        }
    }

    /// The indices after the first are those of the rest of the path.
    proof fn lemma_unfold(&self)
        ensures
            match &self.next {
                Some(n) => self@.drop_first() == n@,
                None => self@.drop_first() == Seq::<IndexModel>::empty(),
            },
    {
        match &self.next {
            Some(n) => {
                assert(self@.drop_first() =~= n@);
            },
            None => {
                assert(self@.drop_first() =~= Seq::<IndexModel>::empty());
            },
        }
    }

    /// A path of a single integer index.
    pub fn integer(index: usize) -> (r: Path)
        ensures
            r@ == seq![IndexModel::Integer(index)],
    {
        Path { index: Index::Integer(index), next: None }
    }

    /// A path of a single field name.
    pub fn string(index: &str) -> (r: Path)
        ensures
            r@ == seq![IndexModel::String(index@)],
    {
        Path { index: Index::String(String::from_str(index)), next: None }
    }

    /// A path of a single map key.
    pub fn data(index: Data) -> (r: Path)
        ensures
            r@ == seq![IndexModel::Data(index@)],
    {
        Path { index: Index::Data(index), next: None }
    }

    /// Append a new [`Path`] to this [`Path`].
    pub fn push(self, new: Path) -> (r: Path)
        ensures
            r@ == self@ + new@,
        decreases self,
    {
        let Path { index, next } = self;
        let ghost first = index@;
        match next {
            Some(n) => {
                let ghost rest = n@;
                let pushed = (*n).push(new);
                let r = Path { index, next: Some(Box::new(pushed)) };
                assert(r@ =~= self@ + new@);
                r
            },
            None => {
                let r = Path { index, next: Some(Box::new(new)) };
                assert(r@ =~= self@ + new@);
                r
            },
        }
    }

    /// Remove the last [`Path`] from this [`Path`].
    pub fn pop(self) -> (r: Path)
        requires
            self@.len() >= 2,
        ensures
            r@ == self@.drop_last(),
        decreases self,
    {
        let Path { index, next } = self;
        match next {
            Some(n) => {
                if n.next.is_none() {
                    assert(n@ == seq![n.index@]);
                    let r = Path { index, next: None };
                    assert(r@ =~= self@.drop_last());
                    r
                } else {
                    proof {
                        n.lemma_non_empty();
                        let m = n.next->0;
                        m.lemma_non_empty();
                    }
                    let popped = (*n).pop();
                    let r = Path { index, next: Some(Box::new(popped)) };
                    assert(r@ =~= self@.drop_last());
                    r
                }
            },
            None => {
                proof {
                    assert(false);
                }
                Path { index, next: None }
            },
        }
    }

    /// Retrieve the [`Data`] pointed to by this [`Path`].
    pub fn walk<'a>(&self, data: &'a Data) -> (r: &'a Data)
        requires
            walk_model(self@, data@) is Some,
        ensures
            r@ == walk_model(self@, data@)->0,
        decreases self,
    {
        let ghost whole = data@;
        let child = self.index.index(data);
        proof {
            self.lemma_non_empty();
            self.lemma_unfold();
        }
        assert(walk_model(self@, whole) == walk_model(self@.drop_first(), child@));
        match &self.next {
            Some(path) => path.walk(child),
            None => child,
        }
    }

    /// Retrieve the [`Data`] pointed to by this [`Path`], for modification.
    pub fn walk_mut<'a>(&self, data: &'a mut Data) -> (r: &'a mut Data)
        requires
            walk_model(self@, old(data)@) is Some,
        ensures
            (*r)@ == walk_model(self@, old(data)@)->0,
            final(data)@ == path_update(self@, old(data)@, final(r)@),
        decreases self,
    {
        broadcast use lemma_replaced_model;

        let ghost whole = old(data)@;
        proof {
            self.lemma_non_empty();
            self.lemma_unfold();
        }
        let child = self.index.index_mut(data);
        assert(walk_model(self@, whole) == walk_model(self@.drop_first(), child@));
        assert(forall|c: DataModel|
            #[trigger] path_update(self@, whole, c) == update_model(
                self.index@,
                whole,
                path_update(self@.drop_first(), child@, c),
            ));
        assert(forall|c: DataModel| #[trigger] path_update(Seq::<IndexModel>::empty(), child@, c) == c);
        match &self.next {
            Some(path) => path.walk_mut(child),
            None => child,
        }
    }

    /// Retrieve the [`Data`] pointed to by this [`Path`], taking it out of `data`.
    pub fn into_data(&self, data: Data) -> (r: Data)
        requires
            walk_model(self@, data@) is Some,
        ensures
            r@ == walk_model(self@, data@)->0,
        decreases self,
    {
        let ghost whole = data@;
        let child = self.index.into_index(data);
        proof {
            self.lemma_non_empty();
            self.lemma_unfold();
        }
        assert(walk_model(self@, whole) == walk_model(self@.drop_first(), child@));
        match &self.next {
            Some(path) => path.into_data(child),
            None => child,
        }
    }
}

/// A deep copy of a path.
fn path_clone(p: &Path) -> (r: Path)
    ensures
        r@ == p@,
    decreases p,
{
    Path {
        index: p.index.clone(),
        next: match &p.next {
            Some(n) => Some(Box::new(path_clone(n))),
            None => None,
        },
    }
}

impl Clone for Path {
    /// A deep copy of the path.
    fn clone(&self) -> (r: Self)
        ensures
            r@ == self@,
    {
        path_clone(self)
    }
}

/// Every path holds at least one index.
pub proof fn law_path_non_empty(p: &Path)
    ensures
        p@.len() >= 1,
{
    p.lemma_non_empty();
}

/// Pushing a single-index path onto any path gives a path that `pop` accepts, and popping it
/// gives back the path that was pushed onto.
pub proof fn law_pop_after_push(p: &Path, q: &Path)
    requires
        q@.len() == 1,
    ensures
        (p@ + q@).len() >= 2,
        (p@ + q@).drop_last() == p@,
{
    p.lemma_non_empty();
    assert((p@ + q@).drop_last() =~= p@);
}

impl View for Path {
    type V = Seq<IndexModel>;

    closed spec fn view(&self) -> Seq<IndexModel> {
        self.model()
    }
}

} // verus!
