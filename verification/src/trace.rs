//! Records of tracing spans and events, and the tree that they form.
use vstd::prelude::*;

use std::collections::{BTreeMap, BTreeSet};
use std::time::{Duration, Instant};

use crate::data::{first_match, lemma_first_match, lemma_first_match_at};
use crate::data_order::{chars_order, lemma_chars_order_equal, lemma_chars_order_flips, lemma_chars_order_transitive, str_order, Comparison};

verus! {

broadcast use vstd::laws_cmp::group_laws_cmp;

/// A point in time, as the standard library's monotonic clock gives it.
#[verifier::external_type_specification]
#[verifier::external_body]
pub struct ExInstant(Instant);

/// The current time (`std::time::Instant::now`). Nothing is stated of the result: it depends
/// on the clock.
#[verifier::external_body]
fn now() -> Instant {
    Instant::now()
}

/// The time elapsed from `earlier` to `later`, as `std::time::Instant::duration_since` gives
/// it (zero when `earlier` is the later of the two).
pub uninterp spec fn elapsed_between(later: Instant, earlier: Instant) -> Duration;

/// The time elapsed from `earlier` to `later` (`std::time::Instant::duration_since`). Its
/// result depends on its two arguments alone, and is named [`elapsed_between`].
#[verifier::external_body]
fn duration_between(later: Instant, earlier: Instant) -> (r: Duration)
    ensures
        r == elapsed_between(later, earlier),
{
    later.duration_since(earlier)
}

/// The zero duration (`std::time::Duration::default`): the time elapsed from any instant to
/// itself.
#[verifier::external_body]
fn zero_duration() -> (r: Duration)
    ensures
        forall|t: Instant| r == #[trigger] elapsed_between(t, t),
{
    Duration::default()
}

/// A value recorded in a field of a span or event.
#[derive(Debug, Clone)]
pub enum TraceField {
    Debug(String),
    I64(i64),
    U64(u64),
    Bool(bool),
    Str(String),
    Error(String),
}

/// Whether a trace is an event (a moment) or a span (a period, with children).
#[derive(Debug)]
pub enum TraceVariant {
    Event { occurred: Instant },
    Span { children: BTreeSet<usize>, open: bool, entered: Option<Instant>, exited: Option<Instant> },
}

/// Mathematical model of [`TraceVariant`]: the children of a span as a set.
pub enum TraceVariantModel {
    Event { occurred: Instant },
    Span { children: Set<usize>, open: bool, entered: Option<Instant>, exited: Option<Instant> },
}

impl View for TraceVariant {
    type V = TraceVariantModel;

    open spec fn view(&self) -> TraceVariantModel {
        match self {
            TraceVariant::Event { occurred } => TraceVariantModel::Event { occurred: *occurred },
            TraceVariant::Span { children, open, entered, exited } => TraceVariantModel::Span {
                children: children@,
                open: *open,
                entered: *entered,
                exited: *exited,
            },
        }
    }
}

/// Mathematical model of a [`Trace`]: field names by their characters.
pub struct TraceModel<M> {
    pub meta: M,
    pub fields: Seq<(Seq<char>, TraceField)>,
    pub parent: Option<usize>,
    pub variant: TraceVariantModel,
}

/// Matches a field whose name does not come before `name`.
pub open spec fn not_before(name: Seq<char>) -> spec_fn((Seq<char>, TraceField)) -> bool {
    |f: (Seq<char>, TraceField)| chars_order(f.0, name) != Comparison::Less
}

/// The fields after recording `value` under `name`: the field of that name takes the value,
/// or, when there is none, the field is added before the first field whose name comes after
/// `name` (after all of them when there is none), so that fields ordered by name stay so.
pub open spec fn recorded(
    fields: Seq<(Seq<char>, TraceField)>,
    name: Seq<char>,
    value: TraceField,
) -> Seq<(Seq<char>, TraceField)> {
    match first_match(fields, not_before(name)) {
        Some(i) => if fields[i].0 == name {
            fields.update(i, (name, value))
        } else {
            fields.insert(i, (name, value))
        },
        None => fields.push((name, value)),
    }
}

/// The fields after recording each of `new`, in order.
pub open spec fn recorded_all(
    fields: Seq<(Seq<char>, TraceField)>,
    new: Seq<(Seq<char>, TraceField)>,
) -> Seq<(Seq<char>, TraceField)>
    decreases new.len(),
{
    if new.len() == 0 {
        fields
    } else {
        recorded(recorded_all(fields, new.drop_last()), new.last().0, new.last().1)
    }
}

/// Field names by their characters.
pub open spec fn field_names(fields: Seq<(String, TraceField)>) -> Seq<(Seq<char>, TraceField)> {
    fields.map_values(|f: (String, TraceField)| (f.0@, f.1))
}

/// No field name occurs twice.
pub open spec fn unique_names(fields: Seq<(Seq<char>, TraceField)>) -> bool {
    forall|i: int, j: int| 0 <= i < j < fields.len() ==> #[trigger] fields[i].0 != #[trigger] fields[j].0
}

/// Field names strictly increase, in the order of their characters.
pub open spec fn sorted_names(fields: Seq<(Seq<char>, TraceField)>) -> bool {
    forall|i: int, j: int| 0 <= i < j < fields.len() ==> chars_order(#[trigger] fields[i].0, #[trigger] fields[j].0)
        == Comparison::Less
}

/// Fields ordered by name have unique names.
pub proof fn law_sorted_names_unique(fields: Seq<(Seq<char>, TraceField)>)
    requires
        sorted_names(fields),
    ensures
        unique_names(fields),
{
    assert forall|i: int, j: int| 0 <= i < j < fields.len() implies #[trigger] fields[i].0 != #[trigger] fields[j].0 by {
        lemma_chars_order_equal(fields[i].0, fields[j].0);
    }
}

/// Where `recorded` puts `name`: with the fields ordered by name, every field before the spot
/// comes before `name`, and the field at the spot, when there is one, does not.
proof fn lemma_record_spot(fields: Seq<(Seq<char>, TraceField)>, name: Seq<char>)
    ensures
        first_match(fields, not_before(name)) matches Some(i) ==> 0 <= i < fields.len() && chars_order(
            fields[i].0,
            name,
        ) != Comparison::Less && forall|j: int| 0 <= j < i ==> chars_order(#[trigger] fields[j].0, name)
            == Comparison::Less,
        first_match(fields, not_before(name)) is None ==> forall|j: int|
            0 <= j < fields.len() ==> chars_order(#[trigger] fields[j].0, name) == Comparison::Less,
{
    lemma_first_match(fields, not_before(name));
    if let Some(i) = first_match(fields, not_before(name)) {
        assert forall|j: int| 0 <= j < i implies chars_order(#[trigger] fields[j].0, name) == Comparison::Less by {
            assert(!not_before(name)(fields[j]));
        }
    } else {
        assert forall|j: int| 0 <= j < fields.len() implies chars_order(#[trigger] fields[j].0, name)
            == Comparison::Less by {
            assert(!not_before(name)(fields[j]));
        }
    }
}

/// Recording a field keeps fields that are ordered by name so ordered.
pub proof fn law_recorded_sorted(fields: Seq<(Seq<char>, TraceField)>, name: Seq<char>, value: TraceField)
    requires
        sorted_names(fields),
    ensures
        sorted_names(recorded(fields, name, value)),
{
    lemma_record_spot(fields, name);
    let r = recorded(fields, name, value);
    match first_match(fields, not_before(name)) {
        Some(i) => {
            if fields[i].0 != name {
                lemma_chars_order_equal(fields[i].0, name);
                lemma_chars_order_flips(fields[i].0, name);
                assert(chars_order(name, fields[i].0) == Comparison::Less);
                assert forall|a: int, b: int| 0 <= a < b < r.len() implies chars_order(
                    #[trigger] r[a].0,
                    #[trigger] r[b].0,
                ) == Comparison::Less by {
                    if a < i && b == i {
                    } else if a < i && b > i {
                        assert(r[b] == fields[b - 1]);
                        if b - 1 > i {
                            lemma_chars_order_transitive(name, fields[i].0, fields[b - 1].0);
                        }
                        lemma_chars_order_transitive(fields[a].0, name, fields[b - 1].0);
                    } else if a == i {
                        assert(r[b] == fields[b - 1]);
                        if b - 1 > i {
                            lemma_chars_order_transitive(name, fields[i].0, fields[b - 1].0);
                        }
                    } else if a > i {
                        assert(r[a] == fields[a - 1] && r[b] == fields[b - 1]);
                    }
                }
            } else {
                assert forall|a: int, b: int| 0 <= a < b < r.len() implies chars_order(
                    #[trigger] r[a].0,
                    #[trigger] r[b].0,
                ) == Comparison::Less by {
                    assert(r[a].0 == fields[a].0 && r[b].0 == fields[b].0);
                }
            }
        },
        None => {},
    }
}

/// Recording two values under one name in turn leaves the second.
pub proof fn law_record_keeps_last(
    fields: Seq<(Seq<char>, TraceField)>,
    name: Seq<char>,
    first: TraceField,
    second: TraceField,
)
    requires
        sorted_names(fields),
    ensures
        recorded(recorded(fields, name, first), name, second) == recorded(fields, name, second),
{
    lemma_record_spot(fields, name);
    let once = recorded(fields, name, first);
    lemma_chars_order_equal(name, name);
    match first_match(fields, not_before(name)) {
        Some(i) => {
            assert forall|j: int| 0 <= j < i implies !not_before(name)(#[trigger] once[j]) by {
                assert(once[j] == fields[j]);
            }
            lemma_first_match_at(once, not_before(name), i);
            if fields[i].0 == name {
                assert(once.update(i, (name, second)) =~= fields.update(i, (name, second)));
            } else {
                assert(once.update(i, (name, second)) =~= fields.insert(i, (name, second)));
            }
        },
        None => {
            let n = fields.len() as int;
            assert forall|j: int| 0 <= j < n implies !not_before(name)(#[trigger] once[j]) by {
                assert(once[j] == fields[j]);
            }
            lemma_first_match_at(once, not_before(name), n);
            assert(once.update(n, (name, second)) =~= fields.push((name, second)));
        },
    }
}

impl<M> TraceModel<M> {
    /// Whether the trace is a span.
    pub open spec fn is_span(self) -> bool {
        self.variant is Span
    }

    /// The children of a span.
    pub open spec fn children(self) -> Set<usize> {
        self.variant->Span_children
    }

    /// Whether a span is still open.
    pub open spec fn is_open(self) -> bool {
        self.variant->Span_open
    }

    /// When a span was last entered.
    pub open spec fn entered(self) -> Option<Instant> {
        self.variant->Span_entered
    }

    /// When a span was last exited.
    pub open spec fn exited(self) -> Option<Instant> {
        self.variant->Span_exited
    }

    /// The same trace with other fields.
    pub open spec fn with_fields(self, fields: Seq<(Seq<char>, TraceField)>) -> Self {
        TraceModel { meta: self.meta, fields, parent: self.parent, variant: self.variant }
    }

    /// The same trace with another span state (an event is left as it is).
    pub open spec fn with_span(
        self,
        children: Set<usize>,
        open: bool,
        entered: Option<Instant>,
        exited: Option<Instant>,
    ) -> Self {
        if self.is_span() {
            TraceModel {
                meta: self.meta,
                fields: self.fields,
                parent: self.parent,
                variant: TraceVariantModel::Span { children, open, entered, exited },
            }
        } else {
            self
        }
    }

    /// The same span with other children.
    pub open spec fn with_children(self, children: Set<usize>) -> Self {
        self.with_span(children, self.is_open(), self.entered(), self.exited())
    }

    /// A new open span that has been neither entered nor exited, with no fields and no children.
    pub open spec fn new_span(meta: M, parent: Option<usize>) -> Self {
        TraceModel {
            meta,
            fields: Seq::empty(),
            parent,
            variant: TraceVariantModel::Span {
                children: Set::empty(),
                open: true,
                entered: None,
                exited: None,
            },
        }
    }

    /// A new event with no fields.
    pub open spec fn new_event(meta: M, parent: Option<usize>, occurred: Instant) -> Self {
        TraceModel { meta, fields: Seq::empty(), parent, variant: TraceVariantModel::Event { occurred } }
    }
}

/// A span or event: where it was recorded (`meta`), its fields, its parent and its variant.
#[derive(Debug)]
pub struct Trace<M> {
    meta: M,
    fields: Vec<(String, TraceField)>,
    parent: Option<usize>,
    variant: TraceVariant,
}

impl<M> View for Trace<M> {
    type V = TraceModel<M>;

    closed spec fn view(&self) -> TraceModel<M> {
        TraceModel {
            meta: self.meta,
            fields: field_names(self.fields@),
            parent: self.parent,
            variant: self.variant@,
        }
    }
}

impl<M> Trace<M> {
    /// The fields are ordered by name, so that no name occurs twice.
    pub open spec fn wf(&self) -> bool {
        sorted_names(self@.fields)
    }

    /// A new open span that has been neither entered nor exited, with no fields and no children.
    pub fn span(meta: M, parent: Option<usize>) -> (r: Self)
        ensures
            r@ == TraceModel::new_span(meta, parent),
            r.wf(),
    {
        let r = Trace {
            meta,
            fields: Vec::new(),
            parent,
            variant: TraceVariant::Span { children: BTreeSet::new(), open: true, entered: None, exited: None },
        };
        proof {
            assert(r@.fields =~= Seq::<(Seq<char>, TraceField)>::empty());
        }
        r
    }

    /// A new event that occurred now, with no fields.
    pub fn event(meta: M, parent: Option<usize>) -> (r: Self)
        ensures
            r@ == TraceModel::new_event(meta, parent, r@.variant->Event_occurred),
            r.wf(),
    {
        let r = Trace { meta, fields: Vec::new(), parent, variant: TraceVariant::Event { occurred: now() } };
        proof {
            assert(r@.fields =~= Seq::<(Seq<char>, TraceField)>::empty());
        }
        r
    }

    /// Forgets the fields and, for a span, the children.
    pub fn clear(&mut self)
        ensures
            final(self)@ == old(self)@.with_fields(Seq::empty()).with_children(Set::empty()),
            final(self).wf(),
    {
        self.fields.clear();
        if let TraceVariant::Span { children, .. } = &mut self.variant {
            children.clear();
        }
        proof {
            assert(self@.fields =~= Seq::<(Seq<char>, TraceField)>::empty());
        }
    }

    /// What was recorded with the trace (the thread and the callsite's metadata).
    pub fn meta(&self) -> (r: &M)
        ensures
            *r == self@.meta,
    {
        &self.meta
    }

    /// When an event occurred.
    pub fn occurred(&self) -> (r: &Instant)
        requires
            !self@.is_span(),
        ensures
            *r == self@.variant->Event_occurred,
        decreases 0nat,
    {
        match &self.variant {
            TraceVariant::Event { occurred } => occurred,
            TraceVariant::Span { .. } => {
                proof {
                    assert(false);
                }
                self.occurred()
            },
        }
    }

    /// How long a span has been entered: from its entry to its exit, or to now while it has
    /// not been exited since; zero when it was never entered.
    pub fn duration(&self) -> (r: Duration)
        requires
            self@.is_span(),
            !(self@.entered() is None && self@.exited() is Some),
        ensures
            self@.entered() is Some && self@.exited() is Some ==> r == elapsed_between(
                self@.exited()->0,
                self@.entered()->0,
            ),
            self@.entered() is Some && self@.exited() is None ==> exists|t: Instant|
                r == #[trigger] elapsed_between(t, self@.entered()->0),
            self@.entered() is None ==> forall|t: Instant| r == #[trigger] elapsed_between(t, t),
    {
        match &self.variant {
            TraceVariant::Span { entered, exited, .. } => match (entered, exited) {
                (Some(entered), Some(exited)) => duration_between(*exited, *entered),
                (Some(entered), None) => {
                    let t = now();
                    let r = duration_between(t, *entered);
                    assert(r == elapsed_between(t, *entered));
                    r
                },
                _ => zero_duration(),
            },
            TraceVariant::Event { .. } => {
                proof {
                    assert(false);
                }
                zero_duration()
            },
        }
    }

    /// The trace's parent.
    pub fn parent(&self) -> (r: Option<usize>)
        ensures
            r == self@.parent,
    {
        self.parent
    }

    /// The children of a span.
    pub fn children(&self) -> (r: &BTreeSet<usize>)
        requires
            self@.is_span(),
        ensures
            r@ == self@.children(),
        decreases 0nat,
    {
        match &self.variant {
            TraceVariant::Span { children, .. } => children,
            TraceVariant::Event { .. } => {
                proof {
                    assert(false);
                }
                self.children()
            },
        }
    }

    /// Adds a child to a span; true when it was not a child already.
    pub fn insert_child(&mut self, child: usize) -> (r: bool)
        requires
            old(self)@.is_span(),
        ensures
            r == !old(self)@.children().contains(child),
            final(self)@ == old(self)@.with_children(old(self)@.children().insert(child)),
    {
        match &mut self.variant {
            TraceVariant::Span { children, .. } => children.insert(child),
            TraceVariant::Event { .. } => {
                proof {
                    assert(false);
                }
                false
            },
        }
    }

    /// Removes a child from a span; true when it was a child.
    pub fn remove_child(&mut self, child: &usize) -> (r: bool)
        requires
            old(self)@.is_span(),
        ensures
            r == old(self)@.children().contains(*child),
            final(self)@ == old(self)@.with_children(old(self)@.children().remove(*child)),
    {
        match &mut self.variant {
            TraceVariant::Span { children, .. } => children.remove(child),
            TraceVariant::Event { .. } => {
                proof {
                    assert(false);
                }
                false
            },
        }
    }

    /// Whether a span is still open.
    pub fn is_open(&self) -> (r: bool)
        requires
            self@.is_span(),
        ensures
            r == self@.is_open(),
    {
        match &self.variant {
            TraceVariant::Span { open, .. } => *open,
            TraceVariant::Event { .. } => {
                proof {
                    assert(false);
                }
                false
            },
        }
    }

    /// The recorded fields, ordered by name.
    pub fn fields(&self) -> (r: &Vec<(String, TraceField)>)
        ensures
            field_names(r@) == self@.fields,
    {
        &self.fields
    }

    /// Marks a span as entered now.
    pub fn enter(&mut self)
        requires
            old(self)@.is_span(),
        ensures
            final(self)@.entered() is Some,
            final(self)@ == old(self)@.with_span(
                old(self)@.children(),
                old(self)@.is_open(),
                final(self)@.entered(),
                old(self)@.exited(),
            ),
    {
        match &mut self.variant {
            TraceVariant::Span { entered, .. } => {
                *entered = Some(now());
            },
            TraceVariant::Event { .. } => {
                proof {
                    assert(false);
                }
            },
        }
    }

    /// Marks a span as exited now.
    pub fn exit(&mut self)
        requires
            old(self)@.is_span(),
        ensures
            final(self)@.exited() is Some,
            final(self)@ == old(self)@.with_span(
                old(self)@.children(),
                old(self)@.is_open(),
                old(self)@.entered(),
                final(self)@.exited(),
            ),
    {
        match &mut self.variant {
            TraceVariant::Span { exited, .. } => {
                *exited = Some(now());
            },
            TraceVariant::Event { .. } => {
                proof {
                    assert(false);
                }
            },
        }
    }

    /// Marks a span as closed.
    pub fn close(&mut self)
        requires
            old(self)@.is_span(),
        ensures
            final(self)@ == old(self)@.with_span(
                old(self)@.children(),
                false,
                old(self)@.entered(),
                old(self)@.exited(),
            ),
    {
        match &mut self.variant {
            TraceVariant::Span { open, .. } => {
                *open = false;
            },
            TraceVariant::Event { .. } => {
                proof {
                    assert(false);
                }
            },
        }
    }

    /// Whether the trace is an event or a span, with the variant's state.
    pub fn variant(&self) -> (r: &TraceVariant)
        ensures
            r@ == self@.variant,
    {
        &self.variant
    }

    /// Mutable access to the variant; the rest of the trace is left as it is.
    pub fn variant_mut(&mut self) -> (r: &mut TraceVariant)
        ensures
            r@ == old(self)@.variant,
            final(self)@ == (TraceModel { variant: final(r)@, ..old(self)@ }),
    {
        &mut self.variant
    }

    /// Records a field: the field with that name takes the value, or, when there is none, the
    /// field is added where its name falls among the others (see [`recorded`]).
    pub fn record(&mut self, name: &str, value: TraceField)
        ensures
            old(self).wf() ==> final(self).wf(),
            final(self)@ == old(self)@.with_fields(recorded(old(self)@.fields, name@, value)),
    {
        let ghost before = field_names(self.fields@);
        proof {
            lemma_record_spot(before, name@);
            if sorted_names(before) {
                law_recorded_sorted(before, name@, value);
            }
        }
        let mut i: usize = 0;
        while i < self.fields.len()
            invariant
                *self == *old(self),
                sorted_names(before) ==> sorted_names(recorded(before, name@, value)),
                field_names(self.fields@) == before,
                self.fields@.len() == before.len(),
                i <= before.len(),
                forall|j: int| 0 <= j < i ==> chars_order(#[trigger] before[j].0, name@) == Comparison::Less,
            decreases before.len() - i,
        {
            assert(before[i as int] == (self.fields@[i as int].0@, self.fields@[i as int].1));
            let o = str_order(self.fields[i].0.as_str(), name);
            if o != Comparison::Less {
                proof {
                    assert(not_before(name@)(before[i as int]));
                    assert forall|j: int| 0 <= j < i implies !not_before(name@)(#[trigger] before[j]) by {}
                    lemma_first_match_at(before, not_before(name@), i as int);
                    lemma_chars_order_equal(before[i as int].0, name@);
                }
                if o == Comparison::Equal {
                    let entry = (self.fields[i].0.clone(), value);
                    self.fields.set(i, entry);
                    proof {
                        assert(self@.fields =~= before.update(i as int, (name@, value)));
                    }
                } else {
                    self.fields.insert(i, (String::from_str(name), value));
                    proof {
                        assert(self@.fields =~= before.insert(i as int, (name@, value)));
                    }
                }
                return;
            }
            i = i + 1;
        }
        proof {
            assert forall|j: int| 0 <= j < before.len() implies !not_before(name@)(#[trigger] before[j]) by {}
            crate::data::lemma_first_match_none(before, not_before(name@));
        }
        self.fields.push((String::from_str(name), value));
        proof {
            assert(self@.fields =~= before.push((name@, value)));
        }
    }
}

} // verus!
