//! The tree of traces that a tracing layer records, and its pruning.
use vstd::prelude::*;

use std::collections::BTreeMap;
use vstd::std_specs::btree::{spec_btree_keys_iter, spec_btree_map_iter};
use vstd::std_specs::iter::IteratorSpec;
use vstd::std_specs::btree::increasing_seq;
use vstd::laws_cmp::obeys_cmp;
use vstd::std_specs::cmp::OrdSpec;

use std::time::Instant;

use crate::trace::{field_names, recorded_all, sorted_names, Trace, TraceField, TraceModel, TraceVariant};

verus! {

broadcast use {vstd::laws_cmp::group_laws_cmp, vstd::seq_lib::group_seq_properties};

/// Every span and event recorded so far, under its trace id; the next trace id to give out;
/// and the trace id of each span id of the subscriber.
#[derive(Debug)]
pub struct TraceTree<M> {
    traces: BTreeMap<usize, Trace<M>>,
    next_trace_id: usize,
    span_to_trace_id: BTreeMap<u64, usize>,
}

/// Mathematical model of a [`TraceTree`].
pub struct TreeModel<M> {
    pub traces: Map<usize, TraceModel<M>>,
    pub next_trace_id: usize,
    pub span_to_trace_id: Map<u64, usize>,
}

impl<M> View for TraceTree<M> {
    type V = TreeModel<M>;

    closed spec fn view(&self) -> TreeModel<M> {
        TreeModel {
            traces: self.traces@.map_values(|t: Trace<M>| t@),
            next_trace_id: self.next_trace_id,
            span_to_trace_id: self.span_to_trace_id@,
        }
    }
}

/// The id after `id`, wrapping to zero after the largest.
pub open spec fn id_after(id: usize) -> usize {
    if id == usize::MAX {
        0
    } else {
        (id + 1) as usize
    }
}

/// Whether some span id maps to the trace `id`.
pub open spec fn has_span_key(spans: Map<u64, usize>, id: usize) -> bool {
    exists|k: u64| #[trigger] spans.contains_key(k) && spans[k] == id
}

/// `k` is the smallest span id that maps to the trace `id`.
pub open spec fn is_first_span_key(spans: Map<u64, usize>, id: usize, k: u64) -> bool {
    &&& spans.contains_key(k)
    &&& spans[k] == id
    &&& forall|k2: u64| #[trigger] spans.contains_key(k2) && spans[k2] == id ==> k <= k2
}

/// The smallest span id that maps to the trace `id`.
pub open spec fn first_span_key(spans: Map<u64, usize>, id: usize) -> u64 {
    choose|k: u64| is_first_span_key(spans, id, k)
}

/// Whether the trace is a span that has been closed.
pub open spec fn is_closed_span<M>(t: TraceModel<M>) -> bool {
    t.is_span() && !t.is_open()
}

/// `traces` without those of `children` that are events.
pub open spec fn without_child_events<M>(
    traces: Map<usize, TraceModel<M>>,
    children: Set<usize>,
) -> Map<usize, TraceModel<M>> {
    traces.restrict(traces.dom().filter(|k: usize| !(children.contains(k) && !traces[k].is_span())))
}


impl<M> TreeModel<M> {
    /// Whether the subscriber's span id, when there is one, has a trace id.
    pub open spec fn knows_span(self, span_id: Option<u64>) -> bool {
        span_id matches Some(s) ==> self.span_to_trace_id.contains_key(s)
    }

    /// The trace id of the subscriber's span id, when there is one.
    pub open spec fn trace_of(self, span_id: Option<u64>) -> Option<usize> {
        match span_id {
            Some(s) => Some(self.span_to_trace_id[s]),
            None => None,
        }
    }

    /// The tree with the trace `id` replaced or added.
    pub open spec fn with_trace(self, id: usize, t: TraceModel<M>) -> Self {
        TreeModel {
            traces: self.traces.insert(id, t),
            next_trace_id: self.next_trace_id,
            span_to_trace_id: self.span_to_trace_id,
        }
    }

    /// The tree after adding `child` to the children of `parent`, when there is one.
    pub open spec fn with_child(self, parent: Option<usize>, child: usize) -> Self {
        match parent {
            Some(p) => self.with_trace(p, self.traces[p].with_children(self.traces[p].children().insert(child))),
            None => self,
        }
    }

    /// Whether `parent`, when there is one, is a span of the tree.
    pub open spec fn is_span_or_none(self, parent: Option<usize>) -> bool {
        parent matches Some(p) ==> self.traces.contains_key(p) && self.traces[p].is_span()
    }

    /// The tree after a new span with the subscriber's id `span_id`, under the span
    /// `parent_span_id` when there is one.
    pub open spec fn after_new_span(self, span_id: u64, parent_span_id: Option<u64>, meta: M) -> Self {
        let id = self.next_trace_id;
        let named = self.with_next_id(Some(span_id));
        let parent = named.trace_of(parent_span_id);
        named.with_trace(id, TraceModel::new_span(meta, parent)).with_child(parent, id)
    }

    /// Whether a new span can be added: its parent's span id, when there is one, is known, and
    /// its trace is a span (or the new span itself).
    pub open spec fn can_add_span(self, span_id: u64, parent_span_id: Option<u64>) -> bool {
        let id = self.next_trace_id;
        let named = self.with_next_id(Some(span_id));
        &&& named.knows_span(parent_span_id)
        &&& named.trace_of(parent_span_id) matches Some(p) ==> p == id || self.is_span_or_none(Some(p))
    }

    /// The tree after an event that occurred at `occurred`, with `fields`, under the span
    /// `parent_span_id` when there is one.
    pub open spec fn after_event(
        self,
        parent_span_id: Option<u64>,
        meta: M,
        fields: Seq<(Seq<char>, TraceField)>,
        occurred: Instant,
    ) -> Self {
        let id = self.next_trace_id;
        let parent = self.trace_of(parent_span_id);
        let event = TraceModel::new_event(meta, parent, occurred).with_fields(recorded_all(Seq::empty(), fields));
        self.with_next_id(None).with_trace(id, event).with_child(parent, id)
    }

    /// Whether an event can be added: its parent's span id, when there is one, is known, and its
    /// trace is a span other than the new event.
    pub open spec fn can_add_event(self, parent_span_id: Option<u64>) -> bool {
        &&& self.knows_span(parent_span_id)
        &&& self.trace_of(parent_span_id) matches Some(p) ==> p != self.next_trace_id
            && self.is_span_or_none(Some(p))
    }

    /// Whether the subscriber's span id has a trace in the tree.
    pub open spec fn has_trace(self, span_id: u64) -> bool {
        &&& self.span_to_trace_id.contains_key(span_id)
        &&& self.traces.contains_key(self.span_to_trace_id[span_id])
    }

    /// Whether the subscriber's span id has a trace in the tree, and that trace is a span.
    pub open spec fn has_span(self, span_id: u64) -> bool {
        &&& self.has_trace(span_id)
        &&& self.traces[self.span_to_trace_id[span_id]].is_span()
    }

    /// The tree once the closed span `x` is pruned: the span and its child events leave the
    /// tree, the span leaves its parent's children, and the smallest span id that maps to it
    /// leaves the span ids.
    pub open spec fn prune_step(self, x: usize) -> Self {
        let removed = self.traces[x];
        let kept = without_child_events(self.traces.remove(x), removed.children());
        TreeModel {
            traces: match removed.parent {
                Some(p) => kept.insert(p, kept[p].with_children(kept[p].children().remove(x))),
                None => kept,
            },
            next_trace_id: self.next_trace_id,
            span_to_trace_id: self.span_to_trace_id.remove(first_span_key(self.span_to_trace_id, x)),
        }
    }

    /// Whether the span `x` can be pruned: it is a span of the tree, its children are in the
    /// tree, its parent, when it has one, is a span that stays, and some span id maps to it.
    pub open spec fn can_prune_step(self, x: usize) -> bool {
        let removed = self.traces[x];
        let rest = self.traces.remove(x);
        let kept = without_child_events(rest, removed.children());
        &&& self.traces.contains_key(x)
        &&& removed.is_span()
        &&& forall|c: usize| #[trigger] removed.children().contains(c) ==> rest.contains_key(c)
        &&& removed.parent matches Some(p) ==> kept.contains_key(p) && kept[p].is_span()
        &&& has_span_key(self.span_to_trace_id, x)
    }

    /// The tree once the spans `ids` are pruned, in order.
    pub open spec fn pruned(self, ids: Seq<usize>) -> Self
        decreases ids.len(),
    {
        if ids.len() == 0 {
            self
        } else {
            self.pruned(ids.drop_last()).prune_step(ids.last())
        }
    }

    /// Whether the spans `ids` can be pruned, in order.
    pub open spec fn can_prune(self, ids: Seq<usize>) -> bool
        decreases ids.len(),
    {
        ids.len() == 0 || (self.can_prune(ids.drop_last()) && self.pruned(ids.drop_last()).can_prune_step(
            ids.last(),
        ))
    }

    /// `ids` lists the closed spans of the tree, largest trace id first.
    pub open spec fn lists_closed_spans(self, ids: Seq<usize>) -> bool {
        &&& forall|i: int, j: int| 0 <= i < j < ids.len() ==> #[trigger] ids[i] > #[trigger] ids[j]
        &&& forall|k: usize| #[trigger] ids.contains(k) <==> self.traces.contains_key(k) && is_closed_span(
            self.traces[k],
        )
    }

    /// The tree after giving out the next trace id, mapping `span_id` to it when there is one.
    pub open spec fn with_next_id(self, span_id: Option<u64>) -> Self {
        TreeModel {
            traces: self.traces,
            next_trace_id: id_after(self.next_trace_id),
            span_to_trace_id: match span_id {
                Some(s) => self.span_to_trace_id.insert(s, self.next_trace_id),
                None => self.span_to_trace_id,
            },
        }
    }
}

/// Pruning a list of spans runs through each of its prefixes.
pub proof fn lemma_can_prune_prefix<M>(m: TreeModel<M>, ids: Seq<usize>, j: int)
    requires
        m.can_prune(ids),
        0 <= j <= ids.len(),
    ensures
        m.can_prune(ids.take(j)),
    decreases ids.len(),
{
    if j < ids.len() {
        lemma_can_prune_prefix(m, ids.drop_last(), j);
        assert(ids.drop_last().take(j) =~= ids.take(j));
    } else {
        assert(ids.take(j) =~= ids);
    }
}


/// Every trace's parent is a span of the tree that lists it among its children, and every
/// child of a span is a trace of the tree whose parent is that span.
pub open spec fn links_consistent<M>(traces: Map<usize, TraceModel<M>>) -> bool {
    &&& forall|k: usize| #[trigger] traces.contains_key(k) && traces[k].parent is Some ==> {
        let p = traces[k].parent->0;
        traces.contains_key(p) && traces[p].is_span() && traces[p].children().contains(k)
    }
    &&& forall|s: usize, c: usize| #[trigger] traces.contains_key(s) && traces[s].is_span()
        && #[trigger] traces[s].children().contains(c) ==> traces.contains_key(c) && traces[c].parent == Some(s)
}

/// A new span keeps the links of the tree consistent, when its trace id is not in use.
pub proof fn law_new_span_keeps_links<M>(m: TreeModel<M>, span_id: u64, parent_span_id: Option<u64>, meta: M)
    requires
        links_consistent(m.traces),
        !m.traces.contains_key(m.next_trace_id),
        m.can_add_span(span_id, parent_span_id),
    ensures
        links_consistent(m.after_new_span(span_id, parent_span_id, meta).traces),
{
    let id = m.next_trace_id;
    let named = m.with_next_id(Some(span_id));
    let parent = named.trace_of(parent_span_id);
    let t1 = named.with_trace(id, TraceModel::new_span(meta, parent)).traces;
    let t = m.after_new_span(span_id, parent_span_id, meta).traces;
    assert forall|k: usize| #[trigger] t.contains_key(k) && t[k].parent is Some implies ({
        let p = t[k].parent->0;
        t.contains_key(p) && t[p].is_span() && t[p].children().contains(k)
    }) by {
        let q = t[k].parent->0;
        if k != id {
            assert(m.traces.contains_key(k));
        }
    }
    assert forall|s: usize, c: usize| #[trigger] t.contains_key(s) && t[s].is_span()
        && #[trigger] t[s].children().contains(c) implies t.contains_key(c) && t[c].parent == Some(s) by {
        if s != id && !(parent == Some(s) && c == id) {
            assert(m.traces.contains_key(s));
            assert(m.traces[s].children().contains(c));
            assert(m.traces.contains_key(c));
        }
    }
}


/// A new event keeps the links of the tree consistent, when its trace id is not in use.
pub proof fn law_event_keeps_links<M>(
    m: TreeModel<M>,
    parent_span_id: Option<u64>,
    meta: M,
    fields: Seq<(Seq<char>, TraceField)>,
    occurred: Instant,
)
    requires
        links_consistent(m.traces),
        !m.traces.contains_key(m.next_trace_id),
        m.can_add_event(parent_span_id),
    ensures
        links_consistent(m.after_event(parent_span_id, meta, fields, occurred).traces),
{
    let id = m.next_trace_id;
    let parent = m.trace_of(parent_span_id);
    let t = m.after_event(parent_span_id, meta, fields, occurred).traces;
    assert forall|k: usize| #[trigger] t.contains_key(k) && t[k].parent is Some implies ({
        let p = t[k].parent->0;
        t.contains_key(p) && t[p].is_span() && t[p].children().contains(k)
    }) by {
        if k != id {
            assert(m.traces.contains_key(k));
        }
    }
    assert forall|s: usize, c: usize| #[trigger] t.contains_key(s) && t[s].is_span()
        && #[trigger] t[s].children().contains(c) implies t.contains_key(c) && t[c].parent == Some(s) by {
        if !(parent == Some(s) && c == id) {
            assert(m.traces.contains_key(s));
            assert(m.traces[s].children().contains(c));
            assert(m.traces.contains_key(c));
        }
    }
}

/// Recording fields, entering, exiting or closing a trace keeps the links of the tree
/// consistent.
pub proof fn law_trace_updates_keep_links<M>(
    m: TreeModel<M>,
    id: usize,
    fields: Seq<(Seq<char>, TraceField)>,
    open: bool,
    entered: Option<Instant>,
    exited: Option<Instant>,
)
    requires
        links_consistent(m.traces),
        m.traces.contains_key(id),
    ensures
        links_consistent(
            m.with_trace(
                id,
                m.traces[id].with_fields(fields).with_span(m.traces[id].children(), open, entered, exited),
            ).traces,
        ),
{
    let t = m.with_trace(
        id,
        m.traces[id].with_fields(fields).with_span(m.traces[id].children(), open, entered, exited),
    ).traces;
    assert forall|k: usize| #[trigger] t.contains_key(k) && t[k].parent is Some implies ({
        let p = t[k].parent->0;
        t.contains_key(p) && t[p].is_span() && t[p].children().contains(k)
    }) by {
        assert(m.traces.contains_key(k));
    }
    assert forall|s: usize, c: usize| #[trigger] t.contains_key(s) && t[s].is_span()
        && #[trigger] t[s].children().contains(c) implies t.contains_key(c) && t[c].parent == Some(s) by {
        assert(m.traces.contains_key(s));
        assert(m.traces[s].children().contains(c));
        assert(m.traces.contains_key(c));
    }
}


/// When some span id maps to `id`, a smallest such span id exists.
pub proof fn lemma_first_span_key_exists(spans: Map<u64, usize>, id: usize, w: u64)
    requires
        spans.contains_key(w),
        spans[w] == id,
    ensures
        is_first_span_key(spans, id, first_span_key(spans, id)),
    decreases w,
{
    if exists|k: u64| #[trigger] spans.contains_key(k) && spans[k] == id && k < w {
        let k = choose|k: u64| #[trigger] spans.contains_key(k) && spans[k] == id && k < w;
        lemma_first_span_key_exists(spans, id, k);
    } else {
        assert(is_first_span_key(spans, id, w));
    }
}

/// Every parent's trace id is smaller than its child's.
pub open spec fn parents_older<M>(traces: Map<usize, TraceModel<M>>) -> bool {
    forall|k: usize| #[trigger] traces.contains_key(k) && traces[k].parent is Some ==> traces[k].parent->0 < k
}

/// Every span child of a closed span is closed.
pub open spec fn closed_downward<M>(traces: Map<usize, TraceModel<M>>) -> bool {
    forall|s: usize, c: usize|
        #[trigger] traces.contains_key(s) && is_closed_span(traces[s]) && #[trigger] traces[s].children().contains(c)
            && traces.contains_key(c) && traces[c].is_span() ==> is_closed_span(traces[c])
}

/// The shape of tree that pruning relies on: consistent links, parents older than their
/// children, the span children of a closed span closed, and a span id for each closed span.
pub open spec fn prunable<M>(m: TreeModel<M>) -> bool {
    &&& links_consistent(m.traces)
    &&& parents_older(m.traces)
    &&& closed_downward(m.traces)
    &&& forall|k: usize| #[trigger] m.traces.contains_key(k) && is_closed_span(m.traces[k]) ==> has_span_key(
        m.span_to_trace_id,
        k,
    )
}

/// What [`prunable`] asks of the trace `k`: its parent is an older span that lists it; its
/// children are traces whose parent it is, closed where it is closed and they are spans;
/// and, when it is a closed span, some span id maps to it.
pub open spec fn trace_prunable<M>(m: TreeModel<M>, k: usize) -> bool {
    let t = m.traces[k];
    &&& t.parent is Some ==> {
        let p = t.parent->0;
        p < k && m.traces.contains_key(p) && m.traces[p].is_span() && m.traces[p].children().contains(k)
    }
    &&& t.is_span() ==> forall|c: usize| #[trigger] t.children().contains(c) ==> m.traces.contains_key(c)
        && m.traces[c].parent == Some(k) && (is_closed_span(t) && m.traces[c].is_span() ==> is_closed_span(
        m.traces[c],
    ))
    &&& is_closed_span(t) ==> has_span_key(m.span_to_trace_id, k)
}

/// A tree is prunable exactly when each of its traces is.
pub proof fn lemma_prunable_by_trace<M>(m: TreeModel<M>)
    ensures
        prunable(m) <==> forall|k: usize| #[trigger] m.traces.contains_key(k) ==> trace_prunable(m, k),
{
    if forall|k: usize| #[trigger] m.traces.contains_key(k) ==> trace_prunable(m, k) {
        assert forall|s: usize, c: usize| #[trigger] m.traces.contains_key(s) && m.traces[s].is_span()
            && #[trigger] m.traces[s].children().contains(c) implies m.traces.contains_key(c) && m.traces[c].parent
            == Some(s) by {
            assert(trace_prunable(m, s));
        }
        assert forall|s: usize, c: usize|
            #[trigger] m.traces.contains_key(s) && is_closed_span(m.traces[s]) && #[trigger] m.traces[s].children().contains(c)
                && m.traces.contains_key(c) && m.traces[c].is_span() implies is_closed_span(m.traces[c]) by {
            assert(trace_prunable(m, s));
        }
    }
    if prunable(m) {
        assert forall|k: usize| #[trigger] m.traces.contains_key(k) implies trace_prunable(m, k) by {
            let t = m.traces[k];
            if t.is_span() {
                assert forall|c: usize| #[trigger] t.children().contains(c) implies m.traces.contains_key(c)
                    && m.traces[c].parent == Some(k) && (is_closed_span(t) && m.traces[c].is_span()
                    ==> is_closed_span(m.traces[c])) by {
                    assert(m.traces[k].children().contains(c));
                }
            }
        }
    }
}

/// The closed spans of `traces` are exactly the elements of `s`.
pub open spec fn closed_exactly<M>(traces: Map<usize, TraceModel<M>>, s: Seq<usize>) -> bool {
    forall|k: usize| #[trigger] s.contains(k) <==> traces.contains_key(k) && is_closed_span(traces[k])
}

/// `s` is strictly decreasing.
pub open spec fn decreasing(s: Seq<usize>) -> bool {
    forall|i: int, j: int| 0 <= i < j < s.len() ==> #[trigger] s[i] > #[trigger] s[j]
}

/// Each element of `s` has a span id.
pub open spec fn all_have_span_keys(spans: Map<u64, usize>, s: Seq<usize>) -> bool {
    forall|k: usize| #[trigger] s.contains(k) ==> has_span_key(spans, k)
}

/// In a prunable tree the largest closed span can be pruned, and its children are all events.
proof fn lemma_largest_closed_can_be_pruned<M>(pt: TreeModel<M>, s: Seq<usize>)
    requires
        links_consistent(pt.traces),
        parents_older(pt.traces),
        closed_downward(pt.traces),
        closed_exactly(pt.traces, s),
        decreasing(s),
        s.len() > 0,
        all_have_span_keys(pt.span_to_trace_id, s),
    ensures
        pt.can_prune_step(s[0]),
        forall|c: usize| #[trigger] pt.traces[s[0]].children().contains(c) ==> pt.traces.contains_key(c)
            && !pt.traces[c].is_span() && pt.traces[c].parent == Some(s[0]),
{
    let t0 = pt.traces;
    let x = s[0];
    assert(s.contains(x));
    let removed = t0[x];
    assert forall|c: usize| #[trigger] removed.children().contains(c) implies t0.contains_key(c)
        && !t0[c].is_span() && t0[c].parent == Some(x) by {
        assert(t0.contains_key(c) && t0[c].parent == Some(x));
        assert(x < c);
        if t0[c].is_span() {
            assert(is_closed_span(t0[c]));
            assert(s.contains(c));
            let i = choose|i: int| 0 <= i < s.len() && #[trigger] s[i] == c;
            if i > 0 {
                assert(s[0] > s[i]);
            }
        }
    }
    if removed.parent is Some {
        let p = removed.parent->0;
        assert(t0.contains_key(p) && t0[p].is_span());
        assert(p < x);
    }
}

/// Pruning a span whose children are all events keeps the links consistent, the parents
/// older than their children and the span children of closed spans closed.
proof fn lemma_prune_step_keeps_shape<M>(pt: TreeModel<M>, x: usize)
    requires
        links_consistent(pt.traces),
        parents_older(pt.traces),
        closed_downward(pt.traces),
        pt.can_prune_step(x),
        forall|c: usize| #[trigger] pt.traces[x].children().contains(c) ==> pt.traces.contains_key(c)
            && !pt.traces[c].is_span() && pt.traces[c].parent == Some(x),
    ensures
        links_consistent(pt.prune_step(x).traces),
        parents_older(pt.prune_step(x).traces),
        closed_downward(pt.prune_step(x).traces),
        forall|k: usize| #[trigger] pt.prune_step(x).traces.contains_key(k) ==> pt.traces.contains_key(k)
            && k != x && same_but_children(pt.prune_step(x).traces[k], pt.traces[k]),
        forall|k: usize| #[trigger] pt.traces.contains_key(k) && k != x && pt.traces[k].is_span()
            ==> pt.prune_step(x).traces.contains_key(k),
{
    let t0 = pt.traces;
    let removed = t0[x];
    let rest = t0.remove(x);
    let kept = without_child_events(rest, removed.children());
    let t = pt.prune_step(x).traces;
    assert forall|k: usize| #[trigger] t.contains_key(k) implies t0.contains_key(k) && k != x
        && same_but_children(t[k], t0[k]) && !removed.children().contains(k)
        && t[k].children() == (if removed.parent == Some(k) { t0[k].children().remove(x) } else { t0[k].children() }) by {
        assert(kept.contains_key(k));
    }
    assert forall|k: usize| #[trigger] t0.contains_key(k) && k != x && t0[k].is_span() implies t.contains_key(k) by {
        assert(kept.contains_key(k));
    }
    assert forall|k: usize| #[trigger] t.contains_key(k) && t[k].parent is Some implies ({
        let q = t[k].parent->0;
        t.contains_key(q) && t[q].is_span() && t[q].children().contains(k)
    }) by {
        let q = t0[k].parent->0;
        assert(t0.contains_key(q) && t0[q].is_span() && t0[q].children().contains(k));
        assert(q != x);
        assert(t.contains_key(q));
    }
    assert forall|s: usize, c: usize| #[trigger] t.contains_key(s) && t[s].is_span()
        && #[trigger] t[s].children().contains(c) implies t.contains_key(c) && t[c].parent == Some(s) by {
        assert(t0[s].children().contains(c));
        assert(t0.contains_key(c) && t0[c].parent == Some(s));
        assert(c != x);
        assert(kept.contains_key(c));
    }
    assert forall|k: usize| #[trigger] t.contains_key(k) && t[k].parent is Some implies t[k].parent->0 < k by {
        assert(t0.contains_key(k));
    }
    assert forall|s: usize, c: usize|
        #[trigger] t.contains_key(s) && is_closed_span(t[s]) && #[trigger] t[s].children().contains(c)
            && t.contains_key(c) && t[c].is_span() implies is_closed_span(t[c]) by {
        assert(t0[s].children().contains(c));
        assert(t0.contains_key(c));
    }
}

/// Pruning the largest closed span leaves the others closed, each with its span id.
proof fn lemma_prune_step_keeps_closed<M>(pt: TreeModel<M>, s: Seq<usize>)
    requires
        closed_exactly(pt.traces, s),
        decreasing(s),
        s.len() > 0,
        all_have_span_keys(pt.span_to_trace_id, s),
        pt.can_prune_step(s[0]),
        forall|k: usize| #[trigger] pt.prune_step(s[0]).traces.contains_key(k) ==> pt.traces.contains_key(k)
            && k != s[0] && same_but_children(pt.prune_step(s[0]).traces[k], pt.traces[k]),
        forall|k: usize| #[trigger] pt.traces.contains_key(k) && k != s[0] && pt.traces[k].is_span()
            ==> pt.prune_step(s[0]).traces.contains_key(k),
    ensures
        closed_exactly(pt.prune_step(s[0]).traces, s.drop_first()),
        all_have_span_keys(pt.prune_step(s[0]).span_to_trace_id, s.drop_first()),
{
    let x = s[0];
    let next = pt.prune_step(x);
    let t = next.traces;
    let sk = first_span_key(pt.span_to_trace_id, x);
    assert(s.contains(x));
    let w0 = choose|w: u64| #[trigger] pt.span_to_trace_id.contains_key(w) && pt.span_to_trace_id[w] == x;
    lemma_first_span_key_exists(pt.span_to_trace_id, x, w0);
    assert forall|k: usize| #[trigger] s.drop_first().contains(k) <==> t.contains_key(k) && is_closed_span(t[k]) by {
        if s.drop_first().contains(k) {
            let i = choose|i: int| 0 <= i < s.drop_first().len() && #[trigger] s.drop_first()[i] == k;
            assert(s[i + 1] == k);
            assert(s.contains(k));
            assert(s[0] > s[i + 1]);
            assert(t.contains_key(k));
        }
        if t.contains_key(k) && is_closed_span(t[k]) {
            assert(s.contains(k));
            let i = choose|i: int| 0 <= i < s.len() && #[trigger] s[i] == k;
            assert(i != 0);
            assert(s.drop_first()[i - 1] == k);
        }
    }
    assert forall|k: usize| #[trigger] s.drop_first().contains(k) implies has_span_key(next.span_to_trace_id, k) by {
        let i = choose|i: int| 0 <= i < s.drop_first().len() && #[trigger] s.drop_first()[i] == k;
        assert(s[i + 1] == k);
        assert(s.contains(k));
        assert(s[0] > s[i + 1]);
        let w = choose|w: u64| #[trigger] pt.span_to_trace_id.contains_key(w) && pt.span_to_trace_id[w] == k;
        assert(w != sk);
        assert(next.span_to_trace_id.contains_key(w));
    }
}

/// What holds once the first `j` spans of `ids` are pruned.
spec fn pruned_shape<M>(m: TreeModel<M>, ids: Seq<usize>, j: int) -> bool {
    let pt = m.pruned(ids.take(j));
    &&& m.can_prune(ids.take(j))
    &&& links_consistent(pt.traces)
    &&& parents_older(pt.traces)
    &&& closed_downward(pt.traces)
    &&& closed_exactly(pt.traces, ids.skip(j))
    &&& all_have_span_keys(pt.span_to_trace_id, ids.skip(j))
}

proof fn lemma_pruned_shape<M>(m: TreeModel<M>, ids: Seq<usize>, j: int)
    requires
        prunable(m),
        m.lists_closed_spans(ids),
        0 <= j <= ids.len(),
    ensures
        pruned_shape(m, ids, j),
    decreases j,
{
    if j == 0 {
        assert(ids.take(0) =~= Seq::<usize>::empty());
        assert(ids.skip(0) =~= ids);
    } else {
        lemma_pruned_shape(m, ids, j - 1);
        let i = j - 1;
        let pt = m.pruned(ids.take(i));
        let s = ids.skip(i);
        assert(decreasing(s)) by {
            assert forall|a: int, b: int| 0 <= a < b < s.len() implies #[trigger] s[a] > #[trigger] s[b] by {
                assert(ids[i + a] > ids[i + b]);
            }
        }
        lemma_largest_closed_can_be_pruned(pt, s);
        lemma_prune_step_keeps_shape(pt, s[0]);
        lemma_prune_step_keeps_closed(pt, s);
        assert(ids.take(j).drop_last() =~= ids.take(i));
        assert(ids.take(j).last() == s[0]);
        assert(s.drop_first() =~= ids.skip(j));
    }
}

/// Pruning a tree whose links are consistent, whose parents are older than their children,
/// whose closed spans have only closed span children and a span id each, never fails and
/// keeps the links consistent.
pub proof fn law_prune_keeps_links<M>(m: TreeModel<M>, ids: Seq<usize>)
    requires
        prunable(m),
        m.lists_closed_spans(ids),
    ensures
        m.can_prune(ids),
        links_consistent(m.pruned(ids).traces),
{
    lemma_pruned_shape(m, ids, ids.len() as int);
    assert(ids.take(ids.len() as int) =~= ids);
}

/// `a` and `b` are the same trace but for the children of a span.
pub open spec fn same_but_children<M>(a: TraceModel<M>, b: TraceModel<M>) -> bool {
    &&& a.meta == b.meta
    &&& a.fields == b.fields
    &&& a.parent == b.parent
    &&& a.is_span() == b.is_span()
    &&& a.is_span() ==> a.is_open() == b.is_open() && a.entered() == b.entered() && a.exited() == b.exited()
    &&& !a.is_span() ==> a == b
}

/// What holds after pruning the first `j` spans of `ids`.
spec fn pruned_so_far<M>(m: TreeModel<M>, ids: Seq<usize>, j: int) -> bool {
    let t = m.pruned(ids.take(j)).traces;
    &&& forall|k: usize| #[trigger] t.contains_key(k) ==> m.traces.contains_key(k) && same_but_children(t[k], m.traces[k])
    &&& forall|k: usize| #[trigger] t.contains_key(k) && is_closed_span(t[k]) ==> ids.skip(j).contains(k)
    &&& forall|k: usize| #[trigger] m.traces.contains_key(k) && m.traces[k].is_span() && m.traces[k].is_open()
        ==> t.contains_key(k)
}

proof fn lemma_pruned_so_far<M>(m: TreeModel<M>, ids: Seq<usize>, j: int)
    requires
        m.lists_closed_spans(ids),
        m.can_prune(ids),
        0 <= j <= ids.len(),
    ensures
        pruned_so_far(m, ids, j),
    decreases j,
{
    if j == 0 {
        assert(ids.take(0) =~= Seq::<usize>::empty());
        assert(ids.skip(0) =~= ids);
    } else {
        lemma_pruned_so_far(m, ids, j - 1);
        lemma_can_prune_prefix(m, ids, j);
        let before = m.pruned(ids.take(j - 1));
        let x = ids[j - 1];
        assert(ids.take(j).drop_last() =~= ids.take(j - 1));
        assert(m.pruned(ids.take(j)) == before.prune_step(x));
        assert(before.can_prune_step(x));
        let t0 = before.traces;
        let t = m.pruned(ids.take(j)).traces;
        assert(ids.contains(x));
        assert forall|k: usize| #[trigger] t.contains_key(k) implies m.traces.contains_key(k) && same_but_children(t[k], m.traces[k]) by {
            assert(t0.contains_key(k));
        }
        assert forall|k: usize| #[trigger] t.contains_key(k) && is_closed_span(t[k]) implies ids.skip(j).contains(k) by {
            assert(t0.contains_key(k));
            assert(ids.skip(j - 1).contains(k));
            let rest = ids.skip(j - 1);
            let i = choose|i: int| 0 <= i < rest.len() && #[trigger] rest[i] == k;
            assert(k != x);
            assert(i > 0);
            assert(ids.skip(j)[i - 1] == k);
        }
        assert forall|k: usize| #[trigger] m.traces.contains_key(k) && m.traces[k].is_span() && m.traces[k].is_open()
            implies t.contains_key(k) by {
            assert(t0.contains_key(k));
            assert(is_closed_span(m.traces[x]));
        }
    }
}

/// Pruning removes every closed span and keeps every open span; what stays is unchanged but
/// for the children of its spans.
pub proof fn law_prune_removes_closed_keeps_open<M>(m: TreeModel<M>, ids: Seq<usize>)
    requires
        m.lists_closed_spans(ids),
        m.can_prune(ids),
    ensures
        forall|k: usize| #[trigger] m.pruned(ids).traces.contains_key(k) ==> !is_closed_span(m.pruned(ids).traces[k]),
        forall|k: usize| #[trigger] m.traces.contains_key(k) && m.traces[k].is_span() && m.traces[k].is_open()
            ==> m.pruned(ids).traces.contains_key(k),
        forall|k: usize| #[trigger] m.pruned(ids).traces.contains_key(k) ==> m.traces.contains_key(k)
            && same_but_children(m.pruned(ids).traces[k], m.traces[k]),
{
    lemma_pruned_so_far(m, ids, ids.len() as int);
    assert(ids.take(ids.len() as int) =~= ids);
    assert(ids.skip(ids.len() as int) =~= Seq::<usize>::empty());
}


/// Whether the trace `c` of `m` is an event whose parent is among `ids`.
pub open spec fn event_under<M>(m: TreeModel<M>, c: usize, ids: Seq<usize>) -> bool {
    &&& !m.traces[c].is_span()
    &&& m.traces[c].parent is Some
    &&& ids.contains(m.traces[c].parent->0)
}

/// What holds of the events and of the children of spans once the first `j` spans of `ids`
/// are pruned.
spec fn pruned_links_so_far<M>(m: TreeModel<M>, ids: Seq<usize>, j: int) -> bool {
    let t = m.pruned(ids.take(j)).traces;
    &&& forall|c: usize| #[trigger] m.traces.contains_key(c) && !m.traces[c].is_span() ==> (t.contains_key(c)
        <==> !event_under(m, c, ids.take(j)))
    &&& forall|k: usize| #[trigger] t.contains_key(k) && t[k].is_span() ==> t[k].children()
        == m.traces[k].children().filter(|c: usize| !ids.take(j).contains(c))
}

proof fn lemma_pruned_links_so_far<M>(m: TreeModel<M>, ids: Seq<usize>, j: int)
    requires
        prunable(m),
        m.lists_closed_spans(ids),
        0 <= j <= ids.len(),
    ensures
        pruned_links_so_far(m, ids, j),
    decreases j,
{
    law_prune_keeps_links(m, ids);
    if j == 0 {
        assert(ids.take(0) =~= Seq::<usize>::empty());
        let t = m.pruned(ids.take(0)).traces;
        assert forall|k: usize| #[trigger] t.contains_key(k) && t[k].is_span() implies t[k].children()
            == m.traces[k].children().filter(|c: usize| !ids.take(0).contains(c)) by {
            assert(t[k].children() =~= m.traces[k].children().filter(|c: usize| !ids.take(0).contains(c)));
        }
    } else {
        let i = j - 1;
        lemma_pruned_links_so_far(m, ids, i);
        lemma_pruned_shape(m, ids, i);
        lemma_pruned_so_far(m, ids, i);
        let pt = m.pruned(ids.take(i));
        let s = ids.skip(i);
        let x = ids[i];
        assert(s[0] == x);
        assert(decreasing(s)) by {
            assert forall|a: int, b: int| 0 <= a < b < s.len() implies #[trigger] s[a] > #[trigger] s[b] by {
                assert(ids[i + a] > ids[i + b]);
            }
        }
        lemma_largest_closed_can_be_pruned(pt, s);
        lemma_prune_step_keeps_shape(pt, x);
        assert(ids.take(j).drop_last() =~= ids.take(i));
        assert(ids.take(j).last() == x);
        assert(m.pruned(ids.take(j)) == pt.prune_step(x));
        assert(s.contains(x));
        let t0 = pt.traces;
        let t = pt.prune_step(x).traces;
        let removed = t0[x];
        let kept = without_child_events(t0.remove(x), removed.children());
        assert(ids.contains(x));
        assert(m.traces.contains_key(x) && is_closed_span(m.traces[x]));
        assert forall|v: usize| ids.take(j).contains(v) <==> ids.take(i).contains(v) || v == x by {
            if ids.take(j).contains(v) {
                let a = choose|a: int| 0 <= a < ids.take(j).len() && #[trigger] ids.take(j)[a] == v;
                if a < i {
                    assert(ids.take(i)[a] == v);
                }
            }
            if ids.take(i).contains(v) {
                let a = choose|a: int| 0 <= a < ids.take(i).len() && #[trigger] ids.take(i)[a] == v;
                assert(ids.take(j)[a] == v);
            }
            if v == x {
                assert(ids.take(j)[i] == v);
            }
        }
        assert forall|c: usize| #[trigger] m.traces.contains_key(c) && !m.traces[c].is_span() implies (t.contains_key(c)
            <==> !event_under(m, c, ids.take(j))) by {
            if t0.contains_key(c) {
                assert(same_but_children(t0[c], m.traces[c]));
                assert(t0[c] == m.traces[c]);
                if m.traces[c].parent == Some(x) {
                    assert(t0[x].children().contains(c));
                    assert(!kept.contains_key(c));
                    assert(!t.contains_key(c));
                } else {
                    if removed.children().contains(c) {
                        assert(t0[c].parent == Some(x));
                    }
                    assert(kept.contains_key(c));
                    assert(t.contains_key(c));
                }
            } else {
                assert(!t.contains_key(c));
            }
        }
        assert forall|k: usize| #[trigger] t.contains_key(k) && t[k].is_span() implies t[k].children()
            == m.traces[k].children().filter(|c: usize| !ids.take(j).contains(c)) by {
            assert(t0.contains_key(k) && kept.contains_key(k));
            assert(same_but_children(t[k], t0[k]));
            assert(t0[k].is_span());
            let before = m.traces[k].children().filter(|c: usize| !ids.take(i).contains(c));
            assert(t0[k].children() == before);
            if removed.parent == Some(k) {
                assert(t[k].children() == t0[k].children().remove(x));
                assert(t[k].children() =~= m.traces[k].children().filter(|c: usize| !ids.take(j).contains(c)));
            } else {
                assert(t[k] == t0[k]);
                if m.traces[k].children().contains(x) {
                    assert(m.traces[x].parent == Some(k));
                    assert(same_but_children(t0[x], m.traces[x]));
                }
                assert(t[k].children() =~= m.traces[k].children().filter(|c: usize| !ids.take(j).contains(c)));
            }
        }
    }
}

/// Pruning takes out exactly the events whose parent is a closed span; every other event stays.
pub proof fn law_prune_removes_events_of_closed_spans<M>(m: TreeModel<M>, ids: Seq<usize>)
    requires
        prunable(m),
        m.lists_closed_spans(ids),
    ensures
        forall|c: usize| #[trigger] m.traces.contains_key(c) && !m.traces[c].is_span() ==> (m.pruned(
            ids,
        ).traces.contains_key(c) <==> !event_under(m, c, ids)),
{
    lemma_pruned_links_so_far(m, ids, ids.len() as int);
    assert(ids.take(ids.len() as int) =~= ids);
}

/// Each span that stays loses from its children exactly the closed spans.
pub proof fn law_prune_drops_closed_children<M>(m: TreeModel<M>, ids: Seq<usize>)
    requires
        prunable(m),
        m.lists_closed_spans(ids),
    ensures
        forall|k: usize| #[trigger] m.pruned(ids).traces.contains_key(k) && m.pruned(ids).traces[k].is_span()
            ==> m.pruned(ids).traces[k].children() == m.traces[k].children().filter(|c: usize| !ids.contains(c)),
{
    lemma_pruned_links_so_far(m, ids, ids.len() as int);
    assert(ids.take(ids.len() as int) =~= ids);
}

/// Each closed span listed in `ids` is the trace of one span id at most.
pub open spec fn closed_span_ids_unique<M>(m: TreeModel<M>, ids: Seq<usize>) -> bool {
    forall|k1: u64, k2: u64|
        #[trigger] m.span_to_trace_id.contains_key(k1) && #[trigger] m.span_to_trace_id.contains_key(k2)
            && m.span_to_trace_id[k1] == m.span_to_trace_id[k2] && ids.contains(m.span_to_trace_id[k1]) ==> k1 == k2
}

/// What holds of the span ids once the first `j` spans of `ids` are pruned.
spec fn pruned_span_ids_so_far<M>(m: TreeModel<M>, ids: Seq<usize>, j: int) -> bool {
    let sp = m.pruned(ids.take(j)).span_to_trace_id;
    &&& forall|k: u64| #[trigger] sp.contains_key(k) <==> m.span_to_trace_id.contains_key(k) && !ids.take(
        j,
    ).contains(m.span_to_trace_id[k])
    &&& forall|k: u64| #[trigger] sp.contains_key(k) ==> sp[k] == m.span_to_trace_id[k]
    &&& m.pruned(ids.take(j)).next_trace_id == m.next_trace_id
}

proof fn lemma_pruned_span_ids_so_far<M>(m: TreeModel<M>, ids: Seq<usize>, j: int)
    requires
        prunable(m),
        m.lists_closed_spans(ids),
        closed_span_ids_unique(m, ids),
        0 <= j <= ids.len(),
    ensures
        pruned_span_ids_so_far(m, ids, j),
    decreases j,
{
    law_prune_keeps_links(m, ids);
    if j == 0 {
        assert(ids.take(0) =~= Seq::<usize>::empty());
    } else {
        let i = j - 1;
        lemma_pruned_span_ids_so_far(m, ids, i);
        lemma_can_prune_prefix(m, ids, j);
        let pt = m.pruned(ids.take(i));
        let x = ids[i];
        assert(ids.take(j).drop_last() =~= ids.take(i));
        assert(ids.take(j).last() == x);
        assert(m.pruned(ids.take(j)) == pt.prune_step(x));
        assert(pt.can_prune_step(x));
        let sp0 = pt.span_to_trace_id;
        let w = choose|w: u64| #[trigger] sp0.contains_key(w) && sp0[w] == x;
        lemma_first_span_key_exists(sp0, x, w);
        let fk = first_span_key(sp0, x);
        assert(ids.contains(x)) by {
            assert(ids[i] == x);
        }
        assert(m.span_to_trace_id.contains_key(fk) && m.span_to_trace_id[fk] == x);
        assert forall|v: usize| ids.take(j).contains(v) <==> ids.take(i).contains(v) || v == x by {
            if ids.take(j).contains(v) {
                let a = choose|a: int| 0 <= a < ids.take(j).len() && #[trigger] ids.take(j)[a] == v;
                if a < i {
                    assert(ids.take(i)[a] == v);
                }
            }
            if ids.take(i).contains(v) {
                let a = choose|a: int| 0 <= a < ids.take(i).len() && #[trigger] ids.take(i)[a] == v;
                assert(ids.take(j)[a] == v);
            }
            if v == x {
                assert(ids.take(j)[i] == v);
            }
        }
        let sp = m.pruned(ids.take(j)).span_to_trace_id;
        assert forall|k: u64| #[trigger] sp.contains_key(k) <==> m.span_to_trace_id.contains_key(k) && !ids.take(
            j,
        ).contains(m.span_to_trace_id[k]) by {
            if m.span_to_trace_id.contains_key(k) && m.span_to_trace_id[k] == x {
                assert(k == fk);
            }
        }
    }
}

/// Where each closed span is the trace of one span id at most, pruning drops exactly the span
/// ids of the closed spans and keeps every other span id with its trace id; the next trace id
/// stays.
pub proof fn law_prune_drops_span_ids_of_closed_spans<M>(m: TreeModel<M>, ids: Seq<usize>)
    requires
        prunable(m),
        m.lists_closed_spans(ids),
        closed_span_ids_unique(m, ids),
    ensures
        forall|k: u64| #[trigger] m.pruned(ids).span_to_trace_id.contains_key(k) <==> m.span_to_trace_id.contains_key(k)
            && !ids.contains(m.span_to_trace_id[k]),
        forall|k: u64| #[trigger] m.pruned(ids).span_to_trace_id.contains_key(k) ==> m.pruned(ids).span_to_trace_id[k]
            == m.span_to_trace_id[k],
        m.pruned(ids).next_trace_id == m.next_trace_id,
{
    lemma_pruned_span_ids_so_far(m, ids, ids.len() as int);
    assert(ids.take(ids.len() as int) =~= ids);
}

/// Once the closed spans are pruned none is left: a second pruning finds nothing to prune and
/// leaves the tree as it is.
pub proof fn law_prune_twice_changes_nothing<M>(m: TreeModel<M>, ids: Seq<usize>, again: Seq<usize>)
    requires
        prunable(m),
        m.lists_closed_spans(ids),
        m.pruned(ids).lists_closed_spans(again),
    ensures
        again.len() == 0,
        m.pruned(ids).can_prune(again),
        m.pruned(ids).pruned(again) == m.pruned(ids),
{
    law_prune_keeps_links(m, ids);
    law_prune_removes_closed_keeps_open(m, ids);
    if again.len() > 0 {
        assert(again.contains(again[0]));
    }
}

impl<M> Default for TraceTree<M> {
    /// An empty tree, whose first trace id is zero.
    fn default() -> (r: Self)
        ensures
            r@.traces == Map::<usize, TraceModel<M>>::empty(),
            r@.next_trace_id == 0,
            r@.span_to_trace_id == Map::<u64, usize>::empty(),
    {
        Self::new()
    }
}

impl<M> TraceTree<M> {
    /// An empty tree, whose first trace id is zero.
    pub fn new() -> (r: Self)
        ensures
            r@.traces == Map::<usize, TraceModel<M>>::empty(),
            r@.next_trace_id == 0,
            r@.span_to_trace_id == Map::<u64, usize>::empty(),
    {
        let r = TraceTree { traces: BTreeMap::new(), next_trace_id: 0, span_to_trace_id: BTreeMap::new() };
        proof {
            assert(r@.traces =~= Map::<usize, TraceModel<M>>::empty());
        }
        r
    }

    /// Gives out the next trace id, and maps `span_id` to it when there is one.
    pub fn next_trace_id(&mut self, span_id: Option<u64>) -> (r: usize)
        ensures
            r == old(self)@.next_trace_id,
            final(self)@ == old(self)@.with_next_id(span_id),
    {
        let trace_id = self.next_trace_id;
        self.next_trace_id = self.next_trace_id.wrapping_add(1);
        if let Some(span_id) = span_id {
            self.span_to_trace_id.insert(span_id, trace_id);
        }
        proof {
            assert(self@.traces =~= old(self)@.traces);
        }
        trace_id
    }

    /// The trace id of a span id.
    pub fn span_to_trace_id(&self, span_id: &u64) -> (r: usize)
        requires
            self@.span_to_trace_id.contains_key(*span_id),
        ensures
            r == self@.span_to_trace_id[*span_id],
    {
        match self.span_to_trace_id.get(span_id) {
            Some(id) => *id,
            None => {
                proof {
                    assert(false);
                }
                0
            },
        }
    }

    /// The trace id of a span id, if it has one.
    pub fn trace_id_of(&self, span_id: &u64) -> (r: Option<usize>)
        ensures
            r == (if self@.span_to_trace_id.contains_key(*span_id) {
                Some(self@.span_to_trace_id[*span_id])
            } else {
                None
            }),
    {
        match self.span_to_trace_id.get(span_id) {
            Some(id) => Some(*id),
            None => None,
        }
    }

    /// Whether the trace `id` is a span of the tree.
    fn trace_is_span(&self, id: usize) -> (r: bool)
        ensures
            r == self@.is_span_or_none(Some(id)),
    {
        match self.traces.get(&id) {
            Some(t) => match t.variant() {
                TraceVariant::Span { .. } => true,
                TraceVariant::Event { .. } => false,
            },
            None => false,
        }
    }

    /// Whether [`TraceTree::new_span`] can take these arguments.
    pub fn can_add_span(&self, span_id: u64, parent_span_id: Option<u64>) -> (r: bool)
        ensures
            r == self@.can_add_span(span_id, parent_span_id),
    {
        match parent_span_id {
            None => true,
            Some(p) => {
                if p == span_id {
                    true
                } else {
                    match self.trace_id_of(&p) {
                        Some(t) => t == self.next_trace_id || self.trace_is_span(t),
                        None => false,
                    }
                }
            },
        }
    }

    /// Whether [`TraceTree::on_event`] can take this parent.
    pub fn can_add_event(&self, parent_span_id: Option<u64>) -> (r: bool)
        ensures
            r == self@.can_add_event(parent_span_id),
    {
        match parent_span_id {
            None => true,
            Some(p) => match self.trace_id_of(&p) {
                Some(t) => t != self.next_trace_id && self.trace_is_span(t),
                None => false,
            },
        }
    }

    /// Whether the span id has a trace in the tree.
    pub fn has_trace(&self, span_id: &u64) -> (r: bool)
        ensures
            r == self@.has_trace(*span_id),
    {
        match self.trace_id_of(span_id) {
            Some(t) => self.traces.contains_key(&t),
            None => false,
        }
    }

    /// Whether the span id has a trace in the tree, and that trace is a span.
    pub fn has_span(&self, span_id: &u64) -> (r: bool)
        ensures
            r == self@.has_span(*span_id),
    {
        match self.trace_id_of(span_id) {
            Some(t) => self.trace_is_span(t),
            None => false,
        }
    }

    /// The recorded traces.
    pub fn traces(&self) -> (r: &BTreeMap<usize, Trace<M>>)
        ensures
            r@.map_values(|t: Trace<M>| t@) == self@.traces,
    {
        &self.traces
    }

    /// Takes the trace `id` out of the tree.
    fn take(&mut self, id: usize) -> (r: Trace<M>)
        requires
            old(self)@.traces.contains_key(id),
        ensures
            r@ == old(self)@.traces[id],
            final(self)@ == (TreeModel {
                traces: old(self)@.traces.remove(id),
                next_trace_id: old(self)@.next_trace_id,
                span_to_trace_id: old(self)@.span_to_trace_id,
            }),
        decreases 0nat,
    {
        match self.traces.remove(&id) {
            Some(t) => {
                proof {
                    assert(self@.traces =~= old(self)@.traces.remove(id));
                }
                t
            },
            None => {
                proof {
                    assert(false);
                }
                self.take(id)
            },
        }
    }

    /// Puts the trace `t` into the tree under `id`.
    fn put(&mut self, id: usize, t: Trace<M>)
        ensures
            final(self)@ == old(self)@.with_trace(id, t@),
    {
        let ghost tm = t@;
        self.traces.insert(id, t);
        proof {
            assert(self@.traces =~= old(self)@.traces.insert(id, tm));
        }
    }

    /// Records `fields` into `trace`, in order.
    fn record_all(trace: &mut Trace<M>, fields: Vec<(String, TraceField)>)
        ensures
            old(trace).wf() ==> final(trace).wf(),
            final(trace)@ == old(trace)@.with_fields(recorded_all(old(trace)@.fields, field_names(fields@))),
    {
        let ghost new = field_names(fields@);
        let ghost start = trace@;
        let mut rest = fields;
        let ghost mut done: int = 0;
        while rest.len() > 0
            invariant
                0 <= done <= new.len(),
                field_names(rest@) == new.skip(done),
                sorted_names(start.fields) ==> trace.wf(),
                trace@ == start.with_fields(recorded_all(start.fields, new.take(done))),
            decreases rest@.len(),
        {
            let ghost before = rest@;
            let (name, value) = rest.remove(0);
            proof {
                assert(before[0] == (name, value));
                assert(field_names(before)[0] == (name@, value));
                assert(field_names(before).len() == before.len());
                assert(done < new.len());
                assert(new.skip(done)[0] == new[done]);
                assert(new[done] == (name@, value));
            }
            trace.record(name.as_str(), value);
            proof {
                assert(field_names(rest@) =~= field_names(before).drop_first());
                assert(new.skip(done).drop_first() =~= new.skip(done + 1));
                assert(new.take(done + 1).drop_last() =~= new.take(done));
                done = done + 1;
            }
        }
        proof {
            assert(new.take(done) =~= new);
        }
    }

    /// Records a new span with the subscriber's id `span_id`, under the span `parent_span_id`
    /// when there is one; returns its trace id.
    pub fn new_span(&mut self, span_id: u64, parent_span_id: Option<u64>, meta: M) -> (r: usize)
        requires
            old(self)@.can_add_span(span_id, parent_span_id),
        ensures
            r == old(self)@.next_trace_id,
            final(self)@ == old(self)@.after_new_span(span_id, parent_span_id, meta),
    {
        let ghost m = meta;
        let trace_id = self.next_trace_id(Some(span_id));
        let parent_trace_id = match parent_span_id {
            Some(p) => Some(self.span_to_trace_id(&p)),
            None => None,
        };
        self.put(trace_id, Trace::span(meta, parent_trace_id));
        if let Some(parent_trace_id) = parent_trace_id {
            let mut parent = self.take(parent_trace_id);
            parent.insert_child(trace_id);
            self.put(parent_trace_id, parent);
            proof {
                assert(self@.traces =~= old(self)@.after_new_span(span_id, parent_span_id, m).traces);
            }
        }
        trace_id
    }

    /// Records `fields` on the span with the subscriber's id `span_id`.
    pub fn on_record(&mut self, span_id: &u64, fields: Vec<(String, TraceField)>)
        requires
            old(self)@.has_trace(*span_id),
        ensures
            ({
                let id = old(self)@.span_to_trace_id[*span_id];
                let t = old(self)@.traces[id];
                final(self)@ == old(self)@.with_trace(id, t.with_fields(recorded_all(t.fields, field_names(fields@))))
            }),
    {
        let trace_id = self.span_to_trace_id(span_id);
        let mut trace = self.take(trace_id);
        Self::record_all(&mut trace, fields);
        self.put(trace_id, trace);
        proof {
            let id = old(self)@.span_to_trace_id[*span_id];
            assert(self@.traces =~= old(self)@.traces.insert(id, self@.traces[id]));
        }
    }

    /// Records an event with `fields`, under the span `parent_span_id` when there is one;
    /// returns its trace id.
    pub fn on_event(&mut self, parent_span_id: Option<u64>, meta: M, fields: Vec<(String, TraceField)>) -> (r: usize)
        requires
            old(self)@.can_add_event(parent_span_id),
        ensures
            r == old(self)@.next_trace_id,
            final(self)@ == old(self)@.after_event(
                parent_span_id,
                meta,
                field_names(fields@),
                final(self)@.traces[r].variant->Event_occurred,
            ),
    {
        let ghost m = meta;
        let ghost new = field_names(fields@);
        let trace_id = self.next_trace_id(None);
        let parent_trace_id = match parent_span_id {
            Some(p) => Some(self.span_to_trace_id(&p)),
            None => None,
        };
        let mut trace = Trace::event(meta, parent_trace_id);
        let ghost occurred = trace@.variant->Event_occurred;
        Self::record_all(&mut trace, fields);
        self.put(trace_id, trace);
        if let Some(parent_trace_id) = parent_trace_id {
            let mut parent = self.take(parent_trace_id);
            parent.insert_child(trace_id);
            self.put(parent_trace_id, parent);
        }
        proof {
            assert(self@.traces[trace_id].variant->Event_occurred == occurred);
            assert(self@.traces =~= old(self)@.after_event(parent_span_id, m, new, occurred).traces);
        }
        trace_id
    }

    /// Marks the span with the subscriber's id `span_id` as entered now.
    pub fn on_enter(&mut self, span_id: &u64)
        requires
            old(self)@.has_span(*span_id),
        ensures
            ({
                let id = old(self)@.span_to_trace_id[*span_id];
                let t = old(self)@.traces[id];
                &&& final(self)@.traces[id].entered() is Some
                &&& final(self)@ == old(self)@.with_trace(
                    id,
                    t.with_span(t.children(), t.is_open(), final(self)@.traces[id].entered(), t.exited()),
                )
            }),
    {
        let trace_id = self.span_to_trace_id(span_id);
        let mut span = self.take(trace_id);
        span.enter();
        self.put(trace_id, span);
        proof {
            assert(self@.traces =~= old(self)@.traces.insert(trace_id, self@.traces[trace_id]));
        }
    }

    /// Marks the span with the subscriber's id `span_id` as exited now.
    pub fn on_exit(&mut self, span_id: &u64)
        requires
            old(self)@.has_span(*span_id),
        ensures
            ({
                let id = old(self)@.span_to_trace_id[*span_id];
                let t = old(self)@.traces[id];
                &&& final(self)@.traces[id].exited() is Some
                &&& final(self)@ == old(self)@.with_trace(
                    id,
                    t.with_span(t.children(), t.is_open(), t.entered(), final(self)@.traces[id].exited()),
                )
            }),
    {
        let trace_id = self.span_to_trace_id(span_id);
        let mut span = self.take(trace_id);
        span.exit();
        self.put(trace_id, span);
        proof {
            assert(self@.traces =~= old(self)@.traces.insert(trace_id, self@.traces[trace_id]));
        }
    }

    /// Marks the span with the subscriber's id `span_id` as closed.
    pub fn on_close(&mut self, span_id: &u64)
        requires
            old(self)@.has_span(*span_id),
        ensures
            ({
                let id = old(self)@.span_to_trace_id[*span_id];
                let t = old(self)@.traces[id];
                final(self)@ == old(self)@.with_trace(id, t.with_span(t.children(), false, t.entered(), t.exited()))
            }),
    {
        let trace_id = self.span_to_trace_id(span_id);
        let mut span = self.take(trace_id);
        span.close();
        self.put(trace_id, span);
        proof {
            assert(self@.traces =~= old(self)@.traces.insert(trace_id, self@.traces[trace_id]));
        }
    }

    /// The trace ids of the closed spans, in increasing order.
    fn closed_span_ids(&self) -> (r: Vec<usize>)
        ensures
            forall|i: int, j: int| 0 <= i < j < r@.len() ==> #[trigger] r@[i] < #[trigger] r@[j],
            forall|k: usize| #[trigger] r@.contains(k) <==> self@.traces.contains_key(k) && is_closed_span(
                self@.traces[k],
            ),
    {
        let ghost traces = self.traces@;
        let ghost model = self@.traces;
        let ghost entries = spec_btree_map_iter(&self.traces).remaining();
        let ghost mut n: int = 0;
        let mut ids: Vec<usize> = Vec::new();
        let iter = self.traces.iter();
        proof {
            assert(obeys_cmp::<usize>());
            let keys = entries.map_values(|kv: (&usize, &Trace<M>)| *kv.0);
            assert(increasing_seq(keys));
            assert forall|i: int, j: int| 0 <= i < j < entries.len() implies *(#[trigger] entries[i]).0
                < *(#[trigger] entries[j]).0 by {
                assert(keys[i].cmp_spec(&keys[j]) is Less);
            }
        }
        for kv in it: iter
            invariant
                traces == self.traces@,
                model == self@.traces,
                entries == spec_btree_map_iter(&self.traces).remaining(),
                it.seq() == entries,
                n == it.index(),
                forall|j: int| 0 <= j < entries.len() ==> traces.contains_key(*(#[trigger] entries[j]).0)
                    && traces[*entries[j].0] == *entries[j].1,
                forall|k: usize| #[trigger] traces.contains_key(k) ==> exists|j: int|
                    0 <= j < entries.len() && *entries[j].0 == k,
                forall|i: int, j: int| 0 <= i < j < entries.len() ==> *(#[trigger] entries[i]).0
                    < *(#[trigger] entries[j]).0,
                forall|i: int, j: int| 0 <= i < j < ids@.len() ==> #[trigger] ids@[i] < #[trigger] ids@[j],
                forall|a: int| 0 <= a < ids@.len() ==> exists|j: int| 0 <= j < n && *entries[j].0 == #[trigger] ids@[a],
                forall|k: usize| #[trigger] ids@.contains(k) ==> model.contains_key(k) && is_closed_span(model[k]),
                forall|j: int| 0 <= j < n && is_closed_span(model[*(#[trigger] entries[j]).0]) ==> ids@.contains(*entries[j].0),
        {
            proof {
                assert(kv == entries[n]);
            }
            let (id, trace) = kv;
            let closed = match trace.variant() {
                TraceVariant::Span { .. } => !trace.is_open(),
                TraceVariant::Event { .. } => false,
            };
            if closed {
                ids.push(*id);
            }
            proof {
                assert(model[*id] == trace@);
                assert(closed == is_closed_span(trace@));
                assert forall|a: int| 0 <= a < ids@.len() implies exists|j: int| 0 <= j < n + 1 && *entries[j].0 == #[trigger] ids@[a] by {
                    if a == ids@.len() - 1 && closed {
                        assert(*entries[n].0 == ids@[a]);
                    } else {
                        let j = choose|j: int| 0 <= j < n && *entries[j].0 == ids@[a];
                        assert(*entries[j].0 == ids@[a]);
                    }
                }
                if closed {
                    assert forall|i: int, j: int| 0 <= i < j < ids@.len() implies #[trigger] ids@[i] < #[trigger] ids@[j] by {
                        if j == ids@.len() - 1 {
                            let j0 = choose|j0: int| 0 <= j0 < n && *entries[j0].0 == ids@[i];
                            assert(*entries[j0].0 < *entries[n].0);
                        }
                    }
                }
                n = n + 1;
            }
        }
        proof {
            assert(n == entries.len());
            assert forall|k: usize| #[trigger] ids@.contains(k) <== model.contains_key(k) && is_closed_span(model[k]) by {
                if model.contains_key(k) && is_closed_span(model[k]) {
                    let j = choose|j: int| 0 <= j < entries.len() && *entries[j].0 == k;
                    assert(is_closed_span(model[*entries[j].0]));
                }
            }
        }
        ids
    }

    /// Prunes the closed span `x`.
    fn prune_one(&mut self, x: usize)
        requires
            old(self)@.can_prune_step(x),
        ensures
            final(self)@ == old(self)@.prune_step(x),
    {
        let ghost start = self@;
        let removed = self.take(x);
        let ghost rest = self@.traces;
        let ghost children = removed@.children();
        let kids = removed.children();
        let ghost entries = spec_btree_keys_iter(kids).remaining();
        let ghost mut n: int = 0;
        let ghost mut done: Set<usize> = Set::empty();
        let iter = kids.iter();
        proof {
            assert(without_child_events(rest, done) =~= rest);
        }
        for c in it: iter
            invariant
                entries == spec_btree_keys_iter(kids).remaining(),
                it.seq() == entries,
                n == it.index(),
                entries.unref().to_set() == children,
                entries.no_duplicates(),
                children == kids@,
                forall|k: usize| #[trigger] done.contains(k) <==> exists|j: int| 0 <= j < n && *entries[j] == k,
                forall|k: usize| #[trigger] children.contains(k) ==> rest.contains_key(k),
                self@.traces == without_child_events(rest, done),
                self@.next_trace_id == start.next_trace_id,
                self@.span_to_trace_id == start.span_to_trace_id,
        {
            proof {
                assert(c == entries[n]);
                assert(entries.unref()[n] == *c);
                assert(children.contains(*c));
                assert(!done.contains(*c)) by {
                    if done.contains(*c) {
                        let j = choose|j: int| 0 <= j < n && *entries[j] == *c;
                        assert(entries[j] == entries[n]);
                    }
                }
            }
            let ghost before = self@.traces;
            let is_event = match self.traces.get(c) {
                Some(t) => {
                    proof {
                        assert(self.traces@[*c] == *t);
                        assert(before[*c] == t@);
                        assert(rest[*c] == t@);
                    }
                    match t.variant() {
                        TraceVariant::Event { .. } => true,
                        TraceVariant::Span { .. } => false,
                    }
                },
                None => {
                    proof {
                        assert(self@.traces.contains_key(*c));
                        assert(false);
                    }
                    false
                },
            };
            if is_event {
                self.traces.remove(c);
                proof {
                    assert(self@.traces =~= before.remove(*c));
                }
            }
            proof {
                assert(is_event == !rest[*c].is_span());
                assert(without_child_events(rest, done.insert(*c)) =~= (if is_event { before.remove(*c) } else { before }));
                done = done.insert(*c);
                n = n + 1;
            }
        }
        proof {
            assert(n == entries.len());
            assert(done =~= children) by {
                assert forall|k: usize| #[trigger] done.contains(k) == children.contains(k) by {
                    if children.contains(k) {
                        assert(entries.unref().contains(k));
                        let j = choose|j: int| 0 <= j < entries.unref().len() && entries.unref()[j] == k;
                        assert(*entries[j] == k);
                    }
                    if done.contains(k) {
                        let j = choose|j: int| 0 <= j < n && *entries[j] == k;
                        assert(entries.unref()[j] == k);
                    }
                }
            }
        }
        if let Some(parent_id) = removed.parent() {
            let mut parent = self.take(parent_id);
            parent.remove_child(&x);
            self.put(parent_id, parent);
        }
        let span_id = self.first_span_key(x);
        self.span_to_trace_id.remove(&span_id);
        proof {
            let expected = start.prune_step(x);
            assert(self@.span_to_trace_id =~= expected.span_to_trace_id);
            assert(self@.traces =~= expected.traces);
        }
    }

    /// Prunes every closed span, largest trace id first: each leaves the tree with its child
    /// events, leaves its parent's children, and the smallest span id that maps to it leaves
    /// the span ids.
    pub fn prune_closed(&mut self)
        requires
            forall|ids: Seq<usize>| #[trigger] old(self)@.lists_closed_spans(ids) ==> old(self)@.can_prune(ids),
        ensures
            exists|ids: Seq<usize>| #[trigger] old(self)@.lists_closed_spans(ids) && final(self)@ == old(self)@.pruned(ids),
    {
        let ghost start = self@;
        let ids = self.closed_span_ids();
        let ghost desc = ids@.reverse();
        proof {
            assert forall|k: usize| #[trigger] desc.contains(k) <==> ids@.contains(k) by {
                if desc.contains(k) {
                    let j = choose|j: int| 0 <= j < desc.len() && desc[j] == k;
                    assert(ids@[ids@.len() - 1 - j] == k);
                }
                if ids@.contains(k) {
                    let j = choose|j: int| 0 <= j < ids@.len() && ids@[j] == k;
                    assert(desc[ids@.len() - 1 - j] == k);
                }
            }
            assert(start.lists_closed_spans(desc));
            assert(self@.pruned(desc.take(0)) == self@);
        }
        let mut i = ids.len();
        while i > 0
            invariant
                i <= ids@.len(),
                desc == ids@.reverse(),
                start.can_prune(desc),
                self@ == start.pruned(desc.take(ids@.len() - i)),
            decreases i,
        {
            i = i - 1;
            let x = ids[i];
            proof {
                let done = (ids@.len() - i) as int;
                assert(desc[done - 1] == x);
                assert(desc.take(done).drop_last() =~= desc.take(done - 1));
                lemma_can_prune_prefix(start, desc, done);
            }
            self.prune_one(x);
        }
        proof {
            assert(desc.take(ids@.len() as int) =~= desc);
        }
    }

    /// Whether some span id maps to the trace `id`.
    fn has_span_key_exec(&self, id: usize) -> (r: bool)
        ensures
            r == has_span_key(self@.span_to_trace_id, id),
    {
        let ghost spans = self.span_to_trace_id@;
        let ghost entries = spec_btree_map_iter(&self.span_to_trace_id).remaining();
        let ghost mut n: int = 0;
        let mut found = false;
        let iter = self.span_to_trace_id.iter();
        for kv in it: iter
            invariant
                spans == self.span_to_trace_id@,
                entries == spec_btree_map_iter(&self.span_to_trace_id).remaining(),
                it.seq() == entries,
                n == it.index(),
                forall|j: int| 0 <= j < entries.len() ==> spans.contains_key(*(#[trigger] entries[j]).0)
                    && spans[*entries[j].0] == *entries[j].1,
                forall|k: u64| #[trigger] spans.contains_key(k) ==> exists|j: int|
                    0 <= j < entries.len() && *entries[j].0 == k,
                found == exists|j: int| 0 <= j < n && *(#[trigger] entries[j]).1 == id,
        {
            proof {
                assert(kv == entries[n]);
            }
            if *kv.1 == id {
                found = true;
            }
            proof {
                n = n + 1;
            }
        }
        proof {
            assert(n == entries.len());
            if found {
                let j = choose|j: int| 0 <= j < n && *(#[trigger] entries[j]).1 == id;
                assert(spans.contains_key(*entries[j].0));
            }
            if has_span_key(spans, id) {
                let k = choose|k: u64| #[trigger] spans.contains_key(k) && spans[k] == id;
                let j = choose|j: int| 0 <= j < entries.len() && *entries[j].0 == k;
                assert(*entries[j].1 == id);
            }
        }
        found
    }

    /// Whether the trace `k`, which is `t`, is as [`prunable`] asks (see [`trace_prunable`]).
    fn trace_prunable_exec(&self, k: usize, t: &Trace<M>) -> (r: bool)
        requires
            self@.traces.contains_key(k),
            self@.traces[k] == t@,
        ensures
            r == trace_prunable(self@, k),
    {
        let ghost m = self@;
        if let Some(p) = t.parent() {
            if !(p < k) {
                return false;
            }
            match self.traces.get(&p) {
                Some(pt) => {
                    proof {
                        assert(m.traces[p] == pt@);
                    }
                    let parent_is_span = match pt.variant() {
                        TraceVariant::Span { .. } => true,
                        TraceVariant::Event { .. } => false,
                    };
                    if !parent_is_span {
                        return false;
                    }
                    if !pt.children().contains(&k) {
                        return false;
                    }
                },
                None => {
                    return false;
                },
            }
        }
        let (is_span, closed) = match t.variant() {
            TraceVariant::Span { open, .. } => (true, !*open),
            TraceVariant::Event { .. } => (false, false),
        };
        if is_span {
            let kids = t.children();
            let ghost children = kids@;
            let ghost entries = spec_btree_keys_iter(kids).remaining();
            let ghost mut n: int = 0;
            let iter = kids.iter();
            for c in it: iter
                invariant
                    m == self@,
                    entries == spec_btree_keys_iter(kids).remaining(),
                    it.seq() == entries,
                    n == it.index(),
                    entries.unref().to_set() == children,
                    children == t@.children(),
                    m.traces.contains_key(k),
                    t@ == m.traces[k],
                    t@.is_span(),
                    closed == is_closed_span(t@),
                    forall|j: int| 0 <= j < n ==> m.traces.contains_key(*(#[trigger] entries[j])) && m.traces[*entries[j]].parent
                        == Some(k) && (closed && m.traces[*entries[j]].is_span() ==> is_closed_span(
                        m.traces[*entries[j]],
                    )),
            {
                proof {
                    assert(c == entries[n]);
                    assert(entries.unref()[n] == *c);
                    assert(children.contains(*c));
                }
                match self.traces.get(c) {
                    Some(ct) => {
                        proof {
                            assert(m.traces[*c] == ct@);
                        }
                        if ct.parent() != Some(k) {
                            return false;
                        }
                        let child_open_span = match ct.variant() {
                            TraceVariant::Span { open, .. } => *open,
                            TraceVariant::Event { .. } => false,
                        };
                        if closed && child_open_span {
                            return false;
                        }
                    },
                    None => {
                        proof {
                            assert(entries.unref()[n] == *c);
                            assert(children.contains(*c));
                        }
                        return false;
                    },
                }
                proof {
                    n = n + 1;
                }
            }
            proof {
                assert(n == entries.len());
                assert forall|c: usize| #[trigger] children.contains(c) implies m.traces.contains_key(c) && m.traces[c].parent
                    == Some(k) && (closed && m.traces[c].is_span() ==> is_closed_span(m.traces[c])) by {
                    assert(entries.unref().contains(c));
                    let j = choose|j: int| 0 <= j < entries.unref().len() && entries.unref()[j] == c;
                    assert(*entries[j] == c);
                }
            }
        }
        if closed {
            self.has_span_key_exec(k)
        } else {
            true
        }
    }

    /// Whether the tree has the shape that pruning relies on (see [`prunable`]).
    pub fn is_prunable(&self) -> (r: bool)
        ensures
            r == prunable(self@),
    {
        let ghost m = self@;
        let ghost traces = self.traces@;
        let ghost entries = spec_btree_map_iter(&self.traces).remaining();
        let ghost mut n: int = 0;
        let iter = self.traces.iter();
        proof {
            lemma_prunable_by_trace(m);
        }
        for kv in it: iter
            invariant
                m == self@,
                traces == self.traces@,
                entries == spec_btree_map_iter(&self.traces).remaining(),
                it.seq() == entries,
                n == it.index(),
                forall|j: int| 0 <= j < entries.len() ==> traces.contains_key(*(#[trigger] entries[j]).0)
                    && traces[*entries[j].0] == *entries[j].1,
                forall|k: usize| #[trigger] traces.contains_key(k) ==> exists|j: int|
                    0 <= j < entries.len() && *entries[j].0 == k,
                forall|j: int| 0 <= j < n ==> trace_prunable(m, *(#[trigger] entries[j]).0),
                prunable(m) <==> forall|k: usize| #[trigger] m.traces.contains_key(k) ==> trace_prunable(m, k),
        {
            proof {
                assert(kv == entries[n]);
            }
            let (k, t) = kv;
            proof {
                assert(m.traces[*k] == t@);
            }
            if !self.trace_prunable_exec(*k, t) {
                proof {
                    assert(m.traces.contains_key(*k));
                }
                return false;
            }
            proof {
                n = n + 1;
            }
        }
        proof {
            assert(n == entries.len());
            assert forall|k: usize| #[trigger] m.traces.contains_key(k) implies trace_prunable(m, k) by {
                let j = choose|j: int| 0 <= j < entries.len() && *entries[j].0 == k;
                assert(trace_prunable(m, *entries[j].0));
            }
        }
        true
    }

    /// Prunes every closed span (see [`TraceTree::prune_closed`]) when the tree has the shape
    /// that pruning relies on, and says whether it did; otherwise leaves the tree as it is.
    pub fn try_prune_closed(&mut self) -> (r: bool)
        ensures
            r == prunable(old(self)@),
            r ==> exists|ids: Seq<usize>| #[trigger] old(self)@.lists_closed_spans(ids) && final(self)@ == old(self)@.pruned(ids),
            !r ==> final(self)@ == old(self)@,
    {
        if !self.is_prunable() {
            return false;
        }
        proof {
            assert forall|ids: Seq<usize>| #[trigger] self@.lists_closed_spans(ids) implies self@.can_prune(ids) by {
                law_prune_keeps_links(self@, ids);
            }
        }
        self.prune_closed();
        true
    }

    /// The smallest span id that maps to the trace `id`.
    fn first_span_key(&self, id: usize) -> (r: u64)
        requires
            has_span_key(self@.span_to_trace_id, id),
        ensures
            is_first_span_key(self@.span_to_trace_id, id, r),
            r == first_span_key(self@.span_to_trace_id, id),
    {
        let ghost spans = self.span_to_trace_id@;
        let ghost entries = spec_btree_map_iter(&self.span_to_trace_id).remaining();
        let ghost mut n: int = 0;
        let mut found: Option<u64> = None;
        let iter = self.span_to_trace_id.iter();
        proof {
            assert(obeys_cmp::<u64>());
            let keys = entries.map_values(|kv: (&u64, &usize)| *kv.0);
            assert(increasing_seq(keys));
            assert forall|i: int, j: int| 0 <= i < j < entries.len() implies *(#[trigger] entries[i]).0
                < *(#[trigger] entries[j]).0 by {
                assert(keys[i].cmp_spec(&keys[j]) is Less);
            }
        }
        for kv in it: iter
            invariant
                spans == self.span_to_trace_id@,
                entries == spec_btree_map_iter(&self.span_to_trace_id).remaining(),
                it.seq() == entries,
                n == it.index(),
                forall|j: int| 0 <= j < entries.len() ==> spans.contains_key(*(#[trigger] entries[j]).0)
                    && spans[*entries[j].0] == *entries[j].1,
                forall|k: u64| #[trigger] spans.contains_key(k) ==> exists|j: int|
                    0 <= j < entries.len() && *entries[j].0 == k,
                forall|i: int, j: int| 0 <= i < j < entries.len() ==> *(#[trigger] entries[i]).0
                    < *(#[trigger] entries[j]).0,
                found is None ==> forall|j: int| 0 <= j < n ==> *(#[trigger] entries[j]).1 != id,
                found matches Some(k) ==> {
                    &&& spans.contains_key(k)
                    &&& spans[k] == id
                    &&& exists|j0: int| 0 <= j0 < n && *(#[trigger] entries[j0]).0 == k
                    &&& forall|j: int| 0 <= j < n && *(#[trigger] entries[j]).1 == id ==> k <= *entries[j].0
                },
        {
            proof {
                assert(kv == entries[n]);
            }
            if found.is_none() && *kv.1 == id {
                found = Some(*kv.0);
            }
            proof {
                n = n + 1;
            }
        }
        proof {
            assert(n == entries.len());
            let k0 = choose|k: u64| #[trigger] spans.contains_key(k) && spans[k] == id;
            assert(spans.contains_key(k0));
        }
        match found {
            Some(k) => {
                proof {
                    assert forall|k2: u64| #[trigger] spans.contains_key(k2) && spans[k2] == id implies k <= k2 by {
                        let j = choose|j: int| 0 <= j < entries.len() && *entries[j].0 == k2;
                        assert(*entries[j].1 == id);
                    }
                    assert(is_first_span_key(spans, id, k));
                    let c = first_span_key(spans, id);
                    assert(is_first_span_key(spans, id, c));
                    assert(c <= k && k <= c);
                }
                k
            },
            None => {
                proof {
                    let k0 = choose|k: u64| #[trigger] spans.contains_key(k) && spans[k] == id;
                    let j = choose|j: int| 0 <= j < entries.len() && *entries[j].0 == k0;
                    assert(*entries[j].1 == id);
                }
                0
            },
        }
    }
}

} // verus!
