//! Planning of a frame: which node sets up its passes when (setup nodes,
//! then every view's nodes with the views sorted by order, then finalize
//! nodes), and which node each declared pass is dispatched back to.
use crate::frame::FrameExecutionStats;
use vstd::prelude::*;

verus! {

/// The node that declared a pass; for a view node, also the view.
#[derive(Clone, Copy, Debug, PartialEq, Eq, Structural)]
pub enum DispatchEntry {
    Setup { node_index: usize },
    View { node_index: usize, view_index: usize },
    Finalize { node_index: usize },
}

/// View `a` is set up before view `b`: lower order first, equal orders in
/// index order.
pub open spec fn view_before(orders: Seq<i32>, a: int, b: int) -> bool {
    orders[a] < orders[b] || (orders[a] == orders[b] && a < b)
}

/// `ordered` holds view indices, sorted by `view_before`.
pub open spec fn sorted_views(orders: Seq<i32>, ordered: Seq<usize>) -> bool {
    forall|i: int, j: int|
        0 <= i < j < ordered.len() ==> view_before(
            orders,
            #[trigger] ordered[i] as int,
            #[trigger] ordered[j] as int,
        )
}

/// `ordered` lists every view `0..orders.len()` once, sorted by `view_before`.
pub open spec fn is_view_order(orders: Seq<i32>, ordered: Seq<usize>) -> bool {
    &&& ordered.len() == orders.len()
    &&& forall|i: int| 0 <= i < ordered.len() ==> #[trigger] ordered[i] < orders.len()
    &&& forall|v: usize| v < orders.len() ==> #[trigger] ordered.contains(v)
    &&& sorted_views(orders, ordered)
}

/// The views in the order in which they are set up: by their order value,
/// a stable sort of `0..orders.len()`.
pub fn ordered_view_indices(orders: &Vec<i32>) -> (r: Vec<usize>)
    ensures
        is_view_order(orders@, r@),
{
    let n = orders.len();
    let mut r: Vec<usize> = Vec::new();
    let mut i: usize = 0;
    while i < n
        invariant
            i <= n == orders.len(),
            r.len() == i,
            forall|k: int| 0 <= k < r.len() ==> #[trigger] r@[k] < i,
            forall|v: usize| v < i ==> #[trigger] r@.contains(v),
            sorted_views(orders@, r@),
        decreases n - i,
    {
        let mut pos: usize = 0;
        while pos < r.len() && orders[r[pos]] <= orders[i]
            invariant
                i < n == orders.len(),
                pos <= r.len() == i,
                forall|k: int| 0 <= k < r.len() ==> #[trigger] r@[k] < i,
                forall|k: int| 0 <= k < pos ==> orders@[#[trigger] r@[k] as int] <= orders@[i as int],
            decreases r.len() - pos,
        {
            pos = pos + 1;
        }
        let ghost old_r = r@;
        r.insert(pos, i);
        proof {
            assert forall|a: int, b: int| 0 <= a < b < r@.len() implies view_before(
                orders@,
                #[trigger] r@[a] as int,
                #[trigger] r@[b] as int,
            ) by {
                if b < pos {
                    assert(r@[a] == old_r[a] && r@[b] == old_r[b]);
                } else if b == pos {
                    assert(r@[a] == old_r[a]);
                } else if a == pos {
                    assert(r@[b] == old_r[b - 1]);
                    assert(view_before(orders@, old_r[pos as int] as int, old_r[b - 1] as int)
                        || pos == b - 1);
                } else if a < pos {
                    assert(r@[a] == old_r[a] && r@[b] == old_r[b - 1]);
                } else {
                    assert(r@[a] == old_r[a - 1] && r@[b] == old_r[b - 1]);
                }
            }
            assert forall|v: usize| v < i + 1 implies #[trigger] r@.contains(v) by {
                if v == i {
                    assert(r@[pos as int] == i);
                } else {
                    assert(old_r.contains(v));
                    let k = choose|k: int| 0 <= k < old_r.len() && old_r[k] == v;
                    if k < pos {
                        assert(r@[k] == old_r[k]);
                    } else {
                        assert(r@[k + 1] == old_r[k]);
                    }
                }
            }
        }
        i = i + 1;
    }
    r
}

/// Indices of the enabled nodes, in order.
pub open spec fn enabled_indices(enabled: Seq<bool>) -> Seq<usize>
    decreases enabled.len(),
{
    if enabled.len() == 0 {
        Seq::empty()
    } else {
        let rest = enabled_indices(enabled.drop_last());
        if enabled.last() {
            rest.push((enabled.len() - 1) as usize)
        } else {
            rest
        }
    }
}

/// Phase `0` is setup, `1` views, `2` finalize.
pub open spec fn phase_entry(phase: int, node: usize, view: usize) -> DispatchEntry {
    if phase == 0 {
        DispatchEntry::Setup { node_index: node }
    } else if phase == 1 {
        DispatchEntry::View { node_index: node, view_index: view }
    } else {
        DispatchEntry::Finalize { node_index: node }
    }
}

/// One entry per enabled node of a phase, in node order.
pub open spec fn phase_entries(enabled: Seq<bool>, phase: int, view: usize) -> Seq<DispatchEntry> {
    enabled_indices(enabled).map_values(|k: usize| phase_entry(phase, k, view))
}

/// The view nodes' entries of each view of `ordered`, view after view.
pub open spec fn views_entries(enabled: Seq<bool>, ordered: Seq<usize>) -> Seq<DispatchEntry>
    decreases ordered.len(),
{
    if ordered.len() == 0 {
        Seq::empty()
    } else {
        views_entries(enabled, ordered.drop_last()) + phase_entries(enabled, 1, ordered.last())
    }
}

/// The setup calls of a frame, in order: the enabled setup nodes, then for
/// each view of `ordered` the enabled view nodes, then the enabled finalize
/// nodes.
pub open spec fn frame_steps(
    setup: Seq<bool>,
    view: Seq<bool>,
    finalize: Seq<bool>,
    ordered: Seq<usize>,
) -> Seq<DispatchEntry> {
    phase_entries(setup, 0, 0) + views_entries(view, ordered) + phase_entries(finalize, 2, 0)
}

/// Appends the entries of the enabled nodes of one phase.
fn append_phase_entries(out: &mut Vec<DispatchEntry>, enabled: &Vec<bool>, phase: u8, view: usize)
    requires
        phase <= 2,
    ensures
        final(out)@ == old(out)@ + phase_entries(enabled@, phase as int, view),
{
    let ghost start = out@;
    let mut i: usize = 0;
    assert(enabled@.take(0) =~= Seq::<bool>::empty());
    assert(start + phase_entries(enabled@.take(0), phase as int, view) =~= start);
    while i < enabled.len()
        invariant
            i <= enabled.len(),
            phase <= 2,
            out@ == start + phase_entries(enabled@.take(i as int), phase as int, view),
        decreases enabled.len() - i,
    {
        let ghost before = enabled@.take(i as int);
        let ghost after = enabled@.take(i + 1);
        assert(after.drop_last() =~= before);
        assert(after.last() == enabled@[i as int]);
        if enabled[i] {
            let entry = if phase == 0 {
                DispatchEntry::Setup { node_index: i }
            } else if phase == 1 {
                DispatchEntry::View { node_index: i, view_index: view }
            } else {
                DispatchEntry::Finalize { node_index: i }
            };
            out.push(entry);
            assert(enabled_indices(after) == enabled_indices(before).push(i));
            assert(phase_entries(after, phase as int, view) =~= phase_entries(
                before,
                phase as int,
                view,
            ).push(entry));
            assert(out@ =~= start + phase_entries(after, phase as int, view));
        } else {
            assert(enabled_indices(after) == enabled_indices(before));
        }
        i = i + 1;
    }
    assert(enabled@.take(i as int) =~= enabled@);
}

/// The plan of one frame: the order of the views and the setup calls.
#[derive(Debug)]
pub struct FramePlan {
    pub view_order: Vec<usize>,
    pub steps: Vec<DispatchEntry>,
}

/// Plans a frame from which nodes are enabled and the views' orders.
pub fn plan_frame(
    setup_enabled: &Vec<bool>,
    view_enabled: &Vec<bool>,
    finalize_enabled: &Vec<bool>,
    view_orders: &Vec<i32>,
) -> (plan: FramePlan)
    ensures
        is_view_order(view_orders@, plan.view_order@),
        plan.steps@ == frame_steps(
            setup_enabled@,
            view_enabled@,
            finalize_enabled@,
            plan.view_order@,
        ),
{
    let view_order = ordered_view_indices(view_orders);
    let mut steps: Vec<DispatchEntry> = Vec::new();
    append_phase_entries(&mut steps, setup_enabled, 0, 0);
    let ghost head = steps@;
    assert(head =~= phase_entries(setup_enabled@, 0, 0));
    let mut k: usize = 0;
    assert(view_order@.take(0) =~= Seq::<usize>::empty());
    assert(head + views_entries(view_enabled@, view_order@.take(0)) =~= head);
    while k < view_order.len()
        invariant
            k <= view_order.len(),
            head == phase_entries(setup_enabled@, 0, 0),
            steps@ == head + views_entries(view_enabled@, view_order@.take(k as int)),
        decreases view_order.len() - k,
    {
        let ghost before = view_order@.take(k as int);
        let ghost after = view_order@.take(k + 1);
        assert(after.drop_last() =~= before);
        assert(after.last() == view_order@[k as int]);
        append_phase_entries(&mut steps, view_enabled, 1, view_order[k]);
        assert(steps@ =~= head + views_entries(view_enabled@, after));
        k = k + 1;
    }
    assert(view_order@.take(k as int) =~= view_order@);
    append_phase_entries(&mut steps, finalize_enabled, 2, 0);
    FramePlan { view_order, steps }
}

/// Rank of an entry's phase: setup `0`, view `1`, finalize `2`.
pub open spec fn phase_rank(e: DispatchEntry) -> int {
    match e {
        DispatchEntry::Setup { .. } => 0,
        DispatchEntry::View { .. } => 1,
        DispatchEntry::Finalize { .. } => 2,
    }
}

/// The view of a view entry.
pub open spec fn view_of(e: DispatchEntry) -> Option<usize> {
    match e {
        DispatchEntry::View { view_index, .. } => Some(view_index),
        _ => None,
    }
}

/// Two view entries are for one view, or for views in view order.
pub open spec fn views_in_order(orders: Seq<i32>, x: DispatchEntry, y: DispatchEntry) -> bool {
    match (view_of(x), view_of(y)) {
        (Some(a), Some(b)) => a == b || view_before(orders, a as int, b as int),
        _ => true,
    }
}

proof fn lemma_phase_entries_shape(enabled: Seq<bool>, phase: int, view: usize)
    requires
        0 <= phase <= 2,
    ensures
        forall|p: int|
            0 <= p < phase_entries(enabled, phase, view).len() ==> phase_rank(
                #[trigger] phase_entries(enabled, phase, view)[p],
            ) == phase && (phase == 1 ==> view_of(phase_entries(enabled, phase, view)[p]) == Some(
                view,
            )),
{
}

proof fn lemma_views_entries_shape(enabled: Seq<bool>, ordered: Seq<usize>)
    ensures
        forall|p: int|
            0 <= p < views_entries(enabled, ordered).len() ==> view_of(
                #[trigger] views_entries(enabled, ordered)[p],
            ) is Some && ordered.contains(view_of(views_entries(enabled, ordered)[p])->0),
    decreases ordered.len(),
{
    if ordered.len() > 0 {
        let prefix = ordered.drop_last();
        lemma_views_entries_shape(enabled, prefix);
        lemma_phase_entries_shape(enabled, 1, ordered.last());
        let s = views_entries(enabled, ordered);
        let a = views_entries(enabled, prefix);
        assert forall|p: int| 0 <= p < s.len() implies view_of(#[trigger] s[p]) is Some
            && ordered.contains(view_of(s[p])->0) by {
            if p < a.len() {
                assert(s[p] == a[p]);
                let v = view_of(a[p])->0;
                let q = choose|q: int| 0 <= q < prefix.len() && prefix[q] == v;
                assert(ordered[q] == prefix[q]);
            } else {
                assert(s[p] == phase_entries(enabled, 1, ordered.last())[p - a.len()]);
                assert(ordered[ordered.len() - 1] == ordered.last());
            }
        }
    }
}

proof fn lemma_views_entries_order(enabled: Seq<bool>, orders: Seq<i32>, ordered: Seq<usize>)
    requires
        sorted_views(orders, ordered),
    ensures
        forall|i: int, j: int|
            0 <= i < j < views_entries(enabled, ordered).len() ==> views_in_order(
                orders,
                #[trigger] views_entries(enabled, ordered)[i],
                #[trigger] views_entries(enabled, ordered)[j],
            ),
    decreases ordered.len(),
{
    if ordered.len() > 0 {
        let prefix = ordered.drop_last();
        let last = ordered.last();
        assert(sorted_views(orders, prefix)) by {
            assert forall|i: int, j: int| 0 <= i < j < prefix.len() implies view_before(
                orders,
                #[trigger] prefix[i] as int,
                #[trigger] prefix[j] as int,
            ) by {
                assert(prefix[i] == ordered[i] && prefix[j] == ordered[j]);
            }
        }
        lemma_views_entries_order(enabled, orders, prefix);
        lemma_views_entries_shape(enabled, prefix);
        lemma_phase_entries_shape(enabled, 1, last);
        let s = views_entries(enabled, ordered);
        let a = views_entries(enabled, prefix);
        assert forall|i: int, j: int| 0 <= i < j < s.len() implies views_in_order(
            orders,
            #[trigger] s[i],
            #[trigger] s[j],
        ) by {
            if j < a.len() {
                assert(s[i] == a[i] && s[j] == a[j]);
            } else if i < a.len() {
                assert(s[i] == a[i]);
                assert(s[j] == phase_entries(enabled, 1, last)[j - a.len()]);
                let v = view_of(a[i])->0;
                let q = choose|q: int| 0 <= q < prefix.len() && prefix[q] == v;
                assert(ordered[q] == prefix[q]);
                assert(ordered[ordered.len() - 1] == last);
            } else {
                assert(s[i] == phase_entries(enabled, 1, last)[i - a.len()]);
                assert(s[j] == phase_entries(enabled, 1, last)[j - a.len()]);
            }
        }
    }
}

/// A frame's setup calls run phase by phase (setup, views, finalize), and
/// the view calls run view by view in view order.
pub proof fn lemma_frame_steps_phase_order(
    setup: Seq<bool>,
    view: Seq<bool>,
    finalize: Seq<bool>,
    orders: Seq<i32>,
    ordered: Seq<usize>,
)
    requires
        is_view_order(orders, ordered),
    ensures
        forall|i: int, j: int|
            0 <= i < j < frame_steps(setup, view, finalize, ordered).len() ==> phase_rank(
                #[trigger] frame_steps(setup, view, finalize, ordered)[i],
            ) <= phase_rank(#[trigger] frame_steps(setup, view, finalize, ordered)[j])
                && views_in_order(
                orders,
                frame_steps(setup, view, finalize, ordered)[i],
                frame_steps(setup, view, finalize, ordered)[j],
            ),
{
    let s = frame_steps(setup, view, finalize, ordered);
    let x = phase_entries(setup, 0, 0);
    let y = views_entries(view, ordered);
    let z = phase_entries(finalize, 2, 0);
    lemma_phase_entries_shape(setup, 0, 0);
    lemma_phase_entries_shape(finalize, 2, 0);
    lemma_views_entries_shape(view, ordered);
    lemma_views_entries_order(view, orders, ordered);
    assert forall|p: int| 0 <= p < s.len() implies phase_rank(#[trigger] s[p]) == (if p < x.len() {
        0int
    } else if p < x.len() + y.len() {
        1int
    } else {
        2int
    }) && (x.len() <= p < x.len() + y.len() ==> s[p] == y[p - x.len()]) && (view_of(s[p]) is Some
        ==> x.len() <= p < x.len() + y.len()) by {
        if p < x.len() {
            assert(s[p] == x[p]);
        } else if p < x.len() + y.len() {
            assert(s[p] == y[p - x.len()]);
        } else {
            assert(s[p] == z[p - x.len() - y.len()]);
        }
    }
    assert forall|i: int, j: int| 0 <= i < j < s.len() implies phase_rank(#[trigger] s[i])
        <= phase_rank(#[trigger] s[j]) && views_in_order(orders, s[i], s[j]) by {
        if view_of(s[i]) is Some && view_of(s[j]) is Some {
            assert(s[i] == y[i - x.len()] && s[j] == y[j - x.len()]);
        }
    }
}

/// Which node each pass of the frame's graph is dispatched back to, by the
/// pass's index in the graph.
#[derive(Debug)]
pub struct PassDispatch {
    entries: Vec<Option<DispatchEntry>>,
}

impl View for PassDispatch {
    type V = Map<usize, DispatchEntry>;

    closed spec fn view(&self) -> Map<usize, DispatchEntry> {
        Map::new(
            |h: usize| h < self.entries@.len() && self.entries@[h as int] is Some,
            |h: usize| self.entries@[h as int]->0,
        )
    }
}

impl PassDispatch {
    pub fn new() -> (r: PassDispatch)
        ensures
            r@ == Map::<usize, DispatchEntry>::empty(),
    {
        let r = PassDispatch { entries: Vec::new() };
        assert(r@ =~= Map::<usize, DispatchEntry>::empty());
        r
    }

    /// Forgets every pass, for the next frame.
    pub fn clear(&mut self)
        ensures
            final(self)@ == Map::<usize, DispatchEntry>::empty(),
    {
        self.entries = Vec::new();
        assert(self@ =~= Map::<usize, DispatchEntry>::empty());
    }

    /// Dispatches the passes `from..to` to `entry`.
    pub fn register_passes(&mut self, from: usize, to: usize, entry: DispatchEntry)
        ensures
            final(self)@ == old(self)@.union_prefer_right(
                Map::new(|h: usize| from <= h < to, |h: usize| entry),
            ),
    {
        let ghost start = self.entries@;
        while self.entries.len() < to
            invariant
                self.entries@.len() >= start.len(),
                forall|h: int| 0 <= h < start.len() ==> self.entries@[h] == start[h],
                forall|h: int| start.len() <= h < self.entries@.len() ==> self.entries@[h] is None,
            decreases to - self.entries.len(),
        {
            self.entries.push(None);
        }
        let ghost padded = self.entries@;
        let mut h: usize = from;
        while h < to
            invariant
                from <= h,
                h <= to || h == from,
                self.entries@.len() == padded.len(),
                padded.len() >= to || from >= to,
                padded.len() >= start.len(),
                forall|k: int| 0 <= k < start.len() ==> padded[k] == start[k],
                forall|k: int| start.len() <= k < padded.len() ==> padded[k] is None,
                forall|k: int|
                    0 <= k < padded.len() ==> self.entries@[k] == if from <= k < h {
                        Some(entry)
                    } else {
                        padded[k]
                    },
            decreases to - h,
        {
            self.entries.set(h, Some(entry));
            h = h + 1;
        }
        let ghost added = Map::new(|h: usize| from <= h < to, |h: usize| entry);
        let ghost expected = old(self)@.union_prefer_right(added);
        assert forall|k: usize| #[trigger] self@.dom().contains(k) == expected.dom().contains(k)
            && (self@.dom().contains(k) ==> self@[k] == expected[k]) by {
            if k < padded.len() {
                if k < start.len() {
                    assert(padded[k as int] == start[k as int]);
                }
            }
        }
        assert(self@ =~= expected);
    }

    /// The node that pass `pass` is dispatched to, if any.
    pub fn dispatch(&self, pass: usize) -> (r: Option<DispatchEntry>)
        ensures
            r == self@.get(pass),
    {
        if pass < self.entries.len() {
            self.entries[pass]
        } else {
            None
        }
    }
}

impl FrameExecutionStats {
    /// Counts one executed pass and its draw calls.
    pub fn record_pass(&mut self, draw_calls: usize)
        requires
            old(self).passes < usize::MAX,
            old(self).draw_calls + draw_calls <= usize::MAX,
        ensures
            final(self).passes == old(self).passes + 1,
            final(self).draw_calls == old(self).draw_calls + draw_calls,
    {
        self.passes = self.passes + 1;
        self.draw_calls = self.draw_calls + draw_calls;
    }
}

} // verus!
