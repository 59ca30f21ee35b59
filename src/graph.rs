//! A stage graph with dependency edges between named stages, and the splicing
//! of the compositing stage between the clear stage and the main-scene stage.
use vstd::prelude::*;

verus! {

/// A stage graph as plain values: its stages and its edges `(from, to)`,
/// `to` running after `from`.
pub struct StageGraphView {
    pub stages: Set<u64>,
    pub edges: Set<(u64, u64)>,
}

/// Every edge joins two stages of the graph.
pub open spec fn edges_within(g: StageGraphView) -> bool {
    forall|e: (u64, u64)| #[trigger] g.edges.contains(e) ==> g.stages.contains(e.0) && g.stages.contains(e.1)
}

/// Why an edit of the stage graph was refused.
#[derive(Clone, Copy, Debug, PartialEq, Eq, Structural)]
pub enum WiringError {
    /// The stage is not in the graph.
    UnknownStage(u64),
    /// The stage is in the graph already.
    StageExists(u64),
    /// The edge is in the graph already.
    EdgeExists(u64, u64),
    /// The edge is not in the graph.
    EdgeMissing(u64, u64),
}

/// One change of the graph's edges.
#[derive(Clone, Copy, Debug, PartialEq, Eq, Structural)]
pub enum EdgeEdit {
    Add(u64, u64),
    Remove(u64, u64),
}

/// The error of adding the edge `(from, to)`, if any.
pub open spec fn add_edge_error(g: StageGraphView, from: u64, to: u64) -> Option<WiringError> {
    if !g.stages.contains(from) {
        Some(WiringError::UnknownStage(from))
    } else if !g.stages.contains(to) {
        Some(WiringError::UnknownStage(to))
    } else if g.edges.contains((from, to)) {
        Some(WiringError::EdgeExists(from, to))
    } else {
        None
    }
}

/// The error of removing the edge `(from, to)`, if any.
pub open spec fn remove_edge_error(g: StageGraphView, from: u64, to: u64) -> Option<WiringError> {
    if !g.stages.contains(from) {
        Some(WiringError::UnknownStage(from))
    } else if !g.stages.contains(to) {
        Some(WiringError::UnknownStage(to))
    } else if !g.edges.contains((from, to)) {
        Some(WiringError::EdgeMissing(from, to))
    } else {
        None
    }
}

/// The edits that put `stage` after `clear` and `deps` and before `main`, in
/// place of the edges from `clear` and `deps` to `main`.
pub open spec fn splice_edit_seq(clear: u64, deps: u64, main: u64, stage: u64) -> Seq<EdgeEdit> {
    seq![
        EdgeEdit::Add(clear, stage),
        EdgeEdit::Add(deps, stage),
        EdgeEdit::Add(stage, main),
        EdgeEdit::Remove(clear, main),
        EdgeEdit::Remove(deps, main),
    ]
}

/// The error of splicing `stage` in, if any: the error of the first of its
/// steps that fails, the registration of `stage` and then its edits in order.
pub open spec fn splice_error(g: StageGraphView, clear: u64, deps: u64, main: u64, stage: u64) -> Option<WiringError> {
    if g.stages.contains(stage) {
        Some(WiringError::StageExists(stage))
    } else if !g.stages.contains(clear) {
        Some(WiringError::UnknownStage(clear))
    } else if !g.stages.contains(deps) {
        Some(WiringError::UnknownStage(deps))
    } else if !g.stages.contains(main) {
        Some(WiringError::UnknownStage(main))
    } else if clear == deps {
        Some(WiringError::EdgeExists(deps, stage))
    } else if !g.edges.contains((clear, main)) {
        Some(WiringError::EdgeMissing(clear, main))
    } else if !g.edges.contains((deps, main)) {
        Some(WiringError::EdgeMissing(deps, main))
    } else {
        None
    }
}

/// The graph with `stage` spliced in.
pub open spec fn spliced(g: StageGraphView, clear: u64, deps: u64, main: u64, stage: u64) -> StageGraphView {
    StageGraphView {
        stages: g.stages.insert(stage),
        edges: g.edges.remove((clear, main)).remove((deps, main)).insert((clear, stage)).insert(
            (deps, stage),
        ).insert((stage, main)),
    }
}

/// `p` follows edges of `g`, one stage after another.
pub open spec fn is_path(g: StageGraphView, p: Seq<u64>) -> bool {
    &&& p.len() >= 1
    &&& forall|i: int| 0 <= i < p.len() - 1 ==> #[trigger] g.edges.contains((p[i], p[i + 1]))
}

/// The edits of a splice, in the order they are made.
pub fn splice_edits(clear: u64, deps: u64, main: u64, stage: u64) -> (r: Vec<EdgeEdit>)
    ensures
        r@ == splice_edit_seq(clear, deps, main, stage),
{
    let r: Vec<EdgeEdit> = vec![
        EdgeEdit::Add(clear, stage),
        EdgeEdit::Add(deps, stage),
        EdgeEdit::Add(stage, main),
        EdgeEdit::Remove(clear, main),
        EdgeEdit::Remove(deps, main),
    ];
    proof { assert(r@ =~= splice_edit_seq(clear, deps, main, stage)); }
    r
}

/// Stages and dependency edges, each listed once.
pub struct StageGraph {
    stages: Vec<u64>,
    edges: Vec<(u64, u64)>,
}

impl View for StageGraph {
    type V = StageGraphView;

    closed spec fn view(&self) -> StageGraphView {
        StageGraphView { stages: self.stages@.to_set(), edges: self.edges@.to_set() }
    }
}

impl StageGraph {
    /// Stages and edges are listed once each, and every edge joins two stages.
    pub closed spec fn well_formed(&self) -> bool {
        &&& self.stages@.no_duplicates()
        &&& self.edges@.no_duplicates()
        &&& edges_within(self@)
    }

    /// A well-formed graph's edges join its stages.
    pub proof fn lemma_edges_within(&self)
        requires
            self.well_formed(),
        ensures
            edges_within(self@),
    {
    }

    /// A graph with no stage.
    pub fn new() -> (r: StageGraph)
        ensures
            r.well_formed(),
            r@.stages == Set::<u64>::empty(),
            r@.edges == Set::<(u64, u64)>::empty(),
    {
        let r = StageGraph { stages: Vec::new(), edges: Vec::new() };
        proof {
            assert(r.stages@.to_set() =~= Set::<u64>::empty());
            assert(r.edges@.to_set() =~= Set::<(u64, u64)>::empty());
        }
        r
    }

    /// Whether `id` is a stage of the graph.
    pub fn has_stage(&self, id: u64) -> (r: bool)
        requires
            self.well_formed(),
        ensures
            r == self@.stages.contains(id),
    {
        let mut i: usize = 0;
        while i < self.stages.len()
            invariant
                i <= self.stages@.len(),
                forall|k: int| 0 <= k < i ==> self.stages@[k] != id,
            decreases self.stages@.len() - i,
        {
            if self.stages[i] == id {
                return true;
            }
            i = i + 1;
        }
        false
    }

    fn find_edge(&self, from: u64, to: u64) -> (r: Option<usize>)
        requires
            self.well_formed(),
        ensures
            match r {
                Some(i) => i < self.edges@.len() && self.edges@[i as int] == (from, to),
                None => !self@.edges.contains((from, to)),
            },
    {
        let mut i: usize = 0;
        while i < self.edges.len()
            invariant
                i <= self.edges@.len(),
                forall|k: int| 0 <= k < i ==> self.edges@[k] != (from, to),
            decreases self.edges@.len() - i,
        {
            let e = self.edges[i];
            if e.0 == from && e.1 == to {
                return Some(i);
            }
            i = i + 1;
        }
        None
    }

    /// Whether the edge `(from, to)` is in the graph.
    pub fn has_edge(&self, from: u64, to: u64) -> (r: bool)
        requires
            self.well_formed(),
        ensures
            r == self@.edges.contains((from, to)),
    {
        self.find_edge(from, to).is_some()
    }

    /// Registers the stage `id`, with no edge; refused when it exists.
    pub fn add_stage(&mut self, id: u64) -> (r: Result<(), WiringError>)
        requires
            old(self).well_formed(),
        ensures
            final(self).well_formed(),
            r is Err <==> old(self)@.stages.contains(id),
            r is Err ==> r->Err_0 == WiringError::StageExists(id) && final(self)@ == old(self)@,
            r is Ok ==> final(self)@ == (StageGraphView {
                stages: old(self)@.stages.insert(id),
                edges: old(self)@.edges,
            }),
    {
        if self.has_stage(id) {
            return Err(WiringError::StageExists(id));
        }
        self.stages.push(id);
        proof {
            old(self).stages@.lemma_push_to_set_commute(id);
            assert(self.stages@.no_duplicates());
        }
        Ok(())
    }

    /// Adds the edge `(from, to)`; refused when a stage is unknown or the edge
    /// exists.
    pub fn add_edge(&mut self, from: u64, to: u64) -> (r: Result<(), WiringError>)
        requires
            old(self).well_formed(),
        ensures
            final(self).well_formed(),
            match add_edge_error(old(self)@, from, to) {
                Some(e) => r == Err::<(), WiringError>(e) && final(self)@ == old(self)@,
                None => r is Ok && final(self)@ == (StageGraphView {
                    stages: old(self)@.stages,
                    edges: old(self)@.edges.insert((from, to)),
                }),
            },
    {
        if !self.has_stage(from) {
            return Err(WiringError::UnknownStage(from));
        }
        if !self.has_stage(to) {
            return Err(WiringError::UnknownStage(to));
        }
        if self.has_edge(from, to) {
            return Err(WiringError::EdgeExists(from, to));
        }
        self.edges.push((from, to));
        proof {
            old(self).edges@.lemma_push_to_set_commute((from, to));
            assert(self.edges@.no_duplicates());
        }
        Ok(())
    }

    /// Removes the edge `(from, to)`; refused when a stage is unknown or the
    /// edge is missing.
    pub fn remove_edge(&mut self, from: u64, to: u64) -> (r: Result<(), WiringError>)
        requires
            old(self).well_formed(),
        ensures
            final(self).well_formed(),
            match remove_edge_error(old(self)@, from, to) {
                Some(e) => r == Err::<(), WiringError>(e) && final(self)@ == old(self)@,
                None => r is Ok && final(self)@ == (StageGraphView {
                    stages: old(self)@.stages,
                    edges: old(self)@.edges.remove((from, to)),
                }),
            },
    {
        if !self.has_stage(from) {
            return Err(WiringError::UnknownStage(from));
        }
        if !self.has_stage(to) {
            return Err(WiringError::UnknownStage(to));
        }
        match self.find_edge(from, to) {
            None => Err(WiringError::EdgeMissing(from, to)),
            Some(i) => {
                let ghost before = self.edges@;
                self.edges.remove(i);
                proof {
                    assert forall|e: (u64, u64)| #[trigger] self.edges@.contains(e) <==> (before.contains(e) && e != (from, to)) by {
                        if self.edges@.contains(e) {
                            let k = choose|k: int| 0 <= k < self.edges@.len() && self.edges@[k] == e;
                            if k < i {
                                assert(before[k] == e);
                            } else {
                                assert(before[k + 1] == e);
                            }
                        }
                        if before.contains(e) && e != (from, to) {
                            let k = choose|k: int| 0 <= k < before.len() && before[k] == e;
                            if k < i {
                                assert(self.edges@[k] == e);
                            } else {
                                assert(self.edges@[k - 1] == e);
                            }
                        }
                    }
                    assert(self.edges@.to_set() =~= before.to_set().remove((from, to)));
                    assert(self.edges@.no_duplicates());
                }
                Ok(())
            },
        }
    }

    /// Puts the stage `stage` after `clear` and `deps` and before `main`: it
    /// registers `stage`, adds the edges from `clear` and `deps` to it and from
    /// it to `main`, and removes the edges from `clear` and `deps` to `main`.
    /// When one of these steps would fail, nothing is changed.
    pub fn splice(&mut self, clear: u64, deps: u64, main: u64, stage: u64) -> (r: Result<(), WiringError>)
        requires
            old(self).well_formed(),
        ensures
            final(self).well_formed(),
            match splice_error(old(self)@, clear, deps, main, stage) {
                Some(e) => r == Err::<(), WiringError>(e) && final(self)@ == old(self)@,
                None => r is Ok && final(self)@ == spliced(old(self)@, clear, deps, main, stage),
            },
    {
        if self.has_stage(stage) {
            return Err(WiringError::StageExists(stage));
        }
        if !self.has_stage(clear) {
            return Err(WiringError::UnknownStage(clear));
        }
        if !self.has_stage(deps) {
            return Err(WiringError::UnknownStage(deps));
        }
        if !self.has_stage(main) {
            return Err(WiringError::UnknownStage(main));
        }
        if clear == deps {
            return Err(WiringError::EdgeExists(deps, stage));
        }
        if !self.has_edge(clear, main) {
            return Err(WiringError::EdgeMissing(clear, main));
        }
        if !self.has_edge(deps, main) {
            return Err(WiringError::EdgeMissing(deps, main));
        }
        let ghost g0 = self@;
        let r0 = self.add_stage(stage);
        assert(r0 is Ok);
        proof {
            // a new stage has no edge yet
            assert(!g0.edges.contains((clear, stage)));
            assert(!g0.edges.contains((deps, stage)));
            assert(!g0.edges.contains((stage, main)));
        }
        let r1 = self.add_edge(clear, stage);
        assert(r1 is Ok);
        let r2 = self.add_edge(deps, stage);
        assert(r2 is Ok);
        let r3 = self.add_edge(stage, main);
        assert(r3 is Ok);
        let r4 = self.remove_edge(clear, main);
        assert(r4 is Ok);
        let r5 = self.remove_edge(deps, main);
        assert(r5 is Ok);
        proof {
            assert(self@.edges =~= spliced(g0, clear, deps, main, stage).edges);
        }
        Ok(())
    }
}

/// `rank` puts every edge of `g` forward, from a lower rank to a higher one: a
/// topological order of `g`, which therefore has no cycle.
pub open spec fn ordered_by(g: StageGraphView, rank: spec_fn(u64) -> int) -> bool {
    forall|e: (u64, u64)| #[trigger] g.edges.contains(e) ==> rank(e.0) < rank(e.1)
}

/// A topological order of the spliced graph made from one of the host graph:
/// `stage` goes just below `main`.
pub open spec fn spliced_rank(rank: spec_fn(u64) -> int, main: u64, stage: u64) -> spec_fn(u64) -> int {
    |x: u64| if x == stage { 2 * rank(main) - 1 } else { 2 * rank(x) }
}

/// Along a path of a graph in topological order the ranks rise, so the path
/// visits no stage twice and does not end where it began.
pub proof fn lemma_ordered_path_rises(g: StageGraphView, rank: spec_fn(u64) -> int, p: Seq<u64>)
    requires
        ordered_by(g, rank),
        is_path(g, p),
    ensures
        forall|i: int, j: int| 0 <= i < j < p.len() ==> rank(#[trigger] p[i]) < rank(#[trigger] p[j]),
        p.no_duplicates(),
        p.len() >= 2 ==> p[0] != p.last(),
    decreases p.len(),
{
    if p.len() >= 2 {
        let q = p.drop_last();
        assert forall|i: int| 0 <= i < q.len() - 1 implies #[trigger] g.edges.contains((q[i], q[i + 1])) by {
            assert(g.edges.contains((p[i], p[i + 1])));
        }
        lemma_ordered_path_rises(g, rank, q);
        let n = p.len();
        let last = n - 2;
        assert(g.edges.contains((p[last], p[last + 1])));
        assert forall|i: int, j: int| 0 <= i < j < p.len() implies rank(#[trigger] p[i]) < rank(#[trigger] p[j]) by {
            if j < n - 1 {
                assert(q[i] == p[i] && q[j] == p[j]);
            } else if i < n - 2 {
                assert(q[i] == p[i] && q[n - 2] == p[n - 2]);
                assert(rank(q[i]) < rank(q[n - 2]));
            }
        }
    }
}

/// Splicing keeps the stage graph free of cycles: a topological order of the
/// host graph gives one of the spliced graph, so no path of it returns to
/// where it began.
pub proof fn lemma_splice_keeps_acyclic(
    g: StageGraphView,
    clear: u64,
    deps: u64,
    main: u64,
    stage: u64,
    rank: spec_fn(u64) -> int,
)
    requires
        edges_within(g),
        splice_error(g, clear, deps, main, stage) is None,
        ordered_by(g, rank),
    ensures
        ordered_by(spliced(g, clear, deps, main, stage), spliced_rank(rank, main, stage)),
        forall|p: Seq<u64>|
            #[trigger] is_path(spliced(g, clear, deps, main, stage), p) && p.len() >= 2 ==> p[0] != p.last(),
{
    let h = spliced(g, clear, deps, main, stage);
    let r2 = spliced_rank(rank, main, stage);
    assert(g.edges.contains((clear, main)));
    assert(g.edges.contains((deps, main)));
    assert forall|e: (u64, u64)| #[trigger] h.edges.contains(e) implies r2(e.0) < r2(e.1) by {
        if e != (clear, stage) && e != (deps, stage) && e != (stage, main) {
            assert(g.edges.contains(e));
            assert(g.stages.contains(e.0) && g.stages.contains(e.1));
        }
    }
    assert forall|p: Seq<u64>| #[trigger] is_path(h, p) && p.len() >= 2 implies p[0] != p.last() by {
        lemma_ordered_path_rises(h, r2, p);
    }
}

/// After the compositing stage `stage` is spliced into a host graph whose
/// main-scene stage depends only on the clear stage and its other
/// dependencies, the path clear, `stage`, main exists, and every path from the
/// clear stage to the main-scene stage passes through `stage` exactly once,
/// just before the main-scene stage. The host graph has no cycle: `rank` is
/// a topological order of it.
pub proof fn lemma_splice_routes_through(
    g: StageGraphView,
    clear: u64,
    deps: u64,
    main: u64,
    stage: u64,
    rank: spec_fn(u64) -> int,
    p: Seq<u64>,
)
    requires
        edges_within(g),
        splice_error(g, clear, deps, main, stage) is None,
        forall|x: u64| #[trigger] g.edges.contains((x, main)) ==> x == clear || x == deps,
        is_path(spliced(g, clear, deps, main, stage), p),
        p[0] == clear,
        p.last() == main,
        ordered_by(g, rank),
    ensures
        is_path(spliced(g, clear, deps, main, stage), seq![clear, stage, main]),
        p.len() >= 3,
        p[p.len() - 2] == stage,
        forall|i: int| 0 <= i < p.len() && i != p.len() - 2 ==> p[i] != stage,
{
    let h = spliced(g, clear, deps, main, stage);
    lemma_splice_keeps_acyclic(g, clear, deps, main, stage, rank);
    lemma_ordered_path_rises(h, spliced_rank(rank, main, stage), p);
    let n = p.len();
    let q = seq![clear, stage, main];
    assert forall|i: int| 0 <= i < q.len() - 1 implies #[trigger] h.edges.contains((q[i], q[i + 1])) by {
        if i == 0 {
            assert(h.edges.contains((clear, stage)));
        } else {
            assert(h.edges.contains((stage, main)));
        }
    }
    assert(n >= 2);
    // the main-scene stage's only dependency is now `stage`
    let last = n - 2;
    assert(h.edges.contains((p[last], p[last + 1])));
    if p[n - 2] != stage {
        assert(g.edges.contains((p[n - 2], main)));
    }
    assert(p[n - 2] == stage);
    if n == 2 {
        assert(p[0] == stage);
        assert(g.stages.contains(clear));
    }
    assert forall|i: int| 0 <= i < p.len() && i != p.len() - 2 implies p[i] != stage by {
        if i == n - 1 {
            assert(main != stage) by {
                assert(g.stages.contains(main));
            }
        } else if p[i] == stage {
            // `stage`'s only dependent is the main-scene stage
            assert(h.edges.contains((p[i], p[i + 1])));
            if p[i + 1] != main {
                assert(g.edges.contains((stage, p[i + 1])));
                assert(g.stages.contains(stage));
            }
            assert(p[i + 1] == p[n - 1]);
        }
    }
}

} // verus!
