use crate::mll::formula::FormulaView;
use crate::proof_net::proof_structure::RuleLabel;
use crate::common::sequences::{
    first_index, lemma_filter_all, lemma_filter_images, lemma_filter_members,
    lemma_filter_no_duplicates, lemma_filter_push, lemma_filter_split_len, lemma_first_index,
};
use vstd::prelude::*;

verus! {

/// The mathematical content of a vertex label: a rule kind and a number.
pub struct LabelView {
    pub rule: RuleLabel,
    pub id: int,
}

/// The mathematical content of an edge: where it starts, where it ends, and
/// the formula it carries.
pub struct EdgeView {
    pub from: LabelView,
    pub to: LabelView,
    pub label: FormulaView,
}

/// The mathematical content of a net: its vertices in the order in which they
/// were added, and its edges in the order in which they were drawn.
pub struct NetView {
    pub vertices: Seq<LabelView>,
    pub edges: Seq<EdgeView>,
}

impl LabelView {
    /// The label with its number moved up by `k`.
    pub open spec fn shift(self, k: int) -> LabelView {
        LabelView { rule: self.rule, id: self.id + k }
    }
}

impl EdgeView {
    /// The edge with the numbers of both ends moved up by `k`.
    pub open spec fn shift(self, k: int) -> EdgeView {
        EdgeView { from: self.from.shift(k), to: self.to.shift(k), label: self.label }
    }

    /// Whether the edge starts or ends in `l`.
    pub open spec fn touches(self, l: LabelView) -> bool {
        self.from == l || self.to == l
    }
}

/// The labels other than `l`.
pub open spec fn is_not(l: LabelView) -> spec_fn(LabelView) -> bool {
    |v: LabelView| v != l
}

/// The labels of kind `rule`.
pub open spec fn has_kind(rule: RuleLabel) -> spec_fn(LabelView) -> bool {
    |v: LabelView| v.rule == rule
}

/// The edges that end in `l`.
pub open spec fn ends_in(l: LabelView) -> spec_fn(EdgeView) -> bool {
    |e: EdgeView| e.to == l
}

/// The edges that start in `l`.
pub open spec fn starts_in(l: LabelView) -> spec_fn(EdgeView) -> bool {
    |e: EdgeView| e.from == l
}

/// The edges that start or end in `l`.
pub open spec fn touching(l: LabelView) -> spec_fn(EdgeView) -> bool {
    |e: EdgeView| e.touches(l)
}

/// The edges that neither start nor end in `l`.
pub open spec fn not_touching(l: LabelView) -> spec_fn(EdgeView) -> bool {
    |e: EdgeView| !e.touches(l)
}

/// The edges that carry `label`.
pub open spec fn carries(label: FormulaView) -> spec_fn(EdgeView) -> bool {
    |e: EdgeView| e.label == label
}

/// The edges that carry `label` and end in a conclusion vertex.
pub open spec fn concludes(label: FormulaView) -> spec_fn(EdgeView) -> bool {
    |e: EdgeView| e.label == label && e.to.rule == RuleLabel::C
}

/// The greatest number among the labels, and 0 where there is none.
pub open spec fn max_id(vs: Seq<LabelView>) -> int
    decreases vs.len(),
{
    if vs.len() == 0 {
        0
    } else if vs.len() == 1 {
        vs[0].id
    } else if max_id(vs.drop_last()) >= vs.last().id {
        max_id(vs.drop_last())
    } else {
        vs.last().id
    }
}

impl NetView {
    /// The net without vertices and edges.
    pub open spec fn empty() -> NetView {
        NetView { vertices: Seq::empty(), edges: Seq::empty() }
    }

    /// Whether the net has a vertex with the label `l`.
    pub open spec fn has_vertex(self, l: LabelView) -> bool {
        self.vertices.contains(l)
    }

    /// What holds of every net: no label occurs twice, the numbers are
    /// positive and fit the machine, and every edge joins two vertices of the
    /// net.
    pub open spec fn wf(self) -> bool {
        &&& self.vertices.no_duplicates()
        &&& forall|i: int|
            0 <= i < self.vertices.len() ==> 1 <= (#[trigger] self.vertices[i]).id <= i32::MAX
        &&& forall|i: int|
            0 <= i < self.edges.len() ==> self.has_vertex((#[trigger] self.edges[i]).from)
                && self.has_vertex(self.edges[i].to)
    }

    /// The greatest number of a vertex, and 0 in a net without vertices.
    pub open spec fn max_id(self) -> int {
        max_id(self.vertices)
    }

    /// The label that the next new vertex of kind `rule` gets.
    pub open spec fn fresh(self, rule: RuleLabel) -> LabelView {
        LabelView { rule, id: self.max_id() + 1 }
    }

    /// The net with a new vertex `l` at the end of its vertices.
    pub open spec fn add_vertex(self, l: LabelView) -> NetView {
        NetView { vertices: self.vertices.push(l), edges: self.edges }
    }

    /// The net with a new edge from `from` to `to` that carries `label`, at
    /// the end of its edges.
    pub open spec fn add_edge(self, from: LabelView, to: LabelView, label: FormulaView) -> NetView {
        NetView { vertices: self.vertices, edges: self.edges.push(EdgeView { from, to, label }) }
    }

    /// The edges that end in `l`, in the order of the net.
    pub open spec fn incoming(self, l: LabelView) -> Seq<EdgeView> {
        self.edges.filter(ends_in(l))
    }

    /// The edges that start in `l`, in the order of the net.
    pub open spec fn outgoing(self, l: LabelView) -> Seq<EdgeView> {
        self.edges.filter(starts_in(l))
    }

    /// The edges that start or end in `l`.
    pub open spec fn incident(self, l: LabelView) -> Seq<EdgeView> {
        self.edges.filter(touching(l))
    }

    /// The net without the vertex `l` and without the edges that touch it.
    pub open spec fn remove_vertex(self, l: LabelView) -> NetView {
        NetView {
            vertices: self.vertices.filter(is_not(l)),
            edges: self.edges.filter(not_touching(l)),
        }
    }

    /// The first edge that carries `label`, if there is one.
    pub open spec fn find_edge(self, label: FormulaView) -> Option<EdgeView> {
        match first_index(self.edges, carries(label)) {
            Some(i) => Some(self.edges[i]),
            None => None,
        }
    }

    /// The net without the first edge that carries `label`.
    pub open spec fn remove_edge(self, label: FormulaView) -> NetView {
        match first_index(self.edges, carries(label)) {
            Some(i) => NetView { vertices: self.vertices, edges: self.edges.remove(i) },
            None => self,
        }
    }

    /// The net with every number moved up by `k`.
    pub open spec fn shift(self, k: int) -> NetView {
        NetView {
            vertices: self.vertices.map_values(|v: LabelView| v.shift(k)),
            edges: self.edges.map_values(|e: EdgeView| e.shift(k)),
        }
    }

    /// The two nets side by side: the numbers of `other` are first moved
    /// above every number of `self`.
    pub open spec fn disjoint_union(self, other: NetView) -> NetView {
        let moved = other.shift(self.max_id() + 1);
        NetView {
            vertices: self.vertices + moved.vertices,
            edges: self.edges + moved.edges,
        }
    }

    /// The cut vertices, in the order of the net.
    pub open spec fn cuts(self) -> Seq<LabelView> {
        self.vertices.filter(has_kind(RuleLabel::Cut))
    }

    /// The vertices of kind `rule`, in the order of the net.
    pub open spec fn of_kind(self, rule: RuleLabel) -> Seq<LabelView> {
        self.vertices.filter(has_kind(rule))
    }

    /// The conclusion vertex in which the first edge that carries `f` and
    /// ends in a conclusion ends.
    pub open spec fn find_conclusion(self, f: FormulaView) -> Option<LabelView> {
        match first_index(self.edges, concludes(f)) {
            Some(i) => Some(self.edges[i].to),
            None => None,
        }
    }
}

impl NetView {
    /// A new vertex with an unused label and a positive number keeps the net
    /// well formed.
    pub proof fn lemma_add_vertex_wf(self, l: LabelView)
        requires
            self.wf(),
            !self.has_vertex(l),
            1 <= l.id <= i32::MAX,
        ensures
            self.add_vertex(l).wf(),
            self.add_vertex(l).has_vertex(l),
            forall|x: LabelView| self.has_vertex(x) ==> self.add_vertex(l).has_vertex(x),
    {
        let n = self.add_vertex(l);
        assert(n.vertices.last() == l);
        assert forall|x: LabelView| self.has_vertex(x) implies n.has_vertex(x) by {
            let i = choose|i: int| 0 <= i < self.vertices.len() && self.vertices[i] == x;
            assert(n.vertices[i] == x);
        }
        assert forall|i: int| 0 <= i < n.edges.len() implies n.has_vertex(
            (#[trigger] n.edges[i]).from,
        ) && n.has_vertex(n.edges[i].to) by {
            assert(self.has_vertex(self.edges[i].from));
            assert(self.has_vertex(self.edges[i].to));
        }
    }

    /// A new edge between two vertices of the net keeps the net well formed.
    pub proof fn lemma_add_edge_wf(self, from: LabelView, to: LabelView, label: FormulaView)
        requires
            self.wf(),
            self.has_vertex(from),
            self.has_vertex(to),
        ensures
            self.add_edge(from, to, label).wf(),
    {
    }

    /// Removing a vertex keeps the net well formed, takes the vertex and the
    /// edges that touch it away, and leaves everything else.
    pub proof fn lemma_remove_vertex(self, l: LabelView)
        requires
            self.wf(),
        ensures
            self.remove_vertex(l).wf(),
            !self.remove_vertex(l).has_vertex(l),
            forall|x: LabelView|
                x != l ==> (#[trigger] self.remove_vertex(l).has_vertex(x) == self.has_vertex(x)),
            self.remove_vertex(l).edges.len() + self.incident(l).len() == self.edges.len(),
            self.has_vertex(l) ==> self.remove_vertex(l).vertices.len() + 1
                == self.vertices.len(),
            !self.has_vertex(l) ==> self.remove_vertex(l) == self,
    {
        let r = self.remove_vertex(l);
        let pv = is_not(l);
        let pe = not_touching(l);
        lemma_filter_members(self.vertices, pv);
        lemma_filter_members(self.edges, pe);
        lemma_filter_no_duplicates(self.vertices, pv);
        lemma_filter_split_len(self.edges, touching(l), pe);
        assert forall|i: int| 0 <= i < r.vertices.len() implies 1 <= (
        #[trigger] r.vertices[i]).id <= i32::MAX by {
            assert(r.vertices.contains(r.vertices[i]));
            let j = choose|j: int| 0 <= j < self.vertices.len() && self.vertices[j] == r.vertices[i];
        }
        assert forall|i: int| 0 <= i < r.edges.len() implies r.has_vertex(
            (#[trigger] r.edges[i]).from,
        ) && r.has_vertex(r.edges[i].to) by {
            assert(r.edges.contains(r.edges[i]));
            let j = choose|j: int| 0 <= j < self.edges.len() && self.edges[j] == r.edges[i];
            assert(self.has_vertex(self.edges[j].from));
            assert(self.has_vertex(self.edges[j].to));
        }
        lemma_filter_one_out(self.vertices, l);
        if !self.has_vertex(l) {
            assert(self.edges.filter(pe) == self.edges) by {
                assert forall|i: int| 0 <= i < self.edges.len() implies pe(self.edges[i]) by {
                    assert(self.has_vertex(self.edges[i].from));
                    assert(self.has_vertex(self.edges[i].to));
                }
                lemma_filter_all(self.edges, pe);
            }
        }
    }

    /// Removing the first edge with a given formula keeps the net well formed
    /// and takes one edge away if there is such an edge.
    pub proof fn lemma_remove_edge(self, label: FormulaView)
        requires
            self.wf(),
        ensures
            self.remove_edge(label).wf(),
            self.remove_edge(label).vertices == self.vertices,
            self.find_edge(label) is Some ==> self.remove_edge(label).edges.len() + 1
                == self.edges.len(),
            self.find_edge(label) is None ==> self.remove_edge(label) == self,
    {
        lemma_first_index(self.edges, carries(label));
    }

    /// The number of every vertex is at most `max_id`, and `max_id` is not
    /// negative.
    pub proof fn lemma_max_id(self)
        requires
            self.wf(),
        ensures
            0 <= self.max_id() <= i32::MAX,
            forall|i: int|
                0 <= i < self.vertices.len() ==> (#[trigger] self.vertices[i]).id <= self.max_id(),
            self.vertices.len() > 0 ==> 1 <= self.max_id(),
    {
        lemma_max_id_bounds(self.vertices);
        lemma_max_id_least(self.vertices, i32::MAX as int);
    }

    /// The label that the next new vertex gets is not in the net.
    pub proof fn lemma_fresh_unused(self, rule: RuleLabel)
        requires
            self.wf(),
        ensures
            !self.has_vertex(self.fresh(rule)),
            1 <= self.fresh(rule).id,
    {
        self.lemma_max_id();
    }

    /// A new vertex with the next label keeps the net well formed and raises
    /// the greatest number by one.
    pub proof fn lemma_add_fresh(self, rule: RuleLabel)
        requires
            self.wf(),
            self.max_id() < i32::MAX,
        ensures
            self.add_vertex(self.fresh(rule)).wf(),
            self.add_vertex(self.fresh(rule)).max_id() == self.max_id() + 1,
            self.add_vertex(self.fresh(rule)).has_vertex(self.fresh(rule)),
            !self.has_vertex(self.fresh(rule)),
            forall|x: LabelView|
                self.has_vertex(x) ==> self.add_vertex(self.fresh(rule)).has_vertex(x),
    {
        self.lemma_fresh_unused(rule);
        self.lemma_max_id();
        self.lemma_add_vertex_wf(self.fresh(rule));
        assert(self.vertices.push(self.fresh(rule)).drop_last() =~= self.vertices);
    }

    /// Two well-formed nets side by side are a well-formed net that has the
    /// vertices and the edges of both, so that no two of its labels collide.
    pub proof fn lemma_disjoint_union(self, other: NetView)
        requires
            self.wf(),
            other.wf(),
            self.max_id() + 1 + other.max_id() <= i32::MAX,
        ensures
            self.disjoint_union(other).wf(),
            self.disjoint_union(other).vertices.len() == self.vertices.len()
                + other.vertices.len(),
            self.disjoint_union(other).edges.len() == self.edges.len() + other.edges.len(),
            self.disjoint_union(other).max_id() <= self.max_id() + 1 + other.max_id(),
            self.disjoint_union(other).max_id() >= self.max_id(),
    {
        let k = self.max_id() + 1;
        let moved = other.shift(k);
        let u = self.disjoint_union(other);
        self.lemma_max_id();
        other.lemma_max_id();
        assert forall|i: int, j: int|
            0 <= i < u.vertices.len() && 0 <= j < u.vertices.len() && i != j implies u.vertices[i]
            != u.vertices[j] by {
            let n = self.vertices.len() as int;
            if i >= n {
                assert(u.vertices[i] == other.vertices[i - n].shift(k));
            }
            if j >= n {
                assert(u.vertices[j] == other.vertices[j - n].shift(k));
            }
            if i >= n && j >= n {
                assert(other.vertices[i - n] != other.vertices[j - n]);
            }
        }
        assert forall|i: int| 0 <= i < u.vertices.len() implies 1 <= (#[trigger] u.vertices[i]).id
            <= self.max_id() + 1 + other.max_id() by {
            let n = self.vertices.len() as int;
            if i >= n {
                assert(u.vertices[i] == other.vertices[i - n].shift(k));
            }
        }
        assert forall|i: int| 0 <= i < u.edges.len() implies u.has_vertex(
            (#[trigger] u.edges[i]).from,
        ) && u.has_vertex(u.edges[i].to) by {
            let n = self.vertices.len() as int;
            let m = self.edges.len() as int;
            if i < m {
                let e = self.edges[i];
                assert(self.has_vertex(e.from));
                assert(self.has_vertex(e.to));
                let a = choose|a: int| 0 <= a < n && self.vertices[a] == e.from;
                let b = choose|b: int| 0 <= b < n && self.vertices[b] == e.to;
                assert(u.vertices[a] == e.from);
                assert(u.vertices[b] == e.to);
            } else {
                let e = other.edges[i - m];
                assert(u.edges[i] == e.shift(k));
                assert(other.has_vertex(e.from));
                assert(other.has_vertex(e.to));
                let a = choose|a: int| 0 <= a < other.vertices.len() && other.vertices[a] == e.from;
                let b = choose|b: int| 0 <= b < other.vertices.len() && other.vertices[b] == e.to;
                assert(u.vertices[n + a] == e.from.shift(k));
                assert(u.vertices[n + b] == e.to.shift(k));
            }
        }
        lemma_max_id_least(u.vertices, self.max_id() + 1 + other.max_id());
        lemma_max_id_bounds(u.vertices);
        if self.vertices.len() > 0 {
            lemma_max_id_attained(self.vertices);
            let a = choose|a: int| 0 <= a < self.vertices.len() && self.vertices[a].id == max_id(self.vertices);
            assert(u.vertices[a] == self.vertices[a]);
        }
    }
}

impl NetView {
    /// Two nets side by side keep what they hold: the first net stands
    /// first as it was, and after it stands the second, number by number
    /// moved above the first. So the result has of every kind of vertex as
    /// many as both nets together, and its edges carry the formulas of the
    /// first net followed by those of the second.
    pub proof fn lemma_disjoint_union_content(self, other: NetView)
        ensures
            self.disjoint_union(other).vertices.take(self.vertices.len() as int) == self.vertices,
            self.disjoint_union(other).vertices.skip(self.vertices.len() as int) == other.shift(
                self.max_id() + 1,
            ).vertices,
            self.disjoint_union(other).edges.take(self.edges.len() as int) == self.edges,
            self.disjoint_union(other).edges.skip(self.edges.len() as int) == other.shift(
                self.max_id() + 1,
            ).edges,
            forall|r: RuleLabel| #[trigger]
                self.disjoint_union(other).of_kind(r).len() == self.of_kind(r).len()
                    + other.of_kind(r).len(),
            formulas_on(self.disjoint_union(other).edges) == formulas_on(self.edges) + formulas_on(
                other.edges,
            ),
    {
        let k = self.max_id() + 1;
        let moved = other.shift(k);
        let u = self.disjoint_union(other);
        assert(u.vertices.take(self.vertices.len() as int) =~= self.vertices);
        assert(u.vertices.skip(self.vertices.len() as int) =~= moved.vertices);
        assert(u.edges.take(self.edges.len() as int) =~= self.edges);
        assert(u.edges.skip(self.edges.len() as int) =~= moved.edges);
        assert(formulas_on(u.edges) =~= formulas_on(self.edges) + formulas_on(other.edges));
        assert forall|r: RuleLabel| #[trigger]
            u.of_kind(r).len() == self.of_kind(r).len() + other.of_kind(r).len() by {
            Seq::filter_distributes_over_add(self.vertices, moved.vertices, has_kind(r));
            lemma_filter_images(
                other.vertices,
                |v: LabelView| v.shift(k),
                has_kind(r),
                has_kind(r),
            );
        }
    }
}

/// The formulas that the edges carry, in the order of the edges.
pub open spec fn formulas_on(es: Seq<EdgeView>) -> Seq<FormulaView> {
    es.map_values(|e: EdgeView| e.label)
}

/// Taking the one occurrence of `l` out of a sequence without repetitions
/// makes it shorter by one; where `l` does not occur, nothing changes.
pub proof fn lemma_filter_one_out(s: Seq<LabelView>, l: LabelView)
    requires
        s.no_duplicates(),
    ensures
        s.contains(l) ==> s.filter(is_not(l)).len() + 1 == s.len(),
        !s.contains(l) ==> s.filter(is_not(l)) == s,
    decreases s.len(),
{
    let p = is_not(l);
    reveal(Seq::filter);
    if s.len() == 0 {
        assert(s.filter(p) =~= s);
    } else {
        let rest = s.drop_last();
        assert(s =~= rest.push(s.last()));
        lemma_filter_one_out(rest, l);
        lemma_filter_push(rest, s.last(), p);
        if s.last() == l {
            if rest.contains(l) {
                let j = choose|j: int| 0 <= j < rest.len() && rest[j] == l;
                assert(s[j] == s[s.len() - 1]);
            }
        } else {
            if s.contains(l) {
                let j = choose|j: int| 0 <= j < s.len() && s[j] == l;
                assert(rest[j] == l);
            }
            if rest.contains(l) {
                let j = choose|j: int| 0 <= j < rest.len() && rest[j] == l;
                assert(s[j] == l);
            }
        }
    }
}

/// Every number is at most `max_id`; with positive numbers `max_id` is
/// positive too, and among no labels it is 0.
pub proof fn lemma_max_id_bounds(vs: Seq<LabelView>)
    ensures
        forall|i: int| 0 <= i < vs.len() ==> (#[trigger] vs[i]).id <= max_id(vs),
        (forall|i: int| 0 <= i < vs.len() ==> 1 <= (#[trigger] vs[i]).id) ==> 0 <= max_id(vs),
        (forall|i: int| 0 <= i < vs.len() ==> 1 <= (#[trigger] vs[i]).id) && vs.len() > 0 ==> 1
            <= max_id(vs),
    decreases vs.len(),
{
    if vs.len() > 1 {
        lemma_max_id_bounds(vs.drop_last());
        assert forall|i: int| 0 <= i < vs.len() implies (#[trigger] vs[i]).id <= max_id(vs) by {
            if i < vs.len() - 1 {
                assert(vs.drop_last()[i] == vs[i]);
            }
        }
        if forall|i: int| 0 <= i < vs.len() ==> 1 <= (#[trigger] vs[i]).id {
            assert forall|i: int| 0 <= i < vs.drop_last().len() implies 1 <= (
            #[trigger] vs.drop_last()[i]).id by {
                assert(vs.drop_last()[i] == vs[i]);
            }
        }
    }
}

/// Among at least one label, `max_id` is the number of one of them.
pub proof fn lemma_max_id_attained(vs: Seq<LabelView>)
    requires
        vs.len() > 0,
    ensures
        exists|i: int| 0 <= i < vs.len() && vs[i].id == max_id(vs),
    decreases vs.len(),
{
    if vs.len() == 1 {
        assert(vs[0].id == max_id(vs));
    } else {
        lemma_max_id_attained(vs.drop_last());
        let i = choose|i: int| 0 <= i < vs.drop_last().len() && vs.drop_last()[i].id == max_id(vs.drop_last());
        assert(vs.drop_last()[i] == vs[i]);
        if max_id(vs.drop_last()) >= vs.last().id {
            assert(vs[i].id == max_id(vs));
        } else {
            assert(vs[vs.len() - 1].id == max_id(vs));
        }
    }
}

/// A bound that is not negative and holds of every number holds of `max_id`.
pub proof fn lemma_max_id_least(vs: Seq<LabelView>, bound: int)
    requires
        0 <= bound,
        forall|i: int| 0 <= i < vs.len() ==> (#[trigger] vs[i]).id <= bound,
    ensures
        max_id(vs) <= bound,
{
    if vs.len() > 0 {
        lemma_max_id_attained(vs);
    }
}

} // verus!
