use crate::mll::formula::Formula;
use crate::proof_net::directed_multigraph::{DirectedMultiGraph, GraphEdge, GraphVertex};
use crate::proof_net::errors::Error;
use crate::proof_net::net_view::{
    carries, concludes, ends_in, has_kind, is_not, max_id, not_touching, starts_in, EdgeView,
    LabelView, NetView,
};
use crate::common::sequences::{
    lemma_filter_take_step, lemma_first_index_is, lemma_first_index_none,
};
use vstd::prelude::*;

verus! {

/// The kind of rule that a vertex of a net stands for.
#[derive(Debug, Clone, Copy, PartialEq, Eq, Hash, Structural)]
pub enum RuleLabel {
    Ax,
    Cut,
    Tensor,
    Par,
    Bang,
    Quest,
    C,
}

/// The name of a vertex: its rule kind and a number that sets it apart from
/// all other vertices of its net.
#[derive(Debug, Clone, Copy, PartialEq, Eq, Hash, Structural)]
pub struct VertexLabel {
    rule: RuleLabel,
    _num: i32,
}

impl View for VertexLabel {
    type V = LabelView;

    closed spec fn view(&self) -> LabelView {
        LabelView { rule: self.rule, id: self._num as int }
    }
}

impl VertexLabel {
    #[verifier::type_invariant]
    spec fn positive(self) -> bool {
        self._num >= 1
    }

    /// The number of this label.
    pub fn id(&self) -> (res: i32)
        ensures
            res == self@.id,
            res >= 1,
    {
        proof {
            use_type_invariant(self);
        }
        self._num
    }

    /// The rule kind of this label.
    pub fn kind(&self) -> (res: RuleLabel)
        ensures
            res == self@.rule,
    {
        self.rule
    }

    /// The label with its number moved up by `k`.
    pub(crate) fn shifted(&self, k: i32) -> (res: VertexLabel)
        requires
            0 <= k,
            self@.id + k <= i32::MAX,
        ensures
            res@ == self@.shift(k as int),
    {
        proof {
            use_type_invariant(self);
        }
        VertexLabel { rule: self.rule, _num: self._num + k }
    }

    /// Two labels with one view are one label.
    pub proof fn lemma_view_injective(self, other: VertexLabel)
        ensures
            (self@ == other@) == (self == other),
    {
    }
}

/// A vertex of a net.
#[derive(Debug, Clone, Copy, PartialEq, Eq, Hash, Structural)]
pub struct Vertex {
    pub label: VertexLabel,
}

impl View for Vertex {
    type V = LabelView;

    open spec fn view(&self) -> LabelView {
        self.label@
    }
}

/// An edge of a net: it leaves `from`, enters `to` and carries a formula.
#[derive(Debug)]
pub struct Edge {
    pub from: Vertex,
    pub to: Vertex,
    pub label: Formula,
}

impl View for Edge {
    type V = EdgeView;

    open spec fn view(&self) -> EdgeView {
        EdgeView { from: self.from@, to: self.to@, label: self.label@ }
    }
}

impl Clone for Edge {
    fn clone(&self) -> (res: Edge)
        ensures
            res == *self,
    {
        Edge { from: self.from, to: self.to, label: self.label.clone() }
    }
}

impl PartialEq for Edge {
    fn eq(&self, other: &Edge) -> (res: bool) {
        proof {
            self.from.label.lemma_view_injective(other.from.label);
            self.to.label.lemma_view_injective(other.to.label);
        }
        self.from == other.from && self.to == other.to && self.label == other.label
    }
}

impl vstd::std_specs::cmp::PartialEqSpecImpl for Edge {
    open spec fn obeys_eq_spec() -> bool {
        true
    }

    open spec fn eq_spec(&self, other: &Edge) -> bool {
        self@ == other@
    }
}

impl Eq for Edge {}

impl GraphVertex for Vertex {
    type Label = VertexLabel;

    fn get_label(&self) -> (res: VertexLabel)
        ensures
            res == self.label,
    {
        self.label
    }
}

impl GraphEdge for Edge {
    type Label = Formula;

    type Vertex = Vertex;

    fn get_label(&self) -> (res: Formula)
        ensures
            res@ == self.label@,
    {
        self.label.clone()
    }

    fn from(&self) -> (res: Vertex)
        ensures
            res == self.from,
    {
        self.from
    }

    fn to(&self) -> (res: Vertex)
        ensures
            res == self.to,
    {
        self.to
    }
}

/// A proof structure: a directed multigraph whose vertices are rule
/// applications and whose edges carry formulas.
pub struct ProofStructure {
    vertices: Vec<Vertex>,
    edges: Vec<Edge>,
}

impl View for ProofStructure {
    type V = NetView;

    closed spec fn view(&self) -> NetView {
        parts_view(self.vertices, self.edges)
    }
}

/// The mathematical content of a sequence of edges.
pub open spec fn edges_view(es: Seq<Edge>) -> Seq<EdgeView> {
    es.map_values(|e: Edge| e@)
}

/// The mathematical content of a sequence of vertices.
pub open spec fn vertices_view(vs: Seq<Vertex>) -> Seq<LabelView> {
    vs.map_values(|v: Vertex| v@)
}

/// The net that a vector of vertices and a vector of edges stand for.
pub open spec fn parts_view(vertices: Vec<Vertex>, edges: Vec<Edge>) -> NetView {
    NetView { vertices: vertices_view(vertices@), edges: edges_view(edges@) }
}

impl ProofStructure {
    /// What holds of every net at all times: its content is well formed.
    #[verifier::type_invariant]
    pub open spec fn inv(&self) -> bool {
        self@.wf()
    }

    /// Moves the vertices and edges out and leaves the empty net behind.
    fn take_parts(&mut self) -> (res: (Vec<Vertex>, Vec<Edge>))
        ensures
            parts_view(res.0, res.1) == old(self)@,
            old(self)@.wf(),
            final(self)@ == NetView::empty(),
    {
        proof {
            use_type_invariant(&*self);
        }
        let mut taken = ProofStructure::new();
        std::mem::swap(self, &mut taken);
        let ProofStructure { vertices, edges } = taken;
        (vertices, edges)
    }

    /// Makes the net hold the given vertices and edges.
    fn put_parts(&mut self, vertices: Vec<Vertex>, edges: Vec<Edge>)
        requires
            parts_view(vertices, edges).wf(),
        ensures
            final(self)@ == parts_view(vertices, edges),
    {
        *self = ProofStructure { vertices, edges };
    }

    /// The net without vertices and edges.
    pub fn new() -> (res: ProofStructure)
        ensures
            res@ == NetView::empty(),
    {
        let res = ProofStructure { vertices: Vec::new(), edges: Vec::new() };
        assert(res@.vertices =~= Seq::empty());
        assert(res@.edges =~= Seq::empty());
        res
    }
}

impl Default for ProofStructure {
    fn default() -> (res: ProofStructure)
        ensures
            res@ == NetView::empty(),
    {
        ProofStructure::new()
    }
}

impl DirectedMultiGraph for ProofStructure {
    type Vertex = Vertex;

    type Edge = Edge;

    type Error = Error;

    open spec fn can_join(&self, other: &ProofStructure) -> bool {
        self@.max_id() + 1 + other@.max_id() <= i32::MAX
    }

    fn find_vertex(&self, label: &VertexLabel) -> (res: Option<Vertex>)
        ensures
            match res {
                Some(v) => self@.has_vertex(label@) && v@ == label@,
                None => !self@.has_vertex(label@),
            },
    {
        let mut i: usize = 0;
        while i < self.vertices.len()
            invariant
                i <= self.vertices.len(),
                forall|j: int| 0 <= j < i ==> self.vertices@[j]@ != label@,
            decreases self.vertices.len() - i,
        {
            if self.vertices[i].label == *label {
                assert(self@.vertices[i as int] == label@);
                return Some(self.vertices[i]);
            }
            proof {
                self.vertices@[i as int].label.lemma_view_injective(*label);
            }
            i += 1;
        }
        assert forall|j: int| 0 <= j < self@.vertices.len() implies self@.vertices[j] != label@ by {
            assert(self@.vertices[j] == self.vertices@[j]@);
        }
        None
    }

    fn add_vertex(&mut self, label: VertexLabel) -> (res: Result<Vertex, Error>)
        ensures
            match res {
                Ok(v) => {
                    &&& !old(self)@.has_vertex(label@)
                    &&& final(self)@ == old(self)@.add_vertex(label@)
                    &&& v@ == label@
                },
                Err(e) => {
                    &&& old(self)@.has_vertex(label@)
                    &&& final(self)@ == old(self)@
                    &&& e == Error::VertexAlreadyExists(label)
                },
            },
    {
        proof {
            use_type_invariant(&*self);
        }
        if self.find_vertex(&label).is_some() {
            return Err(Error::VertexAlreadyExists(label));
        }
        let id: i32 = label.id();
        let new_vert = Vertex { label };
        let (mut vertices, edges) = self.take_parts();
        vertices.push(new_vert);
        proof {
            assert(parts_view(vertices, edges).vertices =~= old(self)@.vertices.push(label@));
            old(self)@.lemma_add_vertex_wf(label@);
        }
        self.put_parts(vertices, edges);
        Ok(new_vert)
    }

    fn get_vertices(&self) -> (res: Vec<Vertex>)
        ensures
            vertices_view(res@) == self@.vertices,
    {
        self.vertices.clone()
    }

    fn get_edges(&self) -> (res: Vec<Edge>)
        ensures
            edges_view(res@) == self@.edges,
    {
        let mut out: Vec<Edge> = Vec::new();
        let mut i: usize = 0;
        while i < self.edges.len()
            invariant
                i <= self.edges.len(),
                edges_view(out@) == self@.edges.take(i as int),
            decreases self.edges.len() - i,
        {
            out.push(self.edges[i].clone());
            assert(edges_view(out@) =~= self@.edges.take(i as int).push(self@.edges[i as int]));
            assert(self@.edges.take(i as int + 1) =~= self@.edges.take(i as int).push(
                self@.edges[i as int],
            ));
            i += 1;
        }
        assert(self@.edges.take(i as int) =~= self@.edges);
        out
    }

    fn add_edge(&mut self, from: &VertexLabel, to: &VertexLabel, label: Formula) -> (res:
        Result<Edge, Error>)
        ensures
            match res {
                Ok(e) => {
                    &&& old(self)@.has_vertex(from@)
                    &&& old(self)@.has_vertex(to@)
                    &&& final(self)@ == old(self)@.add_edge(from@, to@, label@)
                    &&& e@ == (EdgeView { from: from@, to: to@, label: label@ })
                },
                Err(e) => {
                    &&& final(self)@ == old(self)@
                    &&& if !old(self)@.has_vertex(from@) {
                        e == Error::VertexNotFound(*from)
                    } else {
                        !old(self)@.has_vertex(to@) && e == Error::VertexNotFound(*to)
                    }
                },
            },
    {
        let from_vert = match self.find_vertex(from) {
            Some(v) => v,
            None => {
                return Err(Error::VertexNotFound(*from));
            },
        };
        let to_vert = match self.find_vertex(to) {
            Some(v) => v,
            None => {
                return Err(Error::VertexNotFound(*to));
            },
        };
        let edge = Edge { from: from_vert, to: to_vert, label };
        let result = edge.clone();
        let (vertices, mut edges) = self.take_parts();
        edges.push(edge);
        proof {
            assert(parts_view(vertices, edges).edges =~= old(self)@.edges.push(edge@));
            old(self)@.lemma_add_edge_wf(from@, to@, label@);
        }
        self.put_parts(vertices, edges);
        Ok(result)
    }

    fn get_incoming(&self, label: &VertexLabel) -> (res: Result<Vec<Edge>, Error>)
        ensures
            match res {
                Ok(es) => self@.has_vertex(label@) && edges_view(es@) == self@.incoming(label@),
                Err(e) => !self@.has_vertex(label@) && e == Error::VertexNotFound(*label),
            },
    {
        if self.find_vertex(label).is_none() {
            return Err(Error::VertexNotFound(*label));
        }
        let ghost p = ends_in(label@);
        let mut out: Vec<Edge> = Vec::new();
        let mut i: usize = 0;
        while i < self.edges.len()
            invariant
                i <= self.edges.len(),
                p == ends_in(label@),
                edges_view(out@) == self@.edges.take(i as int).filter(p),
            decreases self.edges.len() - i,
        {
            proof {
                lemma_filter_take_step(self@.edges, i as int, p);
            }
            if self.edges[i].to.label == *label {
                out.push(self.edges[i].clone());
                assert(edges_view(out@) =~= self@.edges.take(i as int).filter(p).push(
                    self@.edges[i as int],
                ));
            }
            i += 1;
        }
        assert(self@.edges.take(i as int) =~= self@.edges);
        Ok(out)
    }

    fn get_outgoing(&self, label: &VertexLabel) -> (res: Result<Vec<Edge>, Error>)
        ensures
            match res {
                Ok(es) => self@.has_vertex(label@) && edges_view(es@) == self@.outgoing(label@),
                Err(e) => !self@.has_vertex(label@) && e == Error::VertexNotFound(*label),
            },
    {
        if self.find_vertex(label).is_none() {
            return Err(Error::VertexNotFound(*label));
        }
        let ghost p = starts_in(label@);
        let mut out: Vec<Edge> = Vec::new();
        let mut i: usize = 0;
        while i < self.edges.len()
            invariant
                i <= self.edges.len(),
                p == starts_in(label@),
                edges_view(out@) == self@.edges.take(i as int).filter(p),
            decreases self.edges.len() - i,
        {
            proof {
                lemma_filter_take_step(self@.edges, i as int, p);
            }
            if self.edges[i].from.label == *label {
                out.push(self.edges[i].clone());
                assert(edges_view(out@) =~= self@.edges.take(i as int).filter(p).push(
                    self@.edges[i as int],
                ));
            }
            i += 1;
        }
        assert(self@.edges.take(i as int) =~= self@.edges);
        Ok(out)
    }

    fn find_edge(&self, label: &Formula) -> (res: Option<Edge>)
        ensures
            match res {
                Some(e) => self@.find_edge(label@) == Some(e@),
                None => self@.find_edge(label@) is None,
            },
    {
        let ghost p = carries(label@);
        let mut i: usize = 0;
        while i < self.edges.len()
            invariant
                i <= self.edges.len(),
                p == carries(label@),
                forall|j: int| 0 <= j < i ==> !p(self@.edges[j]),
            decreases self.edges.len() - i,
        {
            if self.edges[i].label == *label {
                proof {
                    lemma_first_index_is(self@.edges, p, i as int);
                }
                return Some(self.edges[i].clone());
            }
            i += 1;
        }
        proof {
            lemma_first_index_none(self@.edges, p);
        }
        None
    }

    fn remove_edge(&mut self, label: &Formula) -> (res: Result<(), Error>)
        ensures
            match res {
                Ok(()) => old(self)@.find_edge(label@) is Some && final(self)@ == old(
                    self,
                )@.remove_edge(label@),
                Err(e) => {
                    &&& old(self)@.find_edge(label@) is None
                    &&& final(self)@ == old(self)@
                    &&& e matches Error::EdgeNotFound(f)
                    &&& f@ == label@
                },
            },
    {
        let ghost p = carries(label@);
        let mut i: usize = 0;
        while i < self.edges.len()
            invariant
                i <= self.edges.len(),
                p == carries(label@),
                *self == *old(self),
                forall|j: int| 0 <= j < i ==> !p(self@.edges[j]),
            decreases self.edges.len() - i,
        {
            if self.edges[i].label == *label {
                proof {
                    use_type_invariant(&*self);
                    lemma_first_index_is(self@.edges, p, i as int);
                    old(self)@.lemma_remove_edge(label@);
                }
                let (vertices, mut edges) = self.take_parts();
                edges.remove(i);
                proof {
                    assert(parts_view(vertices, edges).edges =~= old(self)@.edges.remove(i as int));
                }
                self.put_parts(vertices, edges);
                return Ok(());
            }
            i += 1;
        }
        proof {
            lemma_first_index_none(self@.edges, p);
        }
        Err(Error::EdgeNotFound(label.clone()))
    }

    fn remove_vertex(&mut self, label: &VertexLabel) -> (res: Result<(), Error>)
        ensures
            match res {
                Ok(()) => old(self)@.has_vertex(label@) && final(self)@ == old(
                    self,
                )@.remove_vertex(label@),
                Err(e) => {
                    &&& !old(self)@.has_vertex(label@)
                    &&& final(self)@ == old(self)@
                    &&& e == Error::VertexNotFound(*label)
                },
            },
    {
        if self.find_vertex(label).is_none() {
            return Err(Error::VertexNotFound(*label));
        }
        let (vertices, edges) = self.take_parts();
        let ghost pe = not_touching(label@);
        let ghost pv = is_not(label@);
        let ghost all_edges = edges_view(edges@);
        let ghost all_vertices = vertices_view(vertices@);
        let mut kept_edges: Vec<Edge> = Vec::new();
        for e in it: edges
            invariant
                pe == not_touching(label@),
                edges_view(it.seq()) == all_edges,
                edges_view(kept_edges@) == all_edges.take(it.index() as int).filter(pe),
        {
            proof {
                assert(all_edges[it.index() as int] == e@);
                lemma_filter_take_step(all_edges, it.index() as int, pe);
            }
            if !(e.from.label == *label || e.to.label == *label) {
                kept_edges.push(e);
                assert(edges_view(kept_edges@) =~= all_edges.take(it.index() as int).filter(
                    pe,
                ).push(e@));
            }
        }
        let mut kept_vertices: Vec<Vertex> = Vec::new();
        let mut i: usize = 0;
        while i < vertices.len()
            invariant
                i <= vertices.len(),
                pv == is_not(label@),
                all_vertices == vertices_view(vertices@),
                vertices_view(kept_vertices@) == all_vertices.take(i as int).filter(pv),
            decreases vertices.len() - i,
        {
            proof {
                lemma_filter_take_step(all_vertices, i as int, pv);
            }
            if !(vertices[i].label == *label) {
                kept_vertices.push(vertices[i]);
                assert(vertices_view(kept_vertices@) =~= all_vertices.take(i as int).filter(
                    pv,
                ).push(all_vertices[i as int]));
            }
            i += 1;
        }
        proof {
            assert(all_vertices.take(i as int) =~= all_vertices);
            assert(all_edges.take(all_edges.len() as int) =~= all_edges);
            old(self)@.lemma_remove_vertex(label@);
        }
        self.put_parts(kept_vertices, kept_edges);
        Ok(())
    }

    fn disjoint_union(&mut self, other: ProofStructure) -> (res: Result<(), Error>)
        ensures
            res is Ok,
            final(self)@ == old(self)@.disjoint_union(other@),
    {
        proof {
            use_type_invariant(&*self);
            use_type_invariant(&other);
            old(self)@.lemma_max_id();
            other@.lemma_max_id();
            old(self)@.lemma_disjoint_union(other@);
        }
        let offset: i32 = self.max_number() + 1;
        let (mut vertices, mut edges) = self.take_parts();
        let ProofStructure { vertices: other_vertices, edges: other_edges } = other;
        let ghost moved = other@.shift(offset as int);
        let mut i: usize = 0;
        while i < other_vertices.len()
            invariant
                i <= other_vertices.len(),
                1 <= offset,
                other@.wf(),
                other@.vertices == vertices_view(other_vertices@),
                moved == other@.shift(offset as int),
                offset + other@.max_id() <= i32::MAX,
                forall|j: int|
                    0 <= j < other@.vertices.len() ==> (#[trigger] other@.vertices[j]).id
                        <= other@.max_id(),
                vertices_view(vertices@) == old(self)@.vertices + moved.vertices.take(i as int),
            decreases other_vertices.len() - i,
        {
            assert(other@.vertices[i as int] == other_vertices@[i as int]@);
            let label = other_vertices[i].label.shifted(offset);
            vertices.push(Vertex { label });
            proof {
                assert(moved.vertices[i as int] == label@);
                assert(moved.vertices.take(i as int + 1) =~= moved.vertices.take(i as int).push(
                    label@,
                ));
                assert(vertices_view(vertices@) =~= (old(self)@.vertices + moved.vertices.take(
                    i as int,
                )).push(label@));
            }
            i += 1;
        }
        assert(moved.vertices.take(i as int) =~= moved.vertices);
        for e in it: other_edges
            invariant
                1 <= offset,
                other@.wf(),
                other@.edges == edges_view(it.seq()),
                moved == other@.shift(offset as int),
                offset + other@.max_id() <= i32::MAX,
                forall|j: int|
                    0 <= j < other@.vertices.len() ==> (#[trigger] other@.vertices[j]).id
                        <= other@.max_id(),
                edges_view(edges@) == old(self)@.edges + moved.edges.take(it.index() as int),
        {
            proof {
                let ev = other@.edges[it.index() as int];
                assert(ev == e@);
                assert(other@.has_vertex(ev.from));
                assert(other@.has_vertex(ev.to));
            }
            let from = Vertex { label: e.from.label.shifted(offset) };
            let to = Vertex { label: e.to.label.shifted(offset) };
            let ghost shifted = e@.shift(offset as int);
            edges.push(Edge { from, to, label: e.label });
            proof {
                let k = it.index() as int;
                assert(moved.edges[k] == shifted);
                assert(moved.edges.take(k + 1) =~= moved.edges.take(k).push(shifted));
                assert(edges_view(edges@) =~= (old(self)@.edges + moved.edges.take(k)).push(
                    shifted,
                ));
            }
        }
        assert(moved.edges.take(moved.edges.len() as int) =~= moved.edges);
        self.put_parts(vertices, edges);
        Ok(())
    }
}

impl ProofStructure {
    /// The number of vertices of the net.
    pub fn vertex_count(&self) -> (res: usize)
        ensures
            res == self@.vertices.len(),
    {
        self.vertices.len()
    }

    /// The number of edges of the net.
    pub fn edge_count(&self) -> (res: usize)
        ensures
            res == self@.edges.len(),
    {
        self.edges.len()
    }

    /// Merges `other` into this net as `disjoint_union` does, where the
    /// numbers of the machine suffice for it; else the net stays as it is,
    /// and `other` is handed back.
    pub fn try_disjoint_union(&mut self, other: ProofStructure) -> (res: Option<ProofStructure>)
        ensures
            match res {
                None => {
                    &&& old(self).can_join(&other)
                    &&& final(self)@ == old(self)@.disjoint_union(other@)
                },
                Some(back) => {
                    &&& !old(self).can_join(&other)
                    &&& final(self)@ == old(self)@
                    &&& back@ == other@
                },
            },
    {
        let mine: i64 = self.max_number() as i64;
        let theirs: i64 = other.max_number() as i64;
        if mine + 1 + theirs <= 2147483647 {
            let _ = self.disjoint_union(other);
            None
        } else {
            Some(other)
        }
    }

    /// A label of kind `rule` that no vertex of the net carries: its number
    /// is one more than the greatest number in the net.
    pub fn fresh_label(&self, rule: RuleLabel) -> (res: VertexLabel)
        requires
            self@.max_id() < i32::MAX,
        ensures
            res@ == self@.fresh(rule),
            !self@.has_vertex(res@),
    {
        proof {
            use_type_invariant(self);
            self@.lemma_fresh_unused(rule);
            self@.lemma_max_id();
        }
        let max: i32 = self.max_number();
        VertexLabel { rule, _num: max + 1 }
    }

    /// The greatest number of a vertex, and 0 in a net without vertices.
    pub fn max_number(&self) -> (res: i32)
        ensures
            res == self@.max_id(),
            0 <= res,
    {
        proof {
            use_type_invariant(self);
            self@.lemma_max_id();
        }
        if self.vertices.len() == 0 {
            return 0;
        }
        let mut max: i32 = self.vertices[0].label._num;
        let mut i: usize = 1;
        assert(self@.vertices.take(1).len() == 1);
        while i < self.vertices.len()
            invariant
                1 <= i <= self.vertices.len(),
                max == max_id(self@.vertices.take(i as int)),
            decreases self.vertices.len() - i,
        {
            let n: i32 = self.vertices[i].label._num;
            proof {
                assert(self@.vertices.take(i as int + 1).drop_last() =~= self@.vertices.take(
                    i as int,
                ));
            }
            if n > max {
                max = n;
            }
            i += 1;
        }
        assert(self@.vertices.take(i as int) =~= self@.vertices);
        max
    }

    /// The conclusion vertex that the first edge which carries `conc` and
    /// ends in a conclusion ends in.
    pub fn find_conclusion(&self, conc: &Formula) -> (res: Option<Vertex>)
        ensures
            match res {
                Some(v) => self@.find_conclusion(conc@) == Some(v@),
                None => self@.find_conclusion(conc@) is None,
            },
    {
        let ghost p = concludes(conc@);
        let mut i: usize = 0;
        while i < self.edges.len()
            invariant
                i <= self.edges.len(),
                p == concludes(conc@),
                forall|j: int| 0 <= j < i ==> !p(self@.edges[j]),
            decreases self.edges.len() - i,
        {
            if self.edges[i].label == *conc && self.edges[i].to.label.rule == RuleLabel::C {
                proof {
                    lemma_first_index_is(self@.edges, p, i as int);
                }
                return Some(self.edges[i].to);
            }
            i += 1;
        }
        proof {
            lemma_first_index_none(self@.edges, p);
        }
        None
    }

    /// The cut vertices of the net, in the order in which they were added.
    pub fn get_cuts(&self) -> (res: Vec<Vertex>)
        ensures
            vertices_view(res@) == self@.cuts(),
    {
        let ghost p = has_kind(RuleLabel::Cut);
        let mut out: Vec<Vertex> = Vec::new();
        let mut i: usize = 0;
        while i < self.vertices.len()
            invariant
                i <= self.vertices.len(),
                p == has_kind(RuleLabel::Cut),
                vertices_view(out@) == self@.vertices.take(i as int).filter(p),
            decreases self.vertices.len() - i,
        {
            proof {
                lemma_filter_take_step(self@.vertices, i as int, p);
            }
            if self.vertices[i].label.rule == RuleLabel::Cut {
                out.push(self.vertices[i]);
                assert(vertices_view(out@) =~= self@.vertices.take(i as int).filter(p).push(
                    self@.vertices[i as int],
                ));
            }
            i += 1;
        }
        assert(self@.vertices.take(i as int) =~= self@.vertices);
        out
    }
}

} // verus!
