use vstd::prelude::*;

verus! {

/// A vertex that is known by a label.
pub trait GraphVertex {
    type Label;

    /// The label of the vertex.
    fn get_label(&self) -> Self::Label;
}

/// An edge that is known by a label and joins two vertices.
pub trait GraphEdge {
    type Label;

    type Vertex: GraphVertex;

    /// The label of the edge.
    fn get_label(&self) -> Self::Label;

    /// The vertex that the edge leaves.
    fn from(&self) -> Self::Vertex;

    /// The vertex that the edge enters.
    fn to(&self) -> Self::Vertex;
}

/// A directed graph that may hold several edges between the same two
/// vertices, and whose vertices and edges are found by their labels.
pub trait DirectedMultiGraph: Default {
    type Vertex: GraphVertex;

    type Edge: GraphEdge<Vertex = Self::Vertex>;

    type Error;

    /// Whether `other` can be merged into this graph.
    spec fn can_join(&self, other: &Self) -> bool;

    /// The vertices of the graph.
    fn get_vertices(&self) -> Vec<Self::Vertex>;

    /// Adds a vertex with the label `label`, which no vertex of the graph
    /// may carry yet.
    fn add_vertex(&mut self, label: <Self::Vertex as GraphVertex>::Label) -> Result<
        Self::Vertex,
        Self::Error,
    >;

    /// The vertex with the label `label`, if there is one.
    fn find_vertex(&self, label: &<Self::Vertex as GraphVertex>::Label) -> Option<Self::Vertex>;

    /// Removes the vertex with the label `label` and every edge that leaves
    /// or enters it.
    fn remove_vertex(&mut self, label: &<Self::Vertex as GraphVertex>::Label) -> Result<
        (),
        Self::Error,
    >;

    /// The edges that leave the vertex with the label `label`.
    fn get_outgoing(&self, label: &<Self::Vertex as GraphVertex>::Label) -> Result<
        Vec<Self::Edge>,
        Self::Error,
    >;

    /// The edges that enter the vertex with the label `label`.
    fn get_incoming(&self, label: &<Self::Vertex as GraphVertex>::Label) -> Result<
        Vec<Self::Edge>,
        Self::Error,
    >;

    /// The edges of the graph.
    fn get_edges(&self) -> Vec<Self::Edge>;

    /// Adds an edge with the label `label` between two vertices of the
    /// graph.
    fn add_edge(
        &mut self,
        from: &<Self::Vertex as GraphVertex>::Label,
        to: &<Self::Vertex as GraphVertex>::Label,
        label: <Self::Edge as GraphEdge>::Label,
    ) -> Result<Self::Edge, Self::Error>;

    /// The first edge with the label `label`, if there is one.
    fn find_edge(&self, label: &<Self::Edge as GraphEdge>::Label) -> Option<Self::Edge>;

    /// Removes the first edge with the label `label`.
    fn remove_edge(&mut self, label: &<Self::Edge as GraphEdge>::Label) -> Result<(), Self::Error>;

    /// Merges `other` into this graph, with its labels changed so that none
    /// collides with a label of this graph.
    fn disjoint_union(&mut self, other: Self) -> Result<(), Self::Error>
        requires
            old(self).can_join(&other),
    ;
}

} // verus!
