use crate::mll::formula::{Formula, FormulaView};
use crate::proof_net::directed_multigraph::DirectedMultiGraph;
use crate::proof_net::errors::{Error, ErrorView};
use crate::proof_net::links::{label_of, AttachContext, AttachToNet, ContextView, ProofLink};
use crate::proof_net::net_view::{LabelView, NetView};
use crate::proof_net::proof_structure::{ProofStructure, RuleLabel, Vertex};
use vstd::prelude::*;

verus! {

/// An axiom on a formula: it concludes the formula and its dual.
pub struct AxLink {
    active: Formula,
}

impl View for AxLink {
    type V = FormulaView;

    closed spec fn view(&self) -> FormulaView {
        self.active@
    }
}

/// The net `net` with a new conclusion vertex where `given` names none.
pub open spec fn with_conclusion(net: NetView, given: Option<LabelView>)
    -> NetView {
    match given {
        Some(_) => net,
        None => net.add_vertex(net.fresh(RuleLabel::C)),
    }
}

/// The vertex that `given` names, or the new conclusion vertex of
/// `with_conclusion`.
pub open spec fn conclusion_or_new(
    net: NetView,
    given: Option<LabelView>,
) -> LabelView {
    match given {
        Some(l) => l,
        None => net.fresh(RuleLabel::C),
    }
}

/// The net `net` with an axiom on `f` attached under `ctx`: a new axiom
/// vertex with an edge to `next_left` that carries `f` and an edge to
/// `next_right` that carries the dual of `f`. Where the context names no
/// `next_left` or no `next_right`, a new conclusion vertex takes its place.
pub open spec fn attach_axiom(f: FormulaView, net: NetView, ctx: ContextView) -> Result<
    NetView,
    ErrorView,
> {
    let left = conclusion_or_new(net, ctx.next_left);
    let with_left = with_conclusion(net, ctx.next_left);
    let right = conclusion_or_new(with_left, ctx.next_right);
    let with_right = with_conclusion(with_left, ctx.next_right);
    let ax = with_right.fresh(RuleLabel::Ax);
    let with_ax = with_right.add_vertex(ax);
    if !with_ax.has_vertex(left) {
        Err(ErrorView::VertexNotFound(left))
    } else if !with_ax.has_vertex(right) {
        Err(ErrorView::VertexNotFound(right))
    } else {
        Ok(with_ax.add_edge(ax, left, f).add_edge(ax, right, f.negate()))
    }
}

/// The net that is left where an axiom on `f` cannot be attached to `net`
/// under `ctx`: `net` with the new conclusion vertices and the new axiom
/// vertex and, where `next_left` is a vertex of it, with the edge to
/// `next_left`.
pub open spec fn axiom_remains(f: FormulaView, net: NetView, ctx: ContextView) -> NetView {
    let left = conclusion_or_new(net, ctx.next_left);
    let with_left = with_conclusion(net, ctx.next_left);
    let with_right = with_conclusion(with_left, ctx.next_right);
    let ax = with_right.fresh(RuleLabel::Ax);
    let with_ax = with_right.add_vertex(ax);
    if !with_ax.has_vertex(left) {
        with_ax
    } else {
        with_ax.add_edge(ax, left, f)
    }
}

/// How many vertices an axiom adds under `ctx`.
pub open spec fn axiom_vertices(ctx: ContextView) -> nat {
    let left: nat = if ctx.next_left is None {
        1
    } else {
        0
    };
    let right: nat = if ctx.next_right is None {
        1
    } else {
        0
    };
    1 + left + right
}

/// An axiom that was attached added its vertex, the conclusion vertices that
/// the context did not name, and two edges to a well-formed net, and left it
/// well formed.
pub proof fn lemma_attach_axiom(f: FormulaView, net: NetView, ctx: ContextView)
    requires
        net.wf(),
        net.max_id() + axiom_vertices(ctx) <= i32::MAX,
    ensures
        attach_axiom(f, net, ctx) matches Ok(n) ==> {
            &&& n.wf()
            &&& n.max_id() == net.max_id() + axiom_vertices(ctx)
            &&& n.vertices.len() == net.vertices.len() + axiom_vertices(ctx)
            &&& n.edges.len() == net.edges.len() + 2
        },
{
    let with_left = with_conclusion(net, ctx.next_left);
    if ctx.next_left is None {
        net.lemma_add_fresh(RuleLabel::C);
    }
    let with_right = with_conclusion(with_left, ctx.next_right);
    if ctx.next_right is None {
        with_left.lemma_add_fresh(RuleLabel::C);
    }
    with_right.lemma_add_fresh(RuleLabel::Ax);
}

impl AxLink {
    /// The axiom link on `active`.
    pub fn new(active: Formula) -> (res: AxLink)
        ensures
            res@ == active@,
    {
        AxLink { active }
    }
}

impl From<AxLink> for ProofLink {
    fn from(ax: AxLink) -> (res: ProofLink) {
        ProofLink::AxLink(ax)
    }
}

impl vstd::std_specs::convert::FromSpecImpl<AxLink> for ProofLink {
    open spec fn obeys_from_spec() -> bool {
        true
    }

    open spec fn from_spec(ax: AxLink) -> ProofLink {
        ProofLink::AxLink(ax)
    }
}

impl From<Formula> for AxLink {
    fn from(active: Formula) -> (res: AxLink)
        ensures
            res@ == active@,
    {
        AxLink { active }
    }
}

impl vstd::std_specs::convert::FromSpecImpl<Formula> for AxLink {
    open spec fn obeys_from_spec() -> bool {
        true
    }

    closed spec fn from_spec(active: Formula) -> AxLink {
        AxLink { active }
    }
}

/// Gives back `given`, or adds a new conclusion vertex to `net`.
fn conclusion_vertex(net: &mut ProofStructure, given: Option<&Vertex>) -> (res: Vertex)
    requires
        old(net)@.max_id() < i32::MAX,
    ensures
        res@ == conclusion_or_new(old(net)@, label_of(given)),
        final(net)@ == with_conclusion(old(net)@, label_of(given)),
        final(net)@.max_id() <= old(net)@.max_id() + 1,
        given is Some ==> final(net)@.max_id() == old(net)@.max_id(),
{
    match given {
        Some(v) => *v,
        None => {
            proof {
                use_type_invariant(&*net);
                net@.lemma_add_fresh(RuleLabel::C);
            }
            let label = net.fresh_label(RuleLabel::C);
            let _ = net.add_vertex(label);
            Vertex { label }
        },
    }
}

impl AttachToNet for AxLink {
    open spec fn new_vertices(&self, ctx: ContextView) -> nat {
        axiom_vertices(ctx)
    }

    open spec fn attached(&self, net: NetView, ctx: ContextView) -> Result<NetView, ErrorView> {
        attach_axiom(self@, net, ctx)
    }

    open spec fn remains(&self, net: NetView, ctx: ContextView) -> NetView {
        axiom_remains(self@, net, ctx)
    }

    fn attach(self, net: &mut ProofStructure, ctx: AttachContext) -> (res: Result<(), Error>) {
        let next_left = conclusion_vertex(net, ctx.next_left);
        let next_right = conclusion_vertex(net, ctx.next_right);
        proof {
            use_type_invariant(&*net);
            net@.lemma_add_fresh(RuleLabel::Ax);
        }
        let label = net.fresh_label(RuleLabel::Ax);
        let new_vert = match net.add_vertex(label) {
            Ok(v) => v,
            Err(e) => {
                return Err(e);
            },
        };
        match net.add_edge(&new_vert.label, &next_left.label, self.active.clone()) {
            Ok(_) => {},
            Err(e) => {
                return Err(e);
            },
        }
        match net.add_edge(&new_vert.label, &next_right.label, self.active.neg()) {
            Ok(_) => {},
            Err(e) => {
                return Err(e);
            },
        }
        Ok(())
    }
}

} // verus!
