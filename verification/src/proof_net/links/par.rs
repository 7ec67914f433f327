use crate::mll::formula::{Formula, FormulaView};
use crate::proof_net::directed_multigraph::DirectedMultiGraph;
use crate::proof_net::errors::{Error, ErrorView};
use crate::proof_net::links::{AttachContext, AttachToNet, ContextView, ProofLink};
use crate::proof_net::net_view::NetView;
use crate::proof_net::proof_structure::{ProofStructure, RuleLabel};
use std::rc::Rc;
use vstd::prelude::*;

verus! {

/// A par of two formulas.
pub struct ParLink {
    premise_left: Formula,
    premise_right: Formula,
}

impl View for ParLink {
    type V = (FormulaView, FormulaView);

    closed spec fn view(&self) -> (FormulaView, FormulaView) {
        (self.premise_left@, self.premise_right@)
    }
}

/// The net `net` with a par of `f` and `g` attached under `ctx`: a new par
/// vertex with an edge from `prev_left` that carries `f`, an edge from
/// `prev_right` that carries `g`, and an edge to `next_left` that carries the
/// par of `f` and `g`.
pub open spec fn attach_par(f: FormulaView, g: FormulaView, net: NetView, ctx: ContextView)
    -> Result<NetView, ErrorView> {
    if ctx.prev_left is None || ctx.prev_right is None {
        Err(ErrorView::MissingPremise)
    } else if ctx.next_left is None {
        Err(ErrorView::MissingConclusion)
    } else {
        let left = ctx.prev_left->0;
        let right = ctx.prev_right->0;
        let next = ctx.next_left->0;
        let new = net.fresh(RuleLabel::Par);
        let with_new = net.add_vertex(new);
        if !with_new.has_vertex(left) {
            Err(ErrorView::VertexNotFound(left))
        } else if !with_new.has_vertex(right) {
            Err(ErrorView::VertexNotFound(right))
        } else if !with_new.has_vertex(next) {
            Err(ErrorView::VertexNotFound(next))
        } else {
            Ok(
                with_new.add_edge(left, new, f).add_edge(right, new, g).add_edge(
                    new,
                    next,
                    FormulaView::Par(Box::new(f), Box::new(g)),
                ),
            )
        }
    }
}

/// A link that was attached added one vertex and 3 edges to a well-formed net,
/// and left it well formed.
pub proof fn lemma_attach_par(f: FormulaView, g: FormulaView, net: NetView, ctx: ContextView)
    requires
        net.wf(),
        net.max_id() < i32::MAX,
    ensures
        attach_par(f, g, net, ctx) matches Ok(n) ==> {
            &&& n.wf()
            &&& n.max_id() == net.max_id() + 1
            &&& n.vertices == net.vertices.push(net.fresh(RuleLabel::Par))
            &&& n.edges.len() == net.edges.len() + 3
        },
{
    net.lemma_add_fresh(RuleLabel::Par);
}

/// The net that is left where a par of `f` and `g` cannot be attached to
/// `net` under `ctx`: `net` itself where the context names no `prev_left`, no
/// `prev_right` or no `next_left`; else `net` with the new par vertex and
/// with the edges that were drawn before a vertex of the context was found to
/// be missing.
pub open spec fn par_remains(f: FormulaView, g: FormulaView, net: NetView, ctx: ContextView)
    -> NetView {
    if ctx.prev_left is None || ctx.prev_right is None || ctx.next_left is None {
        net
    } else {
        let left = ctx.prev_left->0;
        let right = ctx.prev_right->0;
        let new = net.fresh(RuleLabel::Par);
        let with_new = net.add_vertex(new);
        if !with_new.has_vertex(left) {
            with_new
        } else if !with_new.has_vertex(right) {
            with_new.add_edge(left, new, f)
        } else {
            with_new.add_edge(left, new, f).add_edge(right, new, g)
        }
    }
}

/// How many vertices a par adds under `ctx`: one, and none where the
/// context lacks a vertex that the par needs.
pub open spec fn par_vertices(ctx: ContextView) -> nat {
    if ctx.prev_left is None || ctx.prev_right is None || ctx.next_left is None {
        0
    } else {
        1
    }
}

impl ParLink {
    /// The par link of `premise_left` and `premise_right`.
    pub fn new(premise_left: Formula, premise_right: Formula) -> (res: ParLink)
        ensures
            res@ == (premise_left@, premise_right@),
    {
        ParLink { premise_left, premise_right }
    }
}

impl From<ParLink> for ProofLink {
    fn from(par: ParLink) -> (res: ProofLink) {
        ProofLink::ParLink(par)
    }
}

impl vstd::std_specs::convert::FromSpecImpl<ParLink> for ProofLink {
    open spec fn obeys_from_spec() -> bool {
        true
    }

    open spec fn from_spec(par: ParLink) -> ProofLink {
        ProofLink::ParLink(par)
    }
}

impl AttachToNet for ParLink {
    open spec fn new_vertices(&self, ctx: ContextView) -> nat {
        par_vertices(ctx)
    }

    open spec fn attached(&self, net: NetView, ctx: ContextView) -> Result<NetView, ErrorView> {
        attach_par(self@.0, self@.1, net, ctx)
    }

    open spec fn remains(&self, net: NetView, ctx: ContextView) -> NetView {
        par_remains(self@.0, self@.1, net, ctx)
    }

    fn attach(self, net: &mut ProofStructure, ctx: AttachContext) -> (res: Result<(), Error>) {
        let left = match ctx.prev_left {
            Some(v) => v,
            None => {
                return Err(Error::MissingPremise);
            },
        };
        let right = match ctx.prev_right {
            Some(v) => v,
            None => {
                return Err(Error::MissingPremise);
            },
        };
        let next = match ctx.next_left {
            Some(v) => v,
            None => {
                return Err(Error::MissingConclusion);
            },
        };
        proof {
            use_type_invariant(&*net);
            net@.lemma_add_fresh(RuleLabel::Par);
        }
        let label = net.fresh_label(RuleLabel::Par);
        let new_vert = match net.add_vertex(label) {
            Ok(v) => v,
            Err(e) => {
                return Err(e);
            },
        };
        match net.add_edge(&left.label, &new_vert.label, self.premise_left.clone()) {
            Ok(_) => {},
            Err(e) => {
                return Err(e);
            },
        }
        match net.add_edge(&right.label, &new_vert.label, self.premise_right.clone()) {
            Ok(_) => {},
            Err(e) => {
                return Err(e);
            },
        }
        let compound = Formula::Par(Rc::new(self.premise_left), Rc::new(self.premise_right));
        match net.add_edge(&new_vert.label, &next.label, compound) {
            Ok(_) => {},
            Err(e) => {
                return Err(e);
            },
        }
        Ok(())
    }
}

} // verus!
