use crate::mll::formula::{Formula, FormulaView};
use crate::proof_net::directed_multigraph::DirectedMultiGraph;
use crate::proof_net::errors::{Error, ErrorView};
use crate::proof_net::links::{AttachContext, AttachToNet, ContextView, ProofLink};
use crate::proof_net::net_view::NetView;
use crate::proof_net::proof_structure::{ProofStructure, RuleLabel};
use vstd::prelude::*;

verus! {

/// A cut between a formula and its dual.
pub struct CutLink {
    premise: Formula,
}

impl View for CutLink {
    type V = FormulaView;

    closed spec fn view(&self) -> FormulaView {
        self.premise@
    }
}

/// The net `net` with a cut on `f` attached under `ctx`: a new cut vertex
/// with an edge from `prev_left` that carries the dual of `f` and an edge from
/// `prev_right` that carries `f`.
pub open spec fn attach_cut(f: FormulaView, net: NetView, ctx: ContextView) -> Result<
    NetView,
    ErrorView,
> {
    if ctx.prev_left is None || ctx.prev_right is None {
        Err(ErrorView::MissingPremise)
    } else {
        let left = ctx.prev_left->0;
        let right = ctx.prev_right->0;
        let cut = net.fresh(RuleLabel::Cut);
        let with_cut = net.add_vertex(cut);
        if !with_cut.has_vertex(left) {
            Err(ErrorView::VertexNotFound(left))
        } else if !with_cut.has_vertex(right) {
            Err(ErrorView::VertexNotFound(right))
        } else {
            Ok(with_cut.add_edge(left, cut, f.negate()).add_edge(right, cut, f))
        }
    }
}

/// A link that was attached added one vertex and 2 edges to a well-formed net,
/// and left it well formed.
pub proof fn lemma_attach_cut(f: FormulaView, net: NetView, ctx: ContextView)
    requires
        net.wf(),
        net.max_id() < i32::MAX,
    ensures
        attach_cut(f, net, ctx) matches Ok(n) ==> {
            &&& n.wf()
            &&& n.max_id() == net.max_id() + 1
            &&& n.vertices == net.vertices.push(net.fresh(RuleLabel::Cut))
            &&& n.edges.len() == net.edges.len() + 2
        },
{
    net.lemma_add_fresh(RuleLabel::Cut);
}

/// The net that is left where a cut on `f` cannot be attached to `net`
/// under `ctx`: `net` itself where the context names no `prev_left` or no
/// `prev_right`; else `net` with the new cut vertex and, where `prev_left` is
/// a vertex of it, with the edge from `prev_left`.
pub open spec fn cut_remains(f: FormulaView, net: NetView, ctx: ContextView) -> NetView {
    if ctx.prev_left is None || ctx.prev_right is None {
        net
    } else {
        let left = ctx.prev_left->0;
        let cut = net.fresh(RuleLabel::Cut);
        let with_cut = net.add_vertex(cut);
        if !with_cut.has_vertex(left) {
            with_cut
        } else {
            with_cut.add_edge(left, cut, f.negate())
        }
    }
}

/// How many vertices a link adds that starts from `prev_left` and
/// `prev_right`: one, and none where the context lacks one of the two.
pub open spec fn vertices_between(ctx: ContextView) -> nat {
    if ctx.prev_left is None || ctx.prev_right is None {
        0
    } else {
        1
    }
}

impl CutLink {
    /// The cut link on `premise`.
    pub fn new(premise: Formula) -> (res: CutLink)
        ensures
            res@ == premise@,
    {
        CutLink { premise }
    }
}

impl From<CutLink> for ProofLink {
    fn from(cut: CutLink) -> (res: ProofLink) {
        ProofLink::CutLink(cut)
    }
}

impl vstd::std_specs::convert::FromSpecImpl<CutLink> for ProofLink {
    open spec fn obeys_from_spec() -> bool {
        true
    }

    open spec fn from_spec(cut: CutLink) -> ProofLink {
        ProofLink::CutLink(cut)
    }
}

impl From<Formula> for CutLink {
    fn from(premise: Formula) -> (res: CutLink)
        ensures
            res@ == premise@,
    {
        CutLink { premise }
    }
}

impl vstd::std_specs::convert::FromSpecImpl<Formula> for CutLink {
    open spec fn obeys_from_spec() -> bool {
        true
    }

    closed spec fn from_spec(premise: Formula) -> CutLink {
        CutLink { premise }
    }
}

impl AttachToNet for CutLink {
    open spec fn new_vertices(&self, ctx: ContextView) -> nat {
        vertices_between(ctx)
    }

    open spec fn attached(&self, net: NetView, ctx: ContextView) -> Result<NetView, ErrorView> {
        attach_cut(self@, net, ctx)
    }

    open spec fn remains(&self, net: NetView, ctx: ContextView) -> NetView {
        cut_remains(self@, net, ctx)
    }

    fn attach(self, net: &mut ProofStructure, ctx: AttachContext) -> (res: Result<(), Error>) {
        let left = match ctx.prev_left {
            Some(v) => v,
            None => {
                return Err(Error::MissingPremise);
            },
        };
        let right = match ctx.prev_right {
            Some(v) => v,
            None => {
                return Err(Error::MissingPremise);
            },
        };
        proof {
            use_type_invariant(&*net);
            net@.lemma_add_fresh(RuleLabel::Cut);
        }
        let label = net.fresh_label(RuleLabel::Cut);
        let new_vert = match net.add_vertex(label) {
            Ok(v) => v,
            Err(e) => {
                return Err(e);
            },
        };
        let dual = self.premise.clone().neg();
        match net.add_edge(&left.label, &new_vert.label, dual) {
            Ok(_) => {},
            Err(e) => {
                return Err(e);
            },
        }
        match net.add_edge(&right.label, &new_vert.label, self.premise) {
            Ok(_) => {},
            Err(e) => {
                return Err(e);
            },
        }
        Ok(())
    }
}

} // verus!
