use crate::mll::formula::{Formula, FormulaView};
use crate::proof_net::directed_multigraph::DirectedMultiGraph;
use crate::proof_net::errors::{Error, ErrorView};
use crate::proof_net::links::{AttachContext, AttachToNet, ContextView, ProofLink};
use crate::proof_net::net_view::NetView;
use crate::proof_net::proof_structure::{ProofStructure, RuleLabel};
use vstd::prelude::*;

verus! {

/// A conclusion of a net: the end of a wire that nothing consumes.
pub struct ConclusionLink {
    conclusion: Formula,
}

impl View for ConclusionLink {
    type V = FormulaView;

    closed spec fn view(&self) -> FormulaView {
        self.conclusion@
    }
}

/// The net `net` with a conclusion `f` attached under `ctx`: a new conclusion
/// vertex with an edge from `prev_left` that carries `f`.
pub open spec fn attach_conclusion(f: FormulaView, net: NetView, ctx: ContextView) -> Result<
    NetView,
    ErrorView,
> {
    if ctx.prev_left is None {
        Err(ErrorView::MissingPremise)
    } else {
        let prev = ctx.prev_left->0;
        let new = net.fresh(RuleLabel::C);
        let with_new = net.add_vertex(new);
        if !with_new.has_vertex(prev) {
            Err(ErrorView::VertexNotFound(prev))
        } else {
            Ok(with_new.add_edge(prev, new, f))
        }
    }
}

/// A link that was attached added one vertex and 1 edge to a well-formed net,
/// and left it well formed.
pub proof fn lemma_attach_conclusion(f: FormulaView, net: NetView, ctx: ContextView)
    requires
        net.wf(),
        net.max_id() < i32::MAX,
    ensures
        attach_conclusion(f, net, ctx) matches Ok(n) ==> {
            &&& n.wf()
            &&& n.max_id() == net.max_id() + 1
            &&& n.vertices == net.vertices.push(net.fresh(RuleLabel::C))
            &&& n.edges.len() == net.edges.len() + 1
        },
{
    net.lemma_add_fresh(RuleLabel::C);
}

/// The net that is left where a conclusion cannot be attached to `net`
/// under `ctx`: `net` itself where the context names no `prev_left`, and else
/// `net` with the new conclusion vertex.
pub open spec fn conclusion_remains(net: NetView, ctx: ContextView) -> NetView {
    if ctx.prev_left is None {
        net
    } else {
        net.add_vertex(net.fresh(RuleLabel::C))
    }
}

/// How many vertices a conclusion adds under `ctx`: one, and none where the
/// context names no `prev_left`.
pub open spec fn conclusion_vertices(ctx: ContextView) -> nat {
    if ctx.prev_left is None {
        0
    } else {
        1
    }
}

impl ConclusionLink {
    /// The conclusion link for `conclusion`.
    pub fn new(conclusion: Formula) -> (res: ConclusionLink)
        ensures
            res@ == conclusion@,
    {
        ConclusionLink { conclusion }
    }
}

impl From<ConclusionLink> for ProofLink {
    fn from(conc: ConclusionLink) -> (res: ProofLink) {
        ProofLink::ConclusionLink(conc)
    }
}

impl vstd::std_specs::convert::FromSpecImpl<ConclusionLink> for ProofLink {
    open spec fn obeys_from_spec() -> bool {
        true
    }

    open spec fn from_spec(conc: ConclusionLink) -> ProofLink {
        ProofLink::ConclusionLink(conc)
    }
}

impl AttachToNet for ConclusionLink {
    open spec fn new_vertices(&self, ctx: ContextView) -> nat {
        conclusion_vertices(ctx)
    }

    open spec fn attached(&self, net: NetView, ctx: ContextView) -> Result<NetView, ErrorView> {
        attach_conclusion(self@, net, ctx)
    }

    open spec fn remains(&self, net: NetView, ctx: ContextView) -> NetView {
        conclusion_remains(net, ctx)
    }

    fn attach(self, net: &mut ProofStructure, ctx: AttachContext) -> (res: Result<(), Error>) {
        let prev = match ctx.prev_left {
            Some(v) => v,
            None => {
                return Err(Error::MissingPremise);
            },
        };
        proof {
            use_type_invariant(&*net);
            net@.lemma_add_fresh(RuleLabel::C);
        }
        let label = net.fresh_label(RuleLabel::C);
        let new_vert = match net.add_vertex(label) {
            Ok(v) => v,
            Err(e) => {
                return Err(e);
            },
        };
        match net.add_edge(&prev.label, &new_vert.label, self.conclusion) {
            Ok(_) => {},
            Err(e) => {
                return Err(e);
            },
        }
        Ok(())
    }
}

} // verus!
