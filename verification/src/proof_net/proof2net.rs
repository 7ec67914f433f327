use crate::mll::deduction::{Deduction, RuleKind};
use crate::mll::formula::FormulaView;
use crate::mll::proof_tree::{sizes, Proof, ProofView};
use crate::mll::sequent::formulas_view;
use crate::proof_net::directed_multigraph::DirectedMultiGraph;
use crate::proof_net::errors::{Error, ErrorView};
use crate::proof_net::links::ax::{attach_axiom, lemma_attach_axiom};
use crate::proof_net::links::cut::{attach_cut, lemma_attach_cut};
use crate::proof_net::links::par::{attach_par, lemma_attach_par};
use crate::proof_net::links::tensor::{attach_tensor, lemma_attach_tensor};
use crate::proof_net::links::{
    AttachContext, AttachToNet, AxLink, ContextView, CutLink, ParLink, TensorLink,
};
use crate::proof_net::net_view::{LabelView, NetView};
use crate::proof_net::proof_structure::{ProofStructure, RuleLabel};
use vstd::prelude::*;

verus! {

/// The context of a link between two conclusions of `net`: the conclusion
/// vertices that the wires for `left` and `right` end in, as far as the net
/// has them, and `next` as the vertex that the link ends in.
pub open spec fn between(
    net: NetView,
    left: FormulaView,
    right: FormulaView,
    next: Option<LabelView>,
) -> ContextView {
    ContextView {
        prev_left: net.find_conclusion(left),
        prev_right: net.find_conclusion(right),
        next_left: next,
        next_right: None,
    }
}

/// The net of a derivation whose last rule joins the nets `left` and `right`
/// of its two premises.
pub open spec fn join(kind: RuleKind, active: Seq<FormulaView>, left: NetView, right: NetView)
    -> Result<NetView, ErrorView> {
    let merged = left.disjoint_union(right);
    if active.len() < 2 {
        Err(ErrorView::MissingPremise)
    } else if kind == RuleKind::Cut {
        attach_cut(active[0], merged, between(merged, active[0], active[1], None))
    } else {
        let conclusion = merged.fresh(RuleLabel::C);
        let ctx = between(merged, active[0], active[1], Some(conclusion));
        if kind == RuleKind::Tensor {
            attach_tensor(active[0], active[1], merged.add_vertex(conclusion), ctx)
        } else {
            attach_par(active[0], active[1], merged.add_vertex(conclusion), ctx)
        }
    }
}

/// The net of a derivation, or the reason why it has none.
///
/// An axiom becomes an axiom link on its formula between two new
/// conclusions: its formula is the second of its active formulas, after the
/// dual. A cut, a
/// tensor and a par take two premises: their nets are put side by side, the
/// conclusions that carry the two active formulas are looked up, and the link
/// is attached to them; a tensor and a par end in a new conclusion. An
/// exchange takes one premise and has the net of that premise.
pub open spec fn net_of(p: ProofView) -> Result<NetView, ErrorView>
    decreases p,
{
    match p.rule.kind {
        RuleKind::Ax => if p.rule.active.len() < 2 {
            Err(ErrorView::MissingConclusion)
        } else {
            attach_axiom(p.rule.active[1], NetView::empty(), ContextView::empty())
        },
        RuleKind::Ex => if p.premises.len() != 1 {
            Err(ErrorView::BadProof)
        } else {
            net_of(p.premises[0])
        },
        _ => if p.premises.len() != 2 {
            Err(ErrorView::BadProof)
        } else {
            match net_of(p.premises[0]) {
                Err(e) => Err(e),
                Ok(left) => match net_of(p.premises[1]) {
                    Err(e) => Err(e),
                    Ok(right) => join(p.rule.kind, p.rule.active, left, right),
                },
            }
        },
    }
}

/// The size of a row of one or two derivations is the sum of their sizes.
pub proof fn lemma_sizes(ps: Seq<ProofView>)
    ensures
        ps.len() == 1 ==> sizes(ps) == ps[0].size(),
        ps.len() == 2 ==> sizes(ps) == ps[0].size() + ps[1].size(),
{
    reveal_with_fuel(sizes, 3);
    if ps.len() == 2 {
        assert(ps.drop_last().last() == ps[0]);
    }
}

/// Builds the net of a derivation.
pub fn build_net(tree: &Proof) -> (res: Result<ProofStructure, Error>)
    requires
        3 * tree@.size() <= i32::MAX,
    ensures
        match res {
            Ok(net) => net_of(tree@) == Ok::<NetView, ErrorView>(net@) && net@.max_id() <= 3
                * tree@.size(),
            Err(e) => net_of(tree@) == Err::<NetView, ErrorView>(e@),
        },
    decreases tree@.size(),
{
    let rule = tree.conclusion();
    let kind = rule.kind();
    let premises = tree.premises();
    proof {
        lemma_sizes(tree@.premises);
        assert(premises.len() == tree@.premises.len());
    }
    match kind {
        RuleKind::Ax => {
            let active = rule.get_active();
            if active.len() < 2 {
                return Err(Error::MissingConclusion);
            }
            assert(formulas_view(active@)[1] == active@[1]@);
            let form = active[1].clone();
            let mut net = ProofStructure::new();
            let context = AttachContext::default();
            proof {
                lemma_attach_axiom(form@, NetView::empty(), ContextView::empty());
            }
            match AxLink::new(form).attach(&mut net, context) {
                Ok(()) => Ok(net),
                Err(e) => Err(e),
            }
        },
        RuleKind::Ex => {
            if premises.len() != 1 {
                return Err(Error::BadProof);
            }
            assert(tree@.premises[0] == premises@[0]@);
            build_net(&premises[0])
        },
        _ => {
            if premises.len() != 2 {
                return Err(Error::BadProof);
            }
            assert(tree@.premises[0] == premises@[0]@);
            assert(tree@.premises[1] == premises@[1]@);
            let mut new_net = match build_net(&premises[0]) {
                Ok(net) => net,
                Err(e) => {
                    return Err(e);
                },
            };
            let proof_right = match build_net(&premises[1]) {
                Ok(net) => net,
                Err(e) => {
                    return Err(e);
                },
            };
            proof {
                use_type_invariant(&new_net);
                use_type_invariant(&proof_right);
                new_net@.lemma_disjoint_union(proof_right@);
            }
            let _ = new_net.disjoint_union(proof_right);
            let active = rule.get_active();
            if active.len() < 2 {
                return Err(Error::MissingPremise);
            }
            assert(formulas_view(active@)[0] == active@[0]@);
            assert(formulas_view(active@)[1] == active@[1]@);
            let active_left = active[0].clone();
            let active_right = active[1].clone();
            let prev_left = new_net.find_conclusion(&active_left);
            let prev_right = new_net.find_conclusion(&active_right);
            let ghost merged = new_net@;
            match kind {
                RuleKind::Cut => {
                    let context = AttachContext {
                        prev_left: prev_left.as_ref(),
                        prev_right: prev_right.as_ref(),
                        next_left: None,
                        next_right: None,
                    };
                    proof {
                        assert(context@ == between(merged, active_left@, active_right@, None));
                        lemma_attach_cut(active_left@, merged, context@);
                    }
                    match CutLink::new(active_left).attach(&mut new_net, context) {
                        Ok(()) => Ok(new_net),
                        Err(e) => Err(e),
                    }
                },
                _ => {
                    proof {
                        merged.lemma_add_fresh(RuleLabel::C);
                    }
                    let label = new_net.fresh_label(RuleLabel::C);
                    let conc_vert = match new_net.add_vertex(label) {
                        Ok(v) => v,
                        Err(e) => {
                            return Err(e);
                        },
                    };
                    let context = AttachContext {
                        prev_left: prev_left.as_ref(),
                        prev_right: prev_right.as_ref(),
                        next_left: Some(&conc_vert),
                        next_right: None,
                    };
                    proof {
                        assert(context@ == between(
                            merged,
                            active_left@,
                            active_right@,
                            Some(merged.fresh(RuleLabel::C)),
                        ));
                        lemma_attach_tensor(active_left@, active_right@, new_net@, context@);
                        lemma_attach_par(active_left@, active_right@, new_net@, context@);
                    }
                    let attached = match kind {
                        RuleKind::Tensor => TensorLink::new(active_left, active_right).attach(
                            &mut new_net,
                            context,
                        ),
                        _ => ParLink::new(active_left, active_right).attach(&mut new_net, context),
                    };
                    match attached {
                        Ok(()) => Ok(new_net),
                        Err(e) => Err(e),
                    }
                },
            }
        },
    }
}

/// Builds the net of a derivation, unless the derivation is too large for
/// the numbers of its vertices.
pub fn try_build_net(tree: &Proof) -> (res: Option<Result<ProofStructure, Error>>)
    ensures
        match res {
            None => 3 * tree@.size() > i32::MAX,
            Some(Ok(net)) => net_of(tree@) == Ok::<NetView, ErrorView>(net@),
            Some(Err(e)) => net_of(tree@) == Err::<NetView, ErrorView>(e@),
        },
{
    match tree.node_count() {
        Some(n) => if n <= 715827882 {
            Some(build_net(tree))
        } else {
            None
        },
        None => None,
    }
}

} // verus!
