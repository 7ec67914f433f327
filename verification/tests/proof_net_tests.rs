use linear_logic::common::definitions::{OrientedAtom, Polarity};
use linear_logic::mll::formula::Formula;
use linear_logic::proof_net::cut_reduction::{
    reduce, reduce_cut, remove_ax, remove_par_tensor, try_reduce,
};
use linear_logic::proof_net::directed_multigraph::{DirectedMultiGraph, GraphEdge, GraphVertex};
use linear_logic::proof_net::errors::Error;
use linear_logic::proof_net::links::{
    AttachContext, AttachToNet, AxLink, ConclusionLink, CutLink, ParLink, ProofLink, TensorLink,
};
use linear_logic::proof_net::proof_structure::{Edge, ProofStructure, RuleLabel, Vertex};
use std::rc::Rc;

fn pos(name: &str) -> Formula {
    Formula::Atomic(OrientedAtom { atom: name.to_owned(), pol: Polarity::Pos })
}

fn neg(name: &str) -> Formula {
    Formula::Atomic(OrientedAtom { atom: name.to_owned(), pol: Polarity::Neg })
}

fn of_kind(net: &ProofStructure, rule: RuleLabel) -> Vec<Vertex> {
    net.get_vertices().into_iter().filter(|v| v.label.kind() == rule).collect()
}

fn wire(e: &Edge) -> (RuleLabel, i32, RuleLabel, i32, Formula) {
    (e.from.label.kind(), e.from.label.id(), e.to.label.kind(), e.to.label.id(), e.label.clone())
}

fn wires(net: &ProofStructure) -> Vec<(RuleLabel, i32, RuleLabel, i32, Formula)> {
    net.get_edges().iter().map(wire).collect()
}

fn axiom_net(f: Formula) -> ProofStructure {
    let mut net = ProofStructure::new();
    AxLink::new(f).attach(&mut net, AttachContext::default()).unwrap();
    net
}

fn axiom_cut_net(f: Formula) -> ProofStructure {
    let mut net = ProofStructure::new();
    let cut = net.add_vertex(net.fresh_label(RuleLabel::Cut)).unwrap();
    let ctx = AttachContext { prev_left: None, prev_right: None, next_left: None, next_right: Some(&cut) };
    AxLink::new(f.clone()).attach(&mut net, ctx).unwrap();
    let ctx = AttachContext { prev_left: None, prev_right: None, next_left: None, next_right: Some(&cut) };
    AxLink::new(f.neg()).attach(&mut net, ctx).unwrap();
    net
}

fn tensor_par_net(f: Formula, g: Formula) -> ProofStructure {
    let mut net = ProofStructure::new();
    let cut = net.add_vertex(net.fresh_label(RuleLabel::Cut)).unwrap();
    AxLink::new(f.clone()).attach(&mut net, AttachContext::default()).unwrap();
    AxLink::new(g.clone()).attach(&mut net, AttachContext::default()).unwrap();
    let axioms = of_kind(&net, RuleLabel::Ax);
    let ctx = AttachContext {
        prev_left: Some(&axioms[0]),
        prev_right: Some(&axioms[1]),
        next_left: Some(&cut),
        next_right: None,
    };
    TensorLink::new(f.clone(), g.clone()).attach(&mut net, ctx).unwrap();
    let ctx = AttachContext {
        prev_left: Some(&axioms[0]),
        prev_right: Some(&axioms[1]),
        next_left: Some(&cut),
        next_right: None,
    };
    ParLink::new(f.neg(), g.neg()).attach(&mut net, ctx).unwrap();
    net
}

#[test]
fn new_net_is_empty() {
    let net = ProofStructure::new();
    assert_eq!(net.vertex_count(), 0);
    assert_eq!(net.edge_count(), 0);
    assert!(net.get_vertices().is_empty());
    assert!(net.get_edges().is_empty());
    assert!(net.get_cuts().is_empty());
    let other = ProofStructure::default();
    assert_eq!(other.vertex_count(), 0);
}

#[test]
fn fresh_labels_count_up_from_one() {
    let mut net = ProofStructure::new();
    let first = net.fresh_label(RuleLabel::Tensor);
    assert_eq!(first.id(), 1);
    assert_eq!(first.kind(), RuleLabel::Tensor);
    net.add_vertex(first).unwrap();
    let second = net.fresh_label(RuleLabel::Par);
    assert_eq!(second.id(), 2);
    assert_eq!(second.kind(), RuleLabel::Par);
    assert_eq!(net.fresh_label(RuleLabel::Ax).id(), 2);
}

#[test]
fn fresh_label_follows_the_greatest_number() {
    let mut net = ProofStructure::new();
    let a = net.add_vertex(net.fresh_label(RuleLabel::C)).unwrap();
    let b = net.add_vertex(net.fresh_label(RuleLabel::C)).unwrap();
    let c = net.add_vertex(net.fresh_label(RuleLabel::C)).unwrap();
    assert_eq!((a.label.id(), b.label.id(), c.label.id()), (1, 2, 3));
    net.remove_vertex(&b.label).unwrap();
    assert_eq!(net.fresh_label(RuleLabel::C).id(), 4);
    net.remove_vertex(&c.label).unwrap();
    assert_eq!(net.fresh_label(RuleLabel::C).id(), 2);
}

#[test]
fn add_vertex_refuses_a_label_twice() {
    let mut net = ProofStructure::new();
    let label = net.fresh_label(RuleLabel::Ax);
    let v = net.add_vertex(label).unwrap();
    assert_eq!(v.label, label);
    assert_eq!(v.get_label(), label);
    match net.add_vertex(label) {
        Err(Error::VertexAlreadyExists(l)) => assert_eq!(l, label),
        _ => panic!("the label is in the net already"),
    }
    assert_eq!(net.vertex_count(), 1);
}

#[test]
fn find_vertex_by_label() {
    let mut net = ProofStructure::new();
    let label = net.fresh_label(RuleLabel::Ax);
    assert!(net.find_vertex(&label).is_none());
    net.add_vertex(label).unwrap();
    assert_eq!(net.find_vertex(&label), Some(Vertex { label }));
    let other = net.fresh_label(RuleLabel::Ax);
    assert!(net.find_vertex(&other).is_none());
}

#[test]
fn add_edge_needs_both_ends() {
    let mut net = ProofStructure::new();
    let a = net.fresh_label(RuleLabel::Ax);
    net.add_vertex(a).unwrap();
    let b = net.fresh_label(RuleLabel::C);
    match net.add_edge(&a, &b, pos("A")) {
        Err(Error::VertexNotFound(l)) => assert_eq!(l, b),
        _ => panic!("the end of the edge is missing"),
    }
    match net.add_edge(&b, &a, pos("A")) {
        Err(Error::VertexNotFound(l)) => assert_eq!(l, b),
        _ => panic!("the start of the edge is missing"),
    }
    assert_eq!(net.edge_count(), 0);
    net.add_vertex(b).unwrap();
    let e = net.add_edge(&a, &b, pos("A")).unwrap();
    assert_eq!(e.from.label, a);
    assert_eq!(e.to.label, b);
    assert_eq!(e.label, pos("A"));
    assert_eq!(GraphEdge::from(&e).label, a);
    assert_eq!(e.to().label, b);
    assert_eq!(e.get_label(), pos("A"));
    assert_eq!(net.edge_count(), 1);
}

#[test]
fn several_edges_between_two_vertices() {
    let mut net = ProofStructure::new();
    let a = net.add_vertex(net.fresh_label(RuleLabel::Ax)).unwrap().label;
    let b = net.add_vertex(net.fresh_label(RuleLabel::C)).unwrap().label;
    net.add_edge(&a, &b, pos("A")).unwrap();
    net.add_edge(&a, &b, pos("A")).unwrap();
    net.add_edge(&b, &a, neg("A")).unwrap();
    assert_eq!(net.edge_count(), 3);
    assert_eq!(net.get_outgoing(&a).unwrap().len(), 2);
    assert_eq!(net.get_incoming(&a).unwrap().len(), 1);
    assert_eq!(net.get_incoming(&b).unwrap().len(), 2);
    assert_eq!(net.get_outgoing(&b).unwrap().len(), 1);
}

#[test]
fn incoming_and_outgoing_need_the_vertex() {
    let net = ProofStructure::new();
    let label = net.fresh_label(RuleLabel::Cut);
    assert!(matches!(net.get_incoming(&label), Err(Error::VertexNotFound(l)) if l == label));
    assert!(matches!(net.get_outgoing(&label), Err(Error::VertexNotFound(l)) if l == label));
}

#[test]
fn find_and_remove_edge_by_formula() {
    let mut net = axiom_net(pos("A"));
    let found = net.find_edge(&neg("A")).unwrap();
    assert_eq!(found.label, neg("A"));
    assert_eq!(found.to.label.id(), 2);
    assert!(net.find_edge(&pos("B")).is_none());
    net.remove_edge(&pos("A")).unwrap();
    assert_eq!(net.edge_count(), 1);
    assert_eq!(net.get_edges()[0].label, neg("A"));
    match net.remove_edge(&pos("A")) {
        Err(Error::EdgeNotFound(f)) => assert_eq!(f, pos("A")),
        _ => panic!("the edge was removed before"),
    }
    assert_eq!(net.edge_count(), 1);
    assert_eq!(net.vertex_count(), 3);
}

#[test]
fn remove_edge_takes_the_first_of_equal_edges() {
    let mut net = ProofStructure::new();
    let a = net.add_vertex(net.fresh_label(RuleLabel::Ax)).unwrap().label;
    let b = net.add_vertex(net.fresh_label(RuleLabel::C)).unwrap().label;
    let c = net.add_vertex(net.fresh_label(RuleLabel::C)).unwrap().label;
    net.add_edge(&a, &b, pos("A")).unwrap();
    net.add_edge(&a, &c, pos("A")).unwrap();
    net.remove_edge(&pos("A")).unwrap();
    let left = net.get_edges();
    assert_eq!(left.len(), 1);
    assert_eq!(left[0].to.label, c);
}

#[test]
fn remove_vertex_takes_its_edges_along() {
    let mut net = axiom_cut_net(pos("A"));
    assert_eq!(net.vertex_count(), 5);
    assert_eq!(net.edge_count(), 4);
    let cut = net.get_cuts()[0];
    let touching = net.get_incoming(&cut.label).unwrap().len()
        + net.get_outgoing(&cut.label).unwrap().len();
    assert_eq!(touching, 2);
    net.remove_vertex(&cut.label).unwrap();
    assert_eq!(net.vertex_count(), 4);
    assert_eq!(net.edge_count(), 4 - touching);
    assert!(net.find_vertex(&cut.label).is_none());
    assert!(net.get_edges().iter().all(|e| e.from != cut && e.to != cut));
    assert_eq!(
        wires(&net),
        vec![
            (RuleLabel::Ax, 3, RuleLabel::C, 2, pos("A")),
            (RuleLabel::Ax, 5, RuleLabel::C, 4, neg("A")),
        ]
    );
    match net.remove_vertex(&cut.label) {
        Err(Error::VertexNotFound(l)) => assert_eq!(l, cut.label),
        _ => panic!("the vertex was removed before"),
    }
    assert_eq!(net.vertex_count(), 4);
    assert_eq!(net.edge_count(), 2);
}

#[test]
fn remove_vertex_without_edges() {
    let mut net = ProofStructure::new();
    let a = net.add_vertex(net.fresh_label(RuleLabel::C)).unwrap().label;
    let b = net.add_vertex(net.fresh_label(RuleLabel::C)).unwrap().label;
    net.remove_vertex(&a).unwrap();
    assert_eq!(net.get_vertices(), vec![Vertex { label: b }]);
}

#[test]
fn disjoint_union_keeps_everything_apart() {
    let mut left = axiom_net(pos("A"));
    let right = axiom_net(pos("B"));
    left.disjoint_union(right).unwrap();
    assert_eq!(left.vertex_count(), 3 + 3);
    assert_eq!(left.edge_count(), 2 + 2);
    let ids: Vec<i32> = left.get_vertices().iter().map(|v| v.label.id()).collect();
    assert_eq!(ids, vec![1, 2, 3, 5, 6, 7]);
    let kinds: Vec<RuleLabel> = left.get_vertices().iter().map(|v| v.label.kind()).collect();
    assert_eq!(
        kinds,
        vec![RuleLabel::C, RuleLabel::C, RuleLabel::Ax, RuleLabel::C, RuleLabel::C, RuleLabel::Ax]
    );
    assert_eq!(
        wires(&left),
        vec![
            (RuleLabel::Ax, 3, RuleLabel::C, 1, pos("A")),
            (RuleLabel::Ax, 3, RuleLabel::C, 2, neg("A")),
            (RuleLabel::Ax, 7, RuleLabel::C, 5, pos("B")),
            (RuleLabel::Ax, 7, RuleLabel::C, 6, neg("B")),
        ]
    );
}

#[test]
fn disjoint_union_with_empty_nets() {
    let mut net = ProofStructure::new();
    net.disjoint_union(axiom_net(pos("A"))).unwrap();
    let ids: Vec<i32> = net.get_vertices().iter().map(|v| v.label.id()).collect();
    assert_eq!(ids, vec![2, 3, 4]);
    assert_eq!(net.edge_count(), 2);
    net.disjoint_union(ProofStructure::new()).unwrap();
    assert_eq!(net.vertex_count(), 3);
    assert_eq!(net.edge_count(), 2);
}

#[test]
fn axiom_link_makes_its_conclusions() {
    let f = pos("A");
    let net = axiom_net(f.clone());
    assert_eq!(of_kind(&net, RuleLabel::Ax).len(), 1);
    assert_eq!(of_kind(&net, RuleLabel::C).len(), 2);
    assert_eq!(net.vertex_count(), 3);
    assert_eq!(
        wires(&net),
        vec![
            (RuleLabel::Ax, 3, RuleLabel::C, 1, f.clone()),
            (RuleLabel::Ax, 3, RuleLabel::C, 2, f.clone().neg()),
        ]
    );
    let found = net.find_conclusion(&f).unwrap();
    assert_eq!(found.label.kind(), RuleLabel::C);
    assert_eq!(found.label.id(), 1);
    let dual = net.find_conclusion(&f.neg()).unwrap();
    assert_eq!(dual.label.id(), 2);
    assert!(net.find_conclusion(&pos("B")).is_none());
}

#[test]
fn axiom_link_uses_given_conclusions() {
    let mut net = ProofStructure::new();
    let left = net.add_vertex(net.fresh_label(RuleLabel::Tensor)).unwrap();
    let right = net.add_vertex(net.fresh_label(RuleLabel::Par)).unwrap();
    let ctx = AttachContext {
        prev_left: None,
        prev_right: None,
        next_left: Some(&left),
        next_right: Some(&right),
    };
    AxLink::from(pos("A")).attach(&mut net, ctx).unwrap();
    assert_eq!(net.vertex_count(), 3);
    assert_eq!(
        wires(&net),
        vec![
            (RuleLabel::Ax, 3, RuleLabel::Tensor, 1, pos("A")),
            (RuleLabel::Ax, 3, RuleLabel::Par, 2, neg("A")),
        ]
    );
    assert!(net.find_conclusion(&pos("A")).is_none());
}

#[test]
fn axiom_link_fails_on_an_unknown_conclusion() {
    let other = axiom_net(pos("B"));
    let stranger = of_kind(&other, RuleLabel::Ax)[0];
    let mut net = ProofStructure::new();
    let ctx = AttachContext {
        prev_left: None,
        prev_right: None,
        next_left: None,
        next_right: Some(&stranger),
    };
    match AxLink::new(pos("A")).attach(&mut net, ctx) {
        Err(Error::VertexNotFound(l)) => assert_eq!(l, stranger.label),
        _ => panic!("the conclusion is not in the net"),
    }
    let kinds: Vec<(RuleLabel, i32)> =
        net.get_vertices().iter().map(|v| (v.label.kind(), v.label.id())).collect();
    assert_eq!(kinds, vec![(RuleLabel::C, 1), (RuleLabel::Ax, 2)]);
    assert_eq!(wires(&net), vec![(RuleLabel::Ax, 2, RuleLabel::C, 1, pos("A"))]);
}

#[test]
fn cut_link_needs_both_premises() {
    let mut net = axiom_net(pos("A"));
    let left = net.find_conclusion(&pos("A")).unwrap();
    let ctx = AttachContext {
        prev_left: Some(&left),
        prev_right: None,
        next_left: None,
        next_right: None,
    };
    assert!(matches!(CutLink::new(pos("A")).attach(&mut net, ctx), Err(Error::MissingPremise)));
    let ctx = AttachContext {
        prev_left: None,
        prev_right: Some(&left),
        next_left: None,
        next_right: None,
    };
    assert!(matches!(CutLink::new(pos("A")).attach(&mut net, ctx), Err(Error::MissingPremise)));
    assert!(matches!(
        CutLink::from(pos("A")).attach(&mut net, AttachContext::default()),
        Err(Error::MissingPremise)
    ));
    assert_eq!(net.vertex_count(), 3);
    assert_eq!(net.edge_count(), 2);
}

#[test]
fn cut_link_draws_the_dual_from_the_left() {
    let mut net = axiom_net(pos("A"));
    let left = net.find_conclusion(&neg("A")).unwrap();
    let right = net.find_conclusion(&pos("A")).unwrap();
    let ctx = AttachContext {
        prev_left: Some(&left),
        prev_right: Some(&right),
        next_left: None,
        next_right: None,
    };
    CutLink::new(pos("A")).attach(&mut net, ctx).unwrap();
    let cuts = net.get_cuts();
    assert_eq!(cuts.len(), 1);
    assert_eq!(cuts[0].label.id(), 4);
    let incoming: Vec<_> = net.get_incoming(&cuts[0].label).unwrap().iter().map(wire).collect();
    assert_eq!(
        incoming,
        vec![
            (RuleLabel::C, 2, RuleLabel::Cut, 4, neg("A")),
            (RuleLabel::C, 1, RuleLabel::Cut, 4, pos("A")),
        ]
    );
}

#[test]
fn tensor_link_needs_premises_and_conclusion() {
    let mut net = axiom_net(pos("A"));
    let a = net.find_conclusion(&pos("A")).unwrap();
    let b = net.find_conclusion(&neg("A")).unwrap();
    let ctx = AttachContext { prev_left: None, prev_right: Some(&b), next_left: Some(&a), next_right: None };
    assert!(matches!(
        TensorLink::new(pos("A"), neg("A")).attach(&mut net, ctx),
        Err(Error::MissingPremise)
    ));
    let ctx = AttachContext { prev_left: Some(&a), prev_right: None, next_left: Some(&a), next_right: None };
    assert!(matches!(
        TensorLink::new(pos("A"), neg("A")).attach(&mut net, ctx),
        Err(Error::MissingPremise)
    ));
    let ctx = AttachContext { prev_left: Some(&a), prev_right: Some(&b), next_left: None, next_right: None };
    assert!(matches!(
        TensorLink::new(pos("A"), neg("A")).attach(&mut net, ctx),
        Err(Error::MissingConclusion)
    ));
    let ctx = AttachContext { prev_left: Some(&a), prev_right: Some(&b), next_left: None, next_right: None };
    assert!(matches!(
        ParLink::new(pos("A"), neg("A")).attach(&mut net, ctx),
        Err(Error::MissingConclusion)
    ));
    let ctx = AttachContext { prev_left: None, prev_right: None, next_left: Some(&a), next_right: None };
    assert!(matches!(
        ParLink::new(pos("A"), neg("A")).attach(&mut net, ctx),
        Err(Error::MissingPremise)
    ));
    assert_eq!(net.vertex_count(), 3);
}

#[test]
fn tensor_and_par_links_draw_three_edges() {
    let mut net = axiom_net(pos("A"));
    let a = net.find_conclusion(&pos("A")).unwrap();
    let b = net.find_conclusion(&neg("A")).unwrap();
    let end = net.add_vertex(net.fresh_label(RuleLabel::C)).unwrap();
    let ctx = AttachContext { prev_left: Some(&a), prev_right: Some(&b), next_left: Some(&end), next_right: None };
    TensorLink::new(pos("A"), neg("A")).attach(&mut net, ctx).unwrap();
    let tensor = of_kind(&net, RuleLabel::Tensor)[0];
    assert_eq!(tensor.label.id(), 5);
    let all = wires(&net);
    assert_eq!(
        all[2..].to_vec(),
        vec![
            (RuleLabel::C, 1, RuleLabel::Tensor, 5, pos("A")),
            (RuleLabel::C, 2, RuleLabel::Tensor, 5, neg("A")),
            (
                RuleLabel::Tensor,
                5,
                RuleLabel::C,
                4,
                Formula::Tensor(Rc::new(pos("A")), Rc::new(neg("A")))
            ),
        ]
    );
    let ctx = AttachContext { prev_left: Some(&a), prev_right: Some(&b), next_left: Some(&end), next_right: None };
    ParLink::new(pos("A"), neg("A")).attach(&mut net, ctx).unwrap();
    let all = wires(&net);
    assert_eq!(
        all[5..].to_vec(),
        vec![
            (RuleLabel::C, 1, RuleLabel::Par, 6, pos("A")),
            (RuleLabel::C, 2, RuleLabel::Par, 6, neg("A")),
            (
                RuleLabel::Par,
                6,
                RuleLabel::C,
                4,
                Formula::Par(Rc::new(pos("A")), Rc::new(neg("A")))
            ),
        ]
    );
}

#[test]
fn conclusion_link_needs_a_premise() {
    let mut net = axiom_net(pos("A"));
    assert!(matches!(
        ConclusionLink::new(pos("A")).attach(&mut net, AttachContext::default()),
        Err(Error::MissingPremise)
    ));
    assert_eq!(net.vertex_count(), 3);
    assert_eq!(net.edge_count(), 2);
    let ax = of_kind(&net, RuleLabel::Ax)[0];
    let before = net.vertex_count();
    let ctx = AttachContext { prev_left: Some(&ax), prev_right: None, next_left: None, next_right: None };
    ConclusionLink::new(pos("B")).attach(&mut net, ctx).unwrap();
    assert_eq!(net.vertex_count(), before + 1);
    let found = net.find_conclusion(&pos("B")).unwrap();
    assert_eq!(net.get_incoming(&found.label).unwrap().len(), 1);
}

#[test]
fn links_become_proof_links() {
    assert!(matches!(ProofLink::from(AxLink::new(pos("A"))), ProofLink::AxLink(_)));
    assert!(matches!(ProofLink::from(CutLink::new(pos("A"))), ProofLink::CutLink(_)));
    assert!(matches!(
        ProofLink::from(TensorLink::new(pos("A"), pos("B"))),
        ProofLink::TensorLink(_)
    ));
    assert!(matches!(ProofLink::from(ParLink::new(pos("A"), pos("B"))), ProofLink::ParLink(_)));
    assert!(matches!(
        ProofLink::from(ConclusionLink::new(pos("A"))),
        ProofLink::ConclusionLink(_)
    ));
}

#[test]
fn find_conclusion_takes_the_first_match() {
    let mut net = axiom_net(pos("A"));
    net.disjoint_union(axiom_net(pos("A"))).unwrap();
    let found = net.find_conclusion(&pos("A")).unwrap();
    assert_eq!(found.label.id(), 1);
}

#[test]
fn get_cuts_lists_cut_vertices_in_order() {
    let mut net = ProofStructure::new();
    let a = net.add_vertex(net.fresh_label(RuleLabel::Cut)).unwrap();
    net.add_vertex(net.fresh_label(RuleLabel::Ax)).unwrap();
    let b = net.add_vertex(net.fresh_label(RuleLabel::Cut)).unwrap();
    assert_eq!(net.get_cuts(), vec![a, b]);
}

#[test]
fn axiom_cut_is_eliminated() {
    let f = pos("A");
    let mut net = axiom_cut_net(f.clone());
    assert_eq!(net.get_cuts().len(), 1);
    assert_eq!(of_kind(&net, RuleLabel::Ax).len(), 2);
    reduce(&mut net).unwrap();
    assert_eq!(net.get_cuts().len(), 0);
    let axioms = of_kind(&net, RuleLabel::Ax);
    assert_eq!(axioms.len(), 1);
    assert_eq!(axioms[0].label.id(), 5);
    assert_eq!(net.vertex_count(), 3);
    assert_eq!(
        wires(&net),
        vec![
            (RuleLabel::Ax, 5, RuleLabel::C, 4, f.clone().neg()),
            (RuleLabel::Ax, 5, RuleLabel::C, 2, f.clone()),
        ]
    );
    assert_eq!(net.find_conclusion(&f).unwrap().label.id(), 2);
    assert_eq!(net.find_conclusion(&f.neg()).unwrap().label.id(), 4);
}

#[test]
fn axiom_cut_is_eliminated_for_a_compound_formula() {
    let f = Formula::Tensor(Rc::new(pos("A")), Rc::new(Formula::Bang(Rc::new(neg("B")))));
    let mut net = axiom_cut_net(f.clone());
    reduce(&mut net).unwrap();
    assert_eq!(net.get_cuts().len(), 0);
    assert_eq!(of_kind(&net, RuleLabel::Ax).len(), 1);
    let labels: Vec<Formula> = net.get_edges().iter().map(|e| e.label.clone()).collect();
    assert_eq!(labels, vec![f.clone().neg(), f]);
}

#[test]
fn axiom_on_the_right_of_a_cut_is_eliminated() {
    let mut net = ProofStructure::new();
    let cut = net.add_vertex(net.fresh_label(RuleLabel::Cut)).unwrap();
    let start = net.add_vertex(net.fresh_label(RuleLabel::Tensor)).unwrap();
    net.add_edge(&start.label, &cut.label, neg("A")).unwrap();
    let ctx = AttachContext { prev_left: None, prev_right: None, next_left: None, next_right: Some(&cut) };
    AxLink::new(neg("A")).attach(&mut net, ctx).unwrap();
    reduce_cut(&mut net, cut).unwrap();
    assert_eq!(net.get_cuts().len(), 0);
    assert_eq!(of_kind(&net, RuleLabel::Ax).len(), 0);
    assert_eq!(wires(&net), vec![(RuleLabel::Tensor, 2, RuleLabel::C, 3, neg("A"))]);
}

#[test]
fn tensor_par_cut_becomes_two_cuts() {
    let f = pos("A");
    let g = pos("B");
    let mut net = tensor_par_net(f.clone(), g.clone());
    assert_eq!(net.vertex_count(), 9);
    let cut = net.get_cuts()[0];
    let axioms = of_kind(&net, RuleLabel::Ax);
    reduce_cut(&mut net, cut).unwrap();
    assert_eq!(of_kind(&net, RuleLabel::Tensor).len(), 0);
    assert_eq!(of_kind(&net, RuleLabel::Par).len(), 0);
    assert!(net.find_vertex(&cut.label).is_none());
    assert_eq!(net.vertex_count(), 8);
    let cuts = net.get_cuts();
    assert_eq!(cuts.len(), 2);
    assert_ne!(cuts[0], cuts[1]);
    let first: Vec<_> = net.get_incoming(&cuts[0].label).unwrap().iter().map(wire).collect();
    let c1 = cuts[0].label.id();
    let c2 = cuts[1].label.id();
    assert_eq!(c2, c1 + 1);
    let a1 = axioms[0].label.id();
    let a2 = axioms[1].label.id();
    assert_eq!(
        first,
        vec![
            (RuleLabel::Ax, a1, RuleLabel::Cut, c1, f.clone()),
            (RuleLabel::Ax, a1, RuleLabel::Cut, c1, f.clone().neg()),
        ]
    );
    let second: Vec<_> = net.get_incoming(&cuts[1].label).unwrap().iter().map(wire).collect();
    assert_eq!(
        second,
        vec![
            (RuleLabel::Ax, a2, RuleLabel::Cut, c2, g.clone()),
            (RuleLabel::Ax, a2, RuleLabel::Cut, c2, g.clone().neg()),
        ]
    );
    assert_eq!(net.edge_count(), 4 + 4);
}

#[test]
fn tensor_par_cut_pairs_swapped_premises() {
    let f = pos("A");
    let g = pos("B");
    let mut net = ProofStructure::new();
    let cut = net.add_vertex(net.fresh_label(RuleLabel::Cut)).unwrap();
    AxLink::new(f.clone()).attach(&mut net, AttachContext::default()).unwrap();
    AxLink::new(g.clone()).attach(&mut net, AttachContext::default()).unwrap();
    let axioms = of_kind(&net, RuleLabel::Ax);
    let ctx = AttachContext {
        prev_left: Some(&axioms[1]),
        prev_right: Some(&axioms[0]),
        next_left: Some(&cut),
        next_right: None,
    };
    ParLink::new(g.clone().neg(), f.clone().neg()).attach(&mut net, ctx).unwrap();
    let ctx = AttachContext {
        prev_left: Some(&axioms[0]),
        prev_right: Some(&axioms[1]),
        next_left: Some(&cut),
        next_right: None,
    };
    TensorLink::new(f.clone(), g.clone()).attach(&mut net, ctx).unwrap();
    reduce_cut(&mut net, cut).unwrap();
    let cuts = net.get_cuts();
    assert_eq!(cuts.len(), 2);
    let first: Vec<Formula> =
        net.get_incoming(&cuts[0].label).unwrap().iter().map(|e| e.label.clone()).collect();
    assert_eq!(first, vec![f.clone(), f.neg()]);
    let second: Vec<Formula> =
        net.get_incoming(&cuts[1].label).unwrap().iter().map(|e| e.label.clone()).collect();
    assert_eq!(second, vec![g.clone(), g.neg()]);
}

#[test]
fn tensor_par_cut_without_dual_pairs_is_malformed() {
    let mut net = ProofStructure::new();
    let cut = net.add_vertex(net.fresh_label(RuleLabel::Cut)).unwrap();
    AxLink::new(pos("A")).attach(&mut net, AttachContext::default()).unwrap();
    AxLink::new(pos("B")).attach(&mut net, AttachContext::default()).unwrap();
    let axioms = of_kind(&net, RuleLabel::Ax);
    let ctx = AttachContext {
        prev_left: Some(&axioms[0]),
        prev_right: Some(&axioms[1]),
        next_left: Some(&cut),
        next_right: None,
    };
    TensorLink::new(pos("A"), pos("B")).attach(&mut net, ctx).unwrap();
    let ctx = AttachContext {
        prev_left: Some(&axioms[0]),
        prev_right: Some(&axioms[1]),
        next_left: Some(&cut),
        next_right: None,
    };
    ParLink::new(neg("A"), pos("B")).attach(&mut net, ctx).unwrap();
    let before = net.vertex_count();
    assert!(matches!(reduce_cut(&mut net, cut), Err(Error::BadProof)));
    assert_eq!(net.vertex_count(), before);
    assert!(matches!(reduce(&mut net), Err(Error::BadProof)));
}

#[test]
fn reduce_cut_checks_the_vertex() {
    let mut net = axiom_net(pos("A"));
    let ax = of_kind(&net, RuleLabel::Ax)[0];
    match reduce_cut(&mut net, ax) {
        Err(Error::WrongLabel { found, expected }) => {
            assert_eq!(found, RuleLabel::Ax);
            assert_eq!(expected, RuleLabel::Cut);
        }
        _ => panic!("the vertex is no cut"),
    }
    let cut = Vertex { label: net.fresh_label(RuleLabel::Cut) };
    assert!(matches!(reduce_cut(&mut net, cut), Err(Error::VertexNotFound(l)) if l == cut.label));
    let cut = net.add_vertex(net.fresh_label(RuleLabel::Cut)).unwrap();
    assert!(matches!(reduce_cut(&mut net, cut), Err(Error::BadProof)));
    assert!(matches!(reduce(&mut net), Err(Error::BadProof)));
}

#[test]
fn cut_between_conclusions_is_irreducible() {
    let mut net = axiom_net(pos("A"));
    let left = net.find_conclusion(&neg("A")).unwrap();
    let right = net.find_conclusion(&pos("A")).unwrap();
    let ctx = AttachContext {
        prev_left: Some(&left),
        prev_right: Some(&right),
        next_left: None,
        next_right: None,
    };
    CutLink::new(pos("A")).attach(&mut net, ctx).unwrap();
    let cut = net.get_cuts()[0];
    let before = wires(&net);
    reduce_cut(&mut net, cut).unwrap();
    assert_eq!(wires(&net), before);
    match reduce(&mut net) {
        Err(Error::Irreducible(l)) => assert_eq!(l, cut.label),
        _ => panic!("no rewrite applies to the cut"),
    }
    assert_eq!(wires(&net), before);
}

#[test]
fn reduce_leaves_a_net_without_cuts_alone() {
    let mut net = axiom_net(pos("A"));
    let before = wires(&net);
    reduce(&mut net).unwrap();
    assert_eq!(wires(&net), before);
    let mut empty = ProofStructure::new();
    reduce(&mut empty).unwrap();
    assert_eq!(empty.vertex_count(), 0);
}

#[test]
fn remove_ax_needs_another_conclusion() {
    let mut net = ProofStructure::new();
    let cut = net.add_vertex(net.fresh_label(RuleLabel::Cut)).unwrap();
    let ax = net.add_vertex(net.fresh_label(RuleLabel::Ax)).unwrap();
    net.add_edge(&ax.label, &cut.label, pos("A")).unwrap();
    net.add_edge(&ax.label, &cut.label, neg("A")).unwrap();
    assert!(matches!(reduce_cut(&mut net, cut), Err(Error::MissingConclusion)));
    let edges = net.get_edges();
    assert!(matches!(remove_ax(&mut net, &edges[0], &edges[1], cut), Err(Error::MissingConclusion)));
    assert_eq!(net.vertex_count(), 2);
}

#[test]
fn remove_par_tensor_needs_two_premises_each() {
    let mut net = ProofStructure::new();
    let cut = net.add_vertex(net.fresh_label(RuleLabel::Cut)).unwrap();
    let tensor = net.add_vertex(net.fresh_label(RuleLabel::Tensor)).unwrap();
    let par = net.add_vertex(net.fresh_label(RuleLabel::Par)).unwrap();
    net.add_edge(&tensor.label, &cut.label, pos("A")).unwrap();
    net.add_edge(&par.label, &cut.label, neg("A")).unwrap();
    assert!(matches!(reduce_cut(&mut net, cut), Err(Error::BadProof)));
    let edges = net.get_edges();
    assert!(matches!(
        remove_par_tensor(&mut net, cut, &edges[0], &edges[1]),
        Err(Error::BadProof)
    ));
    assert_eq!(net.vertex_count(), 3);
}

#[test]
fn net_error_messages() {
    assert_eq!(Error::BadProof.message(), "Proof is malformed");
    assert_eq!(Error::MissingPremise.message(), "Expected premise, but found none");
    assert_eq!(Error::MissingConclusion.message(), "Expected conclusion, but found none");
    assert_eq!(Error::EdgeNotFound(pos("A")).message(), "Could not find edge");
    let net = ProofStructure::new();
    let label = net.fresh_label(RuleLabel::Cut);
    assert_eq!(Error::VertexNotFound(label).message(), "Could not find vertex");
    assert_eq!(Error::VertexAlreadyExists(label).message(), "Vertex already exists");
    assert_eq!(Error::Irreducible(label).message(), "No rewrite applies to cut");
    assert_eq!(
        Error::WrongLabel { found: RuleLabel::Ax, expected: RuleLabel::Cut }.message(),
        "Unexpected label"
    );
}

#[test]
fn try_reduce_reduces_where_reduce_does() {
    let mut net = axiom_cut_net(pos("A"));
    assert!(matches!(try_reduce(&mut net), Some(Ok(()))));
    assert_eq!(net.get_cuts().len(), 0);
    assert_eq!(net.vertex_count(), 3);
    let mut stuck = ProofStructure::new();
    stuck.add_vertex(stuck.fresh_label(RuleLabel::Cut)).unwrap();
    assert!(matches!(try_reduce(&mut stuck), Some(Err(Error::BadProof))));
}

#[test]
fn max_number_is_the_greatest_number() {
    let mut net = ProofStructure::new();
    assert_eq!(net.max_number(), 0);
    net.disjoint_union(axiom_net(pos("A"))).unwrap();
    assert_eq!(net.max_number(), 4);
    let ax = of_kind(&net, RuleLabel::Ax)[0];
    net.remove_vertex(&ax.label).unwrap();
    assert_eq!(net.max_number(), 3);
}

#[test]
fn failed_attach_without_an_end_leaves_the_net_alone() {
    let mut net = axiom_net(pos("A"));
    let before_vertices = net.get_vertices();
    let before_wires = wires(&net);
    let a = net.find_conclusion(&pos("A")).unwrap();
    let ctx = AttachContext { prev_left: Some(&a), prev_right: None, next_left: None, next_right: None };
    assert!(matches!(CutLink::new(pos("A")).attach(&mut net, ctx), Err(Error::MissingPremise)));
    let ctx = AttachContext { prev_left: Some(&a), prev_right: Some(&a), next_left: None, next_right: None };
    assert!(matches!(
        TensorLink::new(pos("A"), pos("A")).attach(&mut net, ctx),
        Err(Error::MissingConclusion)
    ));
    let ctx = AttachContext { prev_left: None, prev_right: Some(&a), next_left: Some(&a), next_right: None };
    assert!(matches!(
        ParLink::new(pos("A"), pos("A")).attach(&mut net, ctx),
        Err(Error::MissingPremise)
    ));
    assert_eq!(net.get_vertices(), before_vertices);
    assert_eq!(wires(&net), before_wires);
}

#[test]
fn failed_attach_on_an_unknown_vertex_leaves_what_was_added() {
    let other = axiom_cut_net(pos("B"));
    let stranger = of_kind(&other, RuleLabel::Ax)[1];
    let mut net = axiom_net(pos("A"));
    let a = net.find_conclusion(&pos("A")).unwrap();
    let ctx = AttachContext {
        prev_left: Some(&a),
        prev_right: Some(&stranger),
        next_left: None,
        next_right: None,
    };
    match CutLink::new(pos("A")).attach(&mut net, ctx) {
        Err(Error::VertexNotFound(l)) => assert_eq!(l, stranger.label),
        _ => panic!("the premise on the right is not in the net"),
    }
    assert_eq!(net.vertex_count(), 4);
    assert_eq!(net.get_cuts().len(), 1);
    assert_eq!(
        wires(&net)[2..].to_vec(),
        vec![(RuleLabel::C, 1, RuleLabel::Cut, 4, neg("A"))]
    );
    let ctx = AttachContext {
        prev_left: Some(&stranger),
        prev_right: Some(&a),
        next_left: Some(&a),
        next_right: None,
    };
    match TensorLink::new(pos("A"), pos("A")).attach(&mut net, ctx) {
        Err(Error::VertexNotFound(l)) => assert_eq!(l, stranger.label),
        _ => panic!("the premise on the left is not in the net"),
    }
    assert_eq!(net.vertex_count(), 5);
    assert_eq!(net.edge_count(), 3);
    let ctx = AttachContext {
        prev_left: Some(&stranger),
        prev_right: None,
        next_left: None,
        next_right: None,
    };
    match ConclusionLink::new(pos("A")).attach(&mut net, ctx) {
        Err(Error::VertexNotFound(l)) => assert_eq!(l, stranger.label),
        _ => panic!("the premise is not in the net"),
    }
    assert_eq!(net.vertex_count(), 6);
    assert_eq!(net.edge_count(), 3);
}

#[test]
fn failed_axiom_step_leaves_the_net_without_cut_and_axiom() {
    let mut net = ProofStructure::new();
    let cut = net.add_vertex(net.fresh_label(RuleLabel::Cut)).unwrap();
    let ax = net.add_vertex(net.fresh_label(RuleLabel::Ax)).unwrap();
    let end = net.add_vertex(net.fresh_label(RuleLabel::C)).unwrap();
    net.add_edge(&ax.label, &cut.label, pos("A")).unwrap();
    net.add_edge(&ax.label, &cut.label, neg("A")).unwrap();
    net.add_edge(&ax.label, &end.label, pos("B")).unwrap();
    match reduce_cut(&mut net, cut) {
        Err(Error::VertexNotFound(l)) => assert_eq!(l, ax.label),
        _ => panic!("the axiom is gone when the new edge is drawn"),
    }
    assert_eq!(net.get_vertices(), vec![end]);
    assert_eq!(net.edge_count(), 0);
}

#[test]
fn failed_reduction_leaves_the_net_of_the_failing_step() {
    let mut net = axiom_cut_net(pos("A"));
    let lone = net.add_vertex(net.fresh_label(RuleLabel::Cut)).unwrap();
    assert!(matches!(reduce(&mut net), Err(Error::BadProof)));
    assert_eq!(net.get_cuts(), vec![lone]);
    assert_eq!(net.vertex_count(), 4);
    assert_eq!(
        wires(&net),
        vec![
            (RuleLabel::Ax, 5, RuleLabel::C, 4, neg("A")),
            (RuleLabel::Ax, 5, RuleLabel::C, 2, pos("A")),
        ]
    );
}

#[test]
fn try_disjoint_union_merges_where_there_is_room() {
    let mut left = axiom_net(pos("A"));
    assert!(left.try_disjoint_union(axiom_net(pos("B"))).is_none());
    assert_eq!(left.vertex_count(), 6);
    assert_eq!(left.edge_count(), 4);
    let ids: Vec<i32> = left.get_vertices().iter().map(|v| v.label.id()).collect();
    assert_eq!(ids, vec![1, 2, 3, 5, 6, 7]);
}

#[test]
fn disjoint_union_keeps_kinds_and_formulas() {
    let mut left = axiom_cut_net(pos("A"));
    let right = tensor_par_net(pos("B"), pos("C"));
    let kinds = [
        RuleLabel::Ax,
        RuleLabel::Cut,
        RuleLabel::Tensor,
        RuleLabel::Par,
        RuleLabel::Bang,
        RuleLabel::Quest,
        RuleLabel::C,
    ];
    let counts: Vec<usize> =
        kinds.iter().map(|k| of_kind(&left, *k).len() + of_kind(&right, *k).len()).collect();
    let mut formulas: Vec<Formula> = left.get_edges().iter().map(|e| e.label.clone()).collect();
    formulas.extend(right.get_edges().iter().map(|e| e.label.clone()));
    let old_left = wires(&left);
    let old_right = wires(&right);
    let shift = left.max_number() + 1;
    left.disjoint_union(right).unwrap();
    let after: Vec<usize> = kinds.iter().map(|k| of_kind(&left, *k).len()).collect();
    assert_eq!(after, counts);
    let merged: Vec<Formula> = left.get_edges().iter().map(|e| e.label.clone()).collect();
    assert_eq!(merged, formulas);
    let all = wires(&left);
    assert_eq!(all[..old_left.len()].to_vec(), old_left);
    let moved: Vec<_> = old_right
        .iter()
        .map(|(fk, fi, tk, ti, f)| (*fk, fi + shift, *tk, ti + shift, f.clone()))
        .collect();
    assert_eq!(all[old_left.len()..].to_vec(), moved);
    let mut ids: Vec<i32> = left.get_vertices().iter().map(|v| v.label.id()).collect();
    let total = ids.len();
    ids.sort();
    ids.dedup();
    assert_eq!(ids.len(), total);
}
