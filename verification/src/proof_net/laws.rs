use crate::common::sequences::{
    filter_upto, lemma_filter_members, lemma_filter_none, lemma_filter_push, lemma_filter_upto,
    lemma_first_index_is,
};
use crate::mll::deduction::ax::ax_view;
use crate::mll::formula::FormulaView;
use crate::mll::proof_tree::ProofView;
use crate::proof_net::errors::ErrorView;
use crate::proof_net::links::ax::attach_axiom;
use crate::proof_net::links::ContextView;
use crate::proof_net::cut_reduction::{
    cut_between, lemma_cut_between, lemma_remove_vertex_max_id, not_into, pairing,
    reduce_cut_spec, reduce_spec, remove_ax_spec, remove_par_tensor_spec,
};
use crate::proof_net::net_view::{
    concludes, ends_in, has_kind, is_not, not_touching, starts_in, EdgeView, LabelView, NetView,
};
use crate::proof_net::proof2net::net_of;
use crate::proof_net::proof_structure::RuleLabel;
use vstd::prelude::*;

verus! {

/// The label of kind `rule` with the number `id`.
pub open spec fn label(rule: RuleLabel, id: int) -> LabelView {
    LabelView { rule, id }
}

/// The edge from `from` to `to` that carries `f`.
pub open spec fn edge(from: LabelView, to: LabelView, f: FormulaView) -> EdgeView {
    EdgeView { from, to, label: f }
}

/// The net of one axiom on `f`: two conclusions and the axiom vertex, with a
/// wire that carries `f` into the first conclusion and a wire that carries the
/// dual of `f` into the second.
pub open spec fn axiom_net(f: FormulaView) -> NetView {
    let c1 = label(RuleLabel::C, 1);
    let c2 = label(RuleLabel::C, 2);
    let ax = label(RuleLabel::Ax, 3);
    NetView { vertices: seq![c1, c2, ax], edges: seq![edge(ax, c1, f), edge(ax, c2, f.negate())] }
}

/// An axiom link on `f` that is attached to the empty net under the empty
/// context gives the net of one axiom on `f`.
pub proof fn lemma_attach_axiom_to_empty(f: FormulaView)
    ensures
        attach_axiom(f, NetView::empty(), ContextView::empty()) == Ok::<NetView, ErrorView>(
            axiom_net(f),
        ),
        axiom_net(f).wf(),
{
    let n0 = NetView::empty();
    let c1 = label(RuleLabel::C, 1);
    let c2 = label(RuleLabel::C, 2);
    let ax = label(RuleLabel::Ax, 3);
    assert(n0.wf());
    assert(n0.max_id() == 0);
    n0.lemma_add_fresh(RuleLabel::C);
    let n1 = n0.add_vertex(c1);
    n1.lemma_add_fresh(RuleLabel::C);
    let n2 = n1.add_vertex(c2);
    n2.lemma_add_fresh(RuleLabel::Ax);
    let n3 = n2.add_vertex(ax);
    assert(n3.vertices =~= seq![c1, c2, ax]);
    assert(n3.vertices[0] == c1);
    assert(n3.vertices[1] == c2);
    n3.lemma_add_edge_wf(ax, c1, f);
    n3.add_edge(ax, c1, f).lemma_add_edge_wf(ax, c2, f.negate());
    assert(n3.add_edge(ax, c1, f).add_edge(ax, c2, f.negate()).edges =~= axiom_net(f).edges);
}

/// The net of an axiom derivation on `f` is the net of one axiom on `f`.
/// It has one axiom vertex, two conclusion vertices and no other vertex, and
/// two edges: the edge into the first conclusion carries `f`, and the edge
/// into the second carries the dual of `f`. The first conclusion is where the
/// wire for `f` is found.
pub proof fn lemma_axiom_derivation(p: ProofView, f: FormulaView)
    requires
        p.rule == ax_view(f),
    ensures
        net_of(p) == Ok::<NetView, ErrorView>(axiom_net(f)),
        axiom_net(f).of_kind(RuleLabel::Ax).len() == 1,
        axiom_net(f).of_kind(RuleLabel::C).len() == 2,
        axiom_net(f).vertices.len() == 3,
        axiom_net(f).edges.len() == 2,
        axiom_net(f).edges[0] == edge(label(RuleLabel::Ax, 3), label(RuleLabel::C, 1), f),
        axiom_net(f).edges[1] == edge(
            label(RuleLabel::Ax, 3),
            label(RuleLabel::C, 2),
            f.negate(),
        ),
        axiom_net(f).find_conclusion(f) == Some(label(RuleLabel::C, 1)),
{
    lemma_attach_axiom_to_empty(f);
    let n = axiom_net(f);
    lemma_first_index_is(n.edges, concludes(f), 0);
    lemma_filter_upto(n.vertices, has_kind(RuleLabel::Ax), 3);
    lemma_filter_upto(n.vertices, has_kind(RuleLabel::C), 3);
    reveal_with_fuel(filter_upto, 4);
}

/// The context that names `v` as the vertex on the right that a link ends
/// in, and nothing else.
pub open spec fn into_right(v: LabelView) -> ContextView {
    ContextView { prev_left: None, prev_right: None, next_left: None, next_right: Some(v) }
}

/// The net in which an axiom on `f` is cut against an axiom on the dual of
/// `f`: each axiom has one conclusion of its own and one wire into the cut.
pub open spec fn axiom_cut_net(f: FormulaView) -> NetView {
    let cut = label(RuleLabel::Cut, 1);
    let c2 = label(RuleLabel::C, 2);
    let a3 = label(RuleLabel::Ax, 3);
    let c4 = label(RuleLabel::C, 4);
    let a5 = label(RuleLabel::Ax, 5);
    NetView {
        vertices: seq![cut, c2, a3, c4, a5],
        edges: seq![
            edge(a3, c2, f),
            edge(a3, cut, f.negate()),
            edge(a5, c4, f.negate()),
            edge(a5, cut, f),
        ],
    }
}

/// What is left of `axiom_cut_net` once its cut is eliminated: the second
/// axiom, with its own conclusion and with the conclusion of the first.
pub open spec fn axiom_cut_reduced(f: FormulaView) -> NetView {
    let c2 = label(RuleLabel::C, 2);
    let c4 = label(RuleLabel::C, 4);
    let a5 = label(RuleLabel::Ax, 5);
    NetView {
        vertices: seq![c2, c4, a5],
        edges: seq![edge(a5, c4, f.negate()), edge(a5, c2, f)],
    }
}

/// `axiom_cut_net` is the net that comes of a cut vertex and two axiom
/// links, one on `f` and one on its dual, that each end in the cut on the
/// right and in a new conclusion on the left.
pub proof fn lemma_axiom_cut_net_built(f: FormulaView)
    ensures
        ({
            let cut = label(RuleLabel::Cut, 1);
            let start = NetView::empty().add_vertex(cut);
            match attach_axiom(f, start, into_right(cut)) {
                Ok(first) => attach_axiom(f.negate(), first, into_right(cut)) == Ok::<
                    NetView,
                    ErrorView,
                >(axiom_cut_net(f)),
                Err(_) => false,
            }
        }),
        axiom_cut_net(f).wf(),
{
    f.lemma_negate_involutive();
    let cut = label(RuleLabel::Cut, 1);
    let c2 = label(RuleLabel::C, 2);
    let a3 = label(RuleLabel::Ax, 3);
    let c4 = label(RuleLabel::C, 4);
    let a5 = label(RuleLabel::Ax, 5);
    let n0 = NetView::empty();
    assert(n0.wf());
    assert(n0.max_id() == 0);
    n0.lemma_add_fresh(RuleLabel::Cut);
    let n1 = n0.add_vertex(cut);
    n1.lemma_add_fresh(RuleLabel::C);
    let n2 = n1.add_vertex(c2);
    n2.lemma_add_fresh(RuleLabel::Ax);
    let n3 = n2.add_vertex(a3);
    assert(n3.vertices[0] == cut);
    assert(n3.vertices[1] == c2);
    n3.lemma_add_edge_wf(a3, c2, f);
    n3.add_edge(a3, c2, f).lemma_add_edge_wf(a3, cut, f.negate());
    let first = n3.add_edge(a3, c2, f).add_edge(a3, cut, f.negate());
    assert(attach_axiom(f, n1, into_right(cut)) == Ok::<NetView, ErrorView>(first));
    first.lemma_add_fresh(RuleLabel::C);
    let n4 = first.add_vertex(c4);
    n4.lemma_add_fresh(RuleLabel::Ax);
    let n5 = n4.add_vertex(a5);
    assert(n5.vertices[0] == cut);
    assert(n5.vertices[3] == c4);
    n5.lemma_add_edge_wf(a5, c4, f.negate());
    n5.add_edge(a5, c4, f.negate()).lemma_add_edge_wf(a5, cut, f);
    let second = n5.add_edge(a5, c4, f.negate()).add_edge(a5, cut, f);
    assert(second.vertices =~= axiom_cut_net(f).vertices);
    assert(second.edges =~= axiom_cut_net(f).edges);
}

/// Cut elimination on an axiom that is cut against an independent axiom on
/// the dual formula ends without a cut and with one axiom vertex, whose two
/// wires end in the conclusions of the two axioms.
pub proof fn lemma_axiom_cut_eliminated(f: FormulaView)
    ensures
        reduce_spec(axiom_cut_net(f)) == Ok::<NetView, ErrorView>(axiom_cut_reduced(f)),
        axiom_cut_reduced(f).cuts().len() == 0,
        axiom_cut_reduced(f).of_kind(RuleLabel::Ax).len() == 1,
        axiom_cut_reduced(f).wf(),
{
    let cut = label(RuleLabel::Cut, 1);
    let c2 = label(RuleLabel::C, 2);
    let a3 = label(RuleLabel::Ax, 3);
    let c4 = label(RuleLabel::C, 4);
    let a5 = label(RuleLabel::Ax, 5);
    let net = axiom_cut_net(f);
    let done = axiom_cut_reduced(f);
    lemma_axiom_cut_net_built(f);
    reveal_with_fuel(filter_upto, 6);
    lemma_filter_upto(net.vertices, has_kind(RuleLabel::Cut), 5);
    assert(net.cuts() =~= seq![cut]);
    lemma_filter_upto(net.edges, ends_in(cut), 4);
    assert(net.incoming(cut) =~= seq![edge(a3, cut, f.negate()), edge(a5, cut, f)]);
    let left = net.incoming(cut)[0];
    let right = net.incoming(cut)[1];
    assert(net.vertices[0] == cut);
    assert(net.vertices[2] == a3);
    lemma_filter_upto(net.edges, starts_in(a3), 4);
    assert(net.outgoing(a3) =~= seq![edge(a3, c2, f), edge(a3, cut, f.negate())]);
    lemma_filter_upto(net.outgoing(a3), not_into(cut), 2);
    assert(net.outgoing(a3).filter(not_into(cut)) =~= seq![edge(a3, c2, f)]);
    lemma_filter_upto(net.vertices, is_not(cut), 5);
    lemma_filter_upto(net.edges, not_touching(cut), 4);
    let n1 = net.remove_vertex(cut);
    assert(n1.vertices =~= seq![c2, a3, c4, a5]);
    assert(n1.edges =~= seq![edge(a3, c2, f), edge(a5, c4, f.negate())]);
    assert(n1.vertices[1] == a3);
    lemma_filter_upto(n1.vertices, is_not(a3), 4);
    lemma_filter_upto(n1.edges, not_touching(a3), 2);
    let n2 = n1.remove_vertex(a3);
    assert(n2.vertices =~= seq![c2, c4, a5]);
    assert(n2.edges =~= seq![edge(a5, c4, f.negate())]);
    assert(n2.vertices[2] == a5);
    assert(n2.vertices[0] == c2);
    assert(n2.add_edge(a5, c2, f).edges =~= done.edges);
    assert(remove_ax_spec(net, left, right, cut) == Ok::<NetView, ErrorView>(done));
    assert(reduce_cut_spec(net, cut) == Ok::<NetView, ErrorView>(done));
    lemma_filter_upto(done.vertices, has_kind(RuleLabel::Cut), 3);
    lemma_filter_upto(done.vertices, has_kind(RuleLabel::Ax), 3);
    assert(done.cuts().len() == 0);
    assert(reduce_spec(done) == Ok::<NetView, ErrorView>(done));
    net.lemma_remove_vertex(cut);
    n1.lemma_remove_vertex(a3);
    n2.lemma_add_edge_wf(a5, c2, f);
}

/// The net `net` without the tensor `t`, the par `p` and the cut `v`
/// between them.
pub open spec fn without_three(net: NetView, t: LabelView, p: LabelView, v: LabelView) -> NetView {
    net.remove_vertex(t).remove_vertex(p).remove_vertex(v)
}

/// What becomes of `net` when the cut `v` between the tensor `t` and the
/// par `p` is eliminated, where `tl` and `tr` are the wires into the tensor
/// and `pl` and `pr` the wires into the par: the three vertices leave, and two
/// new cuts enter, the first between `tl` and `pl` and the second between `tr`
/// and `pr`.
pub open spec fn tensor_par_reduced(
    net: NetView,
    v: LabelView,
    t: LabelView,
    p: LabelView,
    tl: EdgeView,
    tr: EdgeView,
    pl: EdgeView,
    pr: EdgeView,
) -> NetView {
    let base = without_three(net, t, p, v);
    let c1 = base.fresh(RuleLabel::Cut);
    let c2 = label(RuleLabel::Cut, c1.id + 1);
    NetView {
        vertices: base.vertices.push(c1).push(c2),
        edges: base.edges.push(edge(tl.from, c1, tl.label)).push(
            edge(pl.from, c1, pl.label),
        ).push(edge(tr.from, c2, tr.label)).push(edge(pr.from, c2, pr.label)),
    }
}

/// Whether `x` is none of `t`, `p` and `v`.
pub open spec fn none_of(x: LabelView, t: LabelView, p: LabelView, v: LabelView) -> bool {
    x != t && x != p && x != v
}

/// An edge of a well-formed net that passes a filter joins two vertices of
/// the net.
pub proof fn lemma_filtered_edge(net: NetView, p: spec_fn(EdgeView) -> bool, i: int)
    requires
        net.wf(),
        0 <= i < net.edges.filter(p).len(),
    ensures
        net.has_vertex(net.edges.filter(p)[i].from),
        net.has_vertex(net.edges.filter(p)[i].to),
        p(net.edges.filter(p)[i]),
{
    lemma_filter_members(net.edges, p);
    let e = net.edges.filter(p)[i];
    assert(net.edges.filter(p).contains(e));
    let j = choose|j: int| 0 <= j < net.edges.len() && net.edges[j] == e;
    assert(net.has_vertex(net.edges[j].from));
}

/// A vertex of `net` that is none of `t`, `p` and `v` is still there when
/// the three are removed.
pub proof fn lemma_kept(net: NetView, t: LabelView, p: LabelView, v: LabelView, x: LabelView)
    requires
        net.wf(),
        net.has_vertex(x),
        none_of(x, t, p, v),
    ensures
        without_three(net, t, p, v).has_vertex(x),
{
    let n1 = net.remove_vertex(t);
    let n2 = n1.remove_vertex(p);
    net.lemma_remove_vertex(t);
    assert(n1.has_vertex(x));
    n1.lemma_remove_vertex(p);
    assert(n2.has_vertex(x));
    n2.lemma_remove_vertex(v);
    assert(n2.remove_vertex(v).has_vertex(x));
}

/// One step of cut elimination at a cut between a tensor of `F` and `G`
/// and a par of the duals of `F` and `G` takes the tensor, the par and the cut
/// away and brings two new cuts in, one between the wires for `F` and its dual
/// and one between the wires for `G` and its dual.
///
/// `tl` and `tr` are the wires into the tensor `t`, `pl` and `pr` the wires
/// into the par `p`, and none of the four starts in `t`, in `p` or in `v`.
pub proof fn lemma_tensor_par_cut(
    net: NetView,
    v: LabelView,
    t: LabelView,
    p: LabelView,
    tl: EdgeView,
    tr: EdgeView,
    pl: EdgeView,
    pr: EdgeView,
)
    requires
        net.wf(),
        net.max_id() + 2 <= i32::MAX,
        v.rule == RuleLabel::Cut,
        t.rule == RuleLabel::Tensor,
        p.rule == RuleLabel::Par,
        net.has_vertex(v),
        net.incoming(v).len() == 2,
        net.incoming(v)[0].from == t && net.incoming(v)[1].from == p || net.incoming(v)[0].from
            == p && net.incoming(v)[1].from == t,
        net.incoming(t) == seq![tl, tr],
        net.incoming(p) == seq![pl, pr],
        pl.label == tl.label.negate(),
        pr.label == tr.label.negate(),
        none_of(tl.from, t, p, v),
        none_of(tr.from, t, p, v),
        none_of(pl.from, t, p, v),
        none_of(pr.from, t, p, v),
    ensures
        reduce_cut_spec(net, v) == Ok::<NetView, ErrorView>(
            tensor_par_reduced(net, v, t, p, tl, tr, pl, pr),
        ),
        ({
            let base = without_three(net, t, p, v);
            let done = tensor_par_reduced(net, v, t, p, tl, tr, pl, pr);
            let c1 = base.fresh(RuleLabel::Cut);
            let c2 = label(RuleLabel::Cut, c1.id + 1);
            &&& done.wf()
            &&& !done.has_vertex(t) && !done.has_vertex(p)
            &&& !base.has_vertex(v) && !base.has_vertex(c1) && !base.has_vertex(c2)
            &&& base.vertices.len() + 3 == net.vertices.len()
            &&& done.vertices.len() + 1 == net.vertices.len()
            &&& done.incoming(c1) == seq![edge(tl.from, c1, tl.label), edge(pl.from, c1, pl.label)]
            &&& done.incoming(c2) == seq![edge(tr.from, c2, tr.label), edge(pr.from, c2, pr.label)]
        }),
{
    let base = without_three(net, t, p, v);
    let done = tensor_par_reduced(net, v, t, p, tl, tr, pl, pr);
    let c1 = base.fresh(RuleLabel::Cut);
    let c2 = label(RuleLabel::Cut, c1.id + 1);
    let n1 = net.remove_vertex(t);
    let n2 = n1.remove_vertex(p);
    // the ends of the wires are vertices of the net
    lemma_filtered_edge(net, ends_in(v), 0);
    lemma_filtered_edge(net, ends_in(v), 1);
    assert(net.has_vertex(t) && net.has_vertex(p));
    assert(net.incoming(t)[0] == tl && net.incoming(t)[1] == tr);
    assert(net.incoming(p)[0] == pl && net.incoming(p)[1] == pr);
    lemma_filtered_edge(net, ends_in(t), 0);
    lemma_filtered_edge(net, ends_in(t), 1);
    lemma_filtered_edge(net, ends_in(p), 0);
    lemma_filtered_edge(net, ends_in(p), 1);
    // the three vertices leave
    net.lemma_remove_vertex(t);
    lemma_remove_vertex_max_id(net, t);
    n1.lemma_remove_vertex(p);
    lemma_remove_vertex_max_id(n1, p);
    n2.lemma_remove_vertex(v);
    lemma_remove_vertex_max_id(n2, v);
    assert(pairing(tl, tr, pl, pr) == Some((pl, pr)));
    lemma_kept(net, t, p, v, tl.from);
    lemma_kept(net, t, p, v, tr.from);
    lemma_kept(net, t, p, v, pl.from);
    lemma_kept(net, t, p, v, pr.from);
    assert(n1.has_vertex(p));
    assert(n2.has_vertex(v)) by {
        assert(n1.has_vertex(v));
    }
    // the first cut
    base.lemma_add_fresh(RuleLabel::Cut);
    lemma_cut_between(base, tl, pl);
    let with_c1 = base.add_vertex(c1);
    assert(with_c1.has_vertex(tl.from) && with_c1.has_vertex(pl.from));
    let first = with_c1.add_edge(tl.from, c1, tl.label).add_edge(pl.from, c1, pl.label);
    assert(cut_between(base, tl, pl) == Ok::<NetView, ErrorView>(first));
    // the second cut
    first.lemma_add_fresh(RuleLabel::Cut);
    lemma_cut_between(first, tr, pr);
    assert(first.fresh(RuleLabel::Cut) == c2);
    let with_c2 = first.add_vertex(c2);
    assert(first.has_vertex(tr.from) && first.has_vertex(pr.from));
    assert(with_c2.has_vertex(tr.from) && with_c2.has_vertex(pr.from));
    let second = with_c2.add_edge(tr.from, c2, tr.label).add_edge(pr.from, c2, pr.label);
    assert(cut_between(first, tr, pr) == Ok::<NetView, ErrorView>(second));
    assert(second.vertices =~= done.vertices);
    assert(second.edges =~= done.edges);
    assert(second == done);
    let left = net.incoming(v)[0];
    let right = net.incoming(v)[1];
    if left.from == t {
        assert(remove_par_tensor_spec(net, v, left, right) == Ok::<NetView, ErrorView>(done));
    } else {
        assert(remove_par_tensor_spec(net, v, right, left) == Ok::<NetView, ErrorView>(done));
    }
    // what enters the two cuts
    assert(!base.has_vertex(c2)) by {
        base.lemma_max_id();
    }
    assert forall|i: int| 0 <= i < base.edges.len() implies !ends_in(c1)(base.edges[i])
        && !ends_in(c2)(base.edges[i]) by {
        assert(base.has_vertex(base.edges[i].to));
    }
    lemma_filter_none(base.edges, ends_in(c1));
    lemma_filter_none(base.edges, ends_in(c2));
    let e1 = edge(tl.from, c1, tl.label);
    let e2 = edge(pl.from, c1, pl.label);
    let e3 = edge(tr.from, c2, tr.label);
    let e4 = edge(pr.from, c2, pr.label);
    lemma_filter_push(base.edges, e1, ends_in(c1));
    lemma_filter_push(base.edges.push(e1), e2, ends_in(c1));
    lemma_filter_push(base.edges.push(e1).push(e2), e3, ends_in(c1));
    lemma_filter_push(base.edges.push(e1).push(e2).push(e3), e4, ends_in(c1));
    lemma_filter_push(base.edges, e1, ends_in(c2));
    lemma_filter_push(base.edges.push(e1), e2, ends_in(c2));
    lemma_filter_push(base.edges.push(e1).push(e2), e3, ends_in(c2));
    lemma_filter_push(base.edges.push(e1).push(e2).push(e3), e4, ends_in(c2));
    assert(done.incoming(c1) =~= seq![e1, e2]);
    assert(done.incoming(c2) =~= seq![e3, e4]);
    assert(!base.has_vertex(t)) by {
        assert(!n2.has_vertex(t));
    }
    assert(!base.has_vertex(p));
    assert(!done.has_vertex(t) && !done.has_vertex(p)) by {
        if done.has_vertex(t) {
            let i = choose|i: int| 0 <= i < done.vertices.len() && done.vertices[i] == t;
            if i < base.vertices.len() {
                assert(base.vertices[i] == t);
            }
        }
        if done.has_vertex(p) {
            let i = choose|i: int| 0 <= i < done.vertices.len() && done.vertices[i] == p;
            if i < base.vertices.len() {
                assert(base.vertices[i] == p);
            }
        }
    }
    assert(done.wf());
    assert(base.vertices.len() + 3 == net.vertices.len());
}

} // verus!
