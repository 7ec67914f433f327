use crate::proof_net::directed_multigraph::DirectedMultiGraph;
use crate::proof_net::errors::{Error, ErrorView};
use crate::common::sequences::{lemma_filter_members, lemma_filter_take_step};
use crate::mll::formula::FormulaView;
use crate::proof_net::net_view::{is_not, lemma_max_id_least, EdgeView, LabelView, NetView};
use crate::proof_net::proof_structure::{edges_view, Edge, ProofStructure, RuleLabel, Vertex};
use vstd::prelude::*;

verus! {

/// The net with an edge from `from` to `to`, where it has both vertices.
pub open spec fn try_add_edge(
    net: NetView,
    from: LabelView,
    to: LabelView,
    label: FormulaView,
) -> Result<NetView, ErrorView> {
    if !net.has_vertex(from) {
        Err(ErrorView::VertexNotFound(from))
    } else if !net.has_vertex(to) {
        Err(ErrorView::VertexNotFound(to))
    } else {
        Ok(net.add_edge(from, to, label))
    }
}

/// The net with a new cut vertex that the wires `left` and `right` lead
/// into: an edge from where `left` starts with the formula of `left`, and an
/// edge from where `right` starts with the formula of `right`.
pub open spec fn cut_between(net: NetView, left: EdgeView, right: EdgeView) -> Result<
    NetView,
    ErrorView,
> {
    let cut = net.fresh(RuleLabel::Cut);
    match try_add_edge(net.add_vertex(cut), left.from, cut, left.label) {
        Err(e) => Err(e),
        Ok(n) => try_add_edge(n, right.from, cut, right.label),
    }
}

/// The net that is left where a new cut between `left` and `right` cannot
/// be drawn in `net`: `net` with the new cut vertex and, where `left` starts
/// in a vertex of it, with the edge from there.
pub open spec fn cut_between_remains(net: NetView, left: EdgeView, right: EdgeView) -> NetView {
    let cut = net.fresh(RuleLabel::Cut);
    let with_cut = net.add_vertex(cut);
    if !with_cut.has_vertex(left.from) {
        with_cut
    } else {
        with_cut.add_edge(left.from, cut, left.label)
    }
}

/// The edges that do not end in `v`.
pub open spec fn not_into(v: LabelView) -> spec_fn(EdgeView) -> bool {
    |e: EdgeView| e.to != v
}

/// The net after the cut `v` against an axiom is eliminated: `ax_edge` is
/// the wire from the axiom into the cut and `other_edge` the other wire
/// into the cut. The cut and the axiom leave, and the other conclusion of the
/// axiom is drawn from where `other_edge` starts.
pub open spec fn remove_ax_spec(net: NetView, ax_edge: EdgeView, other_edge: EdgeView, v: LabelView)
    -> Result<NetView, ErrorView> {
    let ax = ax_edge.from;
    let out = net.outgoing(ax).filter(not_into(v));
    if !net.has_vertex(ax) {
        Err(ErrorView::VertexNotFound(ax))
    } else if out.len() == 0 {
        Err(ErrorView::MissingConclusion)
    } else if !net.has_vertex(v) {
        Err(ErrorView::VertexNotFound(v))
    } else if !net.remove_vertex(v).has_vertex(ax) {
        Err(ErrorView::VertexNotFound(ax))
    } else {
        try_add_edge(
            net.remove_vertex(v).remove_vertex(ax),
            other_edge.from,
            out[0].to,
            out[0].label,
        )
    }
}

/// The net that is left where the cut `v` against an axiom cannot be
/// eliminated: `net` itself where the axiom or the cut is no vertex of it or
/// the axiom has no other conclusion, and else `net` without the cut and,
/// where it had been removed before the failure, without the axiom.
pub open spec fn remove_ax_remains(
    net: NetView,
    ax_edge: EdgeView,
    other_edge: EdgeView,
    v: LabelView,
) -> NetView {
    let ax = ax_edge.from;
    let out = net.outgoing(ax).filter(not_into(v));
    if !net.has_vertex(ax) || out.len() == 0 || !net.has_vertex(v) {
        net
    } else if !net.remove_vertex(v).has_vertex(ax) {
        net.remove_vertex(v)
    } else {
        net.remove_vertex(v).remove_vertex(ax)
    }
}

/// The wires among `first` and `second` that are dual to `tensor_left` and
/// to `tensor_right`, in this order, if the four wires make two dual pairs:
/// `first` with `tensor_left` is tried before `second` with `tensor_left`.
pub open spec fn pairing(
    tensor_left: EdgeView,
    tensor_right: EdgeView,
    first: EdgeView,
    second: EdgeView,
) -> Option<(EdgeView, EdgeView)> {
    if tensor_left.label.negate() == first.label && tensor_right.label.negate() == second.label {
        Some((first, second))
    } else if tensor_left.label.negate() == second.label && tensor_right.label.negate()
        == first.label {
        Some((second, first))
    } else {
        None
    }
}

/// The net after the cut `v` between a tensor and a par is eliminated:
/// `tensor_edge` is the wire from the tensor into the cut and `par_edge` the
/// wire from the par. The three vertices leave, and each premise of the
/// tensor is cut against the premise of the par that is dual to it.
pub open spec fn remove_par_tensor_spec(
    net: NetView,
    v: LabelView,
    tensor_edge: EdgeView,
    par_edge: EdgeView,
) -> Result<NetView, ErrorView> {
    let tensor = tensor_edge.from;
    let par = par_edge.from;
    let tensor_in = net.incoming(tensor);
    let par_in = net.incoming(par);
    if !net.has_vertex(tensor) {
        Err(ErrorView::VertexNotFound(tensor))
    } else if tensor_in.len() != 2 {
        Err(ErrorView::BadProof)
    } else if !net.has_vertex(par) {
        Err(ErrorView::VertexNotFound(par))
    } else if par_in.len() != 2 {
        Err(ErrorView::BadProof)
    } else {
        match pairing(tensor_in[0], tensor_in[1], par_in[0], par_in[1]) {
            None => Err(ErrorView::BadProof),
            Some((for_left, for_right)) => {
                let without_tensor = net.remove_vertex(tensor);
                let without_par = without_tensor.remove_vertex(par);
                if !without_tensor.has_vertex(par) {
                    Err(ErrorView::VertexNotFound(par))
                } else if !without_par.has_vertex(v) {
                    Err(ErrorView::VertexNotFound(v))
                } else {
                    match cut_between(without_par.remove_vertex(v), tensor_in[0], for_left) {
                        Err(e) => Err(e),
                        Ok(n) => cut_between(n, tensor_in[1], for_right),
                    }
                }
            },
        }
    }
}

/// The net that is left where the cut `v` between a tensor and a par
/// cannot be eliminated: `net` itself where the tensor or the par is no vertex
/// of it, does not have two premises, or the premises make no dual pairs; else
/// `net` without the vertices that had been removed and with the part of the
/// new cuts that had been drawn before the failure.
pub open spec fn remove_par_tensor_remains(
    net: NetView,
    v: LabelView,
    tensor_edge: EdgeView,
    par_edge: EdgeView,
) -> NetView {
    let tensor = tensor_edge.from;
    let par = par_edge.from;
    let tensor_in = net.incoming(tensor);
    let par_in = net.incoming(par);
    if !net.has_vertex(tensor) || tensor_in.len() != 2 || !net.has_vertex(par) || par_in.len()
        != 2 {
        net
    } else {
        match pairing(tensor_in[0], tensor_in[1], par_in[0], par_in[1]) {
            None => net,
            Some((for_left, for_right)) => {
                let without_tensor = net.remove_vertex(tensor);
                let without_par = without_tensor.remove_vertex(par);
                let base = without_par.remove_vertex(v);
                if !without_tensor.has_vertex(par) {
                    without_tensor
                } else if !without_par.has_vertex(v) {
                    without_par
                } else {
                    match cut_between(base, tensor_in[0], for_left) {
                        Err(_) => cut_between_remains(base, tensor_in[0], for_left),
                        Ok(n) => cut_between_remains(n, tensor_in[1], for_right),
                    }
                }
            },
        }
    }
}

/// The net that is left where the step of cut elimination at `v` fails:
/// `net` itself where `v` is no cut of `net` with two premises, and else what
/// the rewrite that was tried leaves.
pub open spec fn reduce_cut_remains(net: NetView, v: LabelView) -> NetView {
    let premises = net.incoming(v);
    if v.rule != RuleLabel::Cut || !net.has_vertex(v) || premises.len() != 2 {
        net
    } else {
        let left = premises[0];
        let right = premises[1];
        if left.from.rule == RuleLabel::Ax {
            remove_ax_remains(net, left, right, v)
        } else if right.from.rule == RuleLabel::Ax {
            remove_ax_remains(net, right, left, v)
        } else if left.from.rule == RuleLabel::Tensor && right.from.rule == RuleLabel::Par {
            remove_par_tensor_remains(net, v, left, right)
        } else if left.from.rule == RuleLabel::Par && right.from.rule == RuleLabel::Tensor {
            remove_par_tensor_remains(net, v, right, left)
        } else {
            net
        }
    }
}

/// The net that is left where cut elimination fails: the net that the
/// steps before the failing one have made, as the failing step leaves it. A
/// cut that no rewrite applies to leaves the net of that step as it is.
pub open spec fn reduce_remains(net: NetView) -> NetView
    decreases net.vertices.len(),
{
    if net.cuts().len() == 0 {
        net
    } else {
        match reduce_cut_spec(net, net.cuts()[0]) {
            Err(_) => reduce_cut_remains(net, net.cuts()[0]),
            Ok(next) => if next.vertices.len() < net.vertices.len() {
                reduce_remains(next)
            } else {
                net
            },
        }
    }
}

/// The net after one step of cut elimination at `v`.
///
/// A cut against an axiom is replaced by a wire; a cut between a tensor and
/// a par is replaced by two cuts between their premises; at any other cut the
/// net stays as it is.
pub open spec fn reduce_cut_spec(net: NetView, v: LabelView) -> Result<NetView, ErrorView> {
    let premises = net.incoming(v);
    if v.rule != RuleLabel::Cut {
        Err(ErrorView::WrongLabel { found: v.rule, expected: RuleLabel::Cut })
    } else if !net.has_vertex(v) {
        Err(ErrorView::VertexNotFound(v))
    } else if premises.len() != 2 {
        Err(ErrorView::BadProof)
    } else {
        let left = premises[0];
        let right = premises[1];
        if left.from.rule == RuleLabel::Ax {
            remove_ax_spec(net, left, right, v)
        } else if right.from.rule == RuleLabel::Ax {
            remove_ax_spec(net, right, left, v)
        } else if left.from.rule == RuleLabel::Tensor && right.from.rule == RuleLabel::Par {
            remove_par_tensor_spec(net, v, left, right)
        } else if left.from.rule == RuleLabel::Par && right.from.rule == RuleLabel::Tensor {
            remove_par_tensor_spec(net, v, right, left)
        } else {
            Ok(net)
        }
    }
}

/// The net after cut elimination: as long as the net has a cut, a step is
/// taken at its first cut. A step that does not make the net smaller ends the
/// elimination with that cut as irreducible.
pub open spec fn reduce_spec(net: NetView) -> Result<NetView, ErrorView>
    decreases net.vertices.len(),
{
    if net.cuts().len() == 0 {
        Ok(net)
    } else {
        match reduce_cut_spec(net, net.cuts()[0]) {
            Err(e) => Err(e),
            Ok(next) => if next.vertices.len() < net.vertices.len() {
                reduce_spec(next)
            } else {
                Err(ErrorView::Irreducible(net.cuts()[0]))
            },
        }
    }
}

/// Removing a vertex does not raise the greatest number of a net.
pub proof fn lemma_remove_vertex_max_id(net: NetView, l: LabelView)
    requires
        net.wf(),
    ensures
        net.remove_vertex(l).max_id() <= net.max_id(),
{
    net.lemma_max_id();
    net.lemma_remove_vertex(l);
    let r = net.remove_vertex(l);
    lemma_filter_members(net.vertices, is_not(l));
    assert forall|i: int| 0 <= i < r.vertices.len() implies (#[trigger] r.vertices[i]).id
        <= net.max_id() by {
        assert(r.vertices.contains(r.vertices[i]));
        let j = choose|j: int| 0 <= j < net.vertices.len() && net.vertices[j] == r.vertices[i];
    }
    lemma_max_id_least(r.vertices, net.max_id());
}

/// A new cut between two wires adds one vertex and two edges.
pub proof fn lemma_cut_between(net: NetView, left: EdgeView, right: EdgeView)
    requires
        net.wf(),
        net.max_id() < i32::MAX,
    ensures
        cut_between(net, left, right) matches Ok(n) ==> {
            &&& n.wf()
            &&& n.max_id() == net.max_id() + 1
            &&& n.vertices == net.vertices.push(net.fresh(RuleLabel::Cut))
            &&& n.edges.len() == net.edges.len() + 2
        },
{
    net.lemma_add_fresh(RuleLabel::Cut);
}

/// A step of cut elimination keeps a net well formed. Where it changes the
/// net, the net loses at least one vertex, and its greatest number rises by at
/// most two for each vertex lost.
pub proof fn lemma_reduce_cut_spec(net: NetView, v: LabelView)
    requires
        net.wf(),
        net.max_id() + 2 <= i32::MAX,
    ensures
        reduce_cut_spec(net, v) matches Ok(n) ==> {
            &&& n.wf()
            &&& n == net || n.vertices.len() < net.vertices.len()
            &&& n.max_id() + 2 * n.vertices.len() <= net.max_id() + 2 * net.vertices.len()
        },
{
    if reduce_cut_spec(net, v) is Ok {
        let premises = net.incoming(v);
        let left = premises[0];
        let right = premises[1];
        if left.from.rule == RuleLabel::Ax {
            lemma_remove_ax_spec(net, left, right, v);
        } else if right.from.rule == RuleLabel::Ax {
            lemma_remove_ax_spec(net, right, left, v);
        } else if left.from.rule == RuleLabel::Tensor && right.from.rule == RuleLabel::Par {
            lemma_remove_par_tensor_spec(net, v, left, right);
        } else if left.from.rule == RuleLabel::Par && right.from.rule == RuleLabel::Tensor {
            lemma_remove_par_tensor_spec(net, v, right, left);
        }
    }
}

/// Eliminating a cut against an axiom keeps a net well formed and takes two
/// vertices away.
pub proof fn lemma_remove_ax_spec(net: NetView, ax_edge: EdgeView, other_edge: EdgeView, v: LabelView)
    requires
        net.wf(),
    ensures
        remove_ax_spec(net, ax_edge, other_edge, v) matches Ok(n) ==> {
            &&& n.wf()
            &&& n.vertices.len() + 2 == net.vertices.len()
            &&& n.max_id() <= net.max_id()
        },
{
    let ax = ax_edge.from;
    let n1 = net.remove_vertex(v);
    net.lemma_remove_vertex(v);
    lemma_remove_vertex_max_id(net, v);
    n1.lemma_remove_vertex(ax);
    lemma_remove_vertex_max_id(n1, ax);
}

/// Eliminating a cut between a tensor and a par keeps a net well formed,
/// takes three vertices away and adds two.
pub proof fn lemma_remove_par_tensor_spec(
    net: NetView,
    v: LabelView,
    tensor_edge: EdgeView,
    par_edge: EdgeView,
)
    requires
        net.wf(),
        net.max_id() + 2 <= i32::MAX,
    ensures
        remove_par_tensor_spec(net, v, tensor_edge, par_edge) matches Ok(n) ==> {
            &&& n.wf()
            &&& n.vertices.len() + 1 == net.vertices.len()
            &&& n.max_id() <= net.max_id() + 2
        },
{
    let tensor = tensor_edge.from;
    let par = par_edge.from;
    if remove_par_tensor_spec(net, v, tensor_edge, par_edge) is Ok {
        let tensor_in = net.incoming(tensor);
        let par_in = net.incoming(par);
        let pair = pairing(tensor_in[0], tensor_in[1], par_in[0], par_in[1])->0;
        let n1 = net.remove_vertex(tensor);
        let n2 = n1.remove_vertex(par);
        let n3 = n2.remove_vertex(v);
        net.lemma_remove_vertex(tensor);
        lemma_remove_vertex_max_id(net, tensor);
        n1.lemma_remove_vertex(par);
        lemma_remove_vertex_max_id(n1, par);
        n2.lemma_remove_vertex(v);
        lemma_remove_vertex_max_id(n2, v);
        lemma_cut_between(n3, tensor_in[0], pair.0);
        let n4 = cut_between(n3, tensor_in[0], pair.0)->Ok_0;
        lemma_cut_between(n4, tensor_in[1], pair.1);
    }
}

/// Draws a new cut vertex that the wires `left` and `right` lead into.
fn add_cut_between(net: &mut ProofStructure, left: &Edge, right: &Edge) -> (res: Result<(), Error>)
    requires
        old(net)@.max_id() < i32::MAX,
    ensures
        match res {
            Ok(()) => cut_between(old(net)@, left@, right@) == Ok::<NetView, ErrorView>(
                final(net)@,
            ),
            Err(e) => {
                &&& cut_between(old(net)@, left@, right@) == Err::<NetView, ErrorView>(e@)
                &&& final(net)@ == cut_between_remains(old(net)@, left@, right@)
            },
        },
{
    proof {
        use_type_invariant(&*net);
        net@.lemma_add_fresh(RuleLabel::Cut);
    }
    let label = net.fresh_label(RuleLabel::Cut);
    let cut = match net.add_vertex(label) {
        Ok(v) => v,
        Err(e) => {
            return Err(e);
        },
    };
    match net.add_edge(&left.from.label, &cut.label, left.label.clone()) {
        Ok(_) => {},
        Err(e) => {
            return Err(e);
        },
    }
    match net.add_edge(&right.from.label, &cut.label, right.label.clone()) {
        Ok(_) => {},
        Err(e) => {
            return Err(e);
        },
    }
    Ok(())
}

/// Eliminates the cut `v` against an axiom: `ax_edge` is the wire from the
/// axiom into the cut, `other_edge` the other wire into the cut.
pub fn remove_ax(net: &mut ProofStructure, ax_edge: &Edge, other_edge: &Edge, v: Vertex) -> (res:
    Result<(), Error>)
    ensures
        match res {
            Ok(()) => remove_ax_spec(old(net)@, ax_edge@, other_edge@, v@) == Ok::<
                NetView,
                ErrorView,
            >(final(net)@),
            Err(e) => {
                &&& remove_ax_spec(old(net)@, ax_edge@, other_edge@, v@) == Err::<
                    NetView,
                    ErrorView,
                >(e@)
                &&& final(net)@ == remove_ax_remains(old(net)@, ax_edge@, other_edge@, v@)
            },
        },
{
    let ax_label = ax_edge.from.label;
    let ax_edges = match net.get_outgoing(&ax_label) {
        Ok(es) => es,
        Err(e) => {
            return Err(e);
        },
    };
    let ghost p = not_into(v@);
    let ghost out = net@.outgoing(ax_label@);
    let mut next: Option<Edge> = None;
    let mut i: usize = 0;
    while i < ax_edges.len() && next.is_none()
        invariant
            i <= ax_edges.len(),
            p == not_into(v@),
            out == edges_view(ax_edges@),
            match next {
                None => out.take(i as int).filter(p).len() == 0,
                Some(e) => out.filter(p).len() > 0 && out.filter(p)[0] == e@,
            },
        decreases ax_edges.len() - i + if next is None { 1int } else { 0int },
    {
        proof {
            lemma_filter_take_step(out, i as int, p);
            assert(out[i as int] == ax_edges@[i as int]@);
            ax_edges@[i as int].to.label.lemma_view_injective(v.label);
        }
        if !(ax_edges[i].to.label == v.label) {
            next = Some(ax_edges[i].clone());
            proof {
                lemma_filter_prefix(out, i as int + 1, p);
            }
        }
        i += 1;
    }
    let next_edge = match next {
        Some(e) => e,
        None => {
            assert(out.take(i as int) =~= out);
            return Err(Error::MissingConclusion);
        },
    };
    match net.remove_vertex(&v.label) {
        Ok(()) => {},
        Err(e) => {
            return Err(e);
        },
    }
    match net.remove_vertex(&ax_label) {
        Ok(()) => {},
        Err(e) => {
            return Err(e);
        },
    }
    match net.add_edge(&other_edge.from.label, &next_edge.to.label, next_edge.label) {
        Ok(_) => Ok(()),
        Err(e) => Err(e),
    }
}

/// The first item that passes a filter of a prefix is the first item that
/// passes the filter of the whole sequence.
pub proof fn lemma_filter_prefix<A>(s: Seq<A>, n: int, p: spec_fn(A) -> bool)
    requires
        0 <= n <= s.len(),
        s.take(n).filter(p).len() > 0,
    ensures
        s.filter(p).len() > 0,
        s.filter(p)[0] == s.take(n).filter(p)[0],
{
    assert(s =~= s.take(n) + s.skip(n));
    Seq::filter_distributes_over_add(s.take(n), s.skip(n), p);
}

/// Eliminates the cut `v` between a tensor and a par: `tensor_edge` is the
/// wire from the tensor into the cut, `par_edge` the wire from the par.
pub fn remove_par_tensor(net: &mut ProofStructure, v: Vertex, tensor_edge: &Edge, par_edge: &Edge)
    -> (res: Result<(), Error>)
    requires
        old(net)@.max_id() + 2 <= i32::MAX,
    ensures
        match res {
            Ok(()) => remove_par_tensor_spec(old(net)@, v@, tensor_edge@, par_edge@) == Ok::<
                NetView,
                ErrorView,
            >(final(net)@),
            Err(e) => {
                &&& remove_par_tensor_spec(old(net)@, v@, tensor_edge@, par_edge@) == Err::<
                    NetView,
                    ErrorView,
                >(e@)
                &&& final(net)@ == remove_par_tensor_remains(
                    old(net)@,
                    v@,
                    tensor_edge@,
                    par_edge@,
                )
            },
        },
{
    let tensor_label = tensor_edge.from.label;
    let tensor_previous = match net.get_incoming(&tensor_label) {
        Ok(es) => es,
        Err(e) => {
            return Err(e);
        },
    };
    if tensor_previous.len() != 2 {
        return Err(Error::BadProof);
    }
    let par_label = par_edge.from.label;
    let par_previous = match net.get_incoming(&par_label) {
        Ok(es) => es,
        Err(e) => {
            return Err(e);
        },
    };
    if par_previous.len() != 2 {
        return Err(Error::BadProof);
    }
    let tensor_left = &tensor_previous[0];
    let tensor_right = &tensor_previous[1];
    let par_left = &par_previous[0];
    let par_right = &par_previous[1];
    proof {
        assert(edges_view(tensor_previous@)[0] == tensor_left@);
        assert(edges_view(tensor_previous@)[1] == tensor_right@);
        assert(edges_view(par_previous@)[0] == par_left@);
        assert(edges_view(par_previous@)[1] == par_right@);
    }
    let left_dual = tensor_left.label.dual();
    let right_dual = tensor_right.label.dual();
    let (for_left, for_right) = if left_dual == par_left.label && right_dual == par_right.label {
        (par_left, par_right)
    } else if left_dual == par_right.label && right_dual == par_left.label {
        (par_right, par_left)
    } else {
        return Err(Error::BadProof);
    };
    proof {
        use_type_invariant(&*net);
        let n1 = net@.remove_vertex(tensor_label@);
        let n2 = n1.remove_vertex(par_label@);
        let n3 = n2.remove_vertex(v@);
        net@.lemma_remove_vertex(tensor_label@);
        lemma_remove_vertex_max_id(net@, tensor_label@);
        n1.lemma_remove_vertex(par_label@);
        lemma_remove_vertex_max_id(n1, par_label@);
        n2.lemma_remove_vertex(v@);
        lemma_remove_vertex_max_id(n2, v@);
        lemma_cut_between(n3, tensor_left@, for_left@);
    }
    match net.remove_vertex(&tensor_label) {
        Ok(()) => {},
        Err(e) => {
            return Err(e);
        },
    }
    match net.remove_vertex(&par_label) {
        Ok(()) => {},
        Err(e) => {
            return Err(e);
        },
    }
    match net.remove_vertex(&v.label) {
        Ok(()) => {},
        Err(e) => {
            return Err(e);
        },
    }
    match add_cut_between(net, tensor_left, for_left) {
        Ok(()) => {},
        Err(e) => {
            return Err(e);
        },
    }
    add_cut_between(net, tensor_right, for_right)
}

/// Takes one step of cut elimination at the vertex `v`.
pub fn reduce_cut(net: &mut ProofStructure, v: Vertex) -> (res: Result<(), Error>)
    requires
        old(net)@.max_id() + 2 <= i32::MAX,
    ensures
        match res {
            Ok(()) => reduce_cut_spec(old(net)@, v@) == Ok::<NetView, ErrorView>(final(net)@),
            Err(e) => {
                &&& reduce_cut_spec(old(net)@, v@) == Err::<NetView, ErrorView>(e@)
                &&& final(net)@ == reduce_cut_remains(old(net)@, v@)
            },
        },
{
    let label = v.label;
    if label.kind() != RuleLabel::Cut {
        return Err(Error::WrongLabel { found: label.kind(), expected: RuleLabel::Cut });
    }
    let premises = match net.get_incoming(&label) {
        Ok(es) => es,
        Err(e) => {
            return Err(e);
        },
    };
    if premises.len() != 2 {
        return Err(Error::BadProof);
    }
    let left = &premises[0];
    let right = &premises[1];
    proof {
        assert(edges_view(premises@)[0] == left@);
        assert(edges_view(premises@)[1] == right@);
    }
    let left_rule = left.from.label.kind();
    let right_rule = right.from.label.kind();
    if left_rule == RuleLabel::Ax {
        remove_ax(net, left, right, v)
    } else if right_rule == RuleLabel::Ax {
        remove_ax(net, right, left, v)
    } else if left_rule == RuleLabel::Tensor && right_rule == RuleLabel::Par {
        remove_par_tensor(net, v, left, right)
    } else if left_rule == RuleLabel::Par && right_rule == RuleLabel::Tensor {
        remove_par_tensor(net, v, right, left)
    } else {
        Ok(())
    }
}

/// Eliminates the cuts of `net`, one step at its first cut after another,
/// until no cut is left or a cut is met that no step removes.
pub fn reduce(net: &mut ProofStructure) -> (res: Result<(), Error>)
    requires
        old(net)@.max_id() + 2 * old(net)@.vertices.len() <= i32::MAX,
    ensures
        match res {
            Ok(()) => {
                &&& reduce_spec(old(net)@) == Ok::<NetView, ErrorView>(final(net)@)
                &&& final(net)@.cuts().len() == 0
            },
            Err(e) => {
                &&& reduce_spec(old(net)@) == Err::<NetView, ErrorView>(e@)
                &&& final(net)@ == reduce_remains(old(net)@)
            },
        },
{
    loop
        invariant
            net@.max_id() + 2 * net@.vertices.len() <= i32::MAX,
            reduce_spec(net@) == reduce_spec(old(net)@),
            reduce_remains(net@) == reduce_remains(old(net)@),
        decreases net@.vertices.len(),
    {
        let cuts = net.get_cuts();
        if cuts.len() == 0 {
            return Ok(());
        }
        let next_cut = cuts[0];
        let before: usize = net.vertex_count();
        proof {
            use_type_invariant(&*net);
            assert(net@.cuts()[0] == next_cut@);
            lemma_reduce_cut_spec(net@, next_cut@);
        }
        match reduce_cut(net, next_cut) {
            Ok(()) => {},
            Err(e) => {
                return Err(e);
            },
        }
        if net.vertex_count() >= before {
            return Err(Error::Irreducible(next_cut.label));
        }
    }
}

/// Eliminates the cuts of `net` as `reduce` does, unless the numbers of
/// the machine might not suffice for the new cut vertices; then the net stays
/// as it is.
pub fn try_reduce(net: &mut ProofStructure) -> (res: Option<Result<(), Error>>)
    ensures
        match res {
            None => {
                &&& old(net)@.max_id() + 2 * old(net)@.vertices.len() > i32::MAX
                &&& final(net)@ == old(net)@
            },
            Some(Ok(())) => {
                &&& reduce_spec(old(net)@) == Ok::<NetView, ErrorView>(final(net)@)
                &&& final(net)@.cuts().len() == 0
            },
            Some(Err(e)) => {
                &&& reduce_spec(old(net)@) == Err::<NetView, ErrorView>(e@)
                &&& final(net)@ == reduce_remains(old(net)@)
            },
        },
{
    let max: i32 = net.max_number();
    let count: usize = net.vertex_count();
    if count <= 1073741823 && 2 * (count as i64) + (max as i64) <= 2147483647 {
        Some(reduce(net))
    } else {
        None
    }
}

} // verus!
