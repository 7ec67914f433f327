pub mod ax;
pub mod conclusion;
pub mod cut;
pub mod par;
pub mod tensor;

pub use ax::AxLink;
pub use conclusion::ConclusionLink;
pub use cut::CutLink;
pub use par::ParLink;
pub use tensor::TensorLink;

use crate::proof_net::errors::{Error, ErrorView};
use crate::proof_net::net_view::{LabelView, NetView};
use crate::proof_net::proof_structure::{ProofStructure, Vertex};
use vstd::prelude::*;

verus! {

/// One of the five kinds of link that a net is made of.
pub enum ProofLink {
    AxLink(AxLink),
    CutLink(CutLink),
    TensorLink(TensorLink),
    ParLink(ParLink),
    ConclusionLink(ConclusionLink),
}

/// The vertices that a new link is wired to: those it starts from (`prev`)
/// and those it ends in (`next`).
pub struct AttachContext<'a> {
    pub prev_left: Option<&'a Vertex>,
    pub prev_right: Option<&'a Vertex>,
    pub next_left: Option<&'a Vertex>,
    pub next_right: Option<&'a Vertex>,
}

/// The mathematical content of an [`AttachContext`].
pub struct ContextView {
    pub prev_left: Option<LabelView>,
    pub prev_right: Option<LabelView>,
    pub next_left: Option<LabelView>,
    pub next_right: Option<LabelView>,
}

impl ContextView {
    /// The context that names no vertex.
    pub open spec fn empty() -> ContextView {
        ContextView { prev_left: None, prev_right: None, next_left: None, next_right: None }
    }
}

/// The label of a vertex that may be absent.
pub open spec fn label_of(v: Option<&Vertex>) -> Option<LabelView> {
    match v {
        Some(v) => Some(v@),
        None => None,
    }
}

impl<'a> View for AttachContext<'a> {
    type V = ContextView;

    open spec fn view(&self) -> ContextView {
        ContextView {
            prev_left: label_of(self.prev_left),
            prev_right: label_of(self.prev_right),
            next_left: label_of(self.next_left),
            next_right: label_of(self.next_right),
        }
    }
}

impl<'a> Default for AttachContext<'a> {
    fn default() -> (res: AttachContext<'a>)
        ensures
            res@ == ContextView::empty(),
    {
        AttachContext { prev_left: None, prev_right: None, next_left: None, next_right: None }
    }
}

/// A link that can be added to a net.
pub trait AttachToNet: Sized {
    /// How many vertices the link adds under the context `ctx`.
    spec fn new_vertices(&self, ctx: ContextView) -> nat;

    /// The net that results from adding the link to `net` under `ctx`, or the
    /// reason why the link cannot be added.
    spec fn attached(&self, net: NetView, ctx: ContextView) -> Result<NetView, ErrorView>;

    /// The net that is left where the link cannot be added to `net` under
    /// `ctx`: `net` itself where the context lacks a vertex that the link
    /// needs, and else `net` with the part of the link that was added before a
    /// vertex of the context was found to be missing from the net.
    spec fn remains(&self, net: NetView, ctx: ContextView) -> NetView;

    /// Adds the link to `net`. Where this fails, `net` is left as `remains`
    /// says.
    fn attach(self, net: &mut ProofStructure, ctx: AttachContext) -> (res: Result<(), Error>)
        requires
            old(net)@.max_id() + self.new_vertices(ctx@) <= i32::MAX,
        ensures
            match res {
                Ok(()) => self.attached(old(net)@, ctx@) == Ok::<NetView, ErrorView>(final(net)@),
                Err(e) => {
                    &&& self.attached(old(net)@, ctx@) == Err::<NetView, ErrorView>(e@)
                    &&& final(net)@ == self.remains(old(net)@, ctx@)
                },
            },
    ;
}

} // verus!
