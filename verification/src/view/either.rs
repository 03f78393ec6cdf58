//! Alternatives: a view that is one of two, with a marker behind it that
//! keeps its place while one alternative gives way to the other.

use super::shape::Shape;
use super::{anchor_of, mount_node, node_anchor, saturating_sum, unmount_node};
use super::{Mountable, Position, PositionState, Render, RenderHtml};
use crate::renderer::model::{DomView, NodeId, NodeKind};
use crate::renderer::Renderer;
use crate::ssr::{StreamBuilder, StreamView};
use crate::hydration::{placeholder_step, Cursor, HydrationMismatch};
use super::lemma_first_mounted_concat;
use vstd::prelude::*;

verus! {

/// One of two.
pub enum Either<A, B> {
    Left(A),
    Right(B),
}

/// View state for an alternative: the state of the one that is shown, and
/// the marker that stands behind it.
pub struct EitherState<A: Render<R>, B: Render<R>, R: Renderer> {
    pub state: Either<A::State, B::State>,
    pub marker: R::Placeholder,
}

impl<A: Render<R>, B: Render<R>, R: Renderer> EitherState<A, B, R> {
    /// The nodes of the alternative that is shown, without the marker.
    pub open spec fn branch_nodes(&self) -> Seq<NodeId> {
        match self.state {
            Either::Left(state) => state.nodes(),
            Either::Right(state) => state.nodes(),
        }
    }
}

impl<A: Render<R>, B: Render<R>, R: Renderer> Mountable<R> for EitherState<A, B, R> {
    open spec fn shape(&self) -> Shape {
        match self.state {
            Either::Left(state) => Shape::Left(Box::new(state.shape())),
            Either::Right(state) => Shape::Right(Box::new(state.shape())),
        }
    }

    open spec fn nodes(&self) -> Seq<NodeId> {
        self.branch_nodes() + seq![R::placeholder_id(&self.marker)]
    }

    fn unmount(&self, rndr: &mut R) {
        proof {
            rndr.dom().lemma_detach_all_concat(
                self.branch_nodes(),
                seq![R::placeholder_id(&self.marker)],
            );
            rndr.dom().lemma_detachments_concat(
                self.branch_nodes(),
                seq![R::placeholder_id(&self.marker)],
            );
        }
        match &self.state {
            Either::Left(state) => state.unmount(rndr),
            Either::Right(state) => state.unmount(rndr),
        }
        unmount_node(rndr, &R::placeholder_node(&self.marker));
    }

    fn mount(&self, rndr: &mut R, parent: &R::Element, marker: Option<&R::Node>) {
        let ghost dom = rndr.dom();
        let ghost pid = R::element_id(parent);
        let ghost mid = crate::renderer::anchor_id::<R>(marker);
        let ghost own = seq![R::placeholder_id(&self.marker)];
        proof {
            dom.lemma_insert_all_concat(pid, self.branch_nodes(), own, mid);
            super::tuples::lemma_can_insert_split(dom, pid, self.branch_nodes(), own, mid);
        }
        match &self.state {
            Either::Left(state) => state.mount(rndr, parent, marker),
            Either::Right(state) => state.mount(rndr, parent, marker),
        }
        mount_node(rndr, &R::placeholder_node(&self.marker), parent, marker);
    }

    fn anchor_node(&self, rndr: &R) -> (node: Option<R::Node>) {
        proof {
            lemma_first_mounted_concat(
                rndr.dom(),
                self.branch_nodes(),
                seq![R::placeholder_id(&self.marker)],
            );
        }
        let first = match &self.state {
            Either::Left(state) => state.anchor_node(rndr),
            Either::Right(state) => state.anchor_node(rndr),
        };
        match first {
            Some(n) => Some(n),
            None => anchor_of(rndr, R::placeholder_node(&self.marker)),
        }
    }
}

impl<A: Render<R>, B: Render<R>, R: Renderer> Render<R> for Either<A, B> {
    type State = EitherState<A, B, R>;

    open spec fn shape(&self) -> Shape {
        match self {
            Either::Left(value) => Shape::Left(Box::new(value.shape())),
            Either::Right(value) => Shape::Right(Box::new(value.shape())),
        }
    }

    /// An alternative builds its marker, and then itself.
    open spec fn built(&self, before: DomView, state: &EitherState<A, B, R>, after: DomView) -> bool {
        let marker = R::placeholder_id(&state.marker);
        &&& !before.contains(marker)
        &&& match (*self, state.state) {
            (Either::Left(value), Either::Left(inner)) => value.built(
                before.create(marker, NodeKind::Placeholder),
                &inner,
                after,
            ),
            (Either::Right(value), Either::Right(inner)) => value.built(
                before.create(marker, NodeKind::Placeholder),
                &inner,
                after,
            ),
            _ => false,
        }
    }

    /// The marker stays. The same alternative as before is a rebuild of
    /// that alternative. The other alternative is built, of new nodes and
    /// without touching what was there, and goes in front of the marker,
    /// from where the nodes of the alternative that was shown are taken
    /// out.
    open spec fn rebuilt(
        &self,
        shown: &EitherState<A, B, R>,
        before: DomView,
        state: &EitherState<A, B, R>,
        after: DomView,
    ) -> bool {
        let marker = R::placeholder_id(&shown.marker);
        &&& state.marker == shown.marker
        &&& match (*self, shown.state, state.state) {
            (Either::Left(value), Either::Left(old), Either::Left(new)) => value.rebuilt(
                &old,
                before,
                &new,
                after,
            ),
            (Either::Right(value), Either::Right(old), Either::Right(new)) => value.rebuilt(
                &old,
                before,
                &new,
                after,
            ),
            (Either::Left(value), Either::Right(old), Either::Left(new)) => exists|built: DomView| #[trigger]
                value.built(before, &new, built) && built.wf() && before.kept_by(built)
                    && built.fresh(before, new.nodes()) && new.nodes().no_duplicates() && after
                    == built.swap_in(node_anchor(before, marker), new.nodes(), old.nodes()),
            (Either::Right(value), Either::Left(old), Either::Right(new)) => exists|built: DomView| #[trigger]
                value.built(before, &new, built) && built.wf() && before.kept_by(built)
                    && built.fresh(before, new.nodes()) && new.nodes().no_duplicates() && after
                    == built.swap_in(node_anchor(before, marker), new.nodes(), old.nodes()),
            _ => false,
        }
    }

    fn demand(&self) -> (count: usize) {
        match self {
            Either::Left(value) => saturating_sum(value.demand(), 1),
            Either::Right(value) => saturating_sum(value.demand(), 1),
        }
    }

    fn build(self, rndr: &mut R) -> (state: EitherState<A, B, R>) {
        let ghost before = rndr.dom();
        let marker = rndr.create_placeholder();
        let ghost marked = rndr.dom();
        let state = match self {
            Either::Left(value) => EitherState { state: Either::Left(value.build(rndr)), marker },
            Either::Right(value) => EitherState { state: Either::Right(value.build(rndr)), marker },
        };
        proof {
            let post = rndr.dom();
            let nodes = state.nodes();
            assert(marked.contains(R::placeholder_id(&marker)));
            assert forall|id: NodeId| #[trigger] before.contains(id) implies post.contains(id)
                && post.nodes[id] == before.nodes[id] by {
                assert(marked.contains(id));
            }
        }
        state
    }

    /// The same alternative as before is handed on to that alternative.
    /// The other alternative is built and put in front of the marker, and
    /// the nodes of the alternative that goes are taken out.
    fn rebuild(self, state: &mut EitherState<A, B, R>, rndr: &mut R) {
        proof {
            match &self {
                Either::Left(new) => new.shape().lemma_mounted_demand(),
                Either::Right(new) => new.shape().lemma_mounted_demand(),
            }
        }
        let was_left = match &state.state {
            Either::Left(_) => true,
            Either::Right(_) => false,
        };
        match self {
            Either::Left(new) => {
                if was_left {
                    match &mut state.state {
                        Either::Left(old) => {
                            new.rebuild(old, rndr);
                        },
                        Either::Right(_) => {},
                    }
                } else {
                    let point = marker_point::<A, B, R>(state, rndr);
                    let new_state = new.build(rndr);
                    match point {
                        Some((parent, place)) => {
                            new_state.mount(rndr, &parent, Some(&place));
                        },
                        None => {},
                    }
                    match &state.state {
                        Either::Left(old) => old.unmount(rndr),
                        Either::Right(old) => old.unmount(rndr),
                    }
                    state.state = Either::Left(new_state);
                }
            },
            Either::Right(new) => {
                if !was_left {
                    match &mut state.state {
                        Either::Right(old) => {
                            new.rebuild(old, rndr);
                        },
                        Either::Left(_) => {},
                    }
                } else {
                    let point = marker_point::<A, B, R>(state, rndr);
                    let new_state = new.build(rndr);
                    match point {
                        Some((parent, place)) => {
                            new_state.mount(rndr, &parent, Some(&place));
                        },
                        None => {},
                    }
                    match &state.state {
                        Either::Left(old) => old.unmount(rndr),
                        Either::Right(old) => old.unmount(rndr),
                    }
                    state.state = Either::Right(new_state);
                }
            },
        }
    }
}

/// The place in front of the marker of an alternative: its parent and the
/// marker itself, where the marker stands under a parent.
pub fn marker_point<A: Render<R>, B: Render<R>, R: Renderer>(
    state: &EitherState<A, B, R>,
    rndr: &R,
) -> (point: Option<(R::Element, R::Node)>)
    requires
        crate::renderer::ready(rndr),
    ensures
        match point {
            Some((parent, before)) => {
                &&& R::node_id(&before) == R::placeholder_id(&state.marker)
                &&& rndr.dom().parent(R::node_id(&before)) == Some(R::element_id(&parent))
                &&& rndr.dom().is_element(R::element_id(&parent))
                &&& rndr.dom().children(R::element_id(&parent)).contains(R::node_id(&before))
            },
            None => rndr.dom().parent(R::placeholder_id(&state.marker)) is None,
        },
{
    let before = R::placeholder_node(&state.marker);
    match rndr.get_parent(&before) {
        Some(parent) => {
            match rndr.cast_element(parent) {
                Some(parent) => Some((parent, before)),
                None => None,
            }
        },
        None => None,
    }
}

impl<A: RenderHtml<R>, B: RenderHtml<R>, R: Renderer> RenderHtml<R> for Either<A, B> {
    open spec fn hydrated(
        &self,
        dom: DomView,
        at: NodeId,
        position: Position,
        from_server: bool,
        state: &EitherState<A, B, R>,
    ) -> bool {
        match (*self, state.state) {
            (Either::Left(value), Either::Left(inner)) => {
                &&& value.hydrated(dom, at, position, from_server, &inner)
                &&& value.shape().hydrated(dom, at, position, from_server) matches Some(walked)
                &&& placeholder_step(walked.dom, walked.at, walked.position) == Some(
                    R::placeholder_id(&state.marker),
                )
            },
            (Either::Right(value), Either::Right(inner)) => {
                &&& value.hydrated(dom, at, position, from_server, &inner)
                &&& value.shape().hydrated(dom, at, position, from_server) matches Some(walked)
                &&& placeholder_step(walked.dom, walked.at, walked.position) == Some(
                    R::placeholder_id(&state.marker),
                )
            },
            _ => false,
        }
    }

    fn to_html_with_buf(&self, buf: &mut String, position: &mut PositionState) {
        match self {
            Either::Left(value) => value.to_html_with_buf(buf, position),
            Either::Right(value) => value.to_html_with_buf(buf, position),
        }
        buf.append("<!>");
        position.set(Position::NextChild);
    }

    open spec fn streamed(
        &self,
        stream: StreamView,
        position: Position,
        out_of_order: bool,
    ) -> StreamView {
        (match self {
            Either::Left(value) => value.streamed(stream, position, out_of_order),
            Either::Right(value) => value.streamed(stream, position, out_of_order),
        }).pushed_sync("<!>"@)
    }

    fn to_html_async_with_buf<const OUT_OF_ORDER: bool>(
        &self,
        buf: &mut StreamBuilder,
        position: &mut PositionState,
    ) {
        match self {
            Either::Left(value) => value.to_html_async_with_buf::<OUT_OF_ORDER>(buf, position),
            Either::Right(value) => value.to_html_async_with_buf::<OUT_OF_ORDER>(buf, position),
        }
        buf.push_sync("<!>");
        position.set(Position::NextChild);
    }

    fn hydrate<const FROM_SERVER: bool>(
        self,
        rndr: &mut R,
        cursor: &mut Cursor<R>,
        position: &mut PositionState,
    ) -> (result: Result<EitherState<A, B, R>, HydrationMismatch>) {
        let state = match self {
            Either::Left(value) => match value.hydrate::<FROM_SERVER>(rndr, cursor, position) {
                Ok(state) => Either::Left(state),
                Err(mismatch) => {
                    return Err(mismatch);
                },
            },
            Either::Right(value) => match value.hydrate::<FROM_SERVER>(rndr, cursor, position) {
                Ok(state) => Either::Right(state),
                Err(mismatch) => {
                    return Err(mismatch);
                },
            },
        };
        // the marker stands behind the alternative
        if !cursor.advance(rndr, position.get()) {
            return Err(HydrationMismatch);
        }
        match rndr.cast_placeholder(cursor.current()) {
            Some(marker) => {
                position.set(Position::NextChild);
                Ok(EitherState { state, marker })
            },
            None => Err(HydrationMismatch),
        }
    }
}

/// One alternative that gives way to the other keeps its place.
///
/// Say that what is shown stands side by side under a parent, with its
/// marker behind it, and that a rebuild goes from one alternative to the
/// other. Then the other alternative stands exactly where the first
/// stood, in front of the same marker: the children in front and behind
/// have not moved, and what was shown is gone.
pub proof fn lemma_alternative_keeps_place<A: Render<R>, B: Render<R>, R: Renderer>(
    view: Either<A, B>,
    shown: EitherState<A, B, R>,
    state: EitherState<A, B, R>,
    before: DomView,
    after: DomView,
    parent: NodeId,
    head: Seq<NodeId>,
    tail: Seq<NodeId>,
)
    requires
        before.wf(),
        before.is_element(parent),
        before.children(parent) == head + shown.branch_nodes() + seq![
            R::placeholder_id(&shown.marker),
        ] + tail,
        (view is Left) != (shown.state is Left),
        view.rebuilt(&shown, before, &state, after),
    ensures
        state.marker == shown.marker,
        (state.state is Left) == (view is Left),
        after.wf(),
        after.children(parent) == head + state.branch_nodes() + seq![
            R::placeholder_id(&shown.marker),
        ] + tail,
{
    let marker = R::placeholder_id(&shown.marker);
    let children = before.children(parent);
    assert(children[(head + shown.branch_nodes()).len() as int] == marker);
    assert(children.contains(marker));
    assert(before.parent(marker) == Some(parent));
    match (view, shown.state, state.state) {
        (Either::Left(value), Either::Right(old), Either::Left(new)) => {
            let built = choose|built: DomView| #[trigger]
                value.built(before, &new, built) && built.wf() && before.kept_by(built)
                    && built.fresh(before, new.nodes()) && new.nodes().no_duplicates() && after
                    == built.swap_in(node_anchor(before, marker), new.nodes(), old.nodes());
            assert(before.contains(parent));
            built.lemma_swap_before_places(parent, head, old.nodes(), marker, tail, new.nodes());
        },
        (Either::Right(value), Either::Left(old), Either::Right(new)) => {
            let built = choose|built: DomView| #[trigger]
                value.built(before, &new, built) && built.wf() && before.kept_by(built)
                    && built.fresh(before, new.nodes()) && new.nodes().no_duplicates() && after
                    == built.swap_in(node_anchor(before, marker), new.nodes(), old.nodes());
            assert(before.contains(parent));
            built.lemma_swap_before_places(parent, head, old.nodes(), marker, tail, new.nodes());
        },
        _ => {},
    }
}

} // verus!
