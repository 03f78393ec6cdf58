//! Views side by side: the unit view, which shows nothing, and tuples,
//! which show their parts in order.

use super::shape::Shape;
use super::saturating_sum;
use super::{Mountable, Position, PositionState, Render, RenderHtml};
use crate::renderer::model::{DomView, NodeId};
use crate::renderer::Renderer;
use crate::ssr::{StreamBuilder, StreamView};
use crate::hydration::{Cursor, HydrationMismatch, Walked};
use super::lemma_first_mounted_concat;
use vstd::prelude::*;

verus! {

impl<R: Renderer> Mountable<R> for () {
    open spec fn shape(&self) -> Shape {
        Shape::Unit
    }

    open spec fn nodes(&self) -> Seq<NodeId> {
        Seq::empty()
    }

    fn unmount(&self, rndr: &mut R) {
    }

    fn mount(&self, rndr: &mut R, parent: &R::Element, marker: Option<&R::Node>) {
    }

    fn anchor_node(&self, rndr: &R) -> (node: Option<R::Node>) {
        None
    }
}

impl<R: Renderer> Render<R> for () {
    type State = ();

    open spec fn shape(&self) -> Shape {
        Shape::Unit
    }

    open spec fn built(&self, before: DomView, state: &(), after: DomView) -> bool {
        after == before
    }

    open spec fn rebuilt(&self, shown: &(), before: DomView, state: &(), after: DomView) -> bool {
        after == before
    }

    fn demand(&self) -> (count: usize) {
        0
    }

    fn build(self, rndr: &mut R) -> (state: ()) {
    }

    fn rebuild(self, state: &mut (), rndr: &mut R) {
    }
}

impl<R: Renderer> RenderHtml<R> for () {
    open spec fn hydrated(
        &self,
        dom: DomView,
        at: NodeId,
        position: Position,
        from_server: bool,
        state: &(),
    ) -> bool {
        true
    }

    fn to_html_with_buf(&self, buf: &mut String, position: &mut PositionState) {
    }

    open spec fn streamed(
        &self,
        stream: StreamView,
        position: Position,
        out_of_order: bool,
    ) -> StreamView {
        stream.pushed_sync(Shape::Unit.html(position))
    }

    fn to_html_async_with_buf<const OUT_OF_ORDER: bool>(
        &self,
        buf: &mut StreamBuilder,
        position: &mut PositionState,
    ) {
        let sync = buf.with_buf();
        RenderHtml::<R>::to_html_with_buf(self, sync, position);
    }

    fn hydrate<const FROM_SERVER: bool>(
        self,
        rndr: &mut R,
        cursor: &mut Cursor<R>,
        position: &mut PositionState,
    ) -> (result: Result<(), HydrationMismatch>) {
        Ok(())
    }
}

impl<R: Renderer, A: Mountable<R>, B: Mountable<R>> Mountable<R> for (A, B) {
    open spec fn shape(&self) -> Shape {
        Shape::Pair(Box::new(self.0.shape()), Box::new(self.1.shape()))
    }

    open spec fn nodes(&self) -> Seq<NodeId> {
        self.0.nodes() + self.1.nodes()
    }

    fn unmount(&self, rndr: &mut R) {
        proof {
            rndr.dom().lemma_detach_all_concat(self.0.nodes(), self.1.nodes());
            rndr.dom().lemma_detachments_concat(self.0.nodes(), self.1.nodes());
        }
        self.0.unmount(rndr);
        self.1.unmount(rndr);
    }

    fn mount(&self, rndr: &mut R, parent: &R::Element, marker: Option<&R::Node>) {
        let ghost dom = rndr.dom();
        let ghost pid = R::element_id(parent);
        let ghost mid = crate::renderer::anchor_id::<R>(marker);
        proof {
            dom.lemma_insert_all_concat(pid, self.0.nodes(), self.1.nodes(), mid);
            lemma_can_insert_split(dom, pid, self.0.nodes(), self.1.nodes(), mid);
            dom.lemma_insert_all(pid, self.0.nodes(), mid);
        }
        self.0.mount(rndr, parent, marker);
        self.1.mount(rndr, parent, marker);
    }

    fn anchor_node(&self, rndr: &R) -> (node: Option<R::Node>) {
        proof {
            lemma_first_mounted_concat(rndr.dom(), self.0.nodes(), self.1.nodes());
        }
        match self.0.anchor_node(rndr) {
            Some(n) => Some(n),
            None => self.1.anchor_node(rndr),
        }
    }
}

/// Where two lists of nodes may be inserted as one, the first may be
/// inserted, and the second after it.
pub proof fn lemma_can_insert_split(
    dom: DomView,
    parent: NodeId,
    first: Seq<NodeId>,
    second: Seq<NodeId>,
    anchor: Option<NodeId>,
)
    requires
        dom.wf(),
        dom.can_insert_all(parent, first + second, anchor),
    ensures
        dom.can_insert_all(parent, first, anchor),
        dom.insert_all(parent, first, anchor).can_insert_all(parent, second, anchor),
{
    let all = first + second;
    assert forall|x: NodeId| first.contains(x) || second.contains(x) implies all.contains(x) by {
        if first.contains(x) {
            let i = choose|i: int| 0 <= i < first.len() && first[i] == x;
            assert(all[i] == x);
        } else {
            let i = choose|i: int| 0 <= i < second.len() && second[i] == x;
            assert(all[first.len() + i] == x);
        }
    }
    assert forall|i: int| 0 <= i < first.len() implies dom.contains(#[trigger] first[i]) by {
        assert(all[i] == first[i]);
    }
    dom.lemma_insert_all(parent, first, anchor);
    let mid = dom.insert_all(parent, first, anchor);
    assert forall|i: int| 0 <= i < second.len() implies mid.contains(#[trigger] second[i]) by {
        assert(all[first.len() + i] == second[i]);
        assert(dom.contains(second[i]));
    }
    match anchor {
        Some(a) => {
        },
        None => {},
    }
}

impl<R: Renderer, A: Render<R>, B: Render<R>> Render<R> for (A, B) {
    type State = (A::State, B::State);

    open spec fn shape(&self) -> Shape {
        Shape::Pair(Box::new(self.0.shape()), Box::new(self.1.shape()))
    }

    open spec fn built(&self, before: DomView, state: &(A::State, B::State), after: DomView) -> bool {
        exists|mid: DomView| #[trigger]
            self.0.built(before, &state.0, mid) && self.1.built(mid, &state.1, after)
    }

    open spec fn rebuilt(
        &self,
        shown: &(A::State, B::State),
        before: DomView,
        state: &(A::State, B::State),
        after: DomView,
    ) -> bool {
        exists|mid: DomView| #[trigger]
            self.0.rebuilt(&shown.0, before, &state.0, mid) && self.1.rebuilt(
                &shown.1,
                mid,
                &state.1,
                after,
            )
    }

    fn demand(&self) -> (count: usize) {
        saturating_sum(self.0.demand(), self.1.demand())
    }

    fn build(self, rndr: &mut R) -> (state: (A::State, B::State)) {
        let (a, b) = self;
        let first = a.build(rndr);
        let second = b.build(rndr);
        (first, second)
    }

    fn rebuild(self, state: &mut (A::State, B::State), rndr: &mut R) {
        let (a, b) = self;
        a.rebuild(&mut state.0, rndr);
        b.rebuild(&mut state.1, rndr);
    }
}

impl<R: Renderer, A: RenderHtml<R>, B: RenderHtml<R>> RenderHtml<R> for (A, B) {
    open spec fn hydrated(
        &self,
        dom: DomView,
        at: NodeId,
        position: Position,
        from_server: bool,
        state: &(A::State, B::State),
    ) -> bool {
        &&& self.0.hydrated(dom, at, position, from_server, &state.0)
        &&& self.0.shape().hydrated(dom, at, position, from_server) matches Some(head)
        &&& self.1.hydrated(head.dom, head.at, head.position, from_server, &state.1)
    }

    fn to_html_with_buf(&self, buf: &mut String, position: &mut PositionState) {
        self.0.to_html_with_buf(buf, position);
        self.1.to_html_with_buf(buf, position);
    }

    open spec fn streamed(
        &self,
        stream: StreamView,
        position: Position,
        out_of_order: bool,
    ) -> StreamView {
        self.1.streamed(
            self.0.streamed(stream, position, out_of_order),
            self.0.shape().after(position),
            out_of_order,
        )
    }

    fn to_html_async_with_buf<const OUT_OF_ORDER: bool>(
        &self,
        buf: &mut StreamBuilder,
        position: &mut PositionState,
    ) {
        self.0.to_html_async_with_buf::<OUT_OF_ORDER>(buf, position);
        self.1.to_html_async_with_buf::<OUT_OF_ORDER>(buf, position);
    }

    fn hydrate<const FROM_SERVER: bool>(
        self,
        rndr: &mut R,
        cursor: &mut Cursor<R>,
        position: &mut PositionState,
    ) -> (result: Result<(A::State, B::State), HydrationMismatch>) {
        let (a, b) = self;
        let first = match a.hydrate::<FROM_SERVER>(rndr, cursor, position) {
            Ok(state) => state,
            Err(mismatch) => {
                return Err(mismatch);
            },
        };
        let second = match b.hydrate::<FROM_SERVER>(rndr, cursor, position) {
            Ok(state) => state,
            Err(mismatch) => {
                return Err(mismatch);
            },
        };
        Ok((first, second))
    }
}

impl<R: Renderer, A: Render<R>> Render<R> for (A,) {
    type State = A::State;

    open spec fn shape(&self) -> Shape {
        self.0.shape()
    }

    open spec fn built(&self, before: DomView, state: &A::State, after: DomView) -> bool {
        self.0.built(before, state, after)
    }

    open spec fn rebuilt(
        &self,
        shown: &A::State,
        before: DomView,
        state: &A::State,
        after: DomView,
    ) -> bool {
        self.0.rebuilt(shown, before, state, after)
    }

    fn demand(&self) -> (count: usize) {
        self.0.demand()
    }

    fn build(self, rndr: &mut R) -> (state: A::State) {
        self.0.build(rndr)
    }

    fn rebuild(self, state: &mut A::State, rndr: &mut R) {
        self.0.rebuild(state, rndr)
    }
}

impl<R: Renderer, A: RenderHtml<R>> RenderHtml<R> for (A,) {
    open spec fn hydrated(
        &self,
        dom: DomView,
        at: NodeId,
        position: Position,
        from_server: bool,
        state: &A::State,
    ) -> bool {
        self.0.hydrated(dom, at, position, from_server, state)
    }

    fn to_html_with_buf(&self, buf: &mut String, position: &mut PositionState) {
        self.0.to_html_with_buf(buf, position);
    }

    open spec fn streamed(
        &self,
        stream: StreamView,
        position: Position,
        out_of_order: bool,
    ) -> StreamView {
        self.0.streamed(stream, position, out_of_order)
    }

    fn to_html_async_with_buf<const OUT_OF_ORDER: bool>(
        &self,
        buf: &mut StreamBuilder,
        position: &mut PositionState,
    ) {
        self.0.to_html_async_with_buf::<OUT_OF_ORDER>(buf, position);
    }

    fn hydrate<const FROM_SERVER: bool>(
        self,
        rndr: &mut R,
        cursor: &mut Cursor<R>,
        position: &mut PositionState,
    ) -> (result: Result<A::State, HydrationMismatch>) {
        self.0.hydrate::<FROM_SERVER>(rndr, cursor, position)
    }
}

/// What three shapes in a row come to: their counts add up, each is
/// written where the one before it ends, and each shows on the client what
/// it shows there alone.
pub proof fn lemma_triple(a: Shape, b: Shape, c: Shape, start: Position)
    ensures
        ({
            let rest = Shape::Pair(Box::new(b), Box::new(c));
            let all = Shape::Pair(Box::new(a), Box::new(rest));
            &&& all.demand() == a.demand() + b.demand() + c.demand()
            &&& all.width() == a.width() + b.width() + c.width()
            &&& all.texts() == a.texts() + b.texts() + c.texts()
            &&& all.build_calls() == a.build_calls() + b.build_calls() + c.build_calls()
            &&& all.html(start) == a.html(start) + (b.html(a.after(start)) + c.html(
                b.after(a.after(start)),
            ))
            &&& all.after(start) == c.after(b.after(a.after(start)))
            &&& all.mounted() == Shape::Pair(
                Box::new(a.mounted()),
                Box::new(Shape::Pair(Box::new(b.mounted()), Box::new(c.mounted()))),
            )
        }),
{
    let rest = Shape::Pair(Box::new(b), Box::new(c));
    assert(rest.demand() == b.demand() + c.demand());
    assert(rest.width() == b.width() + c.width());
    assert(rest.texts() == b.texts() + c.texts());
    assert(rest.build_calls() == b.build_calls() + c.build_calls());
    assert(rest.html(a.after(start)) == b.html(a.after(start)) + c.html(b.after(a.after(start))));
    assert(rest.after(a.after(start)) == c.after(b.after(a.after(start))));
    assert(rest.mounted() == Shape::Pair(Box::new(b.mounted()), Box::new(c.mounted())));
}

/// The walk over three shapes in a row takes each where the one before it
/// ended.
pub proof fn lemma_triple_hydrated(
    a: Shape,
    b: Shape,
    c: Shape,
    dom: DomView,
    at: NodeId,
    position: Position,
    from_server: bool,
)
    ensures
        ({
            let rest = Shape::Pair(Box::new(b), Box::new(c));
            let all = Shape::Pair(Box::new(a), Box::new(rest));
            all.hydrated(dom, at, position, from_server) == (match a.hydrated(
                dom,
                at,
                position,
                from_server,
            ) {
                Some(first) => match b.hydrated(
                    first.dom,
                    first.at,
                    first.position,
                    from_server,
                ) {
                    Some(second) => match c.hydrated(
                        second.dom,
                        second.at,
                        second.position,
                        from_server,
                    ) {
                        Some(third) => Some(
                            Walked {
                                dom: third.dom,
                                at: third.at,
                                position: third.position,
                                nodes: first.nodes + (second.nodes + third.nodes),
                            },
                        ),
                        None => None,
                    },
                    None => None,
                },
                None => None,
            })
        }),
{
    let rest = Shape::Pair(Box::new(b), Box::new(c));
    match a.hydrated(dom, at, position, from_server) {
        Some(first) => {
            assert(rest.hydrated(first.dom, first.at, first.position, from_server) == (match b.hydrated(
                first.dom,
                first.at,
                first.position,
                from_server,
            ) {
                Some(second) => match c.hydrated(
                    second.dom,
                    second.at,
                    second.position,
                    from_server,
                ) {
                    Some(third) => Some(
                        Walked {
                            dom: third.dom,
                            at: third.at,
                            position: third.position,
                            nodes: second.nodes + third.nodes,
                        },
                    ),
                    None => None,
                },
                None => None,
            }));
        },
        None => {},
    }
}

impl<R: Renderer, A: Mountable<R>, B: Mountable<R>, C: Mountable<R>> Mountable<R> for (A, B, C) {
    open spec fn shape(&self) -> Shape {
        Shape::Pair(
            Box::new(self.0.shape()),
            Box::new(Shape::Pair(Box::new(self.1.shape()), Box::new(self.2.shape()))),
        )
    }

    open spec fn nodes(&self) -> Seq<NodeId> {
        self.0.nodes() + (self.1.nodes() + self.2.nodes())
    }

    fn unmount(&self, rndr: &mut R) {
        let ghost dom = rndr.dom();
        proof {
            dom.lemma_detach_all_concat(self.0.nodes(), self.1.nodes() + self.2.nodes());
            dom.detach_all(self.0.nodes()).lemma_detach_all_concat(
                self.1.nodes(),
                self.2.nodes(),
            );
            dom.lemma_detachments_concat(self.0.nodes(), self.1.nodes() + self.2.nodes());
            dom.detach_all(self.0.nodes()).lemma_detachments_concat(
                self.1.nodes(),
                self.2.nodes(),
            );
        }
        self.0.unmount(rndr);
        self.1.unmount(rndr);
        self.2.unmount(rndr);
    }

    fn mount(&self, rndr: &mut R, parent: &R::Element, marker: Option<&R::Node>) {
        let ghost dom = rndr.dom();
        let ghost pid = R::element_id(parent);
        let ghost mid = crate::renderer::anchor_id::<R>(marker);
        let ghost rest = self.1.nodes() + self.2.nodes();
        proof {
            dom.lemma_insert_all_concat(pid, self.0.nodes(), rest, mid);
            lemma_can_insert_split(dom, pid, self.0.nodes(), rest, mid);
            dom.lemma_insert_all(pid, self.0.nodes(), mid);
            let first = dom.insert_all(pid, self.0.nodes(), mid);
            first.lemma_insert_all_concat(pid, self.1.nodes(), self.2.nodes(), mid);
            lemma_can_insert_split(first, pid, self.1.nodes(), self.2.nodes(), mid);
        }
        self.0.mount(rndr, parent, marker);
        self.1.mount(rndr, parent, marker);
        self.2.mount(rndr, parent, marker);
    }

    fn anchor_node(&self, rndr: &R) -> (node: Option<R::Node>) {
        proof {
            lemma_first_mounted_concat(
                rndr.dom(),
                self.0.nodes(),
                self.1.nodes() + self.2.nodes(),
            );
            lemma_first_mounted_concat(rndr.dom(), self.1.nodes(), self.2.nodes());
        }
        match self.0.anchor_node(rndr) {
            Some(n) => Some(n),
            None => match self.1.anchor_node(rndr) {
                Some(n) => Some(n),
                None => self.2.anchor_node(rndr),
            },
        }
    }
}

impl<R: Renderer, A: Render<R>, B: Render<R>, C: Render<R>> Render<R> for (A, B, C) {
    type State = (A::State, B::State, C::State);

    open spec fn shape(&self) -> Shape {
        Shape::Pair(
            Box::new(self.0.shape()),
            Box::new(Shape::Pair(Box::new(self.1.shape()), Box::new(self.2.shape()))),
        )
    }

    open spec fn built(
        &self,
        before: DomView,
        state: &(A::State, B::State, C::State),
        after: DomView,
    ) -> bool {
        exists|first: DomView, second: DomView|
            self.0.built(before, &state.0, first) && #[trigger] self.1.built(
                first,
                &state.1,
                second,
            ) && self.2.built(second, &state.2, after)
    }

    open spec fn rebuilt(
        &self,
        shown: &(A::State, B::State, C::State),
        before: DomView,
        state: &(A::State, B::State, C::State),
        after: DomView,
    ) -> bool {
        exists|first: DomView, second: DomView|
            self.0.rebuilt(&shown.0, before, &state.0, first) && #[trigger] self.1.rebuilt(
                &shown.1,
                first,
                &state.1,
                second,
            ) && self.2.rebuilt(&shown.2, second, &state.2, after)
    }

    fn demand(&self) -> (count: usize) {
        proof {
            lemma_triple(self.0.shape(), self.1.shape(), self.2.shape(), Position::Current);
        }
        saturating_sum(self.0.demand(), saturating_sum(self.1.demand(), self.2.demand()))
    }

    fn build(self, rndr: &mut R) -> (state: (A::State, B::State, C::State)) {
        proof {
            lemma_triple(self.0.shape(), self.1.shape(), self.2.shape(), Position::Current);
        }
        let (a, b, c) = self;
        let first = a.build(rndr);
        let second = b.build(rndr);
        let third = c.build(rndr);
        (first, second, third)
    }

    fn rebuild(self, state: &mut (A::State, B::State, C::State), rndr: &mut R) {
        proof {
            lemma_triple(self.0.shape(), self.1.shape(), self.2.shape(), Position::Current);
            let shown = Shape::Pair(Box::new(state.1.shape()), Box::new(state.2.shape()));
            let rest = Shape::Pair(
                Box::new(self.1.shape().mounted()),
                Box::new(self.2.shape().mounted()),
            );
            assert(shown.growth(rest) == state.1.shape().growth(self.1.shape().mounted())
                + state.2.shape().growth(self.2.shape().mounted()));
            assert(shown.retouches(rest) == (match (
                state.1.shape().retouches(self.1.shape().mounted()),
                state.2.shape().retouches(self.2.shape().mounted()),
            ) {
                (Some(one), Some(other)) => Some(one + other),
                _ => None,
            }));
        }
        let (a, b, c) = self;
        a.rebuild(&mut state.0, rndr);
        b.rebuild(&mut state.1, rndr);
        c.rebuild(&mut state.2, rndr);
    }
}

impl<R: Renderer, A: RenderHtml<R>, B: RenderHtml<R>, C: RenderHtml<R>> RenderHtml<R> for (
    A,
    B,
    C,
) {
    open spec fn hydrated(
        &self,
        dom: DomView,
        at: NodeId,
        position: Position,
        from_server: bool,
        state: &(A::State, B::State, C::State),
    ) -> bool {
        &&& self.0.hydrated(dom, at, position, from_server, &state.0)
        &&& self.0.shape().hydrated(dom, at, position, from_server) matches Some(head)
        &&& self.1.hydrated(head.dom, head.at, head.position, from_server, &state.1)
        &&& self.1.shape().hydrated(head.dom, head.at, head.position, from_server) matches Some(
            middle,
        )
        &&& self.2.hydrated(middle.dom, middle.at, middle.position, from_server, &state.2)
    }

    fn to_html_with_buf(&self, buf: &mut String, position: &mut PositionState) {
        self.0.to_html_with_buf(buf, position);
        self.1.to_html_with_buf(buf, position);
        self.2.to_html_with_buf(buf, position);
        proof {
            let start = old(position).get();
            lemma_triple(self.0.shape(), self.1.shape(), self.2.shape(), start);
        }
    }

    open spec fn streamed(
        &self,
        stream: StreamView,
        position: Position,
        out_of_order: bool,
    ) -> StreamView {
        self.2.streamed(
            self.1.streamed(
                self.0.streamed(stream, position, out_of_order),
                self.0.shape().after(position),
                out_of_order,
            ),
            self.1.shape().after(self.0.shape().after(position)),
            out_of_order,
        )
    }

    fn to_html_async_with_buf<const OUT_OF_ORDER: bool>(
        &self,
        buf: &mut StreamBuilder,
        position: &mut PositionState,
    ) {
        proof {
            lemma_triple(self.0.shape(), self.1.shape(), self.2.shape(), position.get());
        }
        self.0.to_html_async_with_buf::<OUT_OF_ORDER>(buf, position);
        self.1.to_html_async_with_buf::<OUT_OF_ORDER>(buf, position);
        self.2.to_html_async_with_buf::<OUT_OF_ORDER>(buf, position);
    }

    fn hydrate<const FROM_SERVER: bool>(
        self,
        rndr: &mut R,
        cursor: &mut Cursor<R>,
        position: &mut PositionState,
    ) -> (result: Result<(A::State, B::State, C::State), HydrationMismatch>) {
        proof {
            lemma_triple(self.0.shape(), self.1.shape(), self.2.shape(), position.get());
            lemma_triple_hydrated(
                self.0.shape(),
                self.1.shape(),
                self.2.shape(),
                rndr.dom(),
                cursor.at(),
                position.get(),
                FROM_SERVER,
            );
        }
        let (a, b, c) = self;
        let first = match a.hydrate::<FROM_SERVER>(rndr, cursor, position) {
            Ok(state) => state,
            Err(mismatch) => {
                return Err(mismatch);
            },
        };
        let second = match b.hydrate::<FROM_SERVER>(rndr, cursor, position) {
            Ok(state) => state,
            Err(mismatch) => {
                return Err(mismatch);
            },
        };
        let third = match c.hydrate::<FROM_SERVER>(rndr, cursor, position) {
            Ok(state) => state,
            Err(mismatch) => {
                return Err(mismatch);
            },
        };
        Ok((first, second, third))
    }
}

} // verus!
