//! Text: string slices and owned strings are shown as text nodes.

use super::shape::Shape;
use super::{anchor_of, mount_node, unmount_node};
use super::{Mountable, Position, PositionState, Render, RenderHtml};
use crate::text::same_text;
use crate::renderer::model::{DomView, NodeId, NodeKind};
use crate::renderer::Renderer;
use crate::ssr::{StreamBuilder, StreamView};
use crate::hydration::{hydrate_text, text_step, Cursor, HydrationMismatch};
use vstd::prelude::*;

verus! {

/// The state of a string slice: its text node and the text it holds.
pub struct StrState<'a, R: Renderer> {
    pub node: R::Text,
    pub str: &'a str,
}

/// The state of an owned string: its text node and the text it holds.
pub struct StringState<R: Renderer> {
    pub node: R::Text,
    pub str: String,
}

impl<'a, R: Renderer> Mountable<R> for StrState<'a, R> {
    open spec fn shape(&self) -> Shape {
        Shape::Text(self.str@)
    }

    open spec fn nodes(&self) -> Seq<NodeId> {
        seq![R::text_id(&self.node)]
    }

    fn unmount(&self, rndr: &mut R) {
        unmount_node(rndr, &R::text_node(&self.node));
    }

    fn mount(&self, rndr: &mut R, parent: &R::Element, marker: Option<&R::Node>) {
        mount_node(rndr, &R::text_node(&self.node), parent, marker);
    }

    fn anchor_node(&self, rndr: &R) -> (node: Option<R::Node>) {
        anchor_of(rndr, R::text_node(&self.node))
    }
}

impl<R: Renderer> Mountable<R> for StringState<R> {
    open spec fn shape(&self) -> Shape {
        Shape::Text(self.str@)
    }

    open spec fn nodes(&self) -> Seq<NodeId> {
        seq![R::text_id(&self.node)]
    }

    fn unmount(&self, rndr: &mut R) {
        unmount_node(rndr, &R::text_node(&self.node));
    }

    fn mount(&self, rndr: &mut R, parent: &R::Element, marker: Option<&R::Node>) {
        mount_node(rndr, &R::text_node(&self.node), parent, marker);
    }

    fn anchor_node(&self, rndr: &R) -> (node: Option<R::Node>) {
        anchor_of(rndr, R::text_node(&self.node))
    }
}

/// Appends a text to `buf`, set off from a text that stands before it.
pub fn text_to_html(text: &str, buf: &mut String, position: &mut PositionState)
    ensures
        final(buf)@ == old(buf)@ + Shape::Text(text@).html(old(position).get()),
        final(position).get() == Position::NextChildAfterText,
{
    // a marker parts this text from a text before it
    if position.get() == Position::NextChildAfterText {
        buf.append("<!>");
    }
    buf.append(text);
    position.set(Position::NextChildAfterText);
}

impl<'a, R: Renderer> Render<R> for &'a str {
    type State = StrState<'a, R>;

    open spec fn shape(&self) -> Shape {
        Shape::Text(self@)
    }

    fn demand(&self) -> (count: usize) {
        1
    }

    open spec fn built(&self, before: DomView, state: &StrState<'a, R>, after: DomView) -> bool {
        &&& !before.contains(R::text_id(&state.node))
        &&& after == before.create(R::text_id(&state.node), NodeKind::Text(self@))
        &&& state.str@ == self@
    }

    open spec fn rebuilt(
        &self,
        shown: &StrState<'a, R>,
        before: DomView,
        state: &StrState<'a, R>,
        after: DomView,
    ) -> bool {
        &&& state.node == shown.node
        &&& state.str@ == self@
        &&& after == (if shown.str@ == self@ {
            before
        } else {
            before.set_text(R::text_id(&shown.node), self@)
        })
    }

    fn build(self, rndr: &mut R) -> (state: StrState<'a, R>) {
        let node = rndr.create_text_node(self);
        let state = StrState { node, str: self };
        state
    }

    fn rebuild(self, state: &mut StrState<'a, R>, rndr: &mut R) {
        if !same_text(self, state.str) {
            rndr.set_text(&state.node, self);
            state.str = self;
        }
    }
}

impl<'a, R: Renderer> RenderHtml<R> for &'a str {
    open spec fn hydrated(
        &self,
        dom: DomView,
        at: NodeId,
        position: Position,
        from_server: bool,
        state: &StrState<'a, R>,
    ) -> bool {
        text_step(dom, at, position) == Some(R::text_id(&state.node)) && state.str@ == self@
    }

    fn to_html_with_buf(&self, buf: &mut String, position: &mut PositionState) {
        text_to_html(self, buf, position);
    }

    open spec fn streamed(
        &self,
        stream: StreamView,
        position: Position,
        out_of_order: bool,
    ) -> StreamView {
        stream.pushed_sync(Shape::Text(self@).html(position))
    }

    fn to_html_async_with_buf<const OUT_OF_ORDER: bool>(
        &self,
        buf: &mut StreamBuilder,
        position: &mut PositionState,
    ) {
        let sync = buf.with_buf();
        RenderHtml::<R>::to_html_with_buf(self, sync, position);
    }

    fn hydrate<const FROM_SERVER: bool>(
        self,
        rndr: &mut R,
        cursor: &mut Cursor<R>,
        position: &mut PositionState,
    ) -> (result: Result<StrState<'a, R>, HydrationMismatch>) {
        match hydrate_text::<R, FROM_SERVER>(self, rndr, cursor, position.get()) {
            Ok(node) => {
                position.set(Position::NextChildAfterText);
                Ok(StrState { node, str: self })
            },
            Err(mismatch) => Err(mismatch),
        }
    }
}

impl<R: Renderer> Render<R> for String {
    type State = StringState<R>;

    open spec fn shape(&self) -> Shape {
        Shape::Text(self@)
    }

    fn demand(&self) -> (count: usize) {
        1
    }

    open spec fn built(&self, before: DomView, state: &StringState<R>, after: DomView) -> bool {
        &&& !before.contains(R::text_id(&state.node))
        &&& after == before.create(R::text_id(&state.node), NodeKind::Text(self@))
        &&& state.str@ == self@
    }

    open spec fn rebuilt(
        &self,
        shown: &StringState<R>,
        before: DomView,
        state: &StringState<R>,
        after: DomView,
    ) -> bool {
        &&& state.node == shown.node
        &&& state.str@ == self@
        &&& after == (if shown.str@ == self@ {
            before
        } else {
            before.set_text(R::text_id(&shown.node), self@)
        })
    }

    fn build(self, rndr: &mut R) -> (state: StringState<R>) {
        let node = rndr.create_text_node(self.as_str());
        let state = StringState { node, str: self };
        state
    }

    fn rebuild(self, state: &mut StringState<R>, rndr: &mut R) {
        if !same_text(self.as_str(), state.str.as_str()) {
            rndr.set_text(&state.node, self.as_str());
            state.str = self;
        }
    }
}

impl<R: Renderer> RenderHtml<R> for String {
    open spec fn hydrated(
        &self,
        dom: DomView,
        at: NodeId,
        position: Position,
        from_server: bool,
        state: &StringState<R>,
    ) -> bool {
        text_step(dom, at, position) == Some(R::text_id(&state.node)) && state.str@ == self@
    }

    fn to_html_with_buf(&self, buf: &mut String, position: &mut PositionState) {
        text_to_html(self.as_str(), buf, position);
    }

    open spec fn streamed(
        &self,
        stream: StreamView,
        position: Position,
        out_of_order: bool,
    ) -> StreamView {
        stream.pushed_sync(Shape::Text(self@).html(position))
    }

    fn to_html_async_with_buf<const OUT_OF_ORDER: bool>(
        &self,
        buf: &mut StreamBuilder,
        position: &mut PositionState,
    ) {
        let sync = buf.with_buf();
        RenderHtml::<R>::to_html_with_buf(self, sync, position);
    }

    fn hydrate<const FROM_SERVER: bool>(
        self,
        rndr: &mut R,
        cursor: &mut Cursor<R>,
        position: &mut PositionState,
    ) -> (result: Result<StringState<R>, HydrationMismatch>) {
        match hydrate_text::<R, FROM_SERVER>(self.as_str(), rndr, cursor, position.get()) {
            Ok(node) => {
                position.set(Position::NextChildAfterText);
                Ok(StringState { node, str: self })
            },
            Err(mismatch) => Err(mismatch),
        }
    }
}

} // verus!
