//! Islands: the parts of a page that come alive on the client.
//!
//! An island is written as a named container, so that the client finds it
//! in the markup, and is hydrated on its own. The children handed to an
//! island are written in a container as well, and are left alone by the
//! client.

use crate::renderer::model::{DomView, NodeId};
use crate::renderer::Renderer;
use crate::ssr::{StreamBuilder, StreamView};
use crate::view::shape::{
    island_children_close, island_children_open, island_close, island_open, Shape,
};
use crate::view::{Position, PositionState, Render, RenderHtml};
use std::marker::PhantomData;
use crate::hydration::{Cursor, HydrationMismatch};
use vstd::prelude::*;

verus! {

/// A view in a container that names the component it belongs to.
pub struct Island<Rndr, View> {
    component: &'static str,
    view: View,
    rndr: PhantomData<Rndr>,
}

impl<Rndr, View> Island<Rndr, View> {
    pub fn new(component: &'static str, view: View) -> (island: Self)
        ensures
            island.component() == component@,
            island.view() == view,
    {
        Island { component, view, rndr: PhantomData }
    }

    /// The name of the component.
    pub closed spec fn component(&self) -> Seq<char> {
        self.component@
    }

    /// The view in the island.
    pub closed spec fn view(&self) -> View {
        self.view
    }

    /// Appends the opening tag of the island of the named component.
    pub fn open_tag(component: &'static str, buf: &mut String)
        ensures
            final(buf)@ == old(buf)@ + island_open(component@),
    {
        buf.append("<");
        buf.append("leptos-island");
        buf.append(" ");
        buf.append("data-component=\"");
        buf.append(component);
        buf.append("\">");
    }

    /// Appends the closing tag of an island.
    pub fn close_tag(buf: &mut String)
        ensures
            final(buf)@ == old(buf)@ + island_close(),
    {
        buf.append("</");
        buf.append("leptos-island");
        buf.append(">");
    }
}

impl<Rndr: Renderer, View: Render<Rndr>> Render<Rndr> for Island<Rndr, View> {
    type State = View::State;

    open spec fn shape(&self) -> Shape {
        Shape::Island { component: self.component(), inner: Box::new(self.view().shape()) }
    }

    open spec fn built(&self, before: DomView, state: &View::State, after: DomView) -> bool {
        self.view().built(before, state, after)
    }

    open spec fn rebuilt(
        &self,
        shown: &View::State,
        before: DomView,
        state: &View::State,
        after: DomView,
    ) -> bool {
        self.view().rebuilt(shown, before, state, after)
    }

    fn demand(&self) -> (count: usize) {
        self.view.demand()
    }

    fn build(self, rndr: &mut Rndr) -> (state: View::State) {
        self.view.build(rndr)
    }

    fn rebuild(self, state: &mut View::State, rndr: &mut Rndr) {
        self.view.rebuild(state, rndr);
    }
}

impl<Rndr: Renderer, View: RenderHtml<Rndr>> RenderHtml<Rndr> for Island<Rndr, View> {
    open spec fn hydrated(
        &self,
        dom: DomView,
        at: NodeId,
        position: Position,
        from_server: bool,
        state: &View::State,
    ) -> bool {
        self.view().hydrated(dom, at, Position::FirstChild, from_server, state)
    }

    fn to_html_with_buf(&self, buf: &mut String, position: &mut PositionState) {
        Self::open_tag(self.component, buf);
        position.set(Position::FirstChild);
        self.view.to_html_with_buf(buf, position);
        Self::close_tag(buf);
        position.set(Position::NextChild);
    }

    /// The two tags are written at once, whatever is held back in
    /// between.
    open spec fn streamed(
        &self,
        stream: StreamView,
        position: Position,
        out_of_order: bool,
    ) -> StreamView {
        self.view().streamed(
            stream.pushed_sync(island_open(self.component())),
            Position::FirstChild,
            out_of_order,
        ).pushed_sync(island_close())
    }

    fn to_html_async_with_buf<const OUT_OF_ORDER: bool>(
        &self,
        buf: &mut StreamBuilder,
        position: &mut PositionState,
    ) {
        // insert the opening tag synchronously
        let mut tag = String::new();
        Self::open_tag(self.component, &mut tag);
        buf.push_sync(tag.as_str());

        // streaming render for the view
        position.set(Position::FirstChild);
        self.view.to_html_async_with_buf::<OUT_OF_ORDER>(buf, position);

        // and insert the closing tag synchronously
        let mut tag = String::new();
        Self::close_tag(&mut tag);
        buf.push_sync(tag.as_str());
        position.set(Position::NextChild);
    }

    /// An island is hydrated from its own container: the walk starts anew
    /// at the first child of the node at hand, and comes back to that node
    /// when what is in the island has been taken over.
    fn hydrate<const FROM_SERVER: bool>(
        self,
        rndr: &mut Rndr,
        cursor: &mut Cursor<Rndr>,
        position: &mut PositionState,
    ) -> (result: Result<View::State, HydrationMismatch>) {
        let container = cursor.current();
        position.set(Position::FirstChild);
        match self.view.hydrate::<FROM_SERVER>(rndr, cursor, position) {
            Ok(state) => {
                cursor.set(container);
                position.set(Position::NextChild);
                Ok(state)
            },
            Err(mismatch) => Err(mismatch),
        }
    }
}

/// The children handed to an island, in a container of their own.
pub struct IslandChildren<Rndr, View> {
    view: View,
    rndr: PhantomData<Rndr>,
}

impl<Rndr, View> IslandChildren<Rndr, View> {
    pub fn new(view: View) -> (children: Self)
        ensures
            children.view() == view,
    {
        IslandChildren { view, rndr: PhantomData }
    }

    /// The view handed to the island.
    pub closed spec fn view(&self) -> View {
        self.view
    }

    /// Appends the opening tag of island children.
    pub fn open_tag(buf: &mut String)
        ensures
            final(buf)@ == old(buf)@ + island_children_open(),
    {
        buf.append("<");
        buf.append("leptos-children");
        buf.append(">");
    }

    /// Appends the closing tag of island children.
    pub fn close_tag(buf: &mut String)
        ensures
            final(buf)@ == old(buf)@ + island_children_close(),
    {
        buf.append("</");
        buf.append("leptos-children");
        buf.append(">");
    }
}

impl<Rndr: Renderer, View: Render<Rndr>> Render<Rndr> for IslandChildren<Rndr, View> {
    type State = ();

    open spec fn shape(&self) -> Shape {
        Shape::IslandChildren(Box::new(self.view().shape()))
    }

    open spec fn built(&self, before: DomView, state: &(), after: DomView) -> bool {
        after == before
    }

    open spec fn rebuilt(&self, shown: &(), before: DomView, state: &(), after: DomView) -> bool {
        after == before
    }

    fn demand(&self) -> (count: usize) {
        0
    }

    fn build(self, rndr: &mut Rndr) -> (state: ()) {
    }

    fn rebuild(self, state: &mut (), rndr: &mut Rndr) {
    }
}

impl<Rndr: Renderer, View: RenderHtml<Rndr>> RenderHtml<Rndr> for IslandChildren<Rndr, View> {
    open spec fn hydrated(
        &self,
        dom: DomView,
        at: NodeId,
        position: Position,
        from_server: bool,
        state: &(),
    ) -> bool {
        true
    }

    fn to_html_with_buf(&self, buf: &mut String, position: &mut PositionState) {
        Self::open_tag(buf);
        position.set(Position::FirstChild);
        self.view.to_html_with_buf(buf, position);
        Self::close_tag(buf);
        position.set(Position::NextChild);
    }

    /// The two tags are written at once, whatever is held back in
    /// between.
    open spec fn streamed(
        &self,
        stream: StreamView,
        position: Position,
        out_of_order: bool,
    ) -> StreamView {
        self.view().streamed(
            stream.pushed_sync(island_children_open()),
            Position::FirstChild,
            out_of_order,
        ).pushed_sync(island_children_close())
    }

    fn to_html_async_with_buf<const OUT_OF_ORDER: bool>(
        &self,
        buf: &mut StreamBuilder,
        position: &mut PositionState,
    ) {
        // insert the opening tag synchronously
        let mut tag = String::new();
        Self::open_tag(&mut tag);
        buf.push_sync(tag.as_str());

        // streaming render for the view
        position.set(Position::FirstChild);
        self.view.to_html_async_with_buf::<OUT_OF_ORDER>(buf, position);

        // and insert the closing tag synchronously
        let mut tag = String::new();
        Self::close_tag(&mut tag);
        buf.push_sync(tag.as_str());
        position.set(Position::NextChild);
    }

    /// Island children are not hydrated: the walk moves on to their
    /// container, down on the first position under a parent and sideways
    /// on every other, and what is in the container stays as the server
    /// wrote it.
    fn hydrate<const FROM_SERVER: bool>(
        self,
        rndr: &mut Rndr,
        cursor: &mut Cursor<Rndr>,
        position: &mut PositionState,
    ) -> (result: Result<(), HydrationMismatch>) {
        if !cursor.move_on(rndr, position.get()) {
            return Err(HydrationMismatch);
        }
        position.set(Position::NextChild);
        Ok(())
    }
}

} // verus!
