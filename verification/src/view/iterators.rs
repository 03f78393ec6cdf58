//! Optional views: a value that is there is shown as itself, one that is
//! not is shown as a marker that holds its place.

use super::shape::Shape;
use super::{anchor_of, insertion_point, mount_node, unmount_node};
use super::{Mountable, Position, PositionState, Render, RenderHtml};
use crate::renderer::model::{DomView, NodeId, NodeKind};
use crate::renderer::Renderer;
use crate::ssr::{StreamBuilder, StreamView};
use crate::hydration::{marker_onward, Cursor, HydrationMismatch};
use super::first_mounted;
use vstd::prelude::*;

verus! {

/// View state for an optional view.
pub enum OptionState<T: Render<R>, R: Renderer> {
    /// Contains a marker node that will be replaced when the state
    /// switches to a value.
    Absent(R::Placeholder),
    /// The view state.
    Present(T::State),
}

impl<T: Render<R>, R: Renderer> Mountable<R> for OptionState<T, R> {
    open spec fn shape(&self) -> Shape {
        match self {
            OptionState::Absent(_) => Shape::Absent,
            OptionState::Present(state) => Shape::Present(Box::new(state.shape())),
        }
    }

    open spec fn nodes(&self) -> Seq<NodeId> {
        match self {
            OptionState::Absent(marker) => seq![R::placeholder_id(marker)],
            OptionState::Present(state) => state.nodes(),
        }
    }

    fn unmount(&self, rndr: &mut R) {
        match self {
            OptionState::Absent(marker) => unmount_node(rndr, &R::placeholder_node(marker)),
            OptionState::Present(state) => state.unmount(rndr),
        }
    }

    fn mount(&self, rndr: &mut R, parent: &R::Element, marker: Option<&R::Node>) {
        match self {
            OptionState::Absent(own) => mount_node(rndr, &R::placeholder_node(own), parent, marker),
            OptionState::Present(state) => state.mount(rndr, parent, marker),
        }
    }

    fn anchor_node(&self, rndr: &R) -> (node: Option<R::Node>) {
        match self {
            OptionState::Absent(marker) => anchor_of(rndr, R::placeholder_node(marker)),
            OptionState::Present(state) => state.anchor_node(rndr),
        }
    }
}

impl<T: Render<R>, R: Renderer> Render<R> for Option<T> {
    type State = OptionState<T, R>;

    open spec fn shape(&self) -> Shape {
        match self {
            None => Shape::Absent,
            Some(value) => Shape::Present(Box::new(value.shape())),
        }
    }

    /// No value builds a marker. A value builds itself.
    open spec fn built(&self, before: DomView, state: &OptionState<T, R>, after: DomView) -> bool {
        match (*self, *state) {
            (None, OptionState::Absent(marker)) => !before.contains(R::placeholder_id(&marker))
                && after == before.create(R::placeholder_id(&marker), NodeKind::Placeholder),
            (Some(value), OptionState::Present(inner)) => value.built(before, &inner, after),
            _ => false,
        }
    }

    /// No value after no value changes nothing; a value after a value is a
    /// rebuild of the value. A value that goes leaves its place to a new
    /// marker; a value that comes is built, of new nodes and without
    /// touching what was there, and takes the place of the marker.
    open spec fn rebuilt(
        &self,
        shown: &OptionState<T, R>,
        before: DomView,
        state: &OptionState<T, R>,
        after: DomView,
    ) -> bool {
        match (*self, *shown, *state) {
            (None, OptionState::Absent(_), _) => *state == *shown && after == before,
            (Some(value), OptionState::Present(old), OptionState::Present(new)) => value.rebuilt(
                &old,
                before,
                &new,
                after,
            ),
            (None, OptionState::Present(_), OptionState::Absent(marker)) => !before.contains(
                R::placeholder_id(&marker),
            ) && after == before.create(R::placeholder_id(&marker), NodeKind::Placeholder).swap_in(
                first_mounted(before, shown.nodes()),
                seq![R::placeholder_id(&marker)],
                shown.nodes(),
            ),
            (Some(value), OptionState::Absent(_), OptionState::Present(new)) => exists|
                built: DomView,
            | #[trigger]
                value.built(before, &new, built) && built.wf() && before.kept_by(built)
                    && built.fresh(before, new.nodes()) && new.nodes().no_duplicates() && after
                    == built.swap_in(
                    first_mounted(before, shown.nodes()),
                    new.nodes(),
                    shown.nodes(),
                ),
            _ => false,
        }
    }

    fn demand(&self) -> (count: usize) {
        match self {
            None => 1,
            Some(value) => value.demand(),
        }
    }

    fn build(self, rndr: &mut R) -> (state: OptionState<T, R>) {
        match self {
            // no value: a marker holds the place
            None => {
                let marker = rndr.create_placeholder();
                let state = OptionState::Absent(marker);
                state
            },
            // a value: its own state
            Some(value) => OptionState::Present(value.build(rndr)),
        }
    }

    /// Of the four cases, two keep what is mounted: no value after no
    /// value does nothing, and a value after a value is handed on to the
    /// value. A value that goes is replaced by a new marker, in front of
    /// which the marker is put before the nodes of the value are taken
    /// out. A value that comes is built and put in front of the marker,
    /// which is then taken out.
    fn rebuild(self, state: &mut OptionState<T, R>, rndr: &mut R) {
        proof {
            match &self {
                Some(new) => new.shape().lemma_mounted_demand(),
                None => {},
            }
        }
        let was_present = match state {
            OptionState::Absent(_) => false,
            OptionState::Present(_) => true,
        };
        match self {
            None => {
                if was_present {
                    // value => no value: put a marker in its place
                    let point = insertion_point(&*state, rndr);
                    let new_marker = rndr.create_placeholder();
                    let new_state: OptionState<T, R> = OptionState::Absent(new_marker);
                    match point {
                        Some((parent, place)) => {
                            new_state.mount(rndr, &parent, Some(&place));
                        },
                        None => {},
                    }
                    state.unmount(rndr);
                    *state = new_state;
                }
            },
            Some(new) => {
                if was_present {
                    // value => value: the value looks after itself
                    match state {
                        OptionState::Present(old) => {
                            new.rebuild(old, rndr);
                        },
                        OptionState::Absent(_) => {},
                    }
                } else {
                    // no value => value: build it in the place of the marker
                    let point = insertion_point(&*state, rndr);
                    let new_state: OptionState<T, R> = OptionState::Present(new.build(rndr));
                    match point {
                        Some((parent, place)) => {
                            new_state.mount(rndr, &parent, Some(&place));
                        },
                        None => {},
                    }
                    state.unmount(rndr);
                    *state = new_state;
                }
            },
        }
    }
}

impl<T: RenderHtml<R>, R: Renderer> RenderHtml<R> for Option<T> {
    open spec fn hydrated(
        &self,
        dom: DomView,
        at: NodeId,
        position: Position,
        from_server: bool,
        state: &OptionState<T, R>,
    ) -> bool {
        match (*self, *state) {
            (None, OptionState::Absent(marker)) => marker_onward(dom, at, position) == Some(
                R::placeholder_id(&marker),
            ),
            (Some(value), OptionState::Present(inner)) => value.hydrated(
                dom,
                at,
                position,
                from_server,
                &inner,
            ),
            _ => false,
        }
    }

    fn to_html_with_buf(&self, buf: &mut String, position: &mut PositionState) {
        match self {
            // a value is written as itself
            Some(value) => value.to_html_with_buf(buf, position),
            // no value is written as a marker that hydration picks up
            None => {
                buf.append("<!--Option-->");
                position.set(Position::NextChild);
            },
        }
    }

    open spec fn streamed(
        &self,
        stream: StreamView,
        position: Position,
        out_of_order: bool,
    ) -> StreamView {
        match self {
            Some(value) => value.streamed(stream, position, out_of_order),
            None => stream.pushed_sync("<!--Option-->"@),
        }
    }

    fn to_html_async_with_buf<const OUT_OF_ORDER: bool>(
        &self,
        buf: &mut StreamBuilder,
        position: &mut PositionState,
    ) {
        match self {
            // a value streams as itself
            Some(value) => value.to_html_async_with_buf::<OUT_OF_ORDER>(buf, position),
            // no value is written as a marker, at once
            None => {
                buf.push_sync("<!--Option-->");
                position.set(Position::NextChild);
            },
        }
    }

    fn hydrate<const FROM_SERVER: bool>(
        self,
        rndr: &mut R,
        cursor: &mut Cursor<R>,
        position: &mut PositionState,
    ) -> (result: Result<OptionState<T, R>, HydrationMismatch>) {
        match self {
            // no value: the marker is picked up and kept
            None => {
                if !cursor.move_on(rndr, position.get()) {
                    return Err(HydrationMismatch);
                }
                match rndr.cast_placeholder(cursor.current()) {
                    Some(marker) => {
                        position.set(Position::NextChild);
                        let state = OptionState::Absent(marker);
                        Ok(state)
                    },
                    None => Err(HydrationMismatch),
                }
            },
            // a value: the value is hydrated
            Some(value) => {
                match value.hydrate::<FROM_SERVER>(rndr, cursor, position) {
                    Ok(state) => Ok(OptionState::Present(state)),
                    Err(mismatch) => Err(mismatch),
                }
            },
        }
    }
}

/// An option that gains or loses its value keeps its place.
///
/// Say that what the option shows, a marker or the nodes of a value,
/// stands side by side under a parent, and that a rebuild takes the
/// option from a value to none or from none to a value. Then what it
/// shows afterwards stands exactly where the other stood: the children in
/// front and behind have not moved, what was shown is gone, and what is
/// shown now is there. At no time is there neither, and at no time both.
pub proof fn lemma_toggle_keeps_place<T: Render<R>, R: Renderer>(
    view: Option<T>,
    shown: OptionState<T, R>,
    state: OptionState<T, R>,
    before: DomView,
    after: DomView,
    parent: NodeId,
    head: Seq<NodeId>,
    tail: Seq<NodeId>,
)
    requires
        before.wf(),
        before.is_element(parent),
        before.children(parent) == head + shown.nodes() + tail,
        shown.nodes().len() > 0,
        (view is Some) != (shown is Present),
        view.rebuilt(&shown, before, &state, after),
    ensures
        (state is Present) == (view is Some),
        after.wf(),
        after.children(parent) == head + state.nodes() + tail,
{
    let first = shown.nodes()[0];
    assert((head + shown.nodes() + tail)[head.len() as int] == first);
    assert(before.children(parent).contains(first));
    assert(before.parent(first) == Some(parent));
    assert(first_mounted(before, shown.nodes()) == Some(first));
    match (view, shown, state) {
        (None, OptionState::Present(_), OptionState::Absent(marker)) => {
            let id = R::placeholder_id(&marker);
            let built = before.create(id, NodeKind::Placeholder);
            before.lemma_create_wf(id, NodeKind::Placeholder);
            before.lemma_swap_keeps_place(built, parent, head, shown.nodes(), tail, seq![id]);
        },
        (Some(value), OptionState::Absent(_), OptionState::Present(new)) => {
            let built = choose|built: DomView| #[trigger]
                value.built(before, &new, built) && built.wf() && before.kept_by(built)
                    && built.fresh(before, new.nodes()) && new.nodes().no_duplicates() && after
                    == built.swap_in(
                    first_mounted(before, shown.nodes()),
                    new.nodes(),
                    shown.nodes(),
                );
            before.lemma_swap_keeps_place(built, parent, head, shown.nodes(), tail, new.nodes());
        },
        _ => {},
    }
}

} // verus!
