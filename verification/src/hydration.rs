//! Hydration: taking over nodes that already exist, as a browser made them
//! from markup, in place of building new ones.
//!
//! A cursor walks the existing nodes in the order in which the markup was
//! written. Each view moves it to the node that is its own, and finds out
//! there whether the document is what it expects. Where it is not, the
//! walk ends with a mismatch.

use crate::renderer::model::{DomView, NodeId};
use crate::renderer::{ready, Renderer};
use crate::view::shape::Shape;
use crate::view::Position;
use vstd::prelude::*;

verus! {

/// The document does not hold the nodes that a view expects.
#[derive(Clone, Copy, Debug, PartialEq, Eq, Structural)]
pub struct HydrationMismatch;

/// The node that the walk stands at.
pub struct Cursor<R: Renderer> {
    current: R::Node,
}

/// The node that stands at `position` seen from the node `at`.
pub open spec fn step(dom: DomView, at: NodeId, position: Position) -> Option<NodeId> {
    match position {
        Position::Current => Some(at),
        Position::FirstChild => dom.first_child(at),
        _ => dom.next_sibling(at),
    }
}

/// The node that a walk moves on to from the node `at`: its first child
/// where the position says so, and its next sibling on every other
/// position.
pub open spec fn onward(dom: DomView, at: NodeId, position: Position) -> Option<NodeId> {
    if position == Position::FirstChild {
        dom.first_child(at)
    } else {
        dom.next_sibling(at)
    }
}

/// The placeholder that a walk moves on to from the node `at`.
pub open spec fn marker_onward(dom: DomView, at: NodeId, position: Position) -> Option<NodeId> {
    match onward(dom, at, position) {
        Some(next) => if dom.is_placeholder(next) {
            Some(next)
        } else {
            None
        },
        None => None,
    }
}

/// The text node that stands at `position` seen from the node `at`. After
/// a text, a placeholder stands in between and is passed over.
pub open spec fn text_step(dom: DomView, at: NodeId, position: Position) -> Option<NodeId> {
    match step(dom, at, position) {
        Some(next) => if position == Position::NextChildAfterText {
            if dom.is_placeholder(next) {
                match dom.next_sibling(next) {
                    Some(text) => if dom.is_text(text) {
                        Some(text)
                    } else {
                        None
                    },
                    None => None,
                }
            } else {
                None
            }
        } else if dom.is_text(next) {
            Some(next)
        } else {
            None
        },
        None => None,
    }
}

/// The node of the given kind that stands at `position` seen from the node
/// `at`.
pub open spec fn element_step(dom: DomView, at: NodeId, position: Position) -> Option<NodeId> {
    match step(dom, at, position) {
        Some(next) => if dom.is_element(next) {
            Some(next)
        } else {
            None
        },
        None => None,
    }
}

/// The placeholder that stands at `position` seen from the node `at`.
pub open spec fn placeholder_step(dom: DomView, at: NodeId, position: Position) -> Option<
    NodeId,
> {
    match step(dom, at, position) {
        Some(next) => if dom.is_placeholder(next) {
            Some(next)
        } else {
            None
        },
        None => None,
    }
}

/// Where a walk ends: the document as the walk left it, the node and the
/// position that it stands at, and the nodes that it took over at the top
/// level, in order.
pub struct Walked {
    pub dom: DomView,
    pub at: NodeId,
    pub position: Position,
    pub nodes: Seq<NodeId>,
}

impl Shape {
    /// The walk that takes over the nodes of this shape, from the node
    /// `at` and the position `position`, if the document holds them.
    ///
    /// A text is a text node; where the markup did not come from the
    /// server, its content is set. An element is an element, under which
    /// its children are found. An absent option is the placeholder that
    /// the walk moves on to: the first child on the first position under
    /// a parent, the next sibling on every other. An alternative is
    /// followed by a placeholder. An island starts anew at the first child
    /// of the node at hand, which is its container, and ends there; the
    /// children handed to an island are passed over as the one node that
    /// the walk moves on to.
    pub open spec fn hydrated(
        self,
        dom: DomView,
        at: NodeId,
        position: Position,
        from_server: bool,
    ) -> Option<Walked>
        decreases self,
    {
        match self {
            Shape::Unit => Some(Walked { dom, at, position, nodes: Seq::empty() }),
            Shape::Text(text) => match text_step(dom, at, position) {
                Some(node) => Some(
                    Walked {
                        dom: if from_server {
                            dom
                        } else {
                            dom.set_text(node, text)
                        },
                        at: node,
                        position: Position::NextChildAfterText,
                        nodes: seq![node],
                    },
                ),
                None => None,
            },
            Shape::Element { children, .. } => match element_step(dom, at, position) {
                Some(el) => match children.hydrated(dom, el, Position::FirstChild, from_server) {
                    Some(inner) => Some(
                        Walked {
                            dom: inner.dom,
                            at: el,
                            position: Position::NextChild,
                            nodes: seq![el],
                        },
                    ),
                    None => None,
                },
                None => None,
            },
            Shape::Absent => match marker_onward(dom, at, position) {
                Some(marker) => Some(
                    Walked { dom, at: marker, position: Position::NextChild, nodes: seq![marker] },
                ),
                None => None,
            },
            Shape::Present(inner) => inner.hydrated(dom, at, position, from_server),
            Shape::Left(inner) => Self::followed_by_marker(
                inner.hydrated(dom, at, position, from_server),
            ),
            Shape::Right(inner) => Self::followed_by_marker(
                inner.hydrated(dom, at, position, from_server),
            ),
            Shape::Pair(first, second) => match first.hydrated(dom, at, position, from_server) {
                Some(head) => match second.hydrated(
                    head.dom,
                    head.at,
                    head.position,
                    from_server,
                ) {
                    Some(tail) => Some(
                        Walked {
                            dom: tail.dom,
                            at: tail.at,
                            position: tail.position,
                            nodes: head.nodes + tail.nodes,
                        },
                    ),
                    None => None,
                },
                None => None,
            },
            Shape::Island { inner, .. } => match inner.hydrated(
                dom,
                at,
                Position::FirstChild,
                from_server,
            ) {
                Some(walked) => Some(
                    Walked {
                        dom: walked.dom,
                        at,
                        position: Position::NextChild,
                        nodes: walked.nodes,
                    },
                ),
                None => None,
            },
            Shape::IslandChildren(_) => match onward(dom, at, position) {
                Some(node) => Some(
                    Walked { dom, at: node, position: Position::NextChild, nodes: Seq::empty() },
                ),
                None => None,
            },
        }
    }

    /// A walk that goes on to the placeholder behind what it took over.
    pub open spec fn followed_by_marker(walked: Option<Walked>) -> Option<Walked> {
        match walked {
            Some(inner) => match placeholder_step(inner.dom, inner.at, inner.position) {
                Some(marker) => Some(
                    Walked {
                        dom: inner.dom,
                        at: marker,
                        position: Position::NextChild,
                        nodes: inner.nodes + seq![marker],
                    },
                ),
                None => None,
            },
            None => None,
        }
    }
}

impl<R: Renderer> Cursor<R> {
    /// A cursor that stands at `root`.
    pub fn new(root: R::Element) -> (cursor: Self)
        ensures
            cursor.at() == R::element_id(&root),
    {
        Cursor { current: R::element_node(&root) }
    }

    /// A cursor that stands at `node`.
    pub fn from_node(node: R::Node) -> (cursor: Self)
        ensures
            cursor.at() == R::node_id(&node),
    {
        Cursor { current: node }
    }

    /// The identity of the node at hand.
    pub closed spec fn at(&self) -> NodeId {
        R::node_id(&self.current)
    }

    /// The node at hand.
    pub fn current(&self) -> (node: R::Node)
        ensures
            R::node_id(&node) == self.at(),
    {
        R::clone_node(&self.current)
    }

    /// Moves to the first child of the node at hand, if it has one, and
    /// says whether it did.
    pub fn child(&mut self, rndr: &R) -> (moved: bool)
        requires
            ready(rndr),
        ensures
            match rndr.dom().first_child(old(self).at()) {
                Some(child) => moved && final(self).at() == child,
                None => !moved && final(self).at() == old(self).at(),
            },
    {
        match rndr.first_child(&self.current) {
            Some(node) => {
                self.current = node;
                true
            },
            None => false,
        }
    }

    /// Moves to the next sibling of the node at hand, if it has one, and
    /// says whether it did.
    pub fn sibling(&mut self, rndr: &R) -> (moved: bool)
        requires
            ready(rndr),
        ensures
            match rndr.dom().next_sibling(old(self).at()) {
                Some(sibling) => moved && final(self).at() == sibling,
                None => !moved && final(self).at() == old(self).at(),
            },
    {
        match rndr.next_sibling(&self.current) {
            Some(node) => {
                self.current = node;
                true
            },
            None => false,
        }
    }

    /// Moves to the parent of the node at hand, if it has one, and says
    /// whether it did.
    pub fn parent(&mut self, rndr: &R) -> (moved: bool)
        requires
            ready(rndr),
        ensures
            match rndr.dom().parent(old(self).at()) {
                Some(parent) => moved && final(self).at() == parent,
                None => !moved && final(self).at() == old(self).at(),
            },
    {
        match rndr.get_parent(&self.current) {
            Some(node) => {
                self.current = node;
                true
            },
            None => false,
        }
    }

    /// Puts the cursor on the given node.
    pub fn set(&mut self, node: R::Node)
        ensures
            final(self).at() == R::node_id(&node),
    {
        self.current = node;
    }

    /// Moves to the node that stands at `position`, if there is one, and
    /// says whether there is.
    pub fn advance(&mut self, rndr: &R, position: Position) -> (found: bool)
        requires
            ready(rndr),
        ensures
            match step(rndr.dom(), old(self).at(), position) {
                Some(next) => found && final(self).at() == next,
                None => !found && final(self).at() == old(self).at(),
            },
    {
        match position {
            Position::Current => true,
            Position::FirstChild => self.child(rndr),
            Position::NextChild => self.sibling(rndr),
            Position::NextChildAfterText => self.sibling(rndr),
        }
    }

    /// Moves on from the node at the cursor: to its first child where the
    /// position says so, to its next sibling on every other position. Says
    /// whether there is such a node.
    pub fn move_on(&mut self, rndr: &R, position: Position) -> (found: bool)
        requires
            ready(rndr),
        ensures
            match onward(rndr.dom(), old(self).at(), position) {
                Some(next) => found && final(self).at() == next,
                None => !found && final(self).at() == old(self).at(),
            },
    {
        match position {
            Position::FirstChild => self.child(rndr),
            _ => self.sibling(rndr),
        }
    }
}

/// Takes over the text node at the cursor. Where the markup did not come
/// from the server, the content of the node is set to `text`.
pub fn hydrate_text<R: Renderer, const FROM_SERVER: bool>(
    text: &str,
    rndr: &mut R,
    cursor: &mut Cursor<R>,
    position: Position,
) -> (result: Result<R::Text, HydrationMismatch>)
    requires
        ready(old(rndr)),
    ensures
        ready(final(rndr)),
        match result {
            Ok(node) => text_step(old(rndr).dom(), old(cursor).at(), position) == Some(
                R::text_id(&node),
            ) && final(cursor).at() == R::text_id(&node) && final(rndr).dom() == (if FROM_SERVER {
                old(rndr).dom()
            } else {
                old(rndr).dom().set_text(R::text_id(&node), text@)
            }),
            Err(_) => text_step(old(rndr).dom(), old(cursor).at(), position) is None
                && final(rndr).dom() == old(rndr).dom(),
        },
        final(rndr).room() == old(rndr).room(),
        final(rndr).writes() == old(rndr).writes() + (if result is Ok && !FROM_SERVER {
            1nat
        } else {
            0nat
        }),
{
    if !cursor.advance(rndr, position) {
        return Err(HydrationMismatch);
    }
    // a marker comes between one text and the next
    if position == Position::NextChildAfterText {
        match rndr.cast_placeholder(cursor.current()) {
            Some(_) => {},
            None => {
                return Err(HydrationMismatch);
            },
        }
        if !cursor.sibling(rndr) {
            return Err(HydrationMismatch);
        }
    }
    match rndr.cast_text(cursor.current()) {
        Some(node) => {
            if !FROM_SERVER {
                rndr.set_text(&node, text);
            }
            Ok(node)
        },
        None => Err(HydrationMismatch),
    }
}

impl Shape {
    /// Hydration replays the decisions of the markup: a walk that takes
    /// over a shape ends at the position at which the markup of the shape
    /// ends, and takes over as many nodes at the top level as there are
    /// to take.
    pub proof fn lemma_hydrated_position(
        self,
        dom: DomView,
        at: NodeId,
        position: Position,
        from_server: bool,
    )
        ensures
            self.hydrated(dom, at, position, from_server) matches Some(walked) ==> walked.position
                == self.after(position),
            from_server ==> (self.hydrated(dom, at, position, from_server) matches Some(walked)
                ==> walked.dom == dom),
        decreases self,
    {
        match self {
            Shape::Present(inner) => {
                inner.lemma_hydrated_position(dom, at, position, from_server);
            },
            Shape::Element { children, .. } => {
                match element_step(dom, at, position) {
                    Some(el) => {
                        children.lemma_hydrated_position(
                            dom,
                            el,
                            Position::FirstChild,
                            from_server,
                        );
                    },
                    None => {},
                }
            },
            Shape::Left(inner) => {
                inner.lemma_hydrated_position(dom, at, position, from_server);
            },
            Shape::Right(inner) => {
                inner.lemma_hydrated_position(dom, at, position, from_server);
            },
            Shape::Pair(first, second) => {
                first.lemma_hydrated_position(dom, at, position, from_server);
                match first.hydrated(dom, at, position, from_server) {
                    Some(head) => {
                        second.lemma_hydrated_position(
                            head.dom,
                            head.at,
                            head.position,
                            from_server,
                        );
                    },
                    None => {},
                }
            },
            Shape::Island { inner, .. } => {
                inner.lemma_hydrated_position(dom, at, Position::FirstChild, from_server);
            },
            _ => {},
        }
    }
}

} // verus!
