//! The renderer abstraction and its in-memory backend.

pub mod lemmas;
pub mod mock_dom;
pub mod model;
pub mod slots;

use crate::html::element::ElementType;
use model::{Asked, DomView, NodeId, NodeKind};
use vstd::prelude::*;

verus! {

/// The instructions needed to render an interface on some platform.
///
/// A renderer owns a document, which contracts see through [`Renderer::dom`].
/// Every operation says what it does to that document, so views can be
/// written, and proved, against this trait alone.
///
/// The contracts bind a renderer that states its invariant. One that does
/// not, as any renderer written outside of verified code, has the invariant
/// `false`: nothing is asked of it and nothing is promised of it.
pub trait Renderer: Sized {
    /// The basic type of node in the document.
    type Node;

    /// A visible element.
    type Element;

    /// A text node.
    type Text;

    /// A marker for content that does not exist yet.
    type Placeholder;

    /// The document as it stands.
    open spec fn dom(&self) -> DomView {
        arbitrary()
    }

    /// What the renderer needs to hold of itself between calls.
    open spec fn inv(&self) -> bool {
        false
    }

    /// How many more nodes can be created.
    open spec fn room(&self) -> nat {
        arbitrary()
    }

    /// How many calls have changed, or were meant to change, the document.
    open spec fn writes(&self) -> nat {
        arbitrary()
    }

    /// The identity of the node behind a handle.
    open spec fn node_id(node: &Self::Node) -> NodeId {
        arbitrary()
    }

    /// The identity of the node behind a handle to an element.
    open spec fn element_id(el: &Self::Element) -> NodeId {
        arbitrary()
    }

    /// The identity of the node behind a handle to a text node.
    open spec fn text_id(text: &Self::Text) -> NodeId {
        arbitrary()
    }

    /// The identity of the node behind a handle to a placeholder.
    open spec fn placeholder_id(marker: &Self::Placeholder) -> NodeId {
        arbitrary()
    }

    /// How many more nodes can be created, as far as a `usize` can say.
    fn nodes_left(&self) -> (left: usize)
        requires
            self.inv(),
        ensures
            left == self.room() || (left == usize::MAX && self.room() > usize::MAX),
    ;

    /// Creates a new element node.
    fn create_element<E: ElementType>(&mut self) -> (el: Self::Element)
        requires
            old(self).inv(),
            old(self).room() > 0,
        ensures
            final(self).inv(),
            final(self).dom().wf(),
            !old(self).dom().contains(Self::element_id(&el)),
            final(self).dom() == old(self).dom().create(
                Self::element_id(&el),
                DomView::fresh_element(E::spec_tag()),
            ),
            final(self).room() == old(self).room() - 1,
            final(self).writes() == old(self).writes() + 1,
    ;

    /// Creates a new text node.
    fn create_text_node(&mut self, text: &str) -> (node: Self::Text)
        requires
            old(self).inv(),
            old(self).room() > 0,
        ensures
            final(self).inv(),
            final(self).dom().wf(),
            !old(self).dom().contains(Self::text_id(&node)),
            final(self).dom() == old(self).dom().create(
                Self::text_id(&node),
                NodeKind::Text(text@),
            ),
            final(self).room() == old(self).room() - 1,
            final(self).writes() == old(self).writes() + 1,
    ;

    /// Creates a new placeholder node.
    fn create_placeholder(&mut self) -> (marker: Self::Placeholder)
        requires
            old(self).inv(),
            old(self).room() > 0,
        ensures
            final(self).inv(),
            final(self).dom().wf(),
            !old(self).dom().contains(Self::placeholder_id(&marker)),
            final(self).dom() == old(self).dom().create(
                Self::placeholder_id(&marker),
                NodeKind::Placeholder,
            ),
            final(self).room() == old(self).room() - 1,
            final(self).writes() == old(self).writes() + 1,
    ;

    /// Sets the text content of the node. If it is not a text node, this
    /// does nothing.
    fn set_text(&mut self, node: &Self::Text, text: &str)
        requires
            old(self).inv(),
        ensures
            final(self).inv(),
            final(self).dom().wf(),
            final(self).dom() == old(self).dom().set_text(Self::text_id(node), text@),
            final(self).room() == old(self).room(),
            final(self).writes() == old(self).writes() + 1,
    ;

    /// Sets the given attribute on the given element by name and value.
    fn set_attribute(&mut self, node: &Self::Element, name: &str, value: &str)
        requires
            old(self).inv(),
        ensures
            final(self).inv(),
            final(self).dom().wf(),
            final(self).dom() == old(self).dom().set_attribute(
                Self::element_id(node),
                name@,
                value@,
            ),
            final(self).room() == old(self).room(),
            final(self).writes() == old(self).writes() + 1,
    ;

    /// Removes the given attribute from the given element.
    fn remove_attribute(&mut self, node: &Self::Element, name: &str)
        requires
            old(self).inv(),
        ensures
            final(self).inv(),
            final(self).dom().wf(),
            final(self).dom() == old(self).dom().remove_attribute(Self::element_id(node), name@),
            final(self).room() == old(self).room(),
            final(self).writes() == old(self).writes() + 1,
    ;

    /// Moves the new child under the parent, before the anchor node. Without
    /// an anchor, the child goes to the end of the parent's children.
    fn insert_node(
        &mut self,
        parent: &Self::Element,
        new_child: &Self::Node,
        anchor: Option<&Self::Node>,
    )
        requires
            old(self).inv(),
            old(self).dom().can_insert(
                Self::element_id(parent),
                Self::node_id(new_child),
                (match anchor {
                    Some(a) => Some(Self::node_id(a)),
                    None => None,
                }),
            ),
        ensures
            final(self).inv(),
            final(self).dom().wf(),
            final(self).dom() == old(self).dom().insert(
                Self::element_id(parent),
                Self::node_id(new_child),
                (match anchor {
                    Some(a) => Some(Self::node_id(a)),
                    None => None,
                }),
            ),
            final(self).room() == old(self).room(),
            final(self).writes() == old(self).writes() + 1,
    ;

    /// Removes the child node from the parent, and returns the removed node.
    /// Nothing is removed or returned where the parent is no element of the
    /// document.
    fn remove_node(&mut self, parent: &Self::Element, child: &Self::Node) -> (removed: Option<
        Self::Node,
    >)
        requires
            old(self).inv(),
            old(self).dom().is_element(Self::element_id(parent)) ==> old(self).dom().parent(
                Self::node_id(child),
            ) == Some(Self::element_id(parent)),
        ensures
            final(self).inv(),
            final(self).dom().wf(),
            final(self).dom() == (if old(self).dom().is_element(Self::element_id(parent)) {
                old(self).dom().detach(Self::node_id(child))
            } else {
                old(self).dom()
            }),
            match removed {
                Some(node) => old(self).dom().is_element(Self::element_id(parent))
                    && Self::node_id(&node) == Self::node_id(child),
                None => !old(self).dom().is_element(Self::element_id(parent)),
            },
            final(self).room() == old(self).room(),
            final(self).writes() == old(self).writes() + 1,
    ;

    /// Removes the node from its parent.
    fn remove(&mut self, node: &Self::Node)
        requires
            old(self).inv(),
            old(self).dom().parent(Self::node_id(node)) is Some,
        ensures
            final(self).inv(),
            final(self).dom().wf(),
            final(self).dom() == old(self).dom().detach(Self::node_id(node)),
            final(self).room() == old(self).room(),
            final(self).writes() == old(self).writes() + 1,
    ;

    /// Gets the parent of the given node, if any.
    fn get_parent(&self, node: &Self::Node) -> (parent: Option<Self::Node>)
        requires
            self.inv(),
        ensures
            match parent {
                Some(found) => self.dom().parent(Self::node_id(node)) == Some(Self::node_id(&found)),
                None => self.dom().parent(Self::node_id(node)) is None,
            },
    ;

    /// Returns the first child node of the given node, if any.
    fn first_child(&self, node: &Self::Node) -> (child: Option<Self::Node>)
        requires
            self.inv(),
        ensures
            match child {
                Some(found) => self.dom().first_child(Self::node_id(node)) == Some(Self::node_id(&found)),
                None => self.dom().first_child(Self::node_id(node)) is None,
            },
    ;

    /// Returns the next sibling of the given node, if any.
    fn next_sibling(&self, node: &Self::Node) -> (sibling: Option<Self::Node>)
        requires
            self.inv(),
        ensures
            match sibling {
                Some(found) => self.dom().next_sibling(Self::node_id(node)) == Some(Self::node_id(&found)),
                None => self.dom().next_sibling(Self::node_id(node)) is None,
            },
    ;

    /// The given node as an element, if it is one.
    fn cast_element(&self, node: Self::Node) -> (el: Option<Self::Element>)
        requires
            self.inv(),
        ensures
            match el {
                Some(el) => self.dom().is_element(Self::node_id(&node)) && Self::element_id(&el)
                    == Self::node_id(&node),
                None => !self.dom().is_element(Self::node_id(&node)),
            },
    ;

    /// The given node as a text node, if it is one.
    fn cast_text(&self, node: Self::Node) -> (text: Option<Self::Text>)
        requires
            self.inv(),
        ensures
            match text {
                Some(text) => self.dom().is_text(Self::node_id(&node)) && Self::text_id(&text)
                    == Self::node_id(&node),
                None => !self.dom().is_text(Self::node_id(&node)),
            },
    ;

    /// The given node as a placeholder, if it is one.
    fn cast_placeholder(&self, node: Self::Node) -> (marker: Option<Self::Placeholder>)
        requires
            self.inv(),
        ensures
            match marker {
                Some(marker) => self.dom().is_placeholder(Self::node_id(&node))
                    && Self::placeholder_id(&marker) == Self::node_id(&node),
                None => !self.dom().is_placeholder(Self::node_id(&node)),
            },
    ;

    /// Another handle to the same element.
    fn clone_element(el: &Self::Element) -> (copy: Self::Element)
        ensures
            Self::element_id(&copy) == Self::element_id(el),
    ;

    /// Another handle to the same node.
    fn clone_node(node: &Self::Node) -> (copy: Self::Node)
        ensures
            Self::node_id(&copy) == Self::node_id(node),
    ;

    /// The element as a plain node.
    fn element_node(el: &Self::Element) -> (node: Self::Node)
        ensures
            Self::node_id(&node) == Self::element_id(el),
    ;

    /// The text node as a plain node.
    fn text_node(text: &Self::Text) -> (node: Self::Node)
        ensures
            Self::node_id(&node) == Self::text_id(text),
    ;

    /// The placeholder as a plain node.
    fn placeholder_node(marker: &Self::Placeholder) -> (node: Self::Node)
        ensures
            Self::node_id(&node) == Self::placeholder_id(marker),
    ;

}

/// What a renderer of a browser-like document offers beyond [`Renderer`]:
/// script-level properties, event listeners, the class list and the style
/// declaration of an element.
///
/// None of these is part of the document model. What the contracts say is
/// that such a call leaves the tree as it is: at most the attributes of
/// elements change.
pub trait DomRenderer: Renderer {
    /// A value that a script-level property can take.
    type Property;

    /// A callback for events.
    type Listener;

    /// The list of class names of an element.
    type ClassList;

    /// The style declaration of an element.
    type CssStyleDeclaration;

    /// The element whose classes a list holds.
    open spec fn class_list_owner(list: &Self::ClassList) -> NodeId {
        arbitrary()
    }

    /// The element whose style a declaration holds.
    open spec fn style_owner(style: &Self::CssStyleDeclaration) -> NodeId {
        arbitrary()
    }

    /// Sets a script-level property of the element. What that does to the
    /// element is the renderer's to say: at most its attributes change,
    /// and the record of the document shows what was asked.
    fn set_property(&mut self, el: &Self::Element, key: &str, value: &Self::Property)
        requires
            old(self).inv(),
        ensures
            final(self).inv(),
            final(self).dom().wf(),
            old(self).dom().same_structure(final(self).dom()),
            old(self).dom().same_but(final(self).dom(), Self::element_id(el)),
            final(self).dom().asked == old(self).dom().asked.push(
                Asked::Property(Self::element_id(el), key@),
            ),
            final(self).room() == old(self).room(),
            final(self).writes() == old(self).writes() + 1,
    ;

    /// Registers a callback for the named event on the element.
    fn add_event_listener(&mut self, el: &Self::Element, name: &str, cb: Self::Listener)
        requires
            old(self).inv(),
        ensures
            final(self).inv(),
            final(self).dom().wf(),
            final(self).dom() == old(self).dom().ask(Asked::Listener(Self::element_id(el), name@)),
            final(self).room() == old(self).room(),
            final(self).writes() == old(self).writes() + 1,
    ;

    /// The class list of the element.
    fn class_list(&self, el: &Self::Element) -> (list: Self::ClassList)
        requires
            self.inv(),
        ensures
            Self::class_list_owner(&list) == Self::element_id(el),
    ;

    /// Adds a class name to the list. At most the attributes of the
    /// element change, and the record of the document shows what was
    /// asked.
    fn add_class(&mut self, list: &Self::ClassList, name: &str)
        requires
            old(self).inv(),
        ensures
            final(self).inv(),
            final(self).dom().wf(),
            old(self).dom().same_structure(final(self).dom()),
            old(self).dom().same_but(final(self).dom(), Self::class_list_owner(list)),
            final(self).dom().asked == old(self).dom().asked.push(
                Asked::AddClass(Self::class_list_owner(list), name@),
            ),
            final(self).room() == old(self).room(),
            final(self).writes() == old(self).writes() + 1,
    ;

    /// Removes a class name from the list. At most the attributes of the
    /// element change, and the record of the document shows what was
    /// asked.
    fn remove_class(&mut self, list: &Self::ClassList, name: &str)
        requires
            old(self).inv(),
        ensures
            final(self).inv(),
            final(self).dom().wf(),
            old(self).dom().same_structure(final(self).dom()),
            old(self).dom().same_but(final(self).dom(), Self::class_list_owner(list)),
            final(self).dom().asked == old(self).dom().asked.push(
                Asked::RemoveClass(Self::class_list_owner(list), name@),
            ),
            final(self).room() == old(self).room(),
            final(self).writes() == old(self).writes() + 1,
    ;

    /// The style declaration of the element.
    fn style(&self, el: &Self::Element) -> (style: Self::CssStyleDeclaration)
        requires
            self.inv(),
        ensures
            Self::style_owner(&style) == Self::element_id(el),
    ;

    /// Sets one property of the style declaration. At most the attributes
    /// of the element change, and the record of the document shows what
    /// was asked.
    fn set_css_property(&mut self, style: &Self::CssStyleDeclaration, name: &str, value: &str)
        requires
            old(self).inv(),
        ensures
            final(self).inv(),
            final(self).dom().wf(),
            old(self).dom().same_structure(final(self).dom()),
            old(self).dom().same_but(final(self).dom(), Self::style_owner(style)),
            final(self).dom().asked == old(self).dom().asked.push(
                Asked::CssProperty(Self::style_owner(style), name@, value@),
            ),
            final(self).room() == old(self).room(),
            final(self).writes() == old(self).writes() + 1,
    ;
}

/// The identity behind an optional reference to a node.
pub open spec fn anchor_id<R: Renderer>(anchor: Option<&R::Node>) -> Option<NodeId> {
    match anchor {
        Some(node) => Some(R::node_id(node)),
        None => None,
    }
}

/// The identity behind an optional node.
pub open spec fn found_id<R: Renderer>(found: Option<R::Node>) -> Option<NodeId> {
    match found {
        Some(node) => Some(R::node_id(&node)),
        None => None,
    }
}

/// Attempts to cast from one type of handle to another, looking the node up
/// in the renderer that holds it.
pub trait CastFrom<T, R: Renderer> where Self: Sized {
    /// Whether the renderer holds `source` as a node of the right kind.
    open spec fn castable(source: &T, rndr: &R) -> bool {
        arbitrary()
    }

    fn cast_from(source: T, rndr: &R) -> (cast: Option<Self>)
        requires
            rndr.inv(),
        ensures
            cast is Some <==> Self::castable(&source, rndr),
    ;
}

/// The renderer is in good order and its document is well-formed.
pub open spec fn ready<R: Renderer>(rndr: &R) -> bool {
    rndr.inv() && rndr.dom().wf()
}

} // verus!
