//! The mathematical model of a rendered document.
//!
//! A document is a finite table of nodes. Every node records its parent, and
//! every element records its children in order, so that the tree can be walked
//! in both directions. Beside the table the document keeps a record of what
//! was asked of its elements beyond their places and attributes: of their
//! class lists, style declarations, properties and listeners. Renderer
//! contracts are stated as functions on this model.

use vstd::prelude::*;

verus! {

/// Identity of a node within one renderer.
pub type NodeId = u64;

/// One attribute as a name and a value.
pub type AttrView = (Seq<char>, Seq<char>);

/// What a node is.
pub enum NodeKind {
    Text(Seq<char>),
    Element { tag: Seq<char>, attrs: Seq<AttrView>, children: Seq<NodeId> },
    Fragment(Seq<NodeId>),
    Placeholder,
}

/// A node together with its link to the parent that lists it.
pub struct NodeView {
    pub parent: Option<NodeId>,
    pub kind: NodeKind,
}

/// What was asked of an element beyond its place and its attributes.
pub enum Asked {
    /// To set the named script-level property.
    Property(NodeId, Seq<char>),
    /// To listen for the named event.
    Listener(NodeId, Seq<char>),
    /// To put a name on the class list.
    AddClass(NodeId, Seq<char>),
    /// To take a name off the class list.
    RemoveClass(NodeId, Seq<char>),
    /// To set the named property of the style declaration to a value.
    CssProperty(NodeId, Seq<char>, Seq<char>),
}

/// A whole document: its nodes, and the record of what was asked of its
/// elements beyond their places and their attributes, in order.
pub struct DomView {
    pub nodes: Map<NodeId, NodeView>,
    pub asked: Seq<Asked>,
}

/// The names of a list of attributes, in order.
pub open spec fn attr_names(attrs: Seq<AttrView>) -> Seq<Seq<char>> {
    attrs.map_values(|a: AttrView| a.0)
}

/// Sets `name` to `value`: in place where the name is present, at the end
/// where it is not.
pub open spec fn attrs_set(attrs: Seq<AttrView>, name: Seq<char>, value: Seq<char>) -> Seq<
    AttrView,
> {
    match attr_names(attrs).index_of_first(name) {
        Some(i) => attrs.update(i, (name, value)),
        None => attrs.push((name, value)),
    }
}

/// Drops the attribute called `name`, if there is one.
pub open spec fn attrs_unset(attrs: Seq<AttrView>, name: Seq<char>) -> Seq<AttrView> {
    match attr_names(attrs).index_of_first(name) {
        Some(i) => attrs.remove(i),
        None => attrs,
    }
}

/// Markup of one attribute: a space, the name, and the quoted value.
pub open spec fn attr_html(attr: AttrView) -> Seq<char> {
    " "@ + attr.0 + "=\""@ + attr.1 + "\""@
}

/// Markup of a list of attributes, in order.
pub open spec fn attrs_html(attrs: Seq<AttrView>) -> Seq<char>
    decreases attrs.len(),
{
    if attrs.len() == 0 {
        Seq::empty()
    } else {
        attrs_html(attrs.drop_last()) + attr_html(attrs.last())
    }
}

impl DomView {
    pub open spec fn empty() -> DomView {
        DomView { nodes: Map::empty(), asked: Seq::empty() }
    }

    pub open spec fn contains(self, id: NodeId) -> bool {
        self.nodes.contains_key(id)
    }

    pub open spec fn is_element(self, id: NodeId) -> bool {
        self.contains(id) && self.nodes[id].kind is Element
    }

    pub open spec fn is_text(self, id: NodeId) -> bool {
        self.contains(id) && self.nodes[id].kind is Text
    }

    pub open spec fn is_placeholder(self, id: NodeId) -> bool {
        self.contains(id) && self.nodes[id].kind is Placeholder
    }

    /// The parent that lists `id`, if it has one.
    pub open spec fn parent(self, id: NodeId) -> Option<NodeId> {
        if self.contains(id) {
            self.nodes[id].parent
        } else {
            None
        }
    }

    /// The nodes directly under `id`, in order.
    pub open spec fn children(self, id: NodeId) -> Seq<NodeId> {
        if self.contains(id) {
            match self.nodes[id].kind {
                NodeKind::Element { children, .. } => children,
                NodeKind::Fragment(members) => members,
                _ => Seq::empty(),
            }
        } else {
            Seq::empty()
        }
    }

    /// The attributes of `id`, in order; empty unless it is an element.
    pub open spec fn attrs(self, id: NodeId) -> Seq<AttrView> {
        if self.contains(id) {
            match self.nodes[id].kind {
                NodeKind::Element { attrs, .. } => attrs,
                _ => Seq::empty(),
            }
        } else {
            Seq::empty()
        }
    }

    pub open spec fn first_child(self, id: NodeId) -> Option<NodeId> {
        if self.children(id).len() > 0 {
            Some(self.children(id)[0])
        } else {
            None
        }
    }

    /// The node listed right after `id` by its parent.
    pub open spec fn next_sibling(self, id: NodeId) -> Option<NodeId> {
        match self.parent(id) {
            Some(p) => match self.children(p).index_of_first(id) {
                Some(i) => if i + 1 < self.children(p).len() {
                    Some(self.children(p)[i + 1])
                } else {
                    None
                },
                None => None,
            },
            None => None,
        }
    }

    /// Parent links and child lists agree, nothing is listed twice, and no
    /// element carries one attribute name twice.
    pub open spec fn wf(self) -> bool {
        &&& self.nodes.dom().finite()
        &&& forall|id: NodeId| #[trigger]
            self.contains(id) ==> match self.nodes[id].parent {
                Some(p) => self.is_element(p) && self.children(p).contains(id),
                None => true,
            }
        &&& forall|p: NodeId, i: int|
            self.is_element(p) && 0 <= i < self.children(p).len() ==> self.parent(
                #[trigger] self.children(p)[i],
            ) == Some(p)
        &&& forall|p: NodeId| #[trigger] self.is_element(p) ==> self.children(p).no_duplicates()
        &&& forall|p: NodeId| #[trigger]
            self.is_element(p) ==> attr_names(self.attrs(p)).no_duplicates()
    }

    /// A new, unattached node under an unused identity.
    pub open spec fn create(self, id: NodeId, kind: NodeKind) -> DomView {
        DomView { nodes: self.nodes.insert(id, NodeView { parent: None, kind }), ..self }
    }

    pub open spec fn fresh_element(tag: Seq<char>) -> NodeKind {
        NodeKind::Element { tag, attrs: Seq::empty(), children: Seq::empty() }
    }

    /// Replaces the content of a text node; any other node is left as it is.
    pub open spec fn set_text(self, id: NodeId, text: Seq<char>) -> DomView {
        if self.is_text(id) {
            DomView {
                nodes: self.nodes.insert(
                    id,
                    NodeView { parent: self.nodes[id].parent, kind: NodeKind::Text(text) },
                ),
                ..self
            }
        } else {
            self
        }
    }

    /// The document with the attribute list of the element `id` replaced.
    pub open spec fn with_attrs(self, id: NodeId, attrs: Seq<AttrView>) -> DomView {
        if self.contains(id) {
            match self.nodes[id].kind {
                NodeKind::Element { tag, children, .. } => DomView {
                    nodes: self.nodes.insert(
                        id,
                        NodeView {
                            parent: self.nodes[id].parent,
                            kind: NodeKind::Element { tag, attrs, children },
                        },
                    ),
                    ..self
                },
                _ => self,
            }
        } else {
            self
        }
    }

    /// The document with the child list of the element `id` replaced.
    pub open spec fn with_children(self, id: NodeId, children: Seq<NodeId>) -> DomView {
        if self.contains(id) {
            match self.nodes[id].kind {
                NodeKind::Element { tag, attrs, .. } => DomView {
                    nodes: self.nodes.insert(
                        id,
                        NodeView {
                            parent: self.nodes[id].parent,
                            kind: NodeKind::Element { tag, attrs, children },
                        },
                    ),
                    ..self
                },
                _ => self,
            }
        } else {
            self
        }
    }

    /// The document with the parent link of `id` replaced.
    pub open spec fn with_parent(self, id: NodeId, parent: Option<NodeId>) -> DomView {
        if self.contains(id) {
            DomView {
                nodes: self.nodes.insert(id, NodeView { parent, kind: self.nodes[id].kind }),
                ..self
            }
        } else {
            self
        }
    }

    /// Sets an attribute of an element; any other node is left as it is.
    pub open spec fn set_attribute(self, id: NodeId, name: Seq<char>, value: Seq<char>) -> DomView {
        if self.is_element(id) {
            self.with_attrs(id, attrs_set(self.attrs(id), name, value))
        } else {
            self
        }
    }

    /// Removes an attribute of an element; any other node is left as it is.
    pub open spec fn remove_attribute(self, id: NodeId, name: Seq<char>) -> DomView {
        if self.is_element(id) {
            self.with_attrs(id, attrs_unset(self.attrs(id), name))
        } else {
            self
        }
    }

    /// Takes `child` out of the list of its parent and clears its parent
    /// link. A node without a parent is left as it is.
    pub open spec fn detach(self, child: NodeId) -> DomView {
        match self.parent(child) {
            Some(p) => self.with_children(p, self.children(p).remove_value(child)).with_parent(
                child,
                None,
            ),
            None => self,
        }
    }

    /// Where a new child goes in `children`: in front of `anchor`, or at the
    /// end without one.
    pub open spec fn slot_for(children: Seq<NodeId>, anchor: Option<NodeId>) -> int {
        match anchor {
            Some(a) => match children.index_of_first(a) {
                Some(i) => i,
                None => children.len() as int,
            },
            None => children.len() as int,
        }
    }

    /// Lists the unattached node `child` under `parent`, in front of
    /// `anchor`.
    pub open spec fn attach(self, parent: NodeId, child: NodeId, anchor: Option<NodeId>) -> DomView {
        self.with_children(
            parent,
            self.children(parent).insert(Self::slot_for(self.children(parent), anchor), child),
        ).with_parent(child, Some(parent))
    }

    /// Whether `child` may be inserted under `parent` in front of `anchor`.
    pub open spec fn can_insert(self, parent: NodeId, child: NodeId, anchor: Option<NodeId>) -> bool {
        &&& self.is_element(parent)
        &&& self.contains(child)
        &&& child != parent
        &&& match anchor {
            Some(a) => a != child && self.children(parent).contains(a),
            None => true,
        }
    }

    /// Moves `child` under `parent`, in front of `anchor`: it leaves its
    /// former parent first.
    pub open spec fn insert(self, parent: NodeId, child: NodeId, anchor: Option<NodeId>) -> DomView {
        self.detach(child).attach(parent, child, anchor)
    }

    /// Markup of the node `id`, descending at most `depth` levels below it.
    /// An identity that the document does not hold renders as nothing.
    pub open spec fn html(self, id: NodeId, depth: nat) -> Seq<char>
        decreases depth, 2nat, 0nat,
    {
        if self.contains(id) {
            self.html_node(self.nodes[id], depth)
        } else {
            Seq::empty()
        }
    }

    /// Markup of a node given by its record.
    pub open spec fn html_node(self, node: NodeView, depth: nat) -> Seq<char>
        decreases depth, 1nat, 0nat,
    {
        match node.kind {
            NodeKind::Text(text) => text,
            NodeKind::Element { tag, attrs, children } => "<"@ + tag + attrs_html(attrs) + ">"@
                + self.html_below(children, depth) + "</"@ + tag + ">"@,
            NodeKind::Fragment(members) => self.html_below(members, depth),
            NodeKind::Placeholder => "<!>"@,
        }
    }

    /// Markup of the nodes `ids` as the content of a node that may still
    /// descend `depth` levels.
    pub open spec fn html_below(self, ids: Seq<NodeId>, depth: nat) -> Seq<char>
        decreases depth, 0nat, ids.len(),
    {
        if depth == 0 || ids.len() == 0 {
            Seq::empty()
        } else {
            self.html_below(ids.drop_last(), depth) + self.html(ids.last(), (depth - 1) as nat)
        }
    }

    /// Whether each of `nodes` may be inserted under `parent` in front of
    /// `anchor`.
    pub open spec fn can_insert_all(
        self,
        parent: NodeId,
        nodes: Seq<NodeId>,
        anchor: Option<NodeId>,
    ) -> bool {
        &&& self.is_element(parent)
        &&& match anchor {
            Some(a) => self.children(parent).contains(a) && !nodes.contains(a),
            None => true,
        }
        &&& !nodes.contains(parent)
        &&& forall|i: int| 0 <= i < nodes.len() ==> self.contains(#[trigger] nodes[i])
    }

    /// Moves `nodes`, one after the other, under `parent` in front of
    /// `anchor`.
    pub open spec fn insert_all(self, parent: NodeId, nodes: Seq<NodeId>, anchor: Option<NodeId>) -> DomView
        decreases nodes.len(),
    {
        if nodes.len() == 0 {
            self
        } else {
            self.insert_all(parent, nodes.drop_last(), anchor).insert(parent, nodes.last(), anchor)
        }
    }

    /// Detaches `nodes`, one after the other.
    pub open spec fn detach_all(self, nodes: Seq<NodeId>) -> DomView
        decreases nodes.len(),
    {
        if nodes.len() == 0 {
            self
        } else {
            self.detach_all(nodes.drop_last()).detach(nodes.last())
        }
    }

    /// How many of `nodes` stand under a parent when their turn comes as
    /// they are detached, one after the other: the number of nodes that
    /// are in fact taken out.
    pub open spec fn detachments(self, nodes: Seq<NodeId>) -> nat
        decreases nodes.len(),
    {
        if nodes.len() == 0 {
            0
        } else {
            self.detachments(nodes.drop_last()) + if self.detach_all(nodes.drop_last()).parent(
                nodes.last(),
            ) is Some {
                1nat
            } else {
                0nat
            }
        }
    }

    /// New nodes take the place of old ones: they go in front of `anchor`,
    /// under its parent, and the old nodes are detached. Without an anchor
    /// the new nodes stay where they are.
    pub open spec fn swap_in(
        self,
        anchor: Option<NodeId>,
        new_nodes: Seq<NodeId>,
        old_nodes: Seq<NodeId>,
    ) -> DomView {
        (match anchor {
            Some(n) => self.insert_all(self.parent(n).unwrap(), new_nodes, Some(n)),
            None => self,
        }).detach_all(old_nodes)
    }

    /// Every node of `self` is a node of `other` with the same record.
    pub open spec fn kept_by(self, other: DomView) -> bool {
        forall|id: NodeId| #[trigger]
            self.contains(id) ==> other.contains(id) && other.nodes[id] == self.nodes[id]
    }

    /// `nodes` are nodes of `self` without a parent that `before` did not
    /// hold.
    pub open spec fn fresh(self, before: DomView, nodes: Seq<NodeId>) -> bool {
        forall|i: int|
            0 <= i < nodes.len() ==> !before.contains(#[trigger] nodes[i]) && self.contains(
                nodes[i],
            ) && self.parent(nodes[i]) is None
    }

    /// `other` holds the nodes of `self` with the same parents, kinds, tags
    /// and children: at most the attributes of elements differ.
    pub open spec fn same_structure(self, other: DomView) -> bool {
        &&& other.nodes.dom() == self.nodes.dom()
        &&& forall|id: NodeId| #[trigger]
            self.contains(id) ==> {
                &&& other.nodes[id].parent == self.nodes[id].parent
                &&& match self.nodes[id].kind {
                    NodeKind::Element { tag, children, .. } => other.nodes[id].kind matches NodeKind::Element {
                        tag: other_tag,
                        children: other_children,
                        ..
                    } && other_tag == tag && other_children == children,
                    kind => other.nodes[id].kind == kind,
                }
            }
    }

    /// The document after something was asked of one of its elements.
    pub open spec fn ask(self, asked: Asked) -> DomView {
        DomView { asked: self.asked.push(asked), ..self }
    }

    /// `other` differs from `self` at most in the record of `id`.
    pub open spec fn same_but(self, other: DomView, id: NodeId) -> bool {
        forall|n: NodeId| n != id && #[trigger] self.contains(n) ==> other.nodes[n] == self.nodes[n]
    }
}

} // verus!
