//! A small in-memory document for tests: nodes live in a slot-mapped table
//! and refer to each other by key.
//!
//! It is not meant for anything real.

use super::model::{
    attr_names, attrs_html, attrs_set, attrs_unset, AttrView, DomView, NodeId, NodeKind, NodeView,
};
use super::CastFrom;
use super::Renderer;
use crate::text::same_text;
use crate::view::{anchor_of, mount_node, unmount_node, Mountable};
use crate::html::element::ElementType;
use super::slots::{
    handle_bits, handle_of, table_clear, table_entries, table_get, table_get_mut, table_insert,
    table_len, table_new, table_span, NodeTable,
};
use vstd::prelude::*;

verus! {

/// A handle to any node of a [`Document`].
#[derive(Clone, Copy, Debug, PartialEq, Eq, Hash, Structural)]
pub struct Node(NodeId);

/// A handle to an element.
#[derive(Clone, Copy, Debug, PartialEq, Eq, Hash, Structural)]
pub struct Element(Node);

/// A handle to a text node.
#[derive(Clone, Copy, Debug, PartialEq, Eq, Hash, Structural)]
pub struct Text(Node);

/// A handle to a fragment.
#[derive(Clone, Copy, Debug, PartialEq, Eq, Hash, Structural)]
pub struct Fragment(Node);

/// A handle to a placeholder.
#[derive(Clone, Copy, Debug, PartialEq, Eq, Hash, Structural)]
pub struct Placeholder(Node);

impl Node {
    /// The identity of the node this handle refers to.
    pub closed spec fn id(&self) -> NodeId {
        self.0
    }
}

impl Element {
    /// The identity of the element this handle refers to.
    pub closed spec fn id(&self) -> NodeId {
        self.0.0
    }

    /// This element as a plain node.
    pub fn as_node(&self) -> (node: &Node)
        ensures
            node.id() == self.id(),
    {
        &self.0
    }
}

impl Text {
    /// The identity of the text node this handle refers to.
    pub closed spec fn id(&self) -> NodeId {
        self.0.0
    }

    /// This text node as a plain node.
    pub fn as_node(&self) -> (node: &Node)
        ensures
            node.id() == self.id(),
    {
        &self.0
    }
}

impl Fragment {
    /// The identity of the fragment this handle refers to.
    pub closed spec fn id(&self) -> NodeId {
        self.0.0
    }

    /// This fragment as a plain node.
    pub fn as_node(&self) -> (node: &Node)
        ensures
            node.id() == self.id(),
    {
        &self.0
    }
}

impl Placeholder {
    /// The identity of the placeholder this handle refers to.
    pub closed spec fn id(&self) -> NodeId {
        self.0.0
    }

    /// This placeholder as a plain node.
    pub fn as_node(&self) -> (node: &Node)
        ensures
            node.id() == self.id(),
    {
        &self.0
    }
}

/// Whether two handles refer to the same node.
pub fn node_eq(a: &Node, b: &Node) -> (same: bool)
    ensures
        same == (a.id() == b.id()),
{
    a.0 == b.0
}

/// What a node is, with what it holds.
#[derive(Debug)]
pub enum NodeType {
    Text(String),
    Element { tag: String, attrs: Vec<(String, String)>, children: Vec<Node> },
    Fragment(Vec<Node>),
    Placeholder,
}

/// The record that a [`Document`] keeps for one node.
#[derive(Debug)]
pub struct NodeData {
    parent: Option<NodeId>,
    pub ty: NodeType,
}

/// The identities behind a list of handles.
pub closed spec fn node_ids(nodes: Seq<Node>) -> Seq<NodeId> {
    nodes.map_values(|n: Node| n.0)
}

/// A list of owned attributes as names and values.
pub open spec fn attr_views(attrs: Seq<(String, String)>) -> Seq<AttrView> {
    attrs.map_values(|a: (String, String)| (a.0@, a.1@))
}

impl View for NodeType {
    type V = NodeKind;

    open spec fn view(&self) -> NodeKind {
        match self {
            NodeType::Text(text) => NodeKind::Text(text@),
            NodeType::Element { tag, attrs, children } => NodeKind::Element {
                tag: tag@,
                attrs: attr_views(attrs@),
                children: node_ids(children@),
            },
            NodeType::Fragment(members) => NodeKind::Fragment(node_ids(members@)),
            NodeType::Placeholder => NodeKind::Placeholder,
        }
    }
}

impl View for NodeData {
    type V = NodeView;

    closed spec fn view(&self) -> NodeView {
        NodeView { parent: self.parent, kind: self.ty@ }
    }
}

/// The node table of the in-memory backend.
pub struct Document {
    nodes: NodeTable,
    opened: u32,
}

impl View for Document {
    type V = DomView;

    closed spec fn view(&self) -> DomView {
        DomView {
            nodes: table_entries(self.nodes).map_values(|d: NodeData| d@),
            asked: Seq::empty(),
        }
    }
}

impl Document {
    /// The table is a well-formed document, every key it holds is the handle
    /// of itself, and the count of opened slots is an upper bound on the
    /// slots that the table has opened.
    pub closed spec fn inv(&self) -> bool {
        &&& self@.wf()
        &&& forall|k: u64| #[trigger]
            table_entries(self.nodes).contains_key(k) ==> handle_of(k) == k
        &&& table_span(self.nodes) <= self.opened
    }

    /// How many more nodes the document can take.
    pub closed spec fn room(&self) -> nat {
        (u32::MAX - self.opened) as nat
    }

    /// An empty document.
    pub fn new() -> (doc: Document)
        ensures
            doc.inv(),
            doc@ == DomView::empty(),
            doc.room() == u32::MAX - 1,
    {
        let doc = Document { nodes: table_new(), opened: 1 };
        assert(doc@.nodes =~= Map::empty());
        doc
    }

    /// Forgets every node. Handles made before no longer refer to anything.
    pub fn reset(&mut self)
        requires
            old(self).inv(),
        ensures
            final(self).inv(),
            final(self)@ == DomView::empty(),
            final(self).room() == old(self).room(),
    {
        table_clear(&mut self.nodes);
        assert(self@.nodes =~= Map::empty());
    }

    /// The number of nodes in the document.
    pub fn len(&self) -> (len: usize)
        requires
            self.inv(),
        ensures
            len == self@.nodes.len(),
    {
        let len = table_len(&self.nodes);
        assert(self@.nodes.dom() =~= table_entries(self.nodes).dom());
        len
    }

    /// The record of the node `id`, if the document holds it.
    pub fn node(&self, id: NodeId) -> (found: Option<&NodeData>)
        requires
            self.inv(),
        ensures
            match found {
                Some(data) => self@.contains(id) && data@ == self@.nodes[id],
                None => !self@.contains(id),
            },
    {
        if handle_bits(id) != id {
            None
        } else {
            table_get(&self.nodes, id)
        }
    }

    /// Enters a new node that lists nothing.
    fn create(&mut self, ty: NodeType) -> (id: NodeId)
        requires
            old(self).inv(),
            old(self).room() > 0,
            match ty@ {
                NodeKind::Element { attrs, children, .. } => attrs.len() == 0 && children.len()
                    == 0,
                NodeKind::Fragment(members) => members.len() == 0,
                _ => true,
            },
        ensures
            final(self).inv(),
            !old(self)@.contains(id),
            final(self)@ == old(self)@.create(id, ty@),
            final(self).room() == old(self).room() - 1,
    {
        let data = NodeData { parent: None, ty };
        let id = table_insert(&mut self.nodes, data);
        self.opened = self.opened + 1;
        proof {
            assert(self@.nodes =~= old(self)@.create(id, data.ty@).nodes);
            old(self)@.lemma_create_wf(id, data.ty@);
        }
        id
    }

    /// A new element with the given tag, without attributes or children.
    pub fn create_element(&mut self, tag: &str) -> (el: Element)
        requires
            old(self).inv(),
            old(self).room() > 0,
        ensures
            final(self).inv(),
            !old(self)@.contains(el.id()),
            final(self)@ == old(self)@.create(el.id(), DomView::fresh_element(tag@)),
            final(self).room() == old(self).room() - 1,
    {
        let ty = NodeType::Element {
            tag: tag.to_owned(),
            attrs: Vec::new(),
            children: Vec::new(),
        };
        assert(ty@ == DomView::fresh_element(tag@)) by {
            assert(attr_views(Seq::<(String, String)>::empty()) =~= Seq::<AttrView>::empty());
            assert(node_ids(Seq::<Node>::empty()) =~= Seq::<NodeId>::empty());
        }
        Element(Node(self.create(ty)))
    }

    /// A new text node that holds `data`.
    pub fn create_text_node(&mut self, data: &str) -> (text: Text)
        requires
            old(self).inv(),
            old(self).room() > 0,
        ensures
            final(self).inv(),
            !old(self)@.contains(text.id()),
            final(self)@ == old(self)@.create(text.id(), NodeKind::Text(data@)),
            final(self).room() == old(self).room() - 1,
    {
        Text(Node(self.create(NodeType::Text(data.to_owned()))))
    }

    /// A new placeholder.
    pub fn create_placeholder(&mut self) -> (marker: Placeholder)
        requires
            old(self).inv(),
            old(self).room() > 0,
        ensures
            final(self).inv(),
            !old(self)@.contains(marker.id()),
            final(self)@ == old(self)@.create(marker.id(), NodeKind::Placeholder),
            final(self).room() == old(self).room() - 1,
    {
        Placeholder(Node(self.create(NodeType::Placeholder)))
    }
}

/// The index of the first handle in `children` that refers to `target`.
fn position(children: &Vec<Node>, target: NodeId) -> (found: Option<usize>)
    ensures
        match found {
            Some(i) => i < children.len() && node_ids(children@).index_of_first(target) == Some(
                i as int,
            ),
            None => node_ids(children@).index_of_first(target) is None,
        },
{
    let ghost ids = node_ids(children@);
    let mut i: usize = 0;
    while i < children.len()
        invariant
            i <= children.len(),
            ids == node_ids(children@),
            forall|j: int| 0 <= j < i ==> ids[j] != target,
        decreases children.len() - i,
    {
        if children[i].0 == target {
            proof {
                ids.index_of_first_ensures(target);
                assert(ids[i as int] == target);
            }
            return Some(i);
        }
        i += 1;
    }
    proof {
        ids.index_of_first_ensures(target);
    }
    None
}

/// The index of the attribute called `name`.
fn attr_position(attrs: &Vec<(String, String)>, name: &str) -> (found: Option<usize>)
    ensures
        match found {
            Some(i) => i < attrs.len() && attr_names(attr_views(attrs@)).index_of_first(name@)
                == Some(i as int),
            None => attr_names(attr_views(attrs@)).index_of_first(name@) is None,
        },
{
    let ghost names = attr_names(attr_views(attrs@));
    let mut i: usize = 0;
    while i < attrs.len()
        invariant
            i <= attrs.len(),
            names == attr_names(attr_views(attrs@)),
            forall|j: int| 0 <= j < i ==> names[j] != name@,
        decreases attrs.len() - i,
    {
        if same_text(attrs[i].0.as_str(), name) {
            proof {
                names.index_of_first_ensures(name@);
                assert(names[i as int] == name@);
            }
            return Some(i);
        }
        i += 1;
    }
    proof {
        names.index_of_first_ensures(name@);
    }
    None
}

impl Document {
    /// Takes the node `child` out of the list of its parent.
    fn detach(&mut self, child: NodeId)
        requires
            old(self).inv(),
        ensures
            final(self).inv(),
            final(self)@ == old(self)@.detach(child),
            final(self).room() == old(self).room(),
    {
        let parent = match self.node(child) {
            Some(data) => data.parent,
            None => None,
        };
        if let Some(p) = parent {
            let ghost pre = self@;
            match table_get_mut(&mut self.nodes, p) {
                Some(data) => {
                    match &mut data.ty {
                        NodeType::Element { children, .. } => {
                            match position(children, child) {
                                Some(at) => {
                                    children.remove(at);
                                },
                                None => {},
                            }
                        },
                        _ => {},
                    }
                },
                None => {},
            }
            let ghost mid = self@;
            proof {
                let cs = pre.children(p);
                cs.index_of_first_ensures(child);
                assert(mid.nodes =~= pre.with_children(p, cs.remove_value(child)).nodes) by {
                    let i = cs.index_of_first(child).unwrap();
                    let kept = table_entries(self.nodes)[p];
                    assert(kept@.kind->Element_children =~= cs.remove(i));
                }
            }
            match table_get_mut(&mut self.nodes, child) {
                Some(data) => {
                    data.parent = None;
                },
                None => {},
            }
            proof {
                assert(self@.nodes =~= mid.with_parent(child, None).nodes);
                pre.lemma_detach_wf(child);
            }
        }
    }

    /// Lists the unattached node `child` under the element `parent`, in
    /// front of `anchor`.
    fn attach(&mut self, parent: NodeId, child: NodeId, anchor: Option<NodeId>)
        requires
            old(self).inv(),
            old(self)@.is_element(parent),
            old(self)@.contains(child),
            old(self)@.parent(child) is None,
        ensures
            final(self).inv(),
            final(self)@ == old(self)@.attach(parent, child, anchor),
            final(self).room() == old(self).room(),
    {
        let ghost pre = self@;
        match table_get_mut(&mut self.nodes, parent) {
            Some(data) => {
                match &mut data.ty {
                    NodeType::Element { children, .. } => {
                        let at = match anchor {
                            Some(a) => match position(children, a) {
                                Some(at) => at,
                                None => children.len(),
                            },
                            None => children.len(),
                        };
                        children.insert(at, Node(child));
                    },
                    _ => {},
                }
            },
            None => {},
        }
        let ghost mid = self@;
        proof {
            let cs = pre.children(parent);
            let slot = DomView::slot_for(cs, anchor);
            assert(mid.nodes =~= pre.with_children(parent, cs.insert(slot, child)).nodes) by {
                let kept = table_entries(self.nodes)[parent];
                assert(kept@.kind->Element_children =~= cs.insert(slot, child));
            }
        }
        match table_get_mut(&mut self.nodes, child) {
            Some(data) => {
                data.parent = Some(parent);
            },
            None => {},
        }
        proof {
            assert(self@.nodes =~= mid.with_parent(child, Some(parent)).nodes);
            pre.lemma_attach_wf(parent, child, anchor);
        }
    }
}

/// The in-memory renderer.
pub struct MockDom {
    document: Document,
    writes: Ghost<nat>,
}

impl MockDom {
    /// A renderer with an empty document, on which no call has been
    /// counted yet.
    pub fn new() -> (dom: MockDom)
        ensures
            dom.inv(),
            dom.dom().wf(),
            dom.dom() == DomView::empty(),
            dom.room() == u32::MAX - 1,
            dom.writes() == 0,
    {
        MockDom { document: Document::new(), writes: Ghost(0) }
    }

    /// The document that this renderer works on.
    pub fn document(&self) -> (doc: &Document)
        ensures
            doc@ == self.dom(),
            doc.inv() == self.inv(),
    {
        &self.document
    }

    /// Forgets every node of the document. This counts as no call to the
    /// renderer, and gives no room back: the table keeps the slots that
    /// it has opened.
    pub fn reset(&mut self)
        requires
            old(self).inv(),
        ensures
            final(self).inv(),
            final(self).dom().wf(),
            final(self).dom() == DomView::empty(),
            final(self).room() == old(self).room(),
            final(self).writes() == old(self).writes(),
    {
        self.document.reset();
    }
}

impl Renderer for MockDom {
    type Node = Node;

    type Element = Element;

    type Text = Text;

    type Placeholder = Placeholder;

    closed spec fn dom(&self) -> DomView {
        self.document@
    }

    closed spec fn inv(&self) -> bool {
        self.document.inv()
    }

    closed spec fn room(&self) -> nat {
        self.document.room()
    }

    closed spec fn writes(&self) -> nat {
        self.writes@
    }

    open spec fn node_id(node: &Node) -> NodeId {
        node.id()
    }

    open spec fn element_id(el: &Element) -> NodeId {
        el.id()
    }

    open spec fn text_id(text: &Text) -> NodeId {
        text.id()
    }

    open spec fn placeholder_id(marker: &Placeholder) -> NodeId {
        marker.id()
    }

    fn nodes_left(&self) -> (left: usize) {
        let left: u32 = u32::MAX - self.document.opened;
        left as usize
    }

    fn create_element<E: ElementType>(&mut self) -> (el: Element) {
        proof {
            self.writes@ = self.writes@ + 1;
        }
        self.document.create_element(E::tag())
    }

    fn create_text_node(&mut self, text: &str) -> (node: Text) {
        proof {
            self.writes@ = self.writes@ + 1;
        }
        self.document.create_text_node(text)
    }

    fn create_placeholder(&mut self) -> (marker: Placeholder) {
        proof {
            self.writes@ = self.writes@ + 1;
        }
        self.document.create_placeholder()
    }

    fn set_text(&mut self, node: &Text, text: &str) {
        proof {
            self.writes@ = self.writes@ + 1;
        }
        let id = node.0.0;
        if handle_bits(id) == id {
            match table_get_mut(&mut self.document.nodes, id) {
                Some(data) => {
                    match &mut data.ty {
                        NodeType::Text(content) => {
                            *content = text.to_owned();
                        },
                        _ => {},
                    }
                },
                None => {},
            }
        }
        proof {
            let pre = old(self).document@;
            assert(self.document@.nodes =~= pre.set_text(id, text@).nodes);
            pre.lemma_set_text_wf(id, text@);
        }
    }

    fn set_attribute(&mut self, node: &Element, name: &str, value: &str) {
        proof {
            self.writes@ = self.writes@ + 1;
        }
        let id = node.0.0;
        if handle_bits(id) == id {
            match table_get_mut(&mut self.document.nodes, id) {
                Some(data) => {
                    match &mut data.ty {
                        NodeType::Element { attrs, .. } => {
                            match attr_position(attrs, name) {
                                Some(at) => {
                                    attrs.set(at, (name.to_owned(), value.to_owned()));
                                },
                                None => {
                                    attrs.push((name.to_owned(), value.to_owned()));
                                },
                            }
                        },
                        _ => {},
                    }
                },
                None => {},
            }
        }
        proof {
            let pre = old(self).document@;
            if pre.is_element(id) {
                let kept = table_entries(self.document.nodes)[id];
                assert(kept@.kind->Element_attrs =~= attrs_set(pre.attrs(id), name@, value@));
            }
            assert(self.document@.nodes =~= pre.set_attribute(id, name@, value@).nodes);
            pre.lemma_set_attribute_wf(id, name@, value@);
        }
    }

    fn remove_attribute(&mut self, node: &Element, name: &str) {
        proof {
            self.writes@ = self.writes@ + 1;
        }
        let id = node.0.0;
        if handle_bits(id) == id {
            match table_get_mut(&mut self.document.nodes, id) {
                Some(data) => {
                    match &mut data.ty {
                        NodeType::Element { attrs, .. } => {
                            match attr_position(attrs, name) {
                                Some(at) => {
                                    attrs.remove(at);
                                },
                                None => {},
                            }
                        },
                        _ => {},
                    }
                },
                None => {},
            }
        }
        proof {
            let pre = old(self).document@;
            if pre.is_element(id) {
                let kept = table_entries(self.document.nodes)[id];
                assert(kept@.kind->Element_attrs =~= attrs_unset(pre.attrs(id), name@));
            }
            assert(self.document@.nodes =~= pre.remove_attribute(id, name@).nodes);
            pre.lemma_remove_attribute_wf(id, name@);
        }
    }

    fn insert_node(&mut self, parent: &Element, new_child: &Node, anchor: Option<&Node>) {
        proof {
            self.writes@ = self.writes@ + 1;
        }
        let anchor_id = match anchor {
            Some(a) => Some(a.0),
            None => None,
        };
        // remove if already mounted
        self.document.detach(new_child.0);
        // mount on new parent
        self.document.attach(parent.0.0, new_child.0, anchor_id);
    }

    fn remove_node(&mut self, parent: &Element, child: &Node) -> (removed: Option<Node>) {
        proof {
            self.writes@ = self.writes@ + 1;
        }
        let is_element = match self.document.node(parent.0.0) {
            Some(data) => match &data.ty {
                NodeType::Element { .. } => true,
                _ => false,
            },
            None => false,
        };
        if is_element {
            self.document.detach(child.0);
            Some(*child)
        } else {
            None
        }
    }

    fn remove(&mut self, node: &Node) {
        proof {
            self.writes@ = self.writes@ + 1;
        }
        self.document.detach(node.0);
    }

    fn get_parent(&self, node: &Node) -> (parent: Option<Node>) {
        match self.document.node(node.0) {
            Some(data) => match data.parent {
                Some(p) => Some(Node(p)),
                None => None,
            },
            None => None,
        }
    }

    fn first_child(&self, node: &Node) -> (child: Option<Node>) {
        match self.document.node(node.0) {
            Some(data) => match &data.ty {
                NodeType::Element { children, .. } => if children.len() > 0 {
                    Some(children[0])
                } else {
                    None
                },
                NodeType::Fragment(members) => if members.len() > 0 {
                    Some(members[0])
                } else {
                    None
                },
                _ => None,
            },
            None => None,
        }
    }

    fn next_sibling(&self, node: &Node) -> (sibling: Option<Node>) {
        let parent = match self.document.node(node.0) {
            Some(data) => data.parent,
            None => None,
        };
        match parent {
            Some(p) => match self.document.node(p) {
                Some(data) => match &data.ty {
                    NodeType::Element { children, .. } => match position(children, node.0) {
                        Some(this) => if this + 1 < children.len() {
                            Some(children[this + 1])
                        } else {
                            None
                        },
                        None => None,
                    },
                    _ => None,
                },
                None => None,
            },
            None => None,
        }
    }

    fn cast_element(&self, node: Node) -> (el: Option<Element>) {
        match self.document.node(node.0) {
            Some(data) => match &data.ty {
                NodeType::Element { .. } => Some(Element(node)),
                _ => None,
            },
            None => None,
        }
    }

    fn cast_text(&self, node: Node) -> (text: Option<Text>) {
        match self.document.node(node.0) {
            Some(data) => match &data.ty {
                NodeType::Text(_) => Some(Text(node)),
                _ => None,
            },
            None => None,
        }
    }

    fn cast_placeholder(&self, node: Node) -> (marker: Option<Placeholder>) {
        match self.document.node(node.0) {
            Some(data) => match &data.ty {
                NodeType::Placeholder => Some(Placeholder(node)),
                _ => None,
            },
            None => None,
        }
    }

    fn clone_element(el: &Element) -> (copy: Element) {
        *el
    }

    fn clone_node(node: &Node) -> (copy: Node) {
        *node
    }

    fn element_node(el: &Element) -> (node: Node) {
        el.0
    }

    fn text_node(text: &Text) -> (node: Node) {
        text.0
    }

    fn placeholder_node(marker: &Placeholder) -> (node: Node) {
        marker.0
    }
}

/// Appends the markup of a list of attributes to `buf`.
fn push_attrs(attrs: &Vec<(String, String)>, buf: &mut String)
    ensures
        final(buf)@ == old(buf)@ + attrs_html(attr_views(attrs@)),
{
    let ghost start = buf@;
    let ghost all = attr_views(attrs@);
    let mut i: usize = 0;
    while i < attrs.len()
        invariant
            i <= attrs.len(),
            all == attr_views(attrs@),
            buf@ == start + attrs_html(all.take(i as int)),
        decreases attrs.len() - i,
    {
        buf.append(" ");
        buf.append(attrs[i].0.as_str());
        buf.append("=\"");
        buf.append(attrs[i].1.as_str());
        buf.append("\"");
        proof {
            let next = all.take(i + 1);
            assert(next.drop_last() =~= all.take(i as int));
        }
        i += 1;
    }
    proof {
        assert(all.take(i as int) =~= all);
    }
}

/// Appends the markup of the nodes behind `children` to `buf`, as the
/// content of a node that may still descend `depth` levels.
fn push_children(children: &Vec<Node>, doc: &Document, buf: &mut String, depth: usize)
    requires
        doc.inv(),
    ensures
        final(buf)@ == old(buf)@ + doc@.html_below(node_ids(children@), depth as nat),
    decreases depth, 0nat,
{
    let ghost start = buf@;
    let ghost all = node_ids(children@);
    if depth == 0 {
        return ;
    }
    let mut i: usize = 0;
    while i < children.len()
        invariant
            i <= children.len(),
            depth > 0,
            doc.inv(),
            all == node_ids(children@),
            buf@ == start + doc@.html_below(all.take(i as int), depth as nat),
        decreases children.len() - i,
    {
        let ghost before = buf@;
        match doc.node(children[i].0) {
            Some(data) => {
                data.debug_html(doc, buf, depth - 1);
            },
            None => {},
        }
        proof {
            let next = all.take(i + 1);
            assert(next.drop_last() =~= all.take(i as int));
            assert(buf@ =~= before + doc@.html(all[i as int], (depth - 1) as nat));
        }
        i += 1;
    }
    proof {
        assert(all.take(i as int) =~= all);
    }
}

impl NodeData {
    /// The node that lists this one, if any.
    pub fn parent(&self) -> (parent: Option<Node>)
        ensures
            parent.is_some() == self@.parent.is_some(),
            parent matches Some(p) ==> self@.parent == Some(p.id()),
    {
        match self.parent {
            Some(p) => Some(Node(p)),
            None => None,
        }
    }

    /// Appends the markup of this node, as `doc` holds it, to `buf`. The
    /// walk descends at most `depth` levels.
    pub fn debug_html(&self, doc: &Document, buf: &mut String, depth: usize)
        requires
            doc.inv(),
        ensures
            final(buf)@ == old(buf)@ + doc@.html_node(self@, depth as nat),
        decreases depth, 1nat,
    {
        match &self.ty {
            NodeType::Text(text) => {
                buf.append(text.as_str());
            },
            NodeType::Element { tag, attrs, children } => {
                buf.append("<");
                buf.append(tag.as_str());
                push_attrs(attrs, buf);
                buf.append(">");
                push_children(children, doc, buf, depth);
                buf.append("</");
                buf.append(tag.as_str());
                buf.append(">");
            },
            NodeType::Fragment(members) => {
                push_children(members, doc, buf, depth);
            },
            NodeType::Placeholder => {
                buf.append("<!>");
            },
        }
    }
}

impl Node {
    /// Appends the markup of the subtree under this node to `buf`.
    pub fn debug_html(&self, dom: &MockDom, buf: &mut String)
        requires
            dom.inv(),
        ensures
            final(buf)@ == old(buf)@ + dom.dom().html(self.id(), dom.dom().nodes.len()),
    {
        let doc = dom.document();
        let depth = doc.len();
        match doc.node(self.0) {
            Some(data) => {
                data.debug_html(doc, buf, depth);
            },
            None => {
            },
        }
    }
}

impl Text {
    /// Appends the content of this text node to `buf`.
    pub fn debug_html(&self, dom: &MockDom, buf: &mut String)
        requires
            dom.inv(),
        ensures
            final(buf)@ == old(buf)@ + dom.dom().html(self.id(), dom.dom().nodes.len()),
    {
        self.0.debug_html(dom, buf);
    }
}

impl Element {
    /// Appends the markup of the subtree under this element to `buf`.
    pub fn debug_html(&self, dom: &MockDom, buf: &mut String)
        requires
            dom.inv(),
        ensures
            final(buf)@ == old(buf)@ + dom.dom().html(self.id(), dom.dom().nodes.len()),
    {
        self.0.debug_html(dom, buf);
    }

    /// The markup of the subtree under this element.
    pub fn to_debug_html(&self, dom: &MockDom) -> (html: String)
        requires
            dom.inv(),
        ensures
            html@ == dom.dom().html(self.id(), dom.dom().nodes.len()),
    {
        let mut buf = String::new();
        self.debug_html(dom, &mut buf);
        buf
    }
}

impl CastFrom<Node, MockDom> for Text {
    open spec fn castable(source: &Node, rndr: &MockDom) -> bool {
        rndr.dom().is_text(source.id())
    }

    fn cast_from(source: Node, rndr: &MockDom) -> (cast: Option<Text>)
        ensures
            cast matches Some(text) ==> text.id() == source.id(),
    {
        rndr.cast_text(source)
    }
}

impl CastFrom<Node, MockDom> for Element {
    open spec fn castable(source: &Node, rndr: &MockDom) -> bool {
        rndr.dom().is_element(source.id())
    }

    fn cast_from(source: Node, rndr: &MockDom) -> (cast: Option<Element>)
        ensures
            cast matches Some(el) ==> el.id() == source.id(),
    {
        rndr.cast_element(source)
    }
}

impl CastFrom<Node, MockDom> for Placeholder {
    open spec fn castable(source: &Node, rndr: &MockDom) -> bool {
        rndr.dom().is_placeholder(source.id())
    }

    fn cast_from(source: Node, rndr: &MockDom) -> (cast: Option<Placeholder>)
        ensures
            cast matches Some(marker) ==> marker.id() == source.id(),
    {
        rndr.cast_placeholder(source)
    }
}

/// A bare handle can be mounted like a state of one node. What the node
/// shows is not known from the handle.
impl Mountable<MockDom> for Node {
    open spec fn nodes(&self) -> Seq<NodeId> {
        seq![self.id()]
    }

    fn unmount(&self, rndr: &mut MockDom) {
        unmount_node(rndr, &*self);
    }

    fn mount(&self, rndr: &mut MockDom, parent: &Element, marker: Option<&Node>) {
        mount_node(rndr, &*self, parent, marker);
    }

    fn anchor_node(&self, rndr: &MockDom) -> (node: Option<Node>) {
        anchor_of(rndr, *self)
    }
}

/// A bare handle can be mounted like a state of one node. What the node
/// shows is not known from the handle.
impl Mountable<MockDom> for Text {
    open spec fn nodes(&self) -> Seq<NodeId> {
        seq![self.id()]
    }

    fn unmount(&self, rndr: &mut MockDom) {
        unmount_node(rndr, &self.0);
    }

    fn mount(&self, rndr: &mut MockDom, parent: &Element, marker: Option<&Node>) {
        mount_node(rndr, &self.0, parent, marker);
    }

    fn anchor_node(&self, rndr: &MockDom) -> (node: Option<Node>) {
        anchor_of(rndr, self.0)
    }
}

/// A bare handle can be mounted like a state of one node. What the node
/// shows is not known from the handle.
impl Mountable<MockDom> for Element {
    open spec fn nodes(&self) -> Seq<NodeId> {
        seq![self.id()]
    }

    fn unmount(&self, rndr: &mut MockDom) {
        unmount_node(rndr, &self.0);
    }

    fn mount(&self, rndr: &mut MockDom, parent: &Element, marker: Option<&Node>) {
        mount_node(rndr, &self.0, parent, marker);
    }

    fn anchor_node(&self, rndr: &MockDom) -> (node: Option<Node>) {
        anchor_of(rndr, self.0)
    }
}

/// A bare handle can be mounted like a state of one node. What the node
/// shows is not known from the handle.
impl Mountable<MockDom> for Placeholder {
    open spec fn nodes(&self) -> Seq<NodeId> {
        seq![self.id()]
    }

    fn unmount(&self, rndr: &mut MockDom) {
        unmount_node(rndr, &self.0);
    }

    fn mount(&self, rndr: &mut MockDom, parent: &Element, marker: Option<&Node>) {
        mount_node(rndr, &self.0, parent, marker);
    }

    fn anchor_node(&self, rndr: &MockDom) -> (node: Option<Node>) {
        anchor_of(rndr, self.0)
    }
}

} // verus!
