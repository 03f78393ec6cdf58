//! Facts about documents: which operations keep a document well-formed,
//! and what they leave alone.

use super::model::{attr_names, attrs_set, attrs_unset, AttrView, DomView, NodeId, NodeKind};
use vstd::prelude::*;

verus! {

/// Taking the first occurrence of a value out of a list without repeats
/// leaves a list without repeats that holds every other value and not this
/// one.
pub proof fn lemma_remove_value<A>(s: Seq<A>, v: A)
    requires
        s.no_duplicates(),
    ensures
        s.remove_value(v).no_duplicates(),
        !s.remove_value(v).contains(v),
        forall|x: A| x != v ==> (#[trigger] s.remove_value(v).contains(x) <==> s.contains(x)),
        forall|x: A| #[trigger] s.remove_value(v).contains(x) ==> s.contains(x),
{
    s.index_of_first_ensures(v);
    match s.index_of_first(v) {
        Some(i) => {
            let r = s.remove(i);
            assert forall|x: A| x != v && s.contains(x) implies #[trigger] r.contains(x) by {
                let a = choose|a: int| 0 <= a < s.len() && s[a] == x;
                let a2 = if a < i { a } else { a - 1 };
                assert(r[a2] == s[a]);
            }
        },
        None => {},
    }
}

/// Putting a value that a list without repeats does not hold into it
/// leaves a list without repeats that holds this value and every former
/// one.
pub proof fn lemma_insert_value<A>(s: Seq<A>, i: int, v: A)
    requires
        s.no_duplicates(),
        !s.contains(v),
        0 <= i <= s.len(),
    ensures
        s.insert(i, v).no_duplicates(),
        s.insert(i, v).contains(v),
        forall|x: A| #[trigger] s.insert(i, v).contains(x) <==> (x == v || s.contains(x)),
{
    let r = s.insert(i, v);
    assert(r[i] == v);
    assert forall|x: A| s.contains(x) implies #[trigger] r.contains(x) by {
        let a = choose|a: int| 0 <= a < s.len() && s[a] == x;
        let a2 = if a < i { a } else { a + 1 };
        assert(r[a2] == s[a]);
    }
}

impl DomView {
    /// A node that lists nothing and is listed nowhere keeps a document
    /// well-formed when it enters under an unused identity.
    pub proof fn lemma_create_wf(self, id: NodeId, kind: NodeKind)
        requires
            self.wf(),
            !self.contains(id),
            match kind {
                NodeKind::Element { attrs, children, .. } => attrs.len() == 0 && children.len()
                    == 0,
                NodeKind::Fragment(members) => members.len() == 0,
                _ => true,
            },
        ensures
            self.create(id, kind).wf(),
    {
        let post = self.create(id, kind);
        assert forall|n: NodeId| #[trigger] post.contains(n) implies match post.nodes[n].parent {
            Some(p) => post.is_element(p) && post.children(p).contains(n),
            None => true,
        } by {
            if n != id {
                assert(self.contains(n));
            }
        }
        assert forall|p: NodeId, i: int|
            post.is_element(p) && 0 <= i < post.children(p).len() implies post.parent(
            #[trigger] post.children(p)[i],
        ) == Some(p) by {
            assert(p != id);
            assert(self.is_element(p));
            assert(self.parent(self.children(p)[i]) == Some(p));
        }
        assert forall|p: NodeId| #[trigger] post.is_element(p) implies post.children(
            p,
        ).no_duplicates() by {
            if p != id {
                assert(self.is_element(p));
            }
        }
        assert forall|p: NodeId| #[trigger] post.is_element(p) implies attr_names(
            post.attrs(p),
        ).no_duplicates() by {
            if p != id {
                assert(self.is_element(p));
            }
        }
    }

    /// New text in a text node keeps a document well-formed.
    pub proof fn lemma_set_text_wf(self, id: NodeId, text: Seq<char>)
        requires
            self.wf(),
        ensures
            self.set_text(id, text).wf(),
    {
        let post = self.set_text(id, text);
        if self.is_text(id) {
            assert forall|n: NodeId| #[trigger] post.contains(n) implies match post.nodes[n].parent {
                Some(p) => post.is_element(p) && post.children(p).contains(n),
                None => true,
            } by {
                assert(self.contains(n));
                match self.nodes[n].parent {
                    Some(p) => {
                        assert(self.is_element(p));
                        assert(post.children(p) == self.children(p));
                    },
                    None => {},
                }
            }
            assert forall|p: NodeId, i: int|
                post.is_element(p) && 0 <= i < post.children(p).len() implies post.parent(
                #[trigger] post.children(p)[i],
            ) == Some(p) by {
                assert(self.is_element(p));
                assert(self.parent(self.children(p)[i]) == Some(p));
            }
            assert forall|p: NodeId| #[trigger] post.is_element(p) implies post.children(
                p,
            ).no_duplicates() && attr_names(post.attrs(p)).no_duplicates() by {
                assert(self.is_element(p));
            }
        }
    }

    /// A list of attributes without a repeated name keeps a document
    /// well-formed when it replaces the list of an element.
    pub proof fn lemma_with_attrs_wf(self, id: NodeId, attrs: Seq<AttrView>)
        requires
            self.wf(),
            attr_names(attrs).no_duplicates(),
        ensures
            self.with_attrs(id, attrs).wf(),
    {
        let post = self.with_attrs(id, attrs);
        if self.is_element(id) {
            assert forall|n: NodeId| #[trigger] post.contains(n) implies match post.nodes[n].parent {
                Some(p) => post.is_element(p) && post.children(p).contains(n),
                None => true,
            } by {
                assert(self.contains(n));
                match self.nodes[n].parent {
                    Some(p) => {
                        assert(self.is_element(p));
                        assert(post.children(p) == self.children(p));
                    },
                    None => {},
                }
            }
            assert forall|p: NodeId, i: int|
                post.is_element(p) && 0 <= i < post.children(p).len() implies post.parent(
                #[trigger] post.children(p)[i],
            ) == Some(p) by {
                assert(self.is_element(p));
                assert(post.children(p) == self.children(p));
                assert(self.parent(self.children(p)[i]) == Some(p));
            }
            assert forall|p: NodeId| #[trigger] post.is_element(p) implies post.children(
                p,
            ).no_duplicates() && attr_names(post.attrs(p)).no_duplicates() by {
                assert(self.is_element(p));
                assert(post.children(p) == self.children(p));
            }
        }
    }

    /// Setting an attribute keeps a document well-formed.
    pub proof fn lemma_set_attribute_wf(self, id: NodeId, name: Seq<char>, value: Seq<char>)
        requires
            self.wf(),
        ensures
            self.set_attribute(id, name, value).wf(),
    {
        if self.is_element(id) {
            let attrs = self.attrs(id);
            let names = attr_names(attrs);
            let post = attrs_set(attrs, name, value);
            names.index_of_first_ensures(name);
            match names.index_of_first(name) {
                Some(i) => {
                    assert(attr_names(post) =~= names);
                },
                None => {
                    assert(attr_names(post) =~= names.push(name));
                },
            }
            self.lemma_with_attrs_wf(id, post);
        }
    }

    /// Removing an attribute keeps a document well-formed.
    pub proof fn lemma_remove_attribute_wf(self, id: NodeId, name: Seq<char>)
        requires
            self.wf(),
        ensures
            self.remove_attribute(id, name).wf(),
    {
        if self.is_element(id) {
            let attrs = self.attrs(id);
            let names = attr_names(attrs);
            let post = attrs_unset(attrs, name);
            names.index_of_first_ensures(name);
            match names.index_of_first(name) {
                Some(i) => {
                    assert(attr_names(post) =~= names.remove(i));
                    lemma_remove_value(names, name);
                },
                None => {},
            }
            self.lemma_with_attrs_wf(id, post);
        }
    }

    /// Detaching a node keeps a document well-formed, leaves the node
    /// without a parent, and changes neither what the document holds nor
    /// what kind any node is.
    pub proof fn lemma_detach_wf(self, child: NodeId)
        requires
            self.wf(),
        ensures
            self.detach(child).wf(),
            self.detach(child).parent(child) is None,
            self.detach(child).nodes.dom() == self.nodes.dom(),
            forall|n: NodeId| #[trigger] self.detach(child).is_element(n) == self.is_element(n),
            forall|n: NodeId|
                n != child ==> #[trigger] self.detach(child).parent(n) == self.parent(n),
            forall|p: NodeId|
                self.parent(child) != Some(p) ==> #[trigger] self.detach(child).children(p)
                    == self.children(p),
            forall|p: NodeId|
                self.parent(child) == Some(p) ==> #[trigger] self.detach(child).children(p)
                    == self.children(p).remove_value(child),
    {
        let post = self.detach(child);
        match self.parent(child) {
            Some(p) => {
                let cs = self.children(p);
                lemma_remove_value(cs, child);
                assert forall|n: NodeId| #[trigger] post.contains(n) implies match post.nodes[n].parent {
                    Some(q) => post.is_element(q) && post.children(q).contains(n),
                    None => true,
                } by {
                    assert(self.contains(n));
                    if n != child {
                        match self.nodes[n].parent {
                            Some(q) => {
                                assert(self.is_element(q));
                                assert(self.children(q).contains(n));
                                if q == p {
                                    assert(cs.remove_value(child).contains(n));
                                }
                            },
                            None => {},
                        }
                    }
                }
                assert forall|q: NodeId, i: int|
                    post.is_element(q) && 0 <= i < post.children(q).len() implies post.parent(
                    #[trigger] post.children(q)[i],
                ) == Some(q) by {
                    assert(self.is_element(q));
                    let c = post.children(q)[i];
                    assert(post.children(q).contains(c));
                    assert(self.children(q).contains(c));
                    let j = choose|j: int| 0 <= j < self.children(q).len() && self.children(q)[j] == c;
                    assert(self.parent(self.children(q)[j]) == Some(q));
                    if c == child {
                        assert(q == p);
                        assert(false);
                    }
                }
                assert forall|q: NodeId| #[trigger] post.is_element(q) implies post.children(
                    q,
                ).no_duplicates() && attr_names(post.attrs(q)).no_duplicates() by {
                    assert(self.is_element(q));
                    if q != p {
                        assert(post.children(q) == self.children(q));
                    }
                    assert(post.attrs(q) == self.attrs(q));
                }
            },
            None => {},
        }
    }

    /// Listing an unattached node under an element keeps a document
    /// well-formed, and changes neither what the document holds nor what
    /// kind any node is.
    pub proof fn lemma_attach_wf(self, parent: NodeId, child: NodeId, anchor: Option<NodeId>)
        requires
            self.wf(),
            self.is_element(parent),
            self.contains(child),
            self.parent(child) is None,
        ensures
            self.attach(parent, child, anchor).wf(),
            self.attach(parent, child, anchor).nodes.dom() == self.nodes.dom(),
            forall|n: NodeId| #[trigger]
                self.attach(parent, child, anchor).is_element(n) == self.is_element(n),
            self.attach(parent, child, anchor).parent(child) == Some(parent),
            forall|n: NodeId|
                n != child ==> #[trigger] self.attach(parent, child, anchor).parent(n)
                    == self.parent(n),
            forall|p: NodeId|
                p != parent ==> #[trigger] self.attach(parent, child, anchor).children(p)
                    == self.children(p),
            self.attach(parent, child, anchor).children(parent) == self.children(parent).insert(
                Self::slot_for(self.children(parent), anchor),
                child,
            ),
    {
        let post = self.attach(parent, child, anchor);
        let cs = self.children(parent);
        let slot = Self::slot_for(cs, anchor);
        match anchor {
            Some(a) => {
                cs.index_of_first_ensures(a);
            },
            None => {},
        }
        self.lemma_unlisted(child);
        lemma_insert_value(cs, slot, child);
        assert forall|q: NodeId| q != parent implies #[trigger] post.children(q) == self.children(
            q,
        ) by {}
        assert forall|n: NodeId| #[trigger] post.contains(n) implies match post.nodes[n].parent {
            Some(q) => post.is_element(q) && post.children(q).contains(n),
            None => true,
        } by {
            assert(self.contains(n));
            if n != child {
                match self.nodes[n].parent {
                    Some(q) => {
                        assert(self.is_element(q));
                        assert(self.children(q).contains(n));
                        if q == parent {
                            assert(cs.insert(slot, child).contains(n));
                        }
                    },
                    None => {},
                }
            }
        }
        assert forall|q: NodeId| #[trigger] post.is_element(q) implies post.children(
            q,
        ).no_duplicates() && attr_names(post.attrs(q)).no_duplicates() by {
            assert(self.is_element(q));
            if q != parent {
                assert(post.children(q) == self.children(q));
            }
            assert(post.attrs(q) == self.attrs(q));
        }
    }

    /// A node without a parent is listed by no element.
    pub proof fn lemma_unlisted(self, child: NodeId)
        requires
            self.wf(),
            self.parent(child) is None,
        ensures
            forall|p: NodeId| self.is_element(p) ==> !(#[trigger] self.children(p)).contains(child),
    {
    }

    /// Moving a node keeps a document well-formed.
    pub proof fn lemma_insert_wf(self, parent: NodeId, child: NodeId, anchor: Option<NodeId>)
        requires
            self.wf(),
            self.can_insert(parent, child, anchor),
        ensures
            self.insert(parent, child, anchor).wf(),
            self.insert(parent, child, anchor).nodes.dom() == self.nodes.dom(),
            forall|n: NodeId| #[trigger]
                self.insert(parent, child, anchor).is_element(n) == self.is_element(n),
    {
        self.lemma_detach_wf(child);
        self.detach(child).lemma_attach_wf(parent, child, anchor);
    }

    /// Moving a node changes no record but its own, that of the parent it
    /// leaves and that of the parent it enters.
    pub proof fn lemma_insert_frame(self, parent: NodeId, child: NodeId, anchor: Option<NodeId>)
        requires
            self.wf(),
            self.can_insert(parent, child, anchor),
        ensures
            forall|n: NodeId|
                n != child && n != parent && self.parent(child) != Some(n) ==> #[trigger] self.insert(
                    parent,
                    child,
                    anchor,
                ).nodes[n] == self.nodes[n],
            forall|p: NodeId, x: NodeId|
                x != child && self.children(p).contains(x) ==> #[trigger] self.insert(
                    parent,
                    child,
                    anchor,
                ).children(p).contains(x),
    {
        let mid = self.detach(child);
        let post = self.insert(parent, child, anchor);
        self.lemma_detach_wf(child);
        mid.lemma_attach_wf(parent, child, anchor);
        assert forall|p: NodeId, x: NodeId|
            x != child && self.children(p).contains(x) implies #[trigger] post.children(
            p,
        ).contains(x) by {
            if self.parent(child) == Some(p) {
                lemma_remove_value(self.children(p), child);
            }
            assert(mid.children(p).contains(x));
            if p == parent {
                mid.lemma_unlisted(child);
                let cs = mid.children(parent);
                match anchor {
                    Some(a) => {
                        cs.index_of_first_ensures(a);
                    },
                    None => {},
                }
                lemma_insert_value(cs, Self::slot_for(cs, anchor), child);
            }
        }
    }

    /// Moving several nodes under an element keeps a document well-formed,
    /// keeps what it holds and what is an element, and keeps every other
    /// node in the child list that held it.
    pub proof fn lemma_insert_all(self, parent: NodeId, nodes: Seq<NodeId>, anchor: Option<NodeId>)
        requires
            self.wf(),
            self.can_insert_all(parent, nodes, anchor),
        ensures
            self.insert_all(parent, nodes, anchor).wf(),
            self.insert_all(parent, nodes, anchor).nodes.dom() == self.nodes.dom(),
            forall|n: NodeId| #[trigger]
                self.insert_all(parent, nodes, anchor).is_element(n) == self.is_element(n),
            forall|p: NodeId, x: NodeId|
                !nodes.contains(x) && self.children(p).contains(x) ==> #[trigger] self.insert_all(
                    parent,
                    nodes,
                    anchor,
                ).children(p).contains(x),
        decreases nodes.len(),
    {
        if nodes.len() > 0 {
            let front = nodes.drop_last();
            let last = nodes.last();
            self.lemma_insert_all(parent, front, anchor);
            let mid = self.insert_all(parent, front, anchor);
            mid.lemma_insert_wf(parent, last, anchor);
            mid.lemma_insert_frame(parent, last, anchor);
        }
    }

    /// Moving one list of nodes and then another is moving the two lists
    /// joined.
    pub proof fn lemma_insert_all_concat(
        self,
        parent: NodeId,
        first: Seq<NodeId>,
        second: Seq<NodeId>,
        anchor: Option<NodeId>,
    )
        ensures
            self.insert_all(parent, first + second, anchor) == self.insert_all(
                parent,
                first,
                anchor,
            ).insert_all(parent, second, anchor),
        decreases second.len(),
    {
        if second.len() == 0 {
        } else {
            assert((first + second).drop_last() =~= first + second.drop_last());
            self.lemma_insert_all_concat(parent, first, second.drop_last(), anchor);
        }
    }

    /// Detaching one list of nodes and then another is detaching the two
    /// lists joined.
    pub proof fn lemma_detach_all_concat(self, first: Seq<NodeId>, second: Seq<NodeId>)
        ensures
            self.detach_all(first + second) == self.detach_all(first).detach_all(second),
        decreases second.len(),
    {
        if second.len() == 0 {
        } else {
            assert((first + second).drop_last() =~= first + second.drop_last());
            self.lemma_detach_all_concat(first, second.drop_last());
        }
    }

    /// Detaching one list of nodes and then another takes out as many
    /// nodes as detaching the two lists joined.
    pub proof fn lemma_detachments_concat(self, first: Seq<NodeId>, second: Seq<NodeId>)
        ensures
            self.detachments(first + second) == self.detachments(first) + self.detach_all(
                first,
            ).detachments(second),
        decreases second.len(),
    {
        if second.len() == 0 {
            assert(first + second =~= first);
        } else {
            assert((first + second).drop_last() =~= first + second.drop_last());
            self.lemma_detachments_concat(first, second.drop_last());
            self.lemma_detach_all_concat(first, second.drop_last());
        }
    }

    /// Detaching the one node of a list takes out that node, if it stands
    /// under a parent.
    pub proof fn lemma_detachments_one(self, node: NodeId)
        ensures
            self.detachments(seq![node]) == (if self.parent(node) is Some {
                1nat
            } else {
                0nat
            }),
    {
        let one = seq![node];
        assert(one.drop_last().len() == 0);
        assert(self.detach_all(one.drop_last()) == self);
        assert(self.detachments(one.drop_last()) == 0);
    }

    /// Moving the one node of a list is moving that node.
    pub proof fn lemma_insert_all_one(self, parent: NodeId, node: NodeId, anchor: Option<NodeId>)
        ensures
            self.insert_all(parent, seq![node], anchor) == self.insert(parent, node, anchor),
            self.can_insert_all(parent, seq![node], anchor) == self.can_insert(parent, node, anchor),
    {
        let one = seq![node];
        assert(one.last() == node);
        assert(self.insert_all(parent, one.drop_last(), anchor) == self);
    }

    /// Detaching the one node of a list is detaching that node.
    pub proof fn lemma_detach_all_one(self, node: NodeId)
        ensures
            self.detach_all(seq![node]) == self.detach(node),
    {
        let one = seq![node];
        assert(self.detach_all(one.drop_last()) == self);
    }

    /// Setting or removing an attribute changes the attributes of one
    /// element and nothing else.
    pub proof fn lemma_attribute_structure(self, id: NodeId, name: Seq<char>, value: Seq<char>)
        ensures
            self.same_structure(self.set_attribute(id, name, value)),
            self.same_but(self.set_attribute(id, name, value), id),
            self.same_structure(self.remove_attribute(id, name)),
            self.same_but(self.remove_attribute(id, name), id),
    {
        assert(self.set_attribute(id, name, value).nodes.dom() =~= self.nodes.dom());
    }

    /// Moving nodes that stand under no parent changes no record but
    /// theirs and that of the parent they enter, whose own parent stays.
    pub proof fn lemma_insert_all_unmounted(
        self,
        parent: NodeId,
        nodes: Seq<NodeId>,
        anchor: Option<NodeId>,
    )
        requires
            self.wf(),
            self.can_insert_all(parent, nodes, anchor),
            forall|i: int| 0 <= i < nodes.len() ==> self.parent(#[trigger] nodes[i]) is None,
        ensures
            forall|n: NodeId|
                n != parent && !nodes.contains(n) ==> #[trigger] self.insert_all(
                    parent,
                    nodes,
                    anchor,
                ).nodes[n] == self.nodes[n],
            forall|i: int|
                0 <= i < nodes.len() ==> self.insert_all(parent, nodes, anchor).parent(
                    #[trigger] nodes[i],
                ) == Some(parent),
            self.insert_all(parent, nodes, anchor).parent(parent) == self.parent(parent),
        decreases nodes.len(),
    {
        if nodes.len() > 0 {
            let front = nodes.drop_last();
            let last = nodes.last();
            self.lemma_insert_all(parent, front, anchor);
            self.lemma_insert_all_unmounted(parent, front, anchor);
            let mid = self.insert_all(parent, front, anchor);
            let post = self.insert_all(parent, nodes, anchor);
            mid.lemma_insert_frame(parent, last, anchor);
            mid.lemma_detach_wf(last);
            mid.detach(last).lemma_attach_wf(parent, last, anchor);
            assert forall|i: int| 0 <= i < nodes.len() implies post.parent(#[trigger] nodes[i])
                == Some(parent) by {
                if nodes[i] != last {
                    assert(front[i] == nodes[i]);
                    assert(mid.parent(front[i]) == Some(parent));
                    assert(post.nodes[nodes[i]] == mid.nodes[nodes[i]]);
                }
            }
        }
    }

    /// Keeping the structure carries over from one step to two.
    pub proof fn lemma_same_structure_trans(self, mid: DomView, last: DomView)
        requires
            self.same_structure(mid),
            mid.same_structure(last),
        ensures
            self.same_structure(last),
    {
        assert forall|id: NodeId| #[trigger] self.contains(id) implies {
            &&& last.nodes[id].parent == self.nodes[id].parent
            &&& match self.nodes[id].kind {
                NodeKind::Element { tag, children, .. } => last.nodes[id].kind matches NodeKind::Element {
                    tag: other_tag,
                    children: other_children,
                    ..
                } && other_tag == tag && other_children == children,
                kind => last.nodes[id].kind == kind,
            }
        } by {
            assert(mid.contains(id));
        }
    }

    /// Leaving all records but one alone carries over from one step to
    /// two.
    pub proof fn lemma_same_but_trans(self, mid: DomView, last: DomView, id: NodeId)
        requires
            self.same_structure(mid),
            self.same_but(mid, id),
            mid.same_but(last, id),
        ensures
            self.same_but(last, id),
    {
        assert forall|n: NodeId| n != id && #[trigger] self.contains(n) implies last.nodes[n]
            == self.nodes[n] by {
            assert(mid.contains(n));
        }
    }

    /// Mounting puts nodes side by side: nodes that stand under no parent,
    /// each listed once, end up in the child list of their new parent in
    /// their own order, in front of the anchor, or at the end where there
    /// is none. The children that were there keep their order around
    /// them.
    pub proof fn lemma_insert_all_places(
        self,
        parent: NodeId,
        nodes: Seq<NodeId>,
        anchor: Option<NodeId>,
    )
        requires
            self.wf(),
            self.can_insert_all(parent, nodes, anchor),
            nodes.no_duplicates(),
            forall|i: int| 0 <= i < nodes.len() ==> self.parent(#[trigger] nodes[i]) is None,
        ensures
            ({
                let children = self.children(parent);
                let at = Self::slot_for(children, anchor);
                &&& 0 <= at <= children.len()
                &&& self.insert_all(parent, nodes, anchor).children(parent) == children.subrange(
                    0,
                    at,
                ) + nodes + children.subrange(at, children.len() as int)
            }),
        decreases nodes.len(),
    {
        let children = self.children(parent);
        let at = Self::slot_for(children, anchor);
        match anchor {
            Some(a) => {
                children.index_of_first_ensures(a);
            },
            None => {},
        }
        if nodes.len() == 0 {
        } else {
            let front = nodes.drop_last();
            let last = nodes.last();
            self.lemma_insert_all(parent, front, anchor);
            self.lemma_insert_all_unmounted(parent, front, anchor);
            self.lemma_insert_all_places(parent, front, anchor);
            let mid = self.insert_all(parent, front, anchor);
            let placed = mid.children(parent);
            let head = children.subrange(0, at);
            let tail = children.subrange(at, children.len() as int);
            // where the next node goes among the children that are placed
            let next = Self::slot_for(placed, anchor);
            assert(next == at + front.len()) by {
                match anchor {
                    Some(a) => {
                        placed.index_of_first_ensures(a);
                        assert(children[at] == a);
                        assert(placed[at + front.len()] == tail[0]);
                        assert(tail[0] == a);
                        assert forall|j: int| 0 <= j < at + front.len() implies placed[j] != a by {
                            if j < at {
                                assert(placed[j] == head[j]);
                                assert(head[j] == children[j]);
                            } else {
                                assert(placed[j] == front[j - at]);
                                assert(front.contains(front[j - at]));
                                assert(nodes.contains(front[j - at]));
                            }
                        }
                    },
                    None => {
                        assert(tail.len() == 0);
                    },
                }
            }
            mid.lemma_attach_wf(parent, last, anchor);
        }
    }

    /// Unmounting takes nodes out from among their siblings: of the
    /// children of an element, those that are detached leave, and those
    /// in front of them and behind them stay as they are.
    pub proof fn lemma_detach_all_places(
        self,
        parent: NodeId,
        head: Seq<NodeId>,
        nodes: Seq<NodeId>,
        tail: Seq<NodeId>,
    )
        requires
            self.wf(),
            self.is_element(parent),
            self.children(parent) == head + nodes + tail,
        ensures
            self.detach_all(nodes).wf(),
            self.detach_all(nodes).is_element(parent),
            self.detach_all(nodes).children(parent) == head + tail,
            forall|n: NodeId|
                !nodes.contains(n) && n != parent ==> #[trigger] self.detach_all(nodes).nodes[n]
                    == self.nodes[n],
        decreases nodes.len(),
    {
        if nodes.len() == 0 {
        } else {
            let front = nodes.drop_last();
            let last = nodes.last();
            let rest = seq![last] + tail;
            assert(head + front + rest =~= head + nodes + tail);
            self.lemma_detach_all_places(parent, head, front, rest);
            let mid = self.detach_all(front);
            let listed = mid.children(parent);
            assert(listed[head.len() as int] == last);
            mid.lemma_detach_wf(last);
            // the node stands where the ones in front of it end, and
            // nowhere else
            listed.index_of_first_ensures(last);
        }
    }

    /// Swapping keeps the place: where the nodes that go stand side by
    /// side under a parent, with the first of them as the anchor, the
    /// nodes that come take their place, and nothing else moves.
    pub proof fn lemma_swap_in_places(
        self,
        parent: NodeId,
        head: Seq<NodeId>,
        old_nodes: Seq<NodeId>,
        tail: Seq<NodeId>,
        new_nodes: Seq<NodeId>,
    )
        requires
            self.wf(),
            self.is_element(parent),
            self.children(parent) == head + old_nodes + tail,
            old_nodes.len() > 0,
            new_nodes.no_duplicates(),
            !new_nodes.contains(parent),
            forall|i: int|
                0 <= i < new_nodes.len() ==> self.contains(#[trigger] new_nodes[i]) && self.parent(
                    new_nodes[i],
                ) is None,
        ensures
            self.swap_in(Some(old_nodes[0]), new_nodes, old_nodes).wf(),
            self.swap_in(Some(old_nodes[0]), new_nodes, old_nodes).children(parent) == head
                + new_nodes + tail,
    {
        let children = self.children(parent);
        let anchor = old_nodes[0];
        assert(children[head.len() as int] == anchor);
        // a node that comes stands under no parent: it is none of the
        // children, and so not the anchor
        self.lemma_unlisted_all(parent, new_nodes);
        children.index_of_first_ensures(anchor);
        self.lemma_insert_all(parent, new_nodes, Some(anchor));
        self.lemma_insert_all_places(parent, new_nodes, Some(anchor));
        let placed = self.insert_all(parent, new_nodes, Some(anchor));
        assert(placed.children(parent) =~= (head + new_nodes) + old_nodes + tail);
        placed.lemma_detach_all_places(parent, head + new_nodes, old_nodes, tail);
    }

    /// Swapping in front of a marker keeps the place: where the nodes that
    /// go stand side by side under a parent, in front of a marker, the
    /// nodes that come take their place in front of that marker, and
    /// nothing else moves.
    pub proof fn lemma_swap_before_places(
        self,
        parent: NodeId,
        head: Seq<NodeId>,
        old_nodes: Seq<NodeId>,
        marker: NodeId,
        tail: Seq<NodeId>,
        new_nodes: Seq<NodeId>,
    )
        requires
            self.wf(),
            self.is_element(parent),
            self.children(parent) == head + old_nodes + seq![marker] + tail,
            new_nodes.no_duplicates(),
            !new_nodes.contains(parent),
            forall|i: int|
                0 <= i < new_nodes.len() ==> self.contains(#[trigger] new_nodes[i]) && self.parent(
                    new_nodes[i],
                ) is None,
        ensures
            self.swap_in(Some(marker), new_nodes, old_nodes).wf(),
            self.swap_in(Some(marker), new_nodes, old_nodes).children(parent) == head + new_nodes
                + seq![marker] + tail,
    {
        let children = self.children(parent);
        let front = head + old_nodes;
        assert(children[front.len() as int] == marker);
        assert(children.contains(marker));
        assert(self.parent(marker) == Some(parent));
        self.lemma_unlisted_all(parent, new_nodes);
        children.index_of_first_ensures(marker);
        // each child is listed once: the marker stands nowhere in front
        assert(children.no_duplicates());
        assert(children.index_of_first(marker) == Some(front.len() as int)) by {
            let at = children.index_of_first(marker).unwrap();
            assert(children[at] == children[front.len() as int]);
        }
        self.lemma_insert_all(parent, new_nodes, Some(marker));
        self.lemma_insert_all_places(parent, new_nodes, Some(marker));
        let placed = self.insert_all(parent, new_nodes, Some(marker));
        let rest = new_nodes + seq![marker] + tail;
        assert(children.subrange(0, front.len() as int) =~= front);
        assert(children.subrange(front.len() as int, children.len() as int) =~= seq![marker]
            + tail);
        assert(placed.children(parent) =~= head + old_nodes + rest);
        placed.lemma_detach_all_places(parent, head, old_nodes, rest);
        assert(head + rest =~= head + new_nodes + seq![marker] + tail);
    }

    /// Nodes that stand under no parent are none of the children of an
    /// element.
    pub proof fn lemma_unlisted_all(self, parent: NodeId, nodes: Seq<NodeId>)
        requires
            self.wf(),
            self.is_element(parent),
            forall|i: int| 0 <= i < nodes.len() ==> self.parent(#[trigger] nodes[i]) is None,
        ensures
            forall|x: NodeId| nodes.contains(x) ==> !self.children(parent).contains(x),
    {
    }

    /// What comes takes the place of what goes, and of nothing else.
    ///
    /// Say the nodes that are shown stand side by side under a parent.
    /// New nodes are built, and swapped in at the first node that is
    /// shown. Then the new nodes stand where the shown ones stood, the
    /// shown ones are gone, and the children in front of them and behind
    /// them have not moved: at no time is there neither or both.
    pub proof fn lemma_swap_keeps_place(
        self,
        built: DomView,
        parent: NodeId,
        head: Seq<NodeId>,
        shown: Seq<NodeId>,
        tail: Seq<NodeId>,
        new_nodes: Seq<NodeId>,
    )
        requires
            self.wf(),
            built.wf(),
            self.is_element(parent),
            self.children(parent) == head + shown + tail,
            shown.len() > 0,
            self.kept_by(built),
            built.fresh(self, new_nodes),
            new_nodes.no_duplicates(),
        ensures
            built.swap_in(Some(shown[0]), new_nodes, shown).wf(),
            built.swap_in(Some(shown[0]), new_nodes, shown).children(parent) == head + new_nodes
                + tail,
    {
        built.lemma_swap_in_places(parent, head, shown, tail, new_nodes);
    }
}

} // verus!
