//! The rendering protocol: what it takes for a value to be shown by a
//! renderer, kept up to date, and written out as markup.

pub mod dynamic;
pub mod either;
pub mod iterators;
pub mod shape;
pub mod strings;
pub mod tuples;

use crate::renderer::model::{DomView, NodeId};
use crate::hydration::{Cursor, HydrationMismatch};
use crate::renderer::{anchor_id, found_id, ready, Renderer};
use crate::ssr::{StreamBuilder, StreamView};
use shape::Shape;
use vstd::prelude::*;

verus! {

/// Where the next node stands relative to the node that was handled last.
#[derive(Clone, Copy, Debug, PartialEq, Eq, Structural)]
pub enum Position {
    /// It is the node at hand.
    Current,
    /// It is the first child of the node at hand.
    FirstChild,
    /// It is the next sibling of the node at hand.
    NextChild,
    /// It is the next sibling but one: the node at hand is a text node, and
    /// a separator follows it.
    NextChildAfterText,
}

/// The position that a pass over a view tree carries along.
#[derive(Debug)]
pub struct PositionState(Position);

impl PositionState {
    pub fn new(position: Position) -> (state: PositionState)
        ensures
            state.get() == position,
    {
        PositionState(position)
    }

    pub closed spec fn spec_get(&self) -> Position {
        self.0
    }

    #[verifier::when_used_as_spec(spec_get)]
    pub fn get(&self) -> (position: Position)
        ensures
            position == self.get(),
    {
        self.0
    }

    pub fn set(&mut self, position: Position)
        ensures
            final(self).get() == position,
    {
        self.0 = position;
    }
}

/// The state that a view leaves behind in a renderer: handles to the nodes
/// that show it.
///
/// A state that does not say what it shows and which nodes are its own
/// leaves that unknown to every contract.
pub trait Mountable<R: Renderer> {
    /// What this state shows.
    open spec fn shape(&self) -> Shape {
        arbitrary()
    }

    /// The nodes of this state that stand directly under its parent, in
    /// document order.
    open spec fn nodes(&self) -> Seq<NodeId> {
        arbitrary()
    }

    /// Takes the nodes of this state out of the document. They stay alive
    /// and can be mounted again.
    fn unmount(&self, rndr: &mut R)
        requires
            ready(old(rndr)),
        ensures
            ready(final(rndr)),
            final(rndr).dom() == old(rndr).dom().detach_all(self.nodes()),
            final(rndr).room() == old(rndr).room(),
            final(rndr).writes() == old(rndr).writes() + old(rndr).dom().detachments(
                self.nodes(),
            ),
    ;

    /// Puts the nodes of this state under `parent`, in front of `marker`,
    /// or at the end where there is none.
    fn mount(&self, rndr: &mut R, parent: &R::Element, marker: Option<&R::Node>)
        requires
            ready(old(rndr)),
            old(rndr).dom().can_insert_all(
                R::element_id(parent),
                self.nodes(),
                anchor_id::<R>(marker),
            ),
        ensures
            ready(final(rndr)),
            final(rndr).dom() == old(rndr).dom().insert_all(
                R::element_id(parent),
                self.nodes(),
                anchor_id::<R>(marker),
            ),
            final(rndr).room() == old(rndr).room(),
            final(rndr).writes() == old(rndr).writes() + self.nodes().len(),
    ;

    /// Reports the node in front of which a sibling of this state is
    /// inserted, if this state stands under a parent.
    fn anchor_node(&self, rndr: &R) -> (node: Option<R::Node>)
        requires
            ready(rndr),
        ensures
            found_id::<R>(node) == first_mounted(rndr.dom(), self.nodes()),
            node matches Some(n) ==> rndr.dom().parent(R::node_id(&n)) is Some,
    ;
}

/// Where a sibling of the state `this` goes: the parent of its anchor, and
/// the anchor in front of which the sibling is inserted.
pub fn insertion_point<R: Renderer, S: Mountable<R>>(this: &S, rndr: &R) -> (point: Option<
    (R::Element, R::Node),
>)
    requires
        ready(rndr),
    ensures
        match point {
            Some((parent, before)) => {
                &&& first_mounted(rndr.dom(), this.nodes()) == Some(R::node_id(&before))
                &&& rndr.dom().parent(R::node_id(&before)) == Some(R::element_id(&parent))
                &&& rndr.dom().is_element(R::element_id(&parent))
                &&& rndr.dom().children(R::element_id(&parent)).contains(R::node_id(&before))
            },
            None => first_mounted(rndr.dom(), this.nodes()) is None,
        },
{
    match this.anchor_node(rndr) {
        Some(before) => {
            match rndr.get_parent(&before) {
                Some(parent) => {
                    match rndr.cast_element(parent) {
                        Some(parent) => Some((parent, before)),
                        None => None,
                    }
                },
                None => None,
            }
        },
        None => None,
    }
}

/// Puts the nodes of `child` in front of the state `this`, under the same
/// parent. Returns whether `this` had an anchor to do so.
pub fn insert_before_this<R: Renderer, S: Mountable<R>, M: Mountable<R>>(
    this: &S,
    rndr: &mut R,
    child: &M,
) -> (inserted: bool)
    requires
        ready(old(rndr)),
        forall|n: NodeId, p: NodeId|
            first_mounted(old(rndr).dom(), this.nodes()) == Some(n) && old(rndr).dom().parent(n) == Some(p)
                ==> old(rndr).dom().can_insert_all(p, child.nodes(), Some(n)),
    ensures
        ready(final(rndr)),
        match first_mounted(old(rndr).dom(), this.nodes()) {
            Some(n) => inserted && final(rndr).dom() == old(rndr).dom().insert_all(
                old(rndr).dom().parent(n).unwrap(),
                child.nodes(),
                Some(n),
            ),
            None => !inserted && final(rndr).dom() == old(rndr).dom(),
        },
        final(rndr).room() == old(rndr).room(),
        final(rndr).writes() == old(rndr).writes() + (if inserted {
            child.nodes().len()
        } else {
            0
        }),
{
    match insertion_point(this, rndr) {
        Some((parent, before)) => {
            child.mount(rndr, &parent, Some(&before));
            true
        },
        None => false,
    }
}

/// A value that a renderer can show.
///
/// `build` makes the nodes from scratch; `rebuild` takes a new value of the
/// same type and the state of the value shown before, and changes only
/// what differs.
///
/// A view that does not say what it shows leaves that unknown to every
/// contract.
pub trait Render<R: Renderer>: Sized {
    /// What is kept between one value and the next.
    type State: Mountable<R>;

    /// What this value shows.
    open spec fn shape(&self) -> Shape {
        arbitrary()
    }

    /// Whether building this value may take the document from `before`
    /// to `after` and return `state`. This says which nodes are created,
    /// with what in them, and how they hang together.
    open spec fn built(&self, before: DomView, state: &Self::State, after: DomView) -> bool {
        arbitrary()
    }

    /// Whether rebuilding with this value may take the state from `shown`
    /// to `state` and the document from `before` to `after`.
    open spec fn rebuilt(
        &self,
        shown: &Self::State,
        before: DomView,
        state: &Self::State,
        after: DomView,
    ) -> bool {
        arbitrary()
    }

    /// The number of nodes that `build` creates, as far as a `usize` can
    /// say.
    fn demand(&self) -> (count: usize)
        ensures
            count == self.shape().demand() || (count == usize::MAX && self.shape().demand()
                > usize::MAX),
    ;

    /// Creates the nodes for this value. They are new, they are left
    /// unmounted, and no node that existed before is touched.
    fn build(self, rndr: &mut R) -> (state: Self::State)
        requires
            ready(old(rndr)),
            old(rndr).room() >= self.shape().demand(),
        ensures
            ready(final(rndr)),
            self.built(old(rndr).dom(), &state, final(rndr).dom()),
            state.shape() == self.shape().mounted(),
            old(rndr).dom().kept_by(final(rndr).dom()),
            final(rndr).dom().fresh(old(rndr).dom(), state.nodes()),
            state.nodes().no_duplicates(),
            final(rndr).room() == old(rndr).room() - self.shape().demand(),
            state.nodes().len() == self.shape().width(),
            final(rndr).writes() == old(rndr).writes() + self.shape().build_calls(),
    ;

    /// Brings the state up to this value. Where the state already shows
    /// what this value shows, the renderer is not called upon to change
    /// anything, and where every node keeps its place, it is called upon
    /// once for each text that differs and as its attributes ask. The
    /// renderer needs room only for the nodes that come in.
    fn rebuild(self, state: &mut Self::State, rndr: &mut R)
        requires
            ready(old(rndr)),
            old(rndr).room() >= old(state).shape().growth(self.shape().mounted()),
        ensures
            ready(final(rndr)),
            self.rebuilt(old(state), old(rndr).dom(), final(state), final(rndr).dom()),
            final(state).shape() == self.shape().mounted(),
            old(state).shape() == self.shape().mounted() ==> {
                &&& *final(state) == *old(state)
                &&& final(rndr).dom() == old(rndr).dom()
                &&& final(rndr).writes() == old(rndr).writes()
            },
            final(rndr).room() == old(rndr).room() - old(state).shape().growth(
                self.shape().mounted(),
            ),
            final(rndr).writes() >= old(rndr).writes(),
            old(state).shape().retouches(self.shape().mounted()) matches Some(calls)
                ==> final(rndr).writes() == old(rndr).writes() + calls,
    ;
}

/// A value that can be written out as markup.
pub trait RenderHtml<R: Renderer>: Render<R> {
    /// Appends the markup of this value to `buf`. `position` says where the
    /// value stands relative to what was written before, and is moved on.
    fn to_html_with_buf(&self, buf: &mut String, position: &mut PositionState)
        ensures
            final(buf)@ == old(buf)@ + self.shape().html(old(position).get()),
            final(position).get() == self.shape().after(old(position).get()),
    ;

    /// Whether `state` is what taking over this value gives, where the
    /// walk starts from the node `at` and the position `position` in the
    /// document `dom`. This says which node each handle of the state
    /// refers to.
    open spec fn hydrated(
        &self,
        dom: DomView,
        at: NodeId,
        position: Position,
        from_server: bool,
        state: &Self::State,
    ) -> bool {
        arbitrary()
    }

    /// Takes over the nodes that a browser made from the markup of this
    /// value, in place of building new ones. The cursor stands at the node
    /// that was handled last; it is left at the last node of this value.
    /// `FROM_SERVER` says that the markup came from a server, and with it
    /// the text of every text node; otherwise the text is set.
    ///
    /// The walk succeeds where the document holds what
    /// [`Shape::hydrated`] asks for, and there only.
    fn hydrate<const FROM_SERVER: bool>(
        self,
        rndr: &mut R,
        cursor: &mut Cursor<R>,
        position: &mut PositionState,
    ) -> (result: Result<Self::State, HydrationMismatch>)
        requires
            ready(old(rndr)),
        ensures
            ready(final(rndr)),
            match result {
                Ok(state) => {
                    &&& self.shape().hydrated(
                        old(rndr).dom(),
                        old(cursor).at(),
                        old(position).get(),
                        FROM_SERVER,
                    ) matches Some(walked)
                    &&& self.hydrated(
                        old(rndr).dom(),
                        old(cursor).at(),
                        old(position).get(),
                        FROM_SERVER,
                        &state,
                    )
                    &&& state.shape() == self.shape().mounted()
                    &&& state.nodes() == walked.nodes
                    &&& final(cursor).at() == walked.at
                    &&& final(position).get() == walked.position
                    &&& final(rndr).dom() == walked.dom
                },
                Err(_) => self.shape().hydrated(
                    old(rndr).dom(),
                    old(cursor).at(),
                    old(position).get(),
                    FROM_SERVER,
                ) is None,
            },
            FROM_SERVER ==> final(rndr).dom() == old(rndr).dom() && final(rndr).writes() == old(
                rndr,
            ).writes(),
            final(rndr).room() == old(rndr).room(),
            final(rndr).writes() >= old(rndr).writes(),
            result is Ok && !FROM_SERVER ==> final(rndr).writes() == old(rndr).writes()
                + self.shape().texts(),
    ;

    /// The stream after this value was written into it at `position`. A
    /// value that waits for nothing writes all of its markup at once; one
    /// that holds markup back opens a slot for it, in order or out of
    /// order.
    open spec fn streamed(
        &self,
        stream: StreamView,
        position: Position,
        out_of_order: bool,
    ) -> StreamView {
        arbitrary()
    }

    /// Writes the markup of this value into a stream. What is known at
    /// once is written at once; `OUT_OF_ORDER` says whether what is not
    /// may arrive after what follows it in the document.
    fn to_html_async_with_buf<const OUT_OF_ORDER: bool>(
        &self,
        buf: &mut StreamBuilder,
        position: &mut PositionState,
    )
        ensures
            final(buf)@ == self.streamed(old(buf)@, old(position).get(), OUT_OF_ORDER),
            final(position).get() == self.shape().after(old(position).get()),
    ;
}

/// The markup of a view that stands first under its parent.
pub fn to_html<R: Renderer, V: RenderHtml<R>>(view: &V) -> (html: String)
    ensures
        html@ == view.shape().html(Position::FirstChild),
{
    let mut buf = String::new();
    let mut position = PositionState::new(Position::FirstChild);
    view.to_html_with_buf(&mut buf, &mut position);
    buf
}

/// The sum of two counts, held at `usize::MAX` where it would pass it.
pub fn saturating_sum(a: usize, b: usize) -> (sum: usize)
    ensures
        sum == a + b || (sum == usize::MAX && a + b > usize::MAX),
{
    if a > usize::MAX - b {
        usize::MAX
    } else {
        a + b
    }
}

/// The anchor that a state with the top-level nodes `nodes` gives: the
/// first of them that stands under a parent.
pub open spec fn first_mounted(dom: DomView, nodes: Seq<NodeId>) -> Option<NodeId>
    decreases nodes.len(),
{
    if nodes.len() == 0 {
        None
    } else if dom.parent(nodes[0]) is Some {
        Some(nodes[0])
    } else {
        first_mounted(dom, nodes.skip(1))
    }
}

/// The anchor of one node is the node itself where it stands under a
/// parent.
pub proof fn lemma_first_mounted_one(dom: DomView, node: NodeId)
    ensures
        first_mounted(dom, seq![node]) == node_anchor(dom, node),
{
    assert(seq![node].skip(1).len() == 0);
    assert(first_mounted(dom, seq![node].skip(1)) is None);
}

/// The anchor of two lists of nodes in a row is the anchor of the first,
/// and that of the second where the first has none.
pub proof fn lemma_first_mounted_concat(dom: DomView, first: Seq<NodeId>, second: Seq<NodeId>)
    ensures
        first_mounted(dom, first + second) == (match first_mounted(dom, first) {
            Some(n) => Some(n),
            None => first_mounted(dom, second),
        }),
    decreases first.len(),
{
    if first.len() == 0 {
        assert(first + second =~= second);
    } else {
        assert((first + second).skip(1) =~= first.skip(1) + second);
        lemma_first_mounted_concat(dom, first.skip(1), second);
    }
}

/// The anchor that the single node `node` gives: the node itself where it
/// stands under a parent.
pub open spec fn node_anchor(dom: DomView, node: NodeId) -> Option<NodeId> {
    if dom.parent(node) is Some {
        Some(node)
    } else {
        None
    }
}

/// Puts one node under `parent`, in front of `marker`.
pub fn mount_node<R: Renderer>(
    rndr: &mut R,
    node: &R::Node,
    parent: &R::Element,
    marker: Option<&R::Node>,
)
    requires
        ready(old(rndr)),
        old(rndr).dom().can_insert_all(
            R::element_id(parent),
            seq![R::node_id(node)],
            anchor_id::<R>(marker),
        ),
    ensures
        ready(final(rndr)),
        final(rndr).dom() == old(rndr).dom().insert_all(
            R::element_id(parent),
            seq![R::node_id(node)],
            anchor_id::<R>(marker),
        ),
        final(rndr).room() == old(rndr).room(),
        final(rndr).writes() == old(rndr).writes() + 1,
{
    proof {
        rndr.dom().lemma_insert_all_one(
            R::element_id(parent),
            R::node_id(node),
            anchor_id::<R>(marker),
        );
    }
    rndr.insert_node(parent, node, marker);
}

/// Takes one node out of the document, if it stands under a parent.
pub fn unmount_node<R: Renderer>(rndr: &mut R, node: &R::Node)
    requires
        ready(old(rndr)),
    ensures
        ready(final(rndr)),
        final(rndr).dom() == old(rndr).dom().detach_all(seq![R::node_id(node)]),
        final(rndr).room() == old(rndr).room(),
        final(rndr).writes() == old(rndr).writes() + old(rndr).dom().detachments(
            seq![R::node_id(node)],
        ),
{
    proof {
        rndr.dom().lemma_detach_all_one(R::node_id(node));
        rndr.dom().lemma_detachments_one(R::node_id(node));
    }
    match rndr.get_parent(node) {
        Some(_) => {
            rndr.remove(node);
        },
        None => {},
    }
}

/// The given node as an anchor, if it stands under a parent.
pub fn anchor_of<R: Renderer>(rndr: &R, node: R::Node) -> (anchor: Option<R::Node>)
    requires
        ready(rndr),
    ensures
        found_id::<R>(anchor) == node_anchor(rndr.dom(), R::node_id(&node)),
        found_id::<R>(anchor) == first_mounted(rndr.dom(), seq![R::node_id(&node)]),
        anchor matches Some(n) ==> rndr.dom().parent(R::node_id(&n)) is Some,
{
    proof {
        lemma_first_mounted_one(rndr.dom(), R::node_id(&node));
    }
    match rndr.get_parent(&node) {
        Some(_) => Some(node),
        None => None,
    }
}

/// Building a view and then rebuilding with an equal view calls on the
/// renderer for nothing.
///
/// The state that `build` returns shows what the view shows on the
/// client. That is all that `rebuild` asks for to leave the state, the
/// document and the count of calls to the renderer as they are: a view
/// that shows the same meets it.
pub proof fn lemma_rebuild_after_build<R: Renderer, V: Render<R>>(
    built_from: V,
    rebuilt_with: V,
    state: V::State,
)
    requires
        state.shape() == built_from.shape().mounted(),
        rebuilt_with.shape() == built_from.shape(),
    ensures
        state.shape() == rebuilt_with.shape().mounted(),
{
}

/// Hydrating the markup of a view gives a state that shows what the state
/// of a fresh build shows: the two are trees of the same shape, with the
/// same texts, tags and attributes, and differ at most in which nodes they
/// refer to.
pub proof fn lemma_hydrated_like_built<R: Renderer, V: Render<R>>(
    view: V,
    built: V::State,
    hydrated: V::State,
)
    requires
        built.shape() == view.shape().mounted(),
        hydrated.shape() == view.shape().mounted(),
    ensures
        hydrated.shape() == built.shape(),
{
}

} // verus!
