//! Element types and the element view.

use super::attribute::Attribute;
use crate::renderer::model::{DomView, NodeId};
use crate::renderer::Renderer;
use crate::text::trim_text;
use crate::view::shape::{class_style_html, Shape};
use crate::view::{anchor_of, mount_node, saturating_sum, unmount_node};
use crate::view::{Mountable, Position, PositionState, Render, RenderHtml};
use std::marker::PhantomData;
use crate::ssr::{StreamBuilder, StreamView};
use crate::hydration::{element_step, Cursor, HydrationMismatch};
use vstd::prelude::*;

verus! {

/// A kind of element, known by its tag.
///
/// An implementation that does not say what its tag is leaves it unknown
/// to every contract.
pub trait ElementType {
    /// The tag name.
    open spec fn spec_tag() -> Seq<char> {
        arbitrary()
    }

    /// The tag name.
    fn tag() -> (tag: &'static str)
        ensures
            tag@ == Self::spec_tag(),
    ;
}

/// `<main>`
pub struct Main;

/// `<p>`
pub struct P;

/// `<span>`
pub struct Span;

/// `<div>`
pub struct Div;

/// `<button>`
pub struct Button;

impl ElementType for Main {
    open spec fn spec_tag() -> Seq<char> {
        "main"@
    }

    fn tag() -> (tag: &'static str) {
        "main"
    }
}

impl ElementType for P {
    open spec fn spec_tag() -> Seq<char> {
        "p"@
    }

    fn tag() -> (tag: &'static str) {
        "p"
    }
}

impl ElementType for Span {
    open spec fn spec_tag() -> Seq<char> {
        "span"@
    }

    fn tag() -> (tag: &'static str) {
        "span"
    }
}

impl ElementType for Div {
    open spec fn spec_tag() -> Seq<char> {
        "div"@
    }

    fn tag() -> (tag: &'static str) {
        "div"
    }
}

impl ElementType for Button {
    open spec fn spec_tag() -> Seq<char> {
        "button"@
    }

    fn tag() -> (tag: &'static str) {
        "button"
    }
}

/// An element of the type `E` with its attributes and children.
pub struct HtmlElement<E, At, Ch, Rndr> {
    ty: PhantomData<E>,
    rndr: PhantomData<Rndr>,
    attributes: At,
    children: Ch,
}

impl<E, At, Ch, Rndr> HtmlElement<E, At, Ch, Rndr> {
    /// An element with the given attributes and children.
    pub fn new(attributes: At, children: Ch) -> (el: Self)
        ensures
            el.attributes() == attributes,
            el.children() == children,
    {
        HtmlElement { ty: PhantomData, rndr: PhantomData, attributes, children }
    }

    /// What stands in the opening tag.
    pub closed spec fn attributes(&self) -> At {
        self.attributes
    }

    /// What stands under the element.
    pub closed spec fn children(&self) -> Ch {
        self.children
    }
}

/// A `<main>` element.
pub fn main<At, Ch, Rndr>(attributes: At, children: Ch) -> (el: HtmlElement<Main, At, Ch, Rndr>)
    ensures
        el.attributes() == attributes,
        el.children() == children,
{
    HtmlElement::new(attributes, children)
}

/// A `<p>` element.
pub fn p<At, Ch, Rndr>(attributes: At, children: Ch) -> (el: HtmlElement<P, At, Ch, Rndr>)
    ensures
        el.attributes() == attributes,
        el.children() == children,
{
    HtmlElement::new(attributes, children)
}

/// A `<span>` element.
pub fn span<At, Ch, Rndr>(attributes: At, children: Ch) -> (el: HtmlElement<Span, At, Ch, Rndr>)
    ensures
        el.attributes() == attributes,
        el.children() == children,
{
    HtmlElement::new(attributes, children)
}

/// A `<div>` element.
pub fn div<At, Ch, Rndr>(attributes: At, children: Ch) -> (el: HtmlElement<Div, At, Ch, Rndr>)
    ensures
        el.attributes() == attributes,
        el.children() == children,
{
    HtmlElement::new(attributes, children)
}

/// A `<button>` element.
pub fn button<At, Ch, Rndr>(attributes: At, children: Ch) -> (el: HtmlElement<
    Button,
    At,
    Ch,
    Rndr,
>)
    ensures
        el.attributes() == attributes,
        el.children() == children,
{
    HtmlElement::new(attributes, children)
}

/// Appends an opening tag with its `class` and `style` attributes, each
/// written, trimmed, where its text is not empty.
fn open_tag(tag: &str, class: &str, style: &str, buf: &mut String)
    ensures
        final(buf)@ == old(buf)@ + ("<"@ + tag@ + class_style_html(class@, style@) + ">"@),
{
    buf.append("<");
    buf.append(tag);
    if !class.is_empty() {
        buf.append(" class=\"");
        buf.append(trim_text(class));
        buf.append("\"");
    }
    if !style.is_empty() {
        buf.append(" style=\"");
        buf.append(trim_text(style));
        buf.append("\"");
    }
    buf.append(">");
}

/// Appends a closing tag.
fn close_tag(tag: &str, buf: &mut String)
    ensures
        final(buf)@ == old(buf)@ + ("</"@ + tag@ + ">"@),
{
    buf.append("</");
    buf.append(tag);
    buf.append(">");
}

/// The state of an element: the element itself, and the states of what
/// stands in its opening tag and under it.
pub struct ElementState<E, At: Attribute<R>, Cs, R: Renderer> {
    pub el: R::Element,
    pub attrs: At::State,
    pub children: Cs,
    pub ty: PhantomData<E>,
}

impl<E: ElementType, At: Attribute<R>, Cs: Mountable<R>, R: Renderer> Mountable<
    R,
> for ElementState<E, At, Cs, R> {
    open spec fn shape(&self) -> Shape {
        Shape::Element {
            tag: E::spec_tag(),
            attrs: At::state_shape(&self.attrs),
            children: Box::new(self.children.shape()),
        }
    }

    open spec fn nodes(&self) -> Seq<NodeId> {
        seq![R::element_id(&self.el)]
    }

    fn unmount(&self, rndr: &mut R) {
        unmount_node(rndr, &R::element_node(&self.el));
    }

    fn mount(&self, rndr: &mut R, parent: &R::Element, marker: Option<&R::Node>) {
        mount_node(rndr, &R::element_node(&self.el), parent, marker);
    }

    fn anchor_node(&self, rndr: &R) -> (node: Option<R::Node>) {
        anchor_of(rndr, R::element_node(&self.el))
    }
}

impl<E: ElementType, At: Attribute<R>, Ch: Render<R>, R: Renderer> Render<R> for HtmlElement<
    E,
    At,
    Ch,
    R,
> {
    type State = ElementState<E, At, Ch::State, R>;

    open spec fn shape(&self) -> Shape {
        Shape::Element {
            tag: E::spec_tag(),
            attrs: self.attributes().shape(),
            children: Box::new(self.children().shape()),
        }
    }

    /// The element is created, the attributes are put on it, the children
    /// are built, and their nodes are put under the element in order.
    open spec fn built(
        &self,
        before: DomView,
        state: &ElementState<E, At, Ch::State, R>,
        after: DomView,
    ) -> bool {
        let el = R::element_id(&state.el);
        let created = before.create(el, DomView::fresh_element(E::spec_tag()));
        &&& !before.contains(el)
        &&& exists|dressed: DomView, filled: DomView|
            {
                &&& self.attributes().built(el, created, &state.attrs, dressed)
                &&& #[trigger] self.children().built(dressed, &state.children, filled)
                &&& after == filled.insert_all(el, state.children.nodes(), None)
            }
    }

    /// The element stays; the attributes are rebuilt, and then the
    /// children.
    open spec fn rebuilt(
        &self,
        shown: &ElementState<E, At, Ch::State, R>,
        before: DomView,
        state: &ElementState<E, At, Ch::State, R>,
        after: DomView,
    ) -> bool {
        &&& state.el == shown.el
        &&& exists|dressed: DomView|
            {
                &&& self.attributes().rebuilt(&shown.attrs, before, &state.attrs, dressed)
                &&& #[trigger] self.children().rebuilt(
                    &shown.children,
                    dressed,
                    &state.children,
                    after,
                )
            }
    }

    fn demand(&self) -> (count: usize) {
        saturating_sum(1, self.children.demand())
    }

    /// Creates the element, puts the attributes on it, builds the children
    /// and mounts them under it.
    fn build(self, rndr: &mut R) -> (state: ElementState<E, At, Ch::State, R>) {
        let ghost before = rndr.dom();
        let el = rndr.create_element::<E>();
        let ghost eid = R::element_id(&el);
        let ghost created = rndr.dom();
        let attrs = self.attributes.build(&el, rndr);
        let ghost dressed = rndr.dom();
        let children = self.children.build(rndr);
        let ghost built = rndr.dom();
        proof {
            assert(created.contains(eid));
            assert(dressed.is_element(eid));
            built.lemma_insert_all(eid, children.nodes(), None);
            built.lemma_insert_all_unmounted(eid, children.nodes(), None);
        }
        children.mount(rndr, &el, None);
        let state = ElementState { el, attrs, children, ty: PhantomData };
        proof {
            let post = rndr.dom();
            assert forall|id: NodeId| #[trigger] before.contains(id) implies post.contains(id)
                && post.nodes[id] == before.nodes[id] by {
                assert(created.contains(id));
                assert(dressed.contains(id));
                assert(built.contains(id));
                if state.children.nodes().contains(id) {
                    let i = choose|i: int|
                        0 <= i < state.children.nodes().len() && state.children.nodes()[i] == id;
                    assert(!dressed.contains(state.children.nodes()[i]));
                }
            }
        }
        state
    }

    fn rebuild(self, state: &mut ElementState<E, At, Ch::State, R>, rndr: &mut R) {
        let HtmlElement { attributes, children, .. } = self;
        attributes.rebuild(&mut state.attrs, rndr);
        children.rebuild(&mut state.children, rndr);
    }
}

impl<E: ElementType, At: Attribute<R>, Ch: RenderHtml<R>, R: Renderer> RenderHtml<
    R,
> for HtmlElement<E, At, Ch, R> {
    open spec fn hydrated(
        &self,
        dom: DomView,
        at: NodeId,
        position: Position,
        from_server: bool,
        state: &ElementState<E, At, Ch::State, R>,
    ) -> bool {
        &&& element_step(dom, at, position) == Some(R::element_id(&state.el))
        &&& self.attributes().hydrated(R::element_id(&state.el), &state.attrs)
        &&& self.children().hydrated(
            dom,
            R::element_id(&state.el),
            Position::FirstChild,
            from_server,
            &state.children,
        )
    }

    fn to_html_with_buf(&self, buf: &mut String, position: &mut PositionState) {
        // attributes write their class and style into texts of their own
        let mut class = String::new();
        let mut style = String::new();
        self.attributes.to_html(&mut class, &mut style);
        open_tag(E::tag(), class.as_str(), style.as_str(), buf);
        // children
        position.set(Position::FirstChild);
        self.children.to_html_with_buf(buf, position);
        close_tag(E::tag(), buf);
        position.set(Position::NextChild);
    }

    /// The opening tag is written at once, then what stands under the
    /// element is streamed, then the closing tag is written.
    open spec fn streamed(
        &self,
        stream: StreamView,
        position: Position,
        out_of_order: bool,
    ) -> StreamView {
        self.children().streamed(
            stream.pushed_sync(
                "<"@ + E::spec_tag() + class_style_html(
                    self.attributes().shape().class_text(),
                    self.attributes().shape().style_text(),
                ) + ">"@,
            ),
            Position::FirstChild,
            out_of_order,
        ).pushed_sync("</"@ + E::spec_tag() + ">"@)
    }

    fn to_html_async_with_buf<const OUT_OF_ORDER: bool>(
        &self,
        buf: &mut StreamBuilder,
        position: &mut PositionState,
    ) {
        let mut class = String::new();
        let mut style = String::new();
        self.attributes.to_html(&mut class, &mut style);
        let mut tag = String::new();
        open_tag(E::tag(), class.as_str(), style.as_str(), &mut tag);
        buf.push_sync(tag.as_str());
        // children
        position.set(Position::FirstChild);
        self.children.to_html_async_with_buf::<OUT_OF_ORDER>(buf, position);
        let mut tag = String::new();
        close_tag(E::tag(), &mut tag);
        buf.push_sync(tag.as_str());
        position.set(Position::NextChild);
    }

    fn hydrate<const FROM_SERVER: bool>(
        self,
        rndr: &mut R,
        cursor: &mut Cursor<R>,
        position: &mut PositionState,
    ) -> (result: Result<ElementState<E, At, Ch::State, R>, HydrationMismatch>) {
        if !cursor.advance(rndr, position.get()) {
            return Err(HydrationMismatch);
        }
        let el = match rndr.cast_element(cursor.current()) {
            Some(el) => el,
            None => {
                return Err(HydrationMismatch);
            },
        };
        let HtmlElement { attributes, children, .. } = self;
        let attrs = attributes.hydrate::<FROM_SERVER>(&el, rndr);
        // the children are found under the element
        position.set(Position::FirstChild);
        let children = match children.hydrate::<FROM_SERVER>(rndr, cursor, position) {
            Ok(state) => state,
            Err(mismatch) => {
                return Err(mismatch);
            },
        };
        // what follows the element follows it as a sibling
        cursor.set(R::element_node(&el));
        position.set(Position::NextChild);
        let state = ElementState { el, attrs, children, ty: PhantomData };
        Ok(state)
    }
}

} // verus!
