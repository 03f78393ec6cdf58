//! The `style` attribute: plain texts, and single properties.

use super::attribute::Attribute;
use crate::text::same_text;
use crate::renderer::model::{Asked, DomView, NodeId};
use crate::renderer::{ready, DomRenderer, Renderer};
use crate::view::shape::{AttrShape, StyleShape};
use std::marker::PhantomData;
use vstd::prelude::*;

verus! {

/// Adds to the style attribute of the parent element.
///
/// This can take a plain string value, which will be assigned to the
/// `style` attribute, or a property with its value, which is set on the
/// style declaration of the element.
pub fn style<S: IntoStyle<R>, R: DomRenderer>(value: S) -> (attr: Style<S, R>)
    ensures
        attr.value() == value,
{
    Style { style: value, rndr: PhantomData }
}

/// The attribute that [`style`] makes.
pub struct Style<S: IntoStyle<R>, R: DomRenderer> {
    style: S,
    rndr: PhantomData<R>,
}

impl<S: IntoStyle<R>, R: DomRenderer> Style<S, R> {
    /// The value that the attribute was made of.
    pub closed spec fn value(&self) -> S {
        self.style
    }
}

/// Any type that can be added to the `style` attribute or set as a style
/// in the style declaration of an element: a plain string, or a property
/// name-value pair.
pub trait IntoStyle<R: DomRenderer>: Sized {
    /// What is kept between one value and the next.
    type State;

    /// What this value shows.
    open spec fn shape(&self) -> StyleShape {
        arbitrary()
    }

    /// What a state shows.
    open spec fn state_shape(state: &Self::State) -> StyleShape {
        arbitrary()
    }

    /// Whether putting this value on the element `el` may take the
    /// document from `before` to `after` and return `state`.
    open spec fn built(&self, el: NodeId, before: DomView, state: &Self::State, after: DomView) -> bool {
        arbitrary()
    }

    /// Whether rebuilding with this value may take the state from `shown`
    /// to `state` and the document from `before` to `after`.
    open spec fn rebuilt(
        &self,
        shown: &Self::State,
        before: DomView,
        state: &Self::State,
        after: DomView,
    ) -> bool {
        arbitrary()
    }

    /// Appends the text of this style to `style`.
    fn to_html(&self, style: &mut String)
        ensures
            final(style)@ == old(style)@ + self.shape().text(),
    ;

    /// Whether `state` is what taking over the element `el`, which
    /// already carries this value, gives.
    open spec fn hydrated(&self, el: NodeId, state: &Self::State) -> bool {
        arbitrary()
    }

    /// Takes over an element that already carries this value.
    fn hydrate<const FROM_SERVER: bool>(self, el: &R::Element, rndr: &R) -> (state: Self::State)
        requires
            ready(rndr),
        ensures
            self.hydrated(R::element_id(el), &state),
            Self::state_shape(&state) == self.shape(),
    ;

    /// Puts this value on the element. Nothing but the attributes of that
    /// element changes.
    fn build(self, el: &R::Element, rndr: &mut R) -> (state: Self::State)
        requires
            ready(old(rndr)),
        ensures
            ready(final(rndr)),
            self.built(R::element_id(el), old(rndr).dom(), &state, final(rndr).dom()),
            Self::state_shape(&state) == self.shape(),
            old(rndr).dom().same_structure(final(rndr).dom()),
            old(rndr).dom().same_but(final(rndr).dom(), R::element_id(el)),
            final(rndr).room() == old(rndr).room(),
            final(rndr).writes() == old(rndr).writes() + self.shape().calls(),
    ;

    /// Brings the state up to this value, and calls on the renderer only
    /// where the two differ.
    fn rebuild(self, state: &mut Self::State, rndr: &mut R)
        requires
            ready(old(rndr)),
        ensures
            ready(final(rndr)),
            self.rebuilt(old(state), old(rndr).dom(), final(state), final(rndr).dom()),
            Self::state_shape(final(state)) == self.shape(),
            old(rndr).dom().same_structure(final(rndr).dom()),
            Self::state_shape(old(state)) == self.shape() ==> {
                &&& *final(state) == *old(state)
                &&& final(rndr).dom() == old(rndr).dom()
                &&& final(rndr).writes() == old(rndr).writes()
            },
            final(rndr).room() == old(rndr).room(),
            final(rndr).writes() == old(rndr).writes() + Self::state_shape(old(state)).calls_toward(
                self.shape(),
            ),
    ;
}

impl<S: IntoStyle<R>, R: DomRenderer> Attribute<R> for Style<S, R> {
    type State = S::State;

    open spec fn shape(&self) -> AttrShape {
        AttrShape::Style(self.value().shape())
    }

    open spec fn state_shape(state: &S::State) -> AttrShape {
        AttrShape::Style(S::state_shape(state))
    }

    open spec fn hydrated(&self, el: NodeId, state: &S::State) -> bool {
        self.value().hydrated(el, state)
    }

    open spec fn built(&self, el: NodeId, before: DomView, state: &S::State, after: DomView) -> bool {
        self.value().built(el, before, state, after)
    }

    open spec fn rebuilt(
        &self,
        shown: &S::State,
        before: DomView,
        state: &S::State,
        after: DomView,
    ) -> bool {
        self.value().rebuilt(shown, before, state, after)
    }

    fn to_html(&self, class: &mut String, style: &mut String) {
        self.style.to_html(style);
    }

    fn hydrate<const FROM_SERVER: bool>(self, el: &R::Element, rndr: &R) -> (state: S::State) {
        self.style.hydrate::<FROM_SERVER>(el, rndr)
    }

    fn build(self, el: &R::Element, rndr: &mut R) -> (state: S::State) {
        self.style.build(el, rndr)
    }

    fn rebuild(self, state: &mut S::State, rndr: &mut R) {
        self.style.rebuild(state, rndr)
    }
}

impl<'a, R: DomRenderer> IntoStyle<R> for &'a str {
    type State = (R::Element, &'a str);

    open spec fn shape(&self) -> StyleShape {
        StyleShape::Text(self@)
    }

    open spec fn state_shape(state: &(R::Element, &'a str)) -> StyleShape {
        StyleShape::Text(state.1@)
    }

    open spec fn hydrated(&self, el: NodeId, state: &(R::Element, &'a str)) -> bool {
        R::element_id(&state.0) == el && state.1@ == self@
    }

    open spec fn built(&self, el: NodeId, before: DomView, state: &(R::Element, &'a str), after: DomView) -> bool {
        &&& R::element_id(&state.0) == el
        &&& state.1@ == self@
        &&& after == before.set_attribute(el, "style"@, self@)
    }

    open spec fn rebuilt(
        &self,
        shown: &(R::Element, &'a str),
        before: DomView,
        state: &(R::Element, &'a str),
        after: DomView,
    ) -> bool {
        &&& state.0 == shown.0
        &&& state.1@ == self@
        &&& after == (if shown.1@ == self@ {
            before
        } else {
            before.set_attribute(R::element_id(&shown.0), "style"@, self@)
        })
    }

    fn to_html(&self, style: &mut String) {
        style.append(self);
        style.append(";");
    }

    fn hydrate<const FROM_SERVER: bool>(self, el: &R::Element, rndr: &R) -> (state: (
        R::Element,
        &'a str,
    )) {
        (R::clone_element(el), self)
    }

    fn build(self, el: &R::Element, rndr: &mut R) -> (state: (R::Element, &'a str)) {
        proof {
            rndr.dom().lemma_attribute_structure(R::element_id(el), "style"@, self@);
        }
        rndr.set_attribute(el, "style", self);
        (R::clone_element(el), self)
    }

    fn rebuild(self, state: &mut (R::Element, &'a str), rndr: &mut R) {
        if !same_text(self, state.1) {
            proof {
                rndr.dom().lemma_attribute_structure(R::element_id(&state.0), "style"@, self@);
            }
            rndr.set_attribute(&state.0, "style", self);
            state.1 = self;
        }
    }
}

impl<R: DomRenderer> IntoStyle<R> for String {
    type State = (R::Element, String);

    open spec fn shape(&self) -> StyleShape {
        StyleShape::Text(self@)
    }

    open spec fn state_shape(state: &(R::Element, String)) -> StyleShape {
        StyleShape::Text(state.1@)
    }

    open spec fn hydrated(&self, el: NodeId, state: &(R::Element, String)) -> bool {
        R::element_id(&state.0) == el && state.1@ == self@
    }

    open spec fn built(&self, el: NodeId, before: DomView, state: &(R::Element, String), after: DomView) -> bool {
        &&& R::element_id(&state.0) == el
        &&& state.1@ == self@
        &&& after == before.set_attribute(el, "style"@, self@)
    }

    open spec fn rebuilt(
        &self,
        shown: &(R::Element, String),
        before: DomView,
        state: &(R::Element, String),
        after: DomView,
    ) -> bool {
        &&& state.0 == shown.0
        &&& state.1@ == self@
        &&& after == (if shown.1@ == self@ {
            before
        } else {
            before.set_attribute(R::element_id(&shown.0), "style"@, self@)
        })
    }

    fn to_html(&self, style: &mut String) {
        style.append(self.as_str());
        style.append(";");
    }

    fn hydrate<const FROM_SERVER: bool>(self, el: &R::Element, rndr: &R) -> (state: (
        R::Element,
        String,
    )) {
        (R::clone_element(el), self)
    }

    fn build(self, el: &R::Element, rndr: &mut R) -> (state: (R::Element, String)) {
        proof {
            rndr.dom().lemma_attribute_structure(R::element_id(el), "style"@, self@);
        }
        rndr.set_attribute(el, "style", self.as_str());
        (R::clone_element(el), self)
    }

    fn rebuild(self, state: &mut (R::Element, String), rndr: &mut R) {
        if !same_text(self.as_str(), state.1.as_str()) {
            proof {
                rndr.dom().lemma_attribute_structure(R::element_id(&state.0), "style"@, self@);
            }
            rndr.set_attribute(&state.0, "style", self.as_str());
            state.1 = self;
        }
    }
}

/// Appends a property with its value to `style`.
fn property_to_html(name: &str, value: &str, style: &mut String)
    ensures
        final(style)@ == old(style)@ + StyleShape::Property(name@, value@).text(),
{
    style.append(name);
    style.append(":");
    style.append(value);
    style.append(";");
}

impl<'a, R: DomRenderer> IntoStyle<R> for (&'a str, &'a str) {
    type State = (R::CssStyleDeclaration, &'a str, &'a str);

    open spec fn shape(&self) -> StyleShape {
        StyleShape::Property(self.0@, self.1@)
    }

    open spec fn state_shape(state: &(R::CssStyleDeclaration, &'a str, &'a str)) -> StyleShape {
        StyleShape::Property(state.1@, state.2@)
    }

    open spec fn hydrated(&self, el: NodeId, state: &(R::CssStyleDeclaration, &'a str, &'a str)) -> bool {
        R::style_owner(&state.0) == el && state.1@ == self.0@ && state.2@ == self.1@
    }

    /// The declaration is the declaration of the element, and is asked to
    /// set the property. What a renderer does to an element when a
    /// property of its style is set is the renderer's to say: at most the
    /// attributes of that element change.
    open spec fn built(&self, el: NodeId, before: DomView, state: &(R::CssStyleDeclaration, &'a str, &'a str), after: DomView) -> bool {
        &&& R::style_owner(&state.0) == el
        &&& state.1@ == self.0@
        &&& state.2@ == self.1@
        &&& before.same_structure(after)
        &&& before.same_but(after, el)
        &&& after.asked == before.asked + StyleShape::Property(self.0@, self.1@).asks(el)
    }

    open spec fn rebuilt(
        &self,
        shown: &(R::CssStyleDeclaration, &'a str, &'a str),
        before: DomView,
        state: &(R::CssStyleDeclaration, &'a str, &'a str),
        after: DomView,
    ) -> bool {
        &&& state.0 == shown.0
        &&& state.1@ == self.0@
        &&& state.2@ == self.1@
        &&& before.same_structure(after)
        &&& before.same_but(after, R::style_owner(&shown.0))
        &&& after.asked == before.asked + StyleShape::Property(shown.1@, shown.2@).asks_toward(
            StyleShape::Property(self.0@, self.1@),
            R::style_owner(&shown.0),
        )
        &&& shown.1@ == self.0@ && shown.2@ == self.1@ ==> after == before
    }

    fn to_html(&self, style: &mut String) {
        let (name, value) = *self;
        property_to_html(name, value, style);
    }

    fn hydrate<const FROM_SERVER: bool>(self, el: &R::Element, rndr: &R) -> (state: (
        R::CssStyleDeclaration,
        &'a str,
        &'a str,
    )) {
        let style = rndr.style(el);
        (style, self.0, self.1)
    }

    fn build(self, el: &R::Element, rndr: &mut R) -> (state: (
        R::CssStyleDeclaration,
        &'a str,
        &'a str,
    )) {
        let (name, value) = self;
        let style = rndr.style(el);
        rndr.set_css_property(&style, name, value);
        proof {
            assert(rndr.dom().asked =~= old(rndr).dom().asked + StyleShape::Property(
                name@,
                value@,
            ).asks(R::element_id(el)));
        }
        (style, name, value)
    }

    fn rebuild(self, state: &mut (R::CssStyleDeclaration, &'a str, &'a str), rndr: &mut R) {
        let (name, value) = self;
        if !same_text(name, state.1) || !same_text(value, state.2) {
            rndr.set_css_property(&state.0, name, value);
            state.1 = name;
            state.2 = value;
        }
        proof {
            assert(rndr.dom().asked =~= old(rndr).dom().asked + StyleShape::Property(
                old(state).1@,
                old(state).2@,
            ).asks_toward(StyleShape::Property(state.1@, state.2@), R::style_owner(&state.0)));
        }
    }
}

impl<'a, R: DomRenderer> IntoStyle<R> for (&'a str, String) {
    type State = (R::CssStyleDeclaration, &'a str, String);

    open spec fn shape(&self) -> StyleShape {
        StyleShape::Property(self.0@, self.1@)
    }

    open spec fn state_shape(state: &(R::CssStyleDeclaration, &'a str, String)) -> StyleShape {
        StyleShape::Property(state.1@, state.2@)
    }

    open spec fn hydrated(&self, el: NodeId, state: &(R::CssStyleDeclaration, &'a str, String)) -> bool {
        R::style_owner(&state.0) == el && state.1@ == self.0@ && state.2@ == self.1@
    }

    /// The declaration is the declaration of the element, and is asked to
    /// set the property. What a renderer does to an element when a
    /// property of its style is set is the renderer's to say: at most the
    /// attributes of that element change.
    open spec fn built(&self, el: NodeId, before: DomView, state: &(R::CssStyleDeclaration, &'a str, String), after: DomView) -> bool {
        &&& R::style_owner(&state.0) == el
        &&& state.1@ == self.0@
        &&& state.2@ == self.1@
        &&& before.same_structure(after)
        &&& before.same_but(after, el)
        &&& after.asked == before.asked + StyleShape::Property(self.0@, self.1@).asks(el)
    }

    open spec fn rebuilt(
        &self,
        shown: &(R::CssStyleDeclaration, &'a str, String),
        before: DomView,
        state: &(R::CssStyleDeclaration, &'a str, String),
        after: DomView,
    ) -> bool {
        &&& state.0 == shown.0
        &&& state.1@ == self.0@
        &&& state.2@ == self.1@
        &&& before.same_structure(after)
        &&& before.same_but(after, R::style_owner(&shown.0))
        &&& after.asked == before.asked + StyleShape::Property(shown.1@, shown.2@).asks_toward(
            StyleShape::Property(self.0@, self.1@),
            R::style_owner(&shown.0),
        )
        &&& shown.1@ == self.0@ && shown.2@ == self.1@ ==> after == before
    }

    fn to_html(&self, style: &mut String) {
        property_to_html(self.0, self.1.as_str(), style);
    }

    fn hydrate<const FROM_SERVER: bool>(self, el: &R::Element, rndr: &R) -> (state: (
        R::CssStyleDeclaration,
        &'a str,
        String,
    )) {
        let style = rndr.style(el);
        (style, self.0, self.1)
    }

    fn build(self, el: &R::Element, rndr: &mut R) -> (state: (
        R::CssStyleDeclaration,
        &'a str,
        String,
    )) {
        let (name, value) = self;
        let style = rndr.style(el);
        rndr.set_css_property(&style, name, value.as_str());
        proof {
            assert(rndr.dom().asked =~= old(rndr).dom().asked + StyleShape::Property(
                name@,
                value@,
            ).asks(R::element_id(el)));
        }
        (style, name, value)
    }

    fn rebuild(self, state: &mut (R::CssStyleDeclaration, &'a str, String), rndr: &mut R) {
        let (name, value) = self;
        if !same_text(name, state.1) || !same_text(value.as_str(), state.2.as_str()) {
            rndr.set_css_property(&state.0, name, value.as_str());
            state.1 = name;
            state.2 = value;
        }
        proof {
            assert(rndr.dom().asked =~= old(rndr).dom().asked + StyleShape::Property(
                old(state).1@,
                old(state).2@,
            ).asks_toward(StyleShape::Property(state.1@, state.2@), R::style_owner(&state.0)));
        }
    }
}

/// A value that one property of a style declaration can be set to.
pub trait StylePropertyValue<R: DomRenderer>: Sized {
    /// What is kept between one value and the next.
    type State;

    /// The value as text.
    open spec fn text(&self) -> Seq<char> {
        arbitrary()
    }

    /// The text of the value that a state holds.
    open spec fn state_text(state: &Self::State) -> Seq<char> {
        arbitrary()
    }

    /// The element whose style declaration a state holds.
    open spec fn state_owner(state: &Self::State) -> NodeId {
        arbitrary()
    }

    /// Appends the property `name` with this value to `style`.
    fn to_html(&self, name: &str, style: &mut String)
        ensures
            final(style)@ == old(style)@ + StyleShape::Property(name@, self.text()).text(),
    ;

    /// Takes over an element that already carries this value for the
    /// property `name`.
    fn hydrate<const FROM_SERVER: bool>(self, name: &str, el: &R::Element, rndr: &R) -> (state:
        Self::State)
        requires
            ready(rndr),
        ensures
            Self::state_text(&state) == self.text(),
            Self::state_owner(&state) == R::element_id(el),
    ;

    /// Brings the state up to this value: the property `name` is set
    /// where the value differs from the one that the state holds, and
    /// nothing is asked of the renderer where it does not.
    fn rebuild(self, name: &str, state: &mut Self::State, rndr: &mut R)
        requires
            ready(old(rndr)),
        ensures
            ready(final(rndr)),
            Self::state_text(final(state)) == self.text(),
            Self::state_owner(final(state)) == Self::state_owner(old(state)),
            old(rndr).dom().same_structure(final(rndr).dom()),
            old(rndr).dom().same_but(final(rndr).dom(), Self::state_owner(old(state))),
            if Self::state_text(old(state)) == self.text() {
                &&& *final(state) == *old(state)
                &&& final(rndr).dom() == old(rndr).dom()
                &&& final(rndr).writes() == old(rndr).writes()
            } else {
                &&& final(rndr).dom().asked == old(rndr).dom().asked.push(
                    Asked::CssProperty(Self::state_owner(old(state)), name@, self.text()),
                )
                &&& final(rndr).writes() == old(rndr).writes() + 1
            },
            final(rndr).room() == old(rndr).room(),
    ;
}

impl<'a, R: DomRenderer> StylePropertyValue<R> for &'a str {
    type State = (R::CssStyleDeclaration, &'a str);

    open spec fn text(&self) -> Seq<char> {
        self@
    }

    open spec fn state_text(state: &(R::CssStyleDeclaration, &'a str)) -> Seq<char> {
        state.1@
    }

    open spec fn state_owner(state: &(R::CssStyleDeclaration, &'a str)) -> NodeId {
        R::style_owner(&state.0)
    }

    fn to_html(&self, name: &str, style: &mut String) {
        property_to_html(name, self, style);
    }

    fn hydrate<const FROM_SERVER: bool>(self, name: &str, el: &R::Element, rndr: &R) -> (state: (
        R::CssStyleDeclaration,
        &'a str,
    )) {
        (rndr.style(el), self)
    }

    fn rebuild(self, name: &str, state: &mut (R::CssStyleDeclaration, &'a str), rndr: &mut R) {
        if !same_text(self, state.1) {
            rndr.set_css_property(&state.0, name, self);
            state.1 = self;
        }
    }
}

impl<R: DomRenderer> StylePropertyValue<R> for String {
    type State = (R::CssStyleDeclaration, String);

    open spec fn text(&self) -> Seq<char> {
        self@
    }

    open spec fn state_text(state: &(R::CssStyleDeclaration, String)) -> Seq<char> {
        state.1@
    }

    open spec fn state_owner(state: &(R::CssStyleDeclaration, String)) -> NodeId {
        R::style_owner(&state.0)
    }

    fn to_html(&self, name: &str, style: &mut String) {
        property_to_html(name, self.as_str(), style);
    }

    fn hydrate<const FROM_SERVER: bool>(self, name: &str, el: &R::Element, rndr: &R) -> (state: (
        R::CssStyleDeclaration,
        String,
    )) {
        (rndr.style(el), self)
    }

    fn rebuild(self, name: &str, state: &mut (R::CssStyleDeclaration, String), rndr: &mut R) {
        if !same_text(self.as_str(), state.1.as_str()) {
            rndr.set_css_property(&state.0, name, self.as_str());
            state.1 = self;
        }
    }
}

/// One run of the effect that takes over a changing style from markup: the
/// first value is taken over, and every later value is a rebuild of the
/// state that the run before it left.
pub fn style_effect_step<R: DomRenderer, S: IntoStyle<R>, const FROM_SERVER: bool>(
    value: S,
    prev: Option<S::State>,
    el: &R::Element,
    rndr: &mut R,
) -> (state: S::State)
    requires
        ready(old(rndr)),
    ensures
        ready(final(rndr)),
        S::state_shape(&state) == value.shape(),
        old(rndr).dom().same_structure(final(rndr).dom()),
        match prev {
            Some(shown) => {
                &&& value.rebuilt(&shown, old(rndr).dom(), &state, final(rndr).dom())
                &&& final(rndr).writes() == old(rndr).writes() + S::state_shape(
                    &shown,
                ).calls_toward(value.shape())
                &&& S::state_shape(&shown) == value.shape() ==> {
                    &&& state == shown
                    &&& final(rndr).dom() == old(rndr).dom()
                    &&& final(rndr).writes() == old(rndr).writes()
                }
            },
            None => {
                &&& value.hydrated(R::element_id(el), &state)
                &&& final(rndr).dom() == old(rndr).dom()
                &&& final(rndr).writes() == old(rndr).writes()
            },
        },
        final(rndr).room() == old(rndr).room(),
{
    match prev {
        Some(shown) => {
            let mut state = shown;
            value.rebuild(&mut state, rndr);
            state
        },
        None => value.hydrate::<FROM_SERVER>(el, rndr),
    }
}

/// One run of the effect that keeps one style property at the value that
/// a function gives: the property is set where the value differs from the
/// value of the run before. The first run takes over what the markup
/// says, and sets nothing.
pub fn style_property_step<R: DomRenderer>(
    style: &R::CssStyleDeclaration,
    name: &str,
    value: String,
    prev: Option<String>,
    rndr: &mut R,
) -> (now: String)
    requires
        ready(old(rndr)),
    ensures
        ready(final(rndr)),
        now == value,
        old(rndr).dom().same_structure(final(rndr).dom()),
        old(rndr).dom().same_but(final(rndr).dom(), R::style_owner(style)),
        final(rndr).writes() == (if prev matches Some(before) && before@ != value@ {
            old(rndr).writes() + 1
        } else {
            old(rndr).writes()
        }),
        !(prev matches Some(before) && before@ != value@) ==> final(rndr).dom() == old(rndr).dom(),
        prev matches Some(before) && before@ != value@ ==> final(rndr).dom().asked == old(
            rndr,
        ).dom().asked.push(Asked::CssProperty(R::style_owner(style), name@, value@)),
        final(rndr).room() == old(rndr).room(),
{
    match prev {
        Some(before) => {
            if !same_text(value.as_str(), before.as_str()) {
                rndr.set_css_property(style, name, value.as_str());
            }
        },
        None => {},
    }
    value
}

} // verus!
