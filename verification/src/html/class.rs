//! The `class` attribute: plain texts, and names that are listed or not.

use super::attribute::Attribute;
use crate::text::same_text;
use crate::renderer::model::{Asked, DomView, NodeId};
use crate::renderer::{ready, DomRenderer, Renderer};
use crate::view::shape::{AttrShape, ClassShape};
use std::marker::PhantomData;
use vstd::prelude::*;

verus! {

/// Adds to the `class` attribute of the parent element.
pub fn class<C: IntoClass<R>, R: Renderer>(c: C) -> (attr: Class<C, R>)
    ensures
        attr.value() == c,
{
    Class { class: c, rndr: PhantomData }
}

/// The attribute that [`class`] makes.
pub struct Class<C: IntoClass<R>, R: Renderer> {
    class: C,
    rndr: PhantomData<R>,
}

impl<C: IntoClass<R>, R: Renderer> Class<C, R> {
    /// The value that the attribute was made of.
    pub closed spec fn value(&self) -> C {
        self.class
    }
}

/// Any type that can be added to the `class` attribute or to the class
/// list of an element: a plain text, or a name with the word on whether it
/// is listed.
pub trait IntoClass<R: Renderer>: Sized {
    /// What is kept between one value and the next.
    type State;

    /// What this value shows.
    open spec fn shape(&self) -> ClassShape {
        arbitrary()
    }

    /// What a state shows.
    open spec fn state_shape(state: &Self::State) -> ClassShape {
        arbitrary()
    }

    /// Whether putting this value on the element `el` may take the
    /// document from `before` to `after` and return `state`.
    open spec fn built(&self, el: NodeId, before: DomView, state: &Self::State, after: DomView) -> bool {
        arbitrary()
    }

    /// Whether rebuilding with this value may take the state from `shown`
    /// to `state` and the document from `before` to `after`.
    open spec fn rebuilt(
        &self,
        shown: &Self::State,
        before: DomView,
        state: &Self::State,
        after: DomView,
    ) -> bool {
        arbitrary()
    }

    /// Appends the text of this class to `class`.
    fn to_html(&self, class: &mut String)
        ensures
            final(class)@ == old(class)@ + self.shape().text(),
    ;

    /// Whether `state` is what taking over the element `el`, which
    /// already carries this value, gives.
    open spec fn hydrated(&self, el: NodeId, state: &Self::State) -> bool {
        arbitrary()
    }

    /// Takes over an element that already carries this value.
    fn hydrate<const FROM_SERVER: bool>(self, el: &R::Element, rndr: &R) -> (state: Self::State)
        requires
            ready(rndr),
        ensures
            self.hydrated(R::element_id(el), &state),
            Self::state_shape(&state) == self.shape(),
    ;

    /// Puts this value on the element. Nothing but the attributes of that
    /// element changes.
    fn build(self, el: &R::Element, rndr: &mut R) -> (state: Self::State)
        requires
            ready(old(rndr)),
        ensures
            ready(final(rndr)),
            self.built(R::element_id(el), old(rndr).dom(), &state, final(rndr).dom()),
            Self::state_shape(&state) == self.shape(),
            old(rndr).dom().same_structure(final(rndr).dom()),
            old(rndr).dom().same_but(final(rndr).dom(), R::element_id(el)),
            final(rndr).room() == old(rndr).room(),
            final(rndr).writes() == old(rndr).writes() + self.shape().calls(),
    ;

    /// Brings the state up to this value, and calls on the renderer only
    /// where the two differ.
    fn rebuild(self, state: &mut Self::State, rndr: &mut R)
        requires
            ready(old(rndr)),
        ensures
            ready(final(rndr)),
            self.rebuilt(old(state), old(rndr).dom(), final(state), final(rndr).dom()),
            Self::state_shape(final(state)) == self.shape(),
            old(rndr).dom().same_structure(final(rndr).dom()),
            Self::state_shape(old(state)) == self.shape() ==> {
                &&& *final(state) == *old(state)
                &&& final(rndr).dom() == old(rndr).dom()
                &&& final(rndr).writes() == old(rndr).writes()
            },
            final(rndr).room() == old(rndr).room(),
            final(rndr).writes() == old(rndr).writes() + Self::state_shape(old(state)).calls_toward(
                self.shape(),
            ),
    ;
}

impl<C: IntoClass<R>, R: Renderer> Attribute<R> for Class<C, R> {
    type State = C::State;

    open spec fn shape(&self) -> AttrShape {
        AttrShape::Class(self.value().shape())
    }

    open spec fn state_shape(state: &C::State) -> AttrShape {
        AttrShape::Class(C::state_shape(state))
    }

    open spec fn hydrated(&self, el: NodeId, state: &C::State) -> bool {
        self.value().hydrated(el, state)
    }

    open spec fn built(&self, el: NodeId, before: DomView, state: &C::State, after: DomView) -> bool {
        self.value().built(el, before, state, after)
    }

    open spec fn rebuilt(
        &self,
        shown: &C::State,
        before: DomView,
        state: &C::State,
        after: DomView,
    ) -> bool {
        self.value().rebuilt(shown, before, state, after)
    }

    fn to_html(&self, class: &mut String, style: &mut String) {
        class.append(" ");
        self.class.to_html(class);
    }

    fn hydrate<const FROM_SERVER: bool>(self, el: &R::Element, rndr: &R) -> (state: C::State) {
        self.class.hydrate::<FROM_SERVER>(el, rndr)
    }

    fn build(self, el: &R::Element, rndr: &mut R) -> (state: C::State) {
        self.class.build(el, rndr)
    }

    fn rebuild(self, state: &mut C::State, rndr: &mut R) {
        self.class.rebuild(state, rndr)
    }
}

impl<'a, R: Renderer> IntoClass<R> for &'a str {
    type State = (R::Element, &'a str);

    open spec fn shape(&self) -> ClassShape {
        ClassShape::Text(self@)
    }

    open spec fn state_shape(state: &(R::Element, &'a str)) -> ClassShape {
        ClassShape::Text(state.1@)
    }

    open spec fn hydrated(&self, el: NodeId, state: &(R::Element, &'a str)) -> bool {
        R::element_id(&state.0) == el && state.1@ == self@
    }

    open spec fn built(&self, el: NodeId, before: DomView, state: &(R::Element, &'a str), after: DomView) -> bool {
        &&& R::element_id(&state.0) == el
        &&& state.1@ == self@
        &&& after == before.set_attribute(el, "class"@, self@)
    }

    open spec fn rebuilt(
        &self,
        shown: &(R::Element, &'a str),
        before: DomView,
        state: &(R::Element, &'a str),
        after: DomView,
    ) -> bool {
        &&& state.0 == shown.0
        &&& state.1@ == self@
        &&& after == (if shown.1@ == self@ {
            before
        } else {
            before.set_attribute(R::element_id(&shown.0), "class"@, self@)
        })
    }

    fn to_html(&self, class: &mut String) {
        class.append(self);
    }

    fn hydrate<const FROM_SERVER: bool>(self, el: &R::Element, rndr: &R) -> (state: (
        R::Element,
        &'a str,
    )) {
        (R::clone_element(el), self)
    }

    fn build(self, el: &R::Element, rndr: &mut R) -> (state: (R::Element, &'a str)) {
        proof {
            rndr.dom().lemma_attribute_structure(R::element_id(el), "class"@, self@);
        }
        rndr.set_attribute(el, "class", self);
        (R::clone_element(el), self)
    }

    fn rebuild(self, state: &mut (R::Element, &'a str), rndr: &mut R) {
        if !same_text(self, state.1) {
            proof {
                rndr.dom().lemma_attribute_structure(R::element_id(&state.0), "class"@, self@);
            }
            rndr.set_attribute(&state.0, "class", self);
            state.1 = self;
        }
    }
}

impl<R: Renderer> IntoClass<R> for String {
    type State = (R::Element, String);

    open spec fn shape(&self) -> ClassShape {
        ClassShape::Text(self@)
    }

    open spec fn state_shape(state: &(R::Element, String)) -> ClassShape {
        ClassShape::Text(state.1@)
    }

    open spec fn hydrated(&self, el: NodeId, state: &(R::Element, String)) -> bool {
        R::element_id(&state.0) == el && state.1@ == self@
    }

    open spec fn built(&self, el: NodeId, before: DomView, state: &(R::Element, String), after: DomView) -> bool {
        &&& R::element_id(&state.0) == el
        &&& state.1@ == self@
        &&& after == before.set_attribute(el, "class"@, self@)
    }

    open spec fn rebuilt(
        &self,
        shown: &(R::Element, String),
        before: DomView,
        state: &(R::Element, String),
        after: DomView,
    ) -> bool {
        &&& state.0 == shown.0
        &&& state.1@ == self@
        &&& after == (if shown.1@ == self@ {
            before
        } else {
            before.set_attribute(R::element_id(&shown.0), "class"@, self@)
        })
    }

    fn to_html(&self, class: &mut String) {
        class.append(self.as_str());
    }

    fn hydrate<const FROM_SERVER: bool>(self, el: &R::Element, rndr: &R) -> (state: (
        R::Element,
        String,
    )) {
        (R::clone_element(el), self)
    }

    fn build(self, el: &R::Element, rndr: &mut R) -> (state: (R::Element, String)) {
        proof {
            rndr.dom().lemma_attribute_structure(R::element_id(el), "class"@, self@);
        }
        rndr.set_attribute(el, "class", self.as_str());
        (R::clone_element(el), self)
    }

    fn rebuild(self, state: &mut (R::Element, String), rndr: &mut R) {
        if !same_text(self.as_str(), state.1.as_str()) {
            proof {
                rndr.dom().lemma_attribute_structure(R::element_id(&state.0), "class"@, self@);
            }
            rndr.set_attribute(&state.0, "class", self.as_str());
            state.1 = self;
        }
    }
}

impl<R: DomRenderer> IntoClass<R> for (&'static str, bool) {
    type State = (R::ClassList, &'static str, bool);

    open spec fn shape(&self) -> ClassShape {
        ClassShape::Toggle(self.0@, self.1)
    }

    open spec fn state_shape(state: &(R::ClassList, &'static str, bool)) -> ClassShape {
        ClassShape::Toggle(state.1@, state.2)
    }

    open spec fn hydrated(&self, el: NodeId, state: &(R::ClassList, &'static str, bool)) -> bool {
        R::class_list_owner(&state.0) == el && state.1@ == self.0@ && state.2 == self.1
    }

    /// The list is the list of the element, and is asked to add the name
    /// where it is listed. What a renderer does to an element when a name
    /// enters or leaves its list is the renderer's to say: at most the
    /// attributes of that element change, and nothing changes for a name
    /// that is not listed.
    open spec fn built(
        &self,
        el: NodeId,
        before: DomView,
        state: &(R::ClassList, &'static str, bool),
        after: DomView,
    ) -> bool {
        &&& R::class_list_owner(&state.0) == el
        &&& state.1@ == self.0@
        &&& state.2 == self.1
        &&& before.same_structure(after)
        &&& before.same_but(after, el)
        &&& after.asked == before.asked + ClassShape::Toggle(self.0@, self.1).asks(el)
        &&& !self.1 ==> after == before
    }

    open spec fn rebuilt(
        &self,
        shown: &(R::ClassList, &'static str, bool),
        before: DomView,
        state: &(R::ClassList, &'static str, bool),
        after: DomView,
    ) -> bool {
        &&& state.0 == shown.0
        &&& state.1@ == self.0@
        &&& state.2 == self.1
        &&& before.same_structure(after)
        &&& before.same_but(after, R::class_list_owner(&shown.0))
        &&& after.asked == before.asked + ClassShape::Toggle(shown.1@, shown.2).asks_toward(
            ClassShape::Toggle(self.0@, self.1),
            R::class_list_owner(&shown.0),
        )
        &&& (shown.1@ == self.0@ && shown.2 == self.1 || !shown.2 && !self.1) ==> after == before
    }

    fn to_html(&self, class: &mut String) {
        let (name, listed) = *self;
        if listed {
            class.append(name);
        }
    }

    fn hydrate<const FROM_SERVER: bool>(self, el: &R::Element, rndr: &R) -> (state: (
        R::ClassList,
        &'static str,
        bool,
    )) {
        let class_list = rndr.class_list(el);
        (class_list, self.0, self.1)
    }

    fn build(self, el: &R::Element, rndr: &mut R) -> (state: (R::ClassList, &'static str, bool)) {
        let (name, listed) = self;
        let class_list = rndr.class_list(el);
        if listed {
            rndr.add_class(&class_list, name);
        }
        proof {
            assert(rndr.dom().asked =~= old(rndr).dom().asked + ClassShape::Toggle(
                name@,
                listed,
            ).asks(R::element_id(el)));
        }
        (class_list, name, listed)
    }

    /// A name that is listed is taken off the list where the new value
    /// does not list it, or lists another name; the name of the new value
    /// is put on the list where it was not there.
    fn rebuild(self, state: &mut (R::ClassList, &'static str, bool), rndr: &mut R) {
        let (name, listed) = self;
        let same_name = same_text(name, state.1);
        if same_name {
            if listed != state.2 {
                if listed {
                    rndr.add_class(&state.0, name);
                } else {
                    rndr.remove_class(&state.0, name);
                }
                state.2 = listed;
            }
        } else {
            let ghost before = rndr.dom();
            if state.2 {
                rndr.remove_class(&state.0, state.1);
            }
            let ghost between = rndr.dom();
            if listed {
                rndr.add_class(&state.0, name);
            }
            proof {
                before.lemma_same_structure_trans(between, rndr.dom());
                before.lemma_same_but_trans(between, rndr.dom(), R::class_list_owner(&state.0));
            }
            state.1 = name;
            state.2 = listed;
        }
        proof {
            assert(rndr.dom().asked =~= old(rndr).dom().asked + ClassShape::Toggle(
                old(state).1@,
                old(state).2,
            ).asks_toward(ClassShape::Toggle(name@, listed), R::class_list_owner(&state.0)));
        }
    }
}

/// One run of the effect that keeps a changing class on an element: the
/// first value is put on the element, or taken over where the element
/// already carries it, and every later value is a rebuild of the state
/// that the run before it left.
pub fn class_effect_step<R: Renderer, C: IntoClass<R>, const FROM_SERVER: bool>(
    value: C,
    prev: Option<C::State>,
    el: &R::Element,
    hydrating: bool,
    rndr: &mut R,
) -> (state: C::State)
    requires
        ready(old(rndr)),
    ensures
        ready(final(rndr)),
        C::state_shape(&state) == value.shape(),
        old(rndr).dom().same_structure(final(rndr).dom()),
        match prev {
            Some(shown) => {
                &&& value.rebuilt(&shown, old(rndr).dom(), &state, final(rndr).dom())
                &&& final(rndr).writes() == old(rndr).writes() + C::state_shape(
                    &shown,
                ).calls_toward(value.shape())
                &&& C::state_shape(&shown) == value.shape() ==> {
                    &&& state == shown
                    &&& final(rndr).dom() == old(rndr).dom()
                    &&& final(rndr).writes() == old(rndr).writes()
                }
            },
            None => if hydrating {
                &&& value.hydrated(R::element_id(el), &state)
                &&& final(rndr).dom() == old(rndr).dom()
                &&& final(rndr).writes() == old(rndr).writes()
            } else {
                &&& value.built(R::element_id(el), old(rndr).dom(), &state, final(rndr).dom())
                &&& final(rndr).writes() == old(rndr).writes() + value.shape().calls()
            },
        },
        final(rndr).room() == old(rndr).room(),
{
    match prev {
        Some(shown) => {
            let mut state = shown;
            value.rebuild(&mut state, rndr);
            state
        },
        None => {
            if hydrating {
                value.hydrate::<FROM_SERVER>(el, rndr)
            } else {
                value.build(el, rndr)
            }
        },
    }
}

/// One run of the effect that keeps a class name listed or not, as a
/// function says: the list is changed where the word differs from the
/// word of the run before, and on the first run.
pub fn class_toggle_step<R: DomRenderer>(
    class_list: &R::ClassList,
    name: &str,
    listed: bool,
    prev: Option<bool>,
    rndr: &mut R,
) -> (now: bool)
    requires
        ready(old(rndr)),
    ensures
        ready(final(rndr)),
        now == listed,
        old(rndr).dom().same_structure(final(rndr).dom()),
        old(rndr).dom().same_but(final(rndr).dom(), R::class_list_owner(class_list)),
        final(rndr).writes() == (if prev == Some(listed) {
            old(rndr).writes()
        } else {
            old(rndr).writes() + 1
        }),
        prev == Some(listed) ==> final(rndr).dom() == old(rndr).dom(),
        prev != Some(listed) ==> final(rndr).dom().asked == old(rndr).dom().asked.push(
            if listed {
                Asked::AddClass(R::class_list_owner(class_list), name@)
            } else {
                Asked::RemoveClass(R::class_list_owner(class_list), name@)
            },
        ),
        final(rndr).room() == old(rndr).room(),
{
    let unchanged = match prev {
        Some(before) => before == listed,
        None => false,
    };
    if !unchanged {
        if listed {
            rndr.add_class(class_list, name);
        } else {
            rndr.remove_class(class_list, name);
        }
    }
    listed
}

} // verus!
