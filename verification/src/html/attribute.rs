//! What stands in the opening tag of an element.

use crate::renderer::model::{DomView, NodeId};
use crate::renderer::{ready, Renderer};
use crate::view::shape::AttrShape;
use vstd::prelude::*;

verus! {

/// Something that adds to the opening tag of an element, and keeps what it
/// added up to date.
///
/// An attribute that does not say what it shows leaves that unknown to
/// every contract.
pub trait Attribute<R: Renderer>: Sized {
    /// What is kept between one value and the next.
    type State;

    /// What this value shows.
    open spec fn shape(&self) -> AttrShape {
        arbitrary()
    }

    /// What a state shows.
    open spec fn state_shape(state: &Self::State) -> AttrShape {
        arbitrary()
    }

    /// Whether putting this value on the element `el` may take the
    /// document from `before` to `after` and return `state`.
    open spec fn built(&self, el: NodeId, before: DomView, state: &Self::State, after: DomView) -> bool {
        arbitrary()
    }

    /// Whether rebuilding with this value may take the state from `shown`
    /// to `state` and the document from `before` to `after`.
    open spec fn rebuilt(
        &self,
        shown: &Self::State,
        before: DomView,
        state: &Self::State,
        after: DomView,
    ) -> bool {
        arbitrary()
    }

    /// Appends what this value adds to the `class` and `style` attributes
    /// to the two texts.
    fn to_html(&self, class: &mut String, style: &mut String)
        ensures
            final(class)@ == old(class)@ + self.shape().class_text(),
            final(style)@ == old(style)@ + self.shape().style_text(),
    ;

    /// Whether `state` is what taking over the element `el`, which
    /// already carries this value, gives.
    open spec fn hydrated(&self, el: NodeId, state: &Self::State) -> bool {
        arbitrary()
    }

    /// Takes over an element that already carries this value.
    fn hydrate<const FROM_SERVER: bool>(self, el: &R::Element, rndr: &R) -> (state: Self::State)
        requires
            ready(rndr),
        ensures
            self.hydrated(R::element_id(el), &state),
            Self::state_shape(&state) == self.shape(),
    ;

    /// Puts this value on the element. Nothing but the attributes of that
    /// element changes.
    fn build(self, el: &R::Element, rndr: &mut R) -> (state: Self::State)
        requires
            ready(old(rndr)),
        ensures
            ready(final(rndr)),
            self.built(R::element_id(el), old(rndr).dom(), &state, final(rndr).dom()),
            Self::state_shape(&state) == self.shape(),
            old(rndr).dom().same_structure(final(rndr).dom()),
            old(rndr).dom().same_but(final(rndr).dom(), R::element_id(el)),
            final(rndr).room() == old(rndr).room(),
            final(rndr).writes() == old(rndr).writes() + self.shape().calls(),
    ;

    /// Brings the state up to this value. Where the state already shows
    /// what this value shows, the renderer is not called upon to change
    /// anything.
    fn rebuild(self, state: &mut Self::State, rndr: &mut R)
        requires
            ready(old(rndr)),
        ensures
            ready(final(rndr)),
            self.rebuilt(old(state), old(rndr).dom(), final(state), final(rndr).dom()),
            Self::state_shape(final(state)) == self.shape(),
            old(rndr).dom().same_structure(final(rndr).dom()),
            Self::state_shape(old(state)) == self.shape() ==> {
                &&& *final(state) == *old(state)
                &&& final(rndr).dom() == old(rndr).dom()
                &&& final(rndr).writes() == old(rndr).writes()
            },
            final(rndr).room() == old(rndr).room(),
            final(rndr).writes() == old(rndr).writes() + Self::state_shape(old(state)).calls_toward(
                self.shape(),
            ),
    ;
}

impl<R: Renderer> Attribute<R> for () {
    type State = ();

    open spec fn shape(&self) -> AttrShape {
        AttrShape::Empty
    }

    open spec fn state_shape(state: &()) -> AttrShape {
        AttrShape::Empty
    }

    open spec fn hydrated(&self, el: NodeId, state: &()) -> bool {
        true
    }

    open spec fn built(&self, el: NodeId, before: DomView, state: &(), after: DomView) -> bool {
        after == before
    }

    open spec fn rebuilt(&self, shown: &(), before: DomView, state: &(), after: DomView) -> bool {
        after == before
    }

    fn to_html(&self, class: &mut String, style: &mut String) {
    }

    fn hydrate<const FROM_SERVER: bool>(self, el: &R::Element, rndr: &R) -> (state: ()) {
    }

    fn build(self, el: &R::Element, rndr: &mut R) -> (state: ()) {
    }

    fn rebuild(self, state: &mut (), rndr: &mut R) {
    }
}

impl<R: Renderer, A: Attribute<R>, B: Attribute<R>> Attribute<R> for (A, B) {
    type State = (A::State, B::State);

    open spec fn shape(&self) -> AttrShape {
        AttrShape::Pair(Box::new(self.0.shape()), Box::new(self.1.shape()))
    }

    open spec fn state_shape(state: &(A::State, B::State)) -> AttrShape {
        AttrShape::Pair(Box::new(A::state_shape(&state.0)), Box::new(B::state_shape(&state.1)))
    }

    open spec fn hydrated(&self, el: NodeId, state: &(A::State, B::State)) -> bool {
        self.0.hydrated(el, &state.0) && self.1.hydrated(el, &state.1)
    }

    open spec fn built(
        &self,
        el: NodeId,
        before: DomView,
        state: &(A::State, B::State),
        after: DomView,
    ) -> bool {
        exists|mid: DomView| #[trigger]
            self.0.built(el, before, &state.0, mid) && self.1.built(el, mid, &state.1, after)
    }

    open spec fn rebuilt(
        &self,
        shown: &(A::State, B::State),
        before: DomView,
        state: &(A::State, B::State),
        after: DomView,
    ) -> bool {
        exists|mid: DomView| #[trigger]
            self.0.rebuilt(&shown.0, before, &state.0, mid) && self.1.rebuilt(
                &shown.1,
                mid,
                &state.1,
                after,
            )
    }

    fn to_html(&self, class: &mut String, style: &mut String) {
        self.0.to_html(class, style);
        self.1.to_html(class, style);
    }

    fn hydrate<const FROM_SERVER: bool>(self, el: &R::Element, rndr: &R) -> (state: (
        A::State,
        B::State,
    )) {
        let (a, b) = self;
        (a.hydrate::<FROM_SERVER>(el, rndr), b.hydrate::<FROM_SERVER>(el, rndr))
    }

    fn build(self, el: &R::Element, rndr: &mut R) -> (state: (A::State, B::State)) {
        let ghost before = rndr.dom();
        let ghost view = self;
        let (a, b) = self;
        let first = a.build(el, rndr);
        let ghost between = rndr.dom();
        let second = b.build(el, rndr);
        proof {
            before.lemma_same_structure_trans(between, rndr.dom());
            before.lemma_same_but_trans(between, rndr.dom(), R::element_id(el));
        }
        let state = (first, second);
        proof {
            assert(view.0.built(R::element_id(el), before, &state.0, between) && view.1.built(
                R::element_id(el),
                between,
                &state.1,
                rndr.dom(),
            ));
        }
        state
    }

    fn rebuild(self, state: &mut (A::State, B::State), rndr: &mut R) {
        let ghost before = rndr.dom();
        let ghost view = self;
        let (a, b) = self;
        a.rebuild(&mut state.0, rndr);
        let ghost between = rndr.dom();
        b.rebuild(&mut state.1, rndr);
        proof {
            before.lemma_same_structure_trans(between, rndr.dom());
            assert(view.0.rebuilt(&old(state).0, before, &state.0, between) && view.1.rebuilt(
                &old(state).1,
                between,
                &state.1,
                rndr.dom(),
            ));
        }
    }
}

impl<R: Renderer, A: Attribute<R>, B: Attribute<R>, C: Attribute<R>> Attribute<R> for (A, B, C) {
    type State = (A::State, B::State, C::State);

    open spec fn shape(&self) -> AttrShape {
        AttrShape::Pair(
            Box::new(self.0.shape()),
            Box::new(AttrShape::Pair(Box::new(self.1.shape()), Box::new(self.2.shape()))),
        )
    }

    open spec fn state_shape(state: &(A::State, B::State, C::State)) -> AttrShape {
        AttrShape::Pair(
            Box::new(A::state_shape(&state.0)),
            Box::new(
                AttrShape::Pair(
                    Box::new(B::state_shape(&state.1)),
                    Box::new(C::state_shape(&state.2)),
                ),
            ),
        )
    }

    open spec fn hydrated(&self, el: NodeId, state: &(A::State, B::State, C::State)) -> bool {
        self.0.hydrated(el, &state.0) && self.1.hydrated(el, &state.1) && self.2.hydrated(
            el,
            &state.2,
        )
    }

    open spec fn built(
        &self,
        el: NodeId,
        before: DomView,
        state: &(A::State, B::State, C::State),
        after: DomView,
    ) -> bool {
        exists|first: DomView, second: DomView|
            self.0.built(el, before, &state.0, first) && #[trigger] self.1.built(
                el,
                first,
                &state.1,
                second,
            ) && self.2.built(el, second, &state.2, after)
    }

    open spec fn rebuilt(
        &self,
        shown: &(A::State, B::State, C::State),
        before: DomView,
        state: &(A::State, B::State, C::State),
        after: DomView,
    ) -> bool {
        exists|first: DomView, second: DomView|
            self.0.rebuilt(&shown.0, before, &state.0, first) && #[trigger] self.1.rebuilt(
                &shown.1,
                first,
                &state.1,
                second,
            ) && self.2.rebuilt(&shown.2, second, &state.2, after)
    }

    fn to_html(&self, class: &mut String, style: &mut String) {
        self.0.to_html(class, style);
        self.1.to_html(class, style);
        self.2.to_html(class, style);
        proof {
            let rest = AttrShape::Pair(Box::new(self.1.shape()), Box::new(self.2.shape()));
            assert(self.shape().class_text() == self.0.shape().class_text() + rest.class_text());
            assert(self.shape().style_text() == self.0.shape().style_text() + rest.style_text());
        }
    }

    fn hydrate<const FROM_SERVER: bool>(self, el: &R::Element, rndr: &R) -> (state: (
        A::State,
        B::State,
        C::State,
    )) {
        let (a, b, c) = self;
        (
            a.hydrate::<FROM_SERVER>(el, rndr),
            b.hydrate::<FROM_SERVER>(el, rndr),
            c.hydrate::<FROM_SERVER>(el, rndr),
        )
    }

    fn build(self, el: &R::Element, rndr: &mut R) -> (state: (A::State, B::State, C::State)) {
        let ghost before = rndr.dom();
        let ghost view = self;
        let (a, b, c) = self;
        let first = a.build(el, rndr);
        let ghost after_first = rndr.dom();
        let second = b.build(el, rndr);
        let ghost after_second = rndr.dom();
        let third = c.build(el, rndr);
        proof {
            before.lemma_same_structure_trans(after_first, after_second);
            before.lemma_same_but_trans(after_first, after_second, R::element_id(el));
            before.lemma_same_structure_trans(after_second, rndr.dom());
            before.lemma_same_but_trans(after_second, rndr.dom(), R::element_id(el));
        }
        let state = (first, second, third);
        proof {
            assert(view.0.built(R::element_id(el), before, &state.0, after_first)
                && view.1.built(R::element_id(el), after_first, &state.1, after_second)
                && view.2.built(R::element_id(el), after_second, &state.2, rndr.dom()));
            let rest = AttrShape::Pair(Box::new(view.1.shape()), Box::new(view.2.shape()));
            assert(rest.calls() == view.1.shape().calls() + view.2.shape().calls());
        }
        state
    }

    fn rebuild(self, state: &mut (A::State, B::State, C::State), rndr: &mut R) {
        let ghost before = rndr.dom();
        let ghost view = self;
        let (a, b, c) = self;
        a.rebuild(&mut state.0, rndr);
        let ghost after_first = rndr.dom();
        b.rebuild(&mut state.1, rndr);
        let ghost after_second = rndr.dom();
        c.rebuild(&mut state.2, rndr);
        proof {
            assert(view.0.rebuilt(&old(state).0, before, &state.0, after_first)
                && view.1.rebuilt(&old(state).1, after_first, &state.1, after_second)
                && view.2.rebuilt(&old(state).2, after_second, &state.2, rndr.dom()));
            before.lemma_same_structure_trans(after_first, after_second);
            before.lemma_same_structure_trans(after_second, rndr.dom());
            let shown = AttrShape::Pair(
                Box::new(B::state_shape(&old(state).1)),
                Box::new(C::state_shape(&old(state).2)),
            );
            let rest = AttrShape::Pair(Box::new(view.1.shape()), Box::new(view.2.shape()));
            assert(shown.calls_toward(rest) == B::state_shape(&old(state).1).calls_toward(
                view.1.shape(),
            ) + C::state_shape(&old(state).2).calls_toward(view.2.shape()));
        }
    }
}

} // verus!
