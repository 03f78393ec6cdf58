//! Views that wait: a future that resolves to a view, shown as a fallback
//! until it does.
//!
//! Nothing in here awaits. A future is polled once, at once; where it is
//! not ready it is handed back, pinned, to be awaited elsewhere, and
//! [`resolve`] brings its value in when it arrives.

use crate::renderer::{ready, Renderer};
use crate::view::either::{Either, EitherState};
use crate::view::shape::Shape;
use crate::view::{saturating_sum, Mountable, Render};
use std::future::Future;
use std::pin::Pin;
use vstd::prelude::*;

verus! {

/// `std::pin::Pin`, which holds a future that is being awaited in its
/// place. Nothing is known of what is in it.
#[verifier::external_type_specification]
#[verifier::external_body]
#[verifier::reject_recursive_types(Ptr)]
pub struct ExPin<Ptr>(std::pin::Pin<Ptr>);

/// `FutureExt::now_or_never` on the future, pinned to the heap: its value
/// where a single poll finds it ready, and the pinned future where it does
/// not. Whether a future is ready depends on more than the future.
#[verifier::external_body]
fn poll_now<Fut: Future>(fut: Fut) -> (polled: Result<Fut::Output, Pin<Box<Fut>>>) {
    let mut fut = Box::pin(fut);
    match futures::FutureExt::now_or_never(fut.as_mut()) {
        Some(resolved) => Ok(resolved),
        None => Err(fut),
    }
}

/// Turns a future into a view that waits for it.
pub trait FutureViewExt: Sized {
    /// This future as a view, with nothing to show while it is pending.
    fn suspend(self) -> (view: Suspend<(), Self>) where Self: Future
        ensures
            view.fut() == self,
    ;
}

impl<F: Future + Sized> FutureViewExt for F {
    fn suspend(self) -> (view: Suspend<(), Self>) {
        Suspend { fallback: (), fut: self }
    }
}

/// A future, with the view to show while it is pending.
pub struct Suspend<Fal, Fut> {
    fallback: Fal,
    fut: Fut,
}

/// What the first poll of a suspended future gave: the view to start with,
/// and the future where it is still pending.
#[verifier::reject_recursive_types(Fut)]
pub struct Polled<Fal, Fut: Future> {
    pub initial: Either<Fal, Fut::Output>,
    pub pending: Option<Pin<Box<Fut>>>,
}

impl<Fal, Fut> Suspend<Fal, Fut> {
    /// The view shown while the future is pending.
    pub closed spec fn fallback(&self) -> Fal {
        self.fallback
    }

    /// The future.
    pub closed spec fn fut(&self) -> Fut {
        self.fut
    }

    /// The same future with another fallback.
    pub fn with_fallback<Fal2>(self, fallback: Fal2) -> (view: Suspend<Fal2, Fut>)
        ensures
            view.fallback() == fallback,
            view.fut() == self.fut(),
    {
        let fut = self.fut;
        Suspend { fallback, fut }
    }
}

/// The view to start with, given what the first poll found: the value
/// where there is one, the fallback where there is none.
pub fn initial_view<Fal, V>(fallback: Fal, resolved: Option<V>) -> (initial: Either<Fal, V>)
    ensures
        initial == (match resolved {
            Some(value) => Either::<Fal, V>::Right(value),
            None => Either::<Fal, V>::Left(fallback),
        }),
{
    match resolved {
        Some(value) => Either::Right(value),
        None => Either::Left(fallback),
    }
}

impl<Fal, Fut: Future> Suspend<Fal, Fut> {
    /// Polls the future once, at once. A future that is ready gives the
    /// view to start with, and is done; one that is not leaves the
    /// fallback to start with, and comes back to be awaited.
    pub fn poll(self) -> (polled: Polled<Fal, Fut>)
        ensures
            match polled.initial {
                Either::Left(fallback) => polled.pending is Some && fallback == self.fallback(),
                Either::Right(_) => polled.pending is None,
            },
    {
        let Suspend { fallback, fut } = self;
        match poll_now(fut) {
            Ok(resolved) => Polled { initial: initial_view(fallback, Some(resolved)), pending: None },
            Err(pending) => Polled {
                initial: initial_view(fallback, None),
                pending: Some(pending),
            },
        }
    }
}

/// What building a suspended future gave, where there was room for it: the
/// state, and the future where it is still to be awaited.
#[verifier::reject_recursive_types(Fut)]
pub struct Suspended<Fal: Render<R>, Fut: Future, R: Renderer> where Fut::Output: Render<R> {
    pub state: EitherState<Fal, Fut::Output, R>,
    pub pending: Option<Pin<Box<Fut>>>,
}

impl<Fal, Fut: Future> Suspend<Fal, Fut> {
    /// Polls the future once, at once, and builds what the poll gave: the
    /// value, where the future was ready, so that the fallback never
    /// shows; the fallback where it was not, together with the future, for
    /// the caller to await and then to [`resolve`].
    ///
    /// Nothing is built, and what the poll gave is handed back, where the
    /// renderer has no room for it, or where it takes `usize::MAX` nodes
    /// or more.
    pub fn build<R: Renderer>(self, rndr: &mut R) -> (built: Result<
        Suspended<Fal, Fut, R>,
        Polled<Fal, Fut>,
    >) where Fal: Render<R>, Fut::Output: Render<R>
        requires
            ready(old(rndr)),
        ensures
            ready(final(rndr)),
            match built {
                Ok(suspended) => {
                    &&& match suspended.state.state {
                        Either::Left(_) => suspended.pending is Some
                            && suspended.state.shape() == Shape::Left(
                            Box::new(self.fallback().shape().mounted()),
                        ) && Either::<Fal, Fut::Output>::Left(self.fallback()).built(
                            old(rndr).dom(),
                            &suspended.state,
                            final(rndr).dom(),
                        ),
                        Either::Right(_) => suspended.pending is None && (exists|
                            value: Fut::Output,
                        | #[trigger]
                            Either::<Fal, Fut::Output>::Right(value).built(
                                old(rndr).dom(),
                                &suspended.state,
                                final(rndr).dom(),
                            )),
                    }
                    &&& old(rndr).dom().kept_by(final(rndr).dom())
                    &&& final(rndr).dom().fresh(old(rndr).dom(), suspended.state.nodes())
                    &&& suspended.state.nodes().no_duplicates()
                    &&& final(rndr).room() == old(rndr).room() - suspended.state.shape().demand()
                },
                Err(polled) => {
                    &&& match polled.initial {
                        Either::Left(fallback) => polled.pending is Some && fallback
                            == self.fallback(),
                        Either::Right(_) => polled.pending is None,
                    }
                    &&& old(rndr).room() < polled.initial.shape().demand()
                        || polled.initial.shape().demand() >= usize::MAX
                    &&& final(rndr).dom() == old(rndr).dom()
                    &&& final(rndr).room() == old(rndr).room()
                    &&& final(rndr).writes() == old(rndr).writes()
                },
            },
    {
        let polled = self.poll();
        let demand = polled.initial.demand();
        if demand == usize::MAX || rndr.nodes_left() < demand {
            Err(polled)
        } else {
            let Polled { initial, pending } = polled;
            let ghost shape = initial.shape();
            proof {
                shape.lemma_mounted_demand();
                match &initial {
                    Either::Left(fallback) => {
                    },
                    Either::Right(value) => {
                    },
                }
            }
            let state = initial.build(rndr);
            Ok(Suspended { state, pending })
        }
    }

    /// Falls back to the fallback, whatever was shown, and hands back the
    /// future for the caller to await and then to [`resolve`].
    pub fn rebuild<R: Renderer>(self, state: &mut EitherState<Fal, Fut::Output, R>, rndr: &mut R) -> (fut:
        Fut) where Fal: Render<R>, Fut::Output: Render<R>
        requires
            ready(old(rndr)),
            old(rndr).room() >= old(state).shape().growth(
                Shape::Left(Box::new(self.fallback().shape().mounted())),
            ),
        ensures
            ready(final(rndr)),
            fut == self.fut(),
            Either::<Fal, Fut::Output>::Left(self.fallback()).rebuilt(
                old(state),
                old(rndr).dom(),
                final(state),
                final(rndr).dom(),
            ),
            final(state).shape() == Shape::Left(Box::new(self.fallback().shape().mounted())),
            old(state).shape() == Shape::Left(Box::new(self.fallback().shape().mounted())) ==> {
                &&& *final(state) == *old(state)
                &&& final(rndr).dom() == old(rndr).dom()
                &&& final(rndr).writes() == old(rndr).writes()
            },
            final(rndr).room() == old(rndr).room() - old(state).shape().growth(
                Shape::Left(Box::new(self.fallback().shape().mounted())),
            ),
    {
        let Suspend { fallback, fut } = self;
        // fall back to fallback state
        let view: Either<Fal, Fut::Output> = Either::Left(fallback);
        view.rebuild(state, rndr);
        fut
    }
}

impl<Fal, Fut: Future> Suspend<Fal, Fut> {
    /// Falls back to the fallback as [`Suspend::rebuild`] does, where the
    /// renderer has room to build the fallback and its marker anew, which
    /// is room enough whatever is shown. Where it has not, or where the
    /// fallback takes `usize::MAX` nodes or more, nothing is done and the
    /// view is handed back.
    pub fn try_rebuild<R: Renderer>(
        self,
        state: &mut EitherState<Fal, Fut::Output, R>,
        rndr: &mut R,
    ) -> (fell_back: Result<Fut, Self>) where Fal: Render<R>, Fut::Output: Render<R>
        requires
            ready(old(rndr)),
        ensures
            ready(final(rndr)),
            match fell_back {
                Ok(fut) => {
                    &&& fut == self.fut()
                    &&& Either::<Fal, Fut::Output>::Left(self.fallback()).rebuilt(
                        old(state),
                        old(rndr).dom(),
                        final(state),
                        final(rndr).dom(),
                    )
                    &&& final(state).shape() == Shape::Left(
                        Box::new(self.fallback().shape().mounted()),
                    )
                    &&& final(rndr).room() == old(rndr).room() - old(state).shape().growth(
                        Shape::Left(Box::new(self.fallback().shape().mounted())),
                    )
                    &&& old(rndr).room() >= self.fallback().shape().demand() + 1
                },
                Err(view) => {
                    &&& view == self
                    &&& old(rndr).room() < self.fallback().shape().demand() + 1
                        || self.fallback().shape().demand() + 1 >= usize::MAX
                    &&& *final(state) == *old(state)
                    &&& final(rndr).dom() == old(rndr).dom()
                    &&& final(rndr).room() == old(rndr).room()
                    &&& final(rndr).writes() == old(rndr).writes()
                },
            },
    {
        let demand = saturating_sum(self.fallback.demand(), 1);
        if demand == usize::MAX || rndr.nodes_left() < demand {
            Err(self)
        } else {
            proof {
                let next = Shape::Left(Box::new(self.fallback().shape().mounted()));
                self.fallback().shape().lemma_mounted_demand();
                state.shape().lemma_growth_within(next);
            }
            Ok(self.rebuild(state, rndr))
        }
    }
}

/// Brings in a value as [`resolve`] does, where the renderer has room to
/// build the value and its marker anew, which is room enough whatever is
/// shown. Where it has not, or where the value takes `usize::MAX` nodes or
/// more, nothing is done and the value is handed back.
pub fn try_resolve<Fal: Render<R>, V: Render<R>, R: Renderer>(
    value: V,
    state: &mut EitherState<Fal, V, R>,
    rndr: &mut R,
) -> (brought: Result<(), V>)
    requires
        ready(old(rndr)),
    ensures
        ready(final(rndr)),
        match brought {
            Ok(_) => {
                &&& Either::<Fal, V>::Right(value).rebuilt(
                    old(state),
                    old(rndr).dom(),
                    final(state),
                    final(rndr).dom(),
                )
                &&& final(state).shape() == Shape::Right(Box::new(value.shape().mounted()))
                &&& final(rndr).room() == old(rndr).room() - old(state).shape().growth(
                    Shape::Right(Box::new(value.shape().mounted())),
                )
                &&& old(rndr).room() >= value.shape().demand() + 1
            },
            Err(back) => {
                &&& back == value
                &&& old(rndr).room() < value.shape().demand() + 1 || value.shape().demand() + 1
                    >= usize::MAX
                &&& *final(state) == *old(state)
                &&& final(rndr).dom() == old(rndr).dom()
                &&& final(rndr).room() == old(rndr).room()
                &&& final(rndr).writes() == old(rndr).writes()
            },
        },
{
    let demand = saturating_sum(value.demand(), 1);
    if demand == usize::MAX || rndr.nodes_left() < demand {
        Err(value)
    } else {
        proof {
            let next = Shape::Right(Box::new(value.shape().mounted()));
            value.shape().lemma_mounted_demand();
            state.shape().lemma_growth_within(next);
        }
        resolve(value, state, rndr);
        Ok(())
    }
}

/// Brings in the value that a suspended future resolved to: the state goes
/// from whatever it shows to the value, in place.
pub fn resolve<Fal: Render<R>, V: Render<R>, R: Renderer>(
    value: V,
    state: &mut EitherState<Fal, V, R>,
    rndr: &mut R,
)
    requires
        ready(old(rndr)),
        old(rndr).room() >= old(state).shape().growth(
            Shape::Right(Box::new(value.shape().mounted())),
        ),
    ensures
        ready(final(rndr)),
        Either::<Fal, V>::Right(value).rebuilt(
            old(state),
            old(rndr).dom(),
            final(state),
            final(rndr).dom(),
        ),
        final(state).shape() == Shape::Right(Box::new(value.shape().mounted())),
        old(state).shape() == Shape::Right(Box::new(value.shape().mounted())) ==> {
            &&& *final(state) == *old(state)
            &&& final(rndr).dom() == old(rndr).dom()
            &&& final(rndr).writes() == old(rndr).writes()
        },
        final(rndr).room() == old(rndr).room() - old(state).shape().growth(
            Shape::Right(Box::new(value.shape().mounted())),
        ),
{
    let view: Either<Fal, V> = Either::Right(value);
    view.rebuild(state, rndr);
}

} // verus!
