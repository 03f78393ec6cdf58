//! Views that change: what a render effect does each time it runs.
//!
//! A function that returns a view is shown by running it, and by running
//! it again whenever what it reads has changed. Running it is up to the
//! reactive runtime; what is done with the view that a run returns is
//! decided here.

use super::{Mountable, PositionState, Render, RenderHtml};
use crate::hydration::{Cursor, HydrationMismatch};
use crate::renderer::{ready, Renderer};
use vstd::prelude::*;

verus! {

/// One run of the effect that shows a changing view: the first value is
/// built, and every later value is a rebuild of the state that the run
/// before it left.
pub fn render_effect_step<R: Renderer, V: Render<R>>(
    value: V,
    prev: Option<V::State>,
    rndr: &mut R,
) -> (state: V::State)
    requires
        ready(old(rndr)),
        old(rndr).room() >= (match prev {
            Some(shown) => shown.shape().growth(value.shape().mounted()),
            None => value.shape().demand(),
        }),
    ensures
        ready(final(rndr)),
        match prev {
            Some(shown) => value.rebuilt(&shown, old(rndr).dom(), &state, final(rndr).dom()),
            None => value.built(old(rndr).dom(), &state, final(rndr).dom()),
        },
        state.shape() == value.shape().mounted(),
        match prev {
            Some(shown) => {
                &&& shown.shape() == value.shape().mounted() ==> {
                    &&& state == shown
                    &&& final(rndr).dom() == old(rndr).dom()
                    &&& final(rndr).writes() == old(rndr).writes()
                }
                &&& shown.shape().retouches(value.shape().mounted()) matches Some(calls)
                    ==> final(rndr).writes() == old(rndr).writes() + calls
            },
            None => {
                &&& old(rndr).dom().kept_by(final(rndr).dom())
                &&& final(rndr).dom().fresh(old(rndr).dom(), state.nodes())
                &&& state.nodes().no_duplicates()
                &&& final(rndr).room() == old(rndr).room() - value.shape().demand()
                &&& state.nodes().len() == value.shape().width()
                &&& final(rndr).writes() == old(rndr).writes() + value.shape().build_calls()
            },
        },
        final(rndr).room() == old(rndr).room() - (match prev {
            Some(shown) => shown.shape().growth(value.shape().mounted()),
            None => value.shape().demand(),
        }),
        final(rndr).writes() >= old(rndr).writes(),
{
    match prev {
        Some(shown) => {
            let mut state = shown;
            value.rebuild(&mut state, rndr);
            state
        },
        None => value.build(rndr),
    }
}

/// One run of the effect that takes over a changing view from markup: the
/// first value is hydrated, and every later value is a rebuild of the
/// state that the run before it left.
pub fn hydrate_effect_step<R: Renderer, V: RenderHtml<R>, const FROM_SERVER: bool>(
    value: V,
    prev: Option<V::State>,
    rndr: &mut R,
    cursor: &mut Cursor<R>,
    position: &mut PositionState,
) -> (result: Result<V::State, HydrationMismatch>)
    requires
        ready(old(rndr)),
        prev matches Some(shown) ==> old(rndr).room() >= shown.shape().growth(
            value.shape().mounted(),
        ),
    ensures
        ready(final(rndr)),
        match prev {
            Some(shown) => {
                &&& result matches Ok(state)
                &&& value.rebuilt(&shown, old(rndr).dom(), &state, final(rndr).dom())
                &&& state.shape() == value.shape().mounted()
                &&& final(cursor).at() == old(cursor).at()
                &&& final(position).get() == old(position).get()
                &&& shown.shape() == value.shape().mounted() ==> {
                    &&& state == shown
                    &&& final(rndr).dom() == old(rndr).dom()
                    &&& final(rndr).writes() == old(rndr).writes()
                }
                &&& shown.shape().retouches(value.shape().mounted()) matches Some(calls)
                    ==> final(rndr).writes() == old(rndr).writes() + calls
            },
            None => match result {
                Ok(state) => {
                    &&& value.shape().hydrated(
                        old(rndr).dom(),
                        old(cursor).at(),
                        old(position).get(),
                        FROM_SERVER,
                    ) matches Some(walked)
                    &&& value.hydrated(
                        old(rndr).dom(),
                        old(cursor).at(),
                        old(position).get(),
                        FROM_SERVER,
                        &state,
                    )
                    &&& state.shape() == value.shape().mounted()
                    &&& state.nodes() == walked.nodes
                    &&& final(cursor).at() == walked.at
                    &&& final(position).get() == walked.position
                    &&& final(rndr).dom() == walked.dom
                },
                Err(_) => value.shape().hydrated(
                    old(rndr).dom(),
                    old(cursor).at(),
                    old(position).get(),
                    FROM_SERVER,
                ) is None,
            },
        },
        final(rndr).writes() >= old(rndr).writes(),
        prev is None && result is Ok && !FROM_SERVER ==> final(rndr).writes() == old(
            rndr,
        ).writes() + value.shape().texts(),
        prev is None && FROM_SERVER ==> final(rndr).dom() == old(rndr).dom()
            && final(rndr).writes() == old(rndr).writes(),
{
    match prev {
        Some(shown) => {
            let mut state = shown;
            value.rebuild(&mut state, rndr);
            Ok(state)
        },
        None => value.hydrate::<FROM_SERVER>(rndr, cursor, position),
    }
}

} // verus!
