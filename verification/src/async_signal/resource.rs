//! Resources: asynchronous values that a server render hands over to the
//! client render that follows it.
//!
//! A resource does not run anything. Whoever awaits its computation tells
//! it so with [`Resource::resolve`], and the resource does the rest: it
//! keeps the value, and writes it to the shared context that it was made
//! under.

use super::AsyncState;
use crate::serialization::{
    unambiguous, unreadable, Miniserde, Rkyv, SerdeJson, SerdeLite, SerializableData, Serializer, Str,
};
use crate::shared_context::{lookup, SerializedDataId, SharedContext, SharedContextView};
use std::marker::PhantomData;
use vstd::prelude::*;

verus! {

/// An asynchronous value, with the serializer `Ser` that carries it across.
pub struct Resource<T, Ser = Str> {
    ser: PhantomData<Ser>,
    data: AsyncState<T>,
    write_back: Option<SerializedDataId>,
}

/// The state that a resource starts in, given the text that the shared
/// context holds for it. The resource never starts reloading. It starts
/// complete only with a value that the text is read as, and loading only
/// where there is no text or none that can be read.
pub open spec fn starts_as<T: SerializableData<Ser>, Ser: Serializer>(
    data: Option<Seq<char>>,
    state: AsyncState<T>,
) -> bool {
    &&& !(state is Reloading)
    &&& state matches AsyncState::Complete(value) ==> data matches Some(text) && T::reads(
        text,
        &value,
    ) && unambiguous::<T, Ser>(text, &value)
    &&& state is Loading ==> (data matches Some(text) ==> unreadable::<T, Ser>(text))
}

/// Whether reading the text that the shared context holds for a resource
/// fails: there is a text, and no value is what it is read as.
pub open spec fn fails_to_read<T: SerializableData<Ser>, Ser: Serializer>(
    data: Option<Seq<char>>,
) -> bool {
    data matches Some(text) && unreadable::<T, Ser>(text)
}

impl<T, Ser> Resource<T, Ser> {
    /// Where the computation stands.
    pub closed spec fn state(&self) -> AsyncState<T> {
        self.data
    }

    /// The number under which the value is still to be written to the
    /// shared context, if it is.
    pub closed spec fn write_back(&self) -> Option<SerializedDataId> {
        self.write_back
    }

    /// Where the computation stands.
    pub fn get(&self) -> (state: &AsyncState<T>)
        ensures
            *state == self.state(),
    {
        &self.data
    }

    /// The value, once it has arrived and no newer one is on its way.
    /// Whoever awaits the resource sees nothing before that.
    pub fn poll(&self) -> (value: Option<&T>)
        ensures
            value == (match self.state() {
                AsyncState::Complete(value) => Some(&value),
                _ => None,
            }),
    {
        match &self.data {
            AsyncState::Complete(value) => Some(value),
            _ => None,
        }
    }

    /// Takes note that the computation was started anew.
    pub fn refetch(&mut self)
        ensures
            final(self).state() == old(self).state().reloading(),
            final(self).write_back() == old(self).write_back(),
    {
        let mut data = AsyncState::Loading;
        std::mem::swap(&mut data, &mut self.data);
        self.data = match data {
            AsyncState::Complete(value) => AsyncState::Reloading(value),
            state => state,
        };
    }
}

impl<T: SerializableData<Str>> Resource<T, Str> {
    /// A resource that the plain serializer carries across.
    pub fn new(ctx: &mut Option<SharedContext>, hydration: bool) -> (made: (
        Self,
        Option<T::DeErr>,
    ))
        requires
            *old(ctx) matches Some(shared) ==> shared@.next < usize::MAX,
        ensures
            made.0.made_under(*old(ctx), *final(ctx), hydration),
            made.1 is Some == Self::unread_under(*old(ctx), hydration),
    {
        Self::new_with_serializer(ctx, hydration)
    }
}

impl<T: SerializableData<SerdeJson>> Resource<T, SerdeJson> {
    /// A resource that the JSON serializer carries across.
    pub fn serde(ctx: &mut Option<SharedContext>, hydration: bool) -> (made: (
        Self,
        Option<T::DeErr>,
    ))
        requires
            *old(ctx) matches Some(shared) ==> shared@.next < usize::MAX,
        ensures
            made.0.made_under(*old(ctx), *final(ctx), hydration),
            made.1 is Some == Self::unread_under(*old(ctx), hydration),
    {
        Self::new_with_serializer(ctx, hydration)
    }
}

impl<T: SerializableData<Miniserde>> Resource<T, Miniserde> {
    /// A resource that the derive-free JSON serializer carries across.
    pub fn miniserde(ctx: &mut Option<SharedContext>, hydration: bool) -> (made: (
        Self,
        Option<T::DeErr>,
    ))
        requires
            *old(ctx) matches Some(shared) ==> shared@.next < usize::MAX,
        ensures
            made.0.made_under(*old(ctx), *final(ctx), hydration),
            made.1 is Some == Self::unread_under(*old(ctx), hydration),
    {
        Self::new_with_serializer(ctx, hydration)
    }
}

impl<T: SerializableData<SerdeLite>> Resource<T, SerdeLite> {
    /// A resource that the serializer with an intermediate value carries across.
    pub fn serde_lite(ctx: &mut Option<SharedContext>, hydration: bool) -> (made: (
        Self,
        Option<T::DeErr>,
    ))
        requires
            *old(ctx) matches Some(shared) ==> shared@.next < usize::MAX,
        ensures
            made.0.made_under(*old(ctx), *final(ctx), hydration),
            made.1 is Some == Self::unread_under(*old(ctx), hydration),
    {
        Self::new_with_serializer(ctx, hydration)
    }
}

impl<T: SerializableData<Rkyv>> Resource<T, Rkyv> {
    /// A resource that the serializer of archived bytes carries across.
    pub fn rkyv(ctx: &mut Option<SharedContext>, hydration: bool) -> (made: (
        Self,
        Option<T::DeErr>,
    ))
        requires
            *old(ctx) matches Some(shared) ==> shared@.next < usize::MAX,
        ensures
            made.0.made_under(*old(ctx), *final(ctx), hydration),
            made.1 is Some == Self::unread_under(*old(ctx), hydration),
    {
        Self::new_with_serializer(ctx, hydration)
    }
}

impl<T: SerializableData<Ser>, Ser: Serializer> Resource<T, Ser> {
    /// What holds of a resource made under a shared context, or none, and
    /// of that context afterwards.
    ///
    /// Without a context the resource starts loading, and has nothing to
    /// write. Under a context the write of its value is registered under
    /// the next number: the context counts one up and holds the number as
    /// pending. With hydration the resource has taken that number itself,
    /// and starts as the text that the context holds under it says;
    /// without hydration the registration takes the number, and the
    /// resource starts loading.
    pub open spec fn made_under(
        &self,
        before: Option<SharedContext>,
        after: Option<SharedContext>,
        hydration: bool,
    ) -> bool {
        match before {
            Some(shared) => {
                &&& after matches Some(left)
                &&& left@ == (SharedContextView {
                    next: shared@.next + 1,
                    pending: shared@.pending.push(shared@.next),
                    ..shared@
                })
                &&& self.write_back() matches Some(id)
                &&& id.0 == shared@.next
                &&& if hydration {
                    starts_as::<T, Ser>(lookup(shared@.incoming, shared@.next), self.state())
                } else {
                    self.state() is Loading
                }
            },
            None => after is None && self.state() is Loading && self.write_back() is None,
        }
    }

    /// Whether a resource made under the given context finds a text that
    /// it cannot read.
    pub open spec fn unread_under(before: Option<SharedContext>, hydration: bool) -> bool {
        hydration && (before matches Some(shared) && fails_to_read::<T, Ser>(
            lookup(shared@.incoming, shared@.next),
        ))
    }

    /// Makes a resource under the shared context at hand, if there is one,
    /// and registers with that context that the value of the resource will
    /// be written once it is known. Where the context held a text for the
    /// resource that could not be read, the reason comes with the
    /// resource, for the caller to report.
    pub fn new_with_serializer(ctx: &mut Option<SharedContext>, hydration: bool) -> (made: (
        Resource<T, Ser>,
        Option<T::DeErr>,
    ))
        requires
            *old(ctx) matches Some(shared) ==> shared@.next < usize::MAX,
        ensures
            made.0.made_under(*old(ctx), *final(ctx), hydration),
            made.1 is Some == Self::unread_under(*old(ctx), hydration),
    {
        let (initial, taken, unread) = Self::initial_value(ctx, hydration);
        let write_back = match ctx {
            Some(shared_context) => Some(shared_context.write_async(taken)),
            None => None,
        };
        (Resource { ser: PhantomData, data: initial, write_back }, unread)
    }

    /// The state that a resource starts in.
    ///
    /// With hydration and under a shared context, the resource takes the
    /// next number from the context, and starts complete where the context
    /// holds a text under that number that can be read. A text that cannot
    /// be read is passed over: the resource starts loading, as it does
    /// without a text, without a context and without hydration, and the
    /// reason why the text could not be read is handed out with the state.
    pub fn initial_value(ctx: &mut Option<SharedContext>, hydration: bool) -> (initial: (
        AsyncState<T>,
        Option<SerializedDataId>,
        Option<T::DeErr>,
    ))
        requires
            hydration ==> (*old(ctx) matches Some(shared) ==> shared@.next < usize::MAX),
        ensures
            initial.2 is Some == Self::unread_under(*old(ctx), hydration),
            match *old(ctx) {
                Some(shared) => if hydration {
                    &&& *final(ctx) matches Some(left)
                    &&& left@ == (SharedContextView { next: shared@.next + 1, ..shared@ })
                    &&& initial.1 matches Some(id)
                    &&& id.0 == shared@.next
                    &&& starts_as::<T, Ser>(lookup(shared@.incoming, shared@.next), initial.0)
                } else {
                    *final(ctx) == *old(ctx) && initial.0 is Loading && initial.1 is None
                },
                None => *final(ctx) == *old(ctx) && initial.0 is Loading && initial.1 is None,
            },
    {
        if hydration {
            match ctx {
                Some(shared_context) => {
                    let id = shared_context.next_id();
                    let value = shared_context.read_data(id);
                    match value {
                        Some(value) => match T::de(value.as_str()) {
                            Ok(value) => (AsyncState::Complete(value), Some(id), None),
                            Err(unread) => (AsyncState::Loading, Some(id), Some(unread)),
                        },
                        None => (AsyncState::Loading, Some(id), None),
                    }
                },
                None => (AsyncState::Loading, None, None),
            }
        } else {
            // without hydration, always starts loading
            (AsyncState::Loading, None, None)
        }
    }

    /// What holds of the resource and of the shared context after the
    /// value `value` of the resource was to be written: where the write
    /// was still to be made and there is a context, the text of the value
    /// is written under the number of the resource, and the write is
    /// made; a value that cannot be written is reported, and stays to be
    /// written. Where no write was to be made, or there is no context,
    /// nothing happens.
    pub open spec fn wrote(
        value: T,
        was_to_write: Option<SerializedDataId>,
        is_to_write: Option<SerializedDataId>,
        before: Option<SharedContext>,
        after: Option<SharedContext>,
        written: Result<(), T::SerErr>,
    ) -> bool {
        match (was_to_write, before) {
            (Some(id), Some(shared)) => match value.encoded() {
                Some(text) => {
                    &&& written is Ok
                    &&& is_to_write is None
                    &&& after matches Some(left)
                    &&& left@ == (SharedContextView {
                        pending: shared@.pending.remove_value(id.0 as nat),
                        written: shared@.written.push((id.0 as nat, text)),
                        ..shared@
                    })
                },
                None => {
                    &&& written is Err
                    &&& is_to_write == was_to_write
                    &&& after == before
                },
            },
            _ => {
                &&& written is Ok
                &&& is_to_write == was_to_write
                &&& after == before
            },
        }
    }

    /// Writes the value of the resource to the shared context, where the
    /// resource is complete and its value is still to be written: a
    /// resource that started complete writes the value that it started
    /// with. A resource that is not complete writes nothing.
    pub fn write_ready(&mut self, ctx: &mut Option<SharedContext>) -> (written: Result<
        (),
        T::SerErr,
    >)
        ensures
            final(self).state() == old(self).state(),
            match old(self).state() {
                AsyncState::Complete(value) => Self::wrote(
                    value,
                    old(self).write_back(),
                    final(self).write_back(),
                    *old(ctx),
                    *final(ctx),
                    written,
                ),
                _ => {
                    &&& written is Ok
                    &&& final(self).write_back() == old(self).write_back()
                    &&& *final(ctx) == *old(ctx)
                },
            },
    {
        match (&self.data, self.write_back, ctx) {
            (AsyncState::Complete(value), Some(id), Some(shared_context)) => {
                match value.ser() {
                    Ok(text) => {
                        shared_context.complete_write(id, text);
                        self.write_back = None;
                        Ok(())
                    },
                    Err(unwritable) => Err(unwritable),
                }
            },
            _ => Ok(()),
        }
    }

    /// Takes in the value that the computation resolved to. The resource
    /// is complete with it. Where the value is still to be written to the
    /// shared context, it is written now, under the number that the
    /// resource was made with; a value that cannot be written is reported,
    /// and stays to be written.
    pub fn resolve(&mut self, value: T, ctx: &mut Option<SharedContext>) -> (written: Result<
        (),
        T::SerErr,
    >)
        ensures
            final(self).state() == AsyncState::Complete(value),
            Self::wrote(
                value,
                old(self).write_back(),
                final(self).write_back(),
                *old(ctx),
                *final(ctx),
                written,
            ),
    {
        self.data = AsyncState::Complete(value);
        self.write_ready(ctx)
    }
}

/// Resources that are made one after the other under one shared context
/// take numbers that go up by one, whatever is resolved, written or read
/// in between: none of that gives out a number.
pub proof fn lemma_ids_follow_construction<
    T1: SerializableData<S1>,
    S1: Serializer,
    T2: SerializableData<S2>,
    S2: Serializer,
>(
    first: Resource<T1, S1>,
    second: Resource<T2, S2>,
    start: SharedContext,
    after_first: SharedContext,
    before_second: SharedContext,
    after_second: SharedContext,
    first_hydrates: bool,
    second_hydrates: bool,
)
    requires
        first.made_under(Some(start), Some(after_first), first_hydrates),
        before_second@.next == after_first@.next,
        second.made_under(Some(before_second), Some(after_second), second_hydrates),
    ensures
        first.write_back() matches Some(a) && second.write_back() matches Some(b) && b.0 == a.0
            + 1,
        after_second@.next == start@.next + 2,
{
}

/// How many of the steps in `made` made a resource.
pub open spec fn made_among(made: Seq<bool>) -> nat
    decreases made.len(),
{
    if made.len() == 0 {
        0
    } else {
        made_among(made.drop_last()) + if made.last() {
            1nat
        } else {
            0nat
        }
    }
}

/// Any number of resources made under one shared context take numbers
/// that go up by one from one to the next, whatever happens in between
/// and in whatever order they resolve.
///
/// `counts` holds the count of the context before the first step and
/// after each step; `made` says of each step whether it made a resource,
/// which takes the count as its number and raises it by one. Every other
/// step leaves the count as it is. The resource made at step `k` then has
/// the first number plus the number of resources made before it.
pub proof fn lemma_ids_count_constructions(counts: Seq<nat>, made: Seq<bool>, k: int)
    requires
        counts.len() == made.len() + 1,
        forall|i: int|
            0 <= i < made.len() ==> #[trigger] counts[i + 1] == counts[i] + if made[i] {
                1nat
            } else {
                0nat
            },
        0 <= k <= made.len(),
    ensures
        counts[k] == counts[0] + made_among(made.take(k)),
    decreases k,
{
    if k > 0 {
        lemma_ids_count_constructions(counts, made, k - 1);
        assert(made.take(k).drop_last() =~= made.take(k - 1));
        assert(counts[(k - 1) + 1] == counts[k - 1] + if made[k - 1] {
            1nat
        } else {
            0nat
        });
    }
}

/// A text that is read as some value makes a resource start complete,
/// with a value that is the same as every value that the text is read as.
pub proof fn lemma_starts_complete<T: SerializableData<Ser>, Ser: Serializer>(
    text: Seq<char>,
    value: T,
    state: AsyncState<T>,
)
    requires
        starts_as::<T, Ser>(Some(text), state),
        T::reads(text, &value),
    ensures
        state matches AsyncState::Complete(read) && T::reads(text, &read) && read.same(&value),
{
}

/// A text that is read as no value, and no text at all, make a resource
/// start loading.
pub proof fn lemma_starts_loading<T: SerializableData<Ser>, Ser: Serializer>(
    data: Option<Seq<char>>,
    state: AsyncState<T>,
)
    requires
        starts_as::<T, Ser>(data, state),
        data matches Some(text) ==> unreadable::<T, Ser>(text),
    ensures
        state is Loading,
{
}

/// A resource that is made on the client at the place in the order at
/// which a resource on the server wrote a value starts complete with a
/// value that the written text is read as, or loading where it is read as
/// none: it never starts with the value of another resource.
pub proof fn lemma_client_reads_what_server_wrote<T: SerializableData<Ser>, Ser: Serializer>(
    resource: Resource<T, Ser>,
    written: Seq<(nat, Seq<char>)>,
    text: Seq<char>,
    client: SharedContext,
    after: SharedContext,
)
    requires
        !crate::shared_context::ids(written).contains(client@.next),
        client@.incoming == written.push((client@.next, text)),
        resource.made_under(Some(client), Some(after), true),
    ensures
        starts_as::<T, Ser>(Some(text), resource.state()),
{
    crate::shared_context::lemma_written_is_read(written, client@.next, text);
}

/// A resource that is made on the client at the place in the order at
/// which a resource on the server wrote a value starts complete with that
/// value: the text that was written is one that is read as the value, and
/// as no other.
pub proof fn lemma_client_starts_with_written_value<T: SerializableData<Ser>, Ser: Serializer>(
    resource: Resource<T, Ser>,
    written: Seq<(nat, Seq<char>)>,
    text: Seq<char>,
    value: T,
    client: SharedContext,
    after: SharedContext,
)
    requires
        !crate::shared_context::ids(written).contains(client@.next),
        client@.incoming == written.push((client@.next, text)),
        resource.made_under(Some(client), Some(after), true),
        T::reads(text, &value),
    ensures
        resource.state() matches AsyncState::Complete(read) && read.same(&value),
{
    crate::shared_context::lemma_written_is_read(written, client@.next, text);
    lemma_starts_complete::<T, Ser>(text, value, resource.state());
}

} // verus!
