//! The registry that a server render and the client render after it
//! share: it numbers the resources in the order in which they are made,
//! and keeps what each of them resolved to under its number.
//!
//! On the server, the values that resources write are kept in the order in
//! which they arrive, to be embedded in the response. On the client, a
//! registry is seeded with what was embedded, and hands each value to the
//! resource that is made at the same place in the order.

use vstd::prelude::*;

verus! {

/// The number of a resource in the order of construction.
#[derive(Clone, Copy, Debug, PartialEq, Eq, Hash, Structural)]
pub struct SerializedDataId(pub usize);

/// A registry as plain values.
pub struct SharedContextView {
    /// The number that the next resource gets.
    pub next: nat,
    /// What the registry was seeded with: numbers with their texts.
    pub incoming: Seq<(nat, Seq<char>)>,
    /// The numbers whose value is still to be written.
    pub pending: Seq<nat>,
    /// What was written, in the order in which it arrived.
    pub written: Seq<(nat, Seq<char>)>,
}

/// The text that stands with the number `id` in `pairs`, where it first
/// occurs.
pub open spec fn lookup(pairs: Seq<(nat, Seq<char>)>, id: nat) -> Option<Seq<char>>
    decreases pairs.len(),
{
    if pairs.len() == 0 {
        None
    } else if pairs[0].0 == id {
        Some(pairs[0].1)
    } else {
        lookup(pairs.skip(1), id)
    }
}

/// The numbers of a list of numbered texts, in order.
pub open spec fn ids(pairs: Seq<(nat, Seq<char>)>) -> Seq<nat> {
    pairs.map_values(|pair: (nat, Seq<char>)| pair.0)
}

/// A list of owned pairs as plain values.
pub open spec fn pair_views(pairs: Seq<(SerializedDataId, String)>) -> Seq<(nat, Seq<char>)> {
    pairs.map_values(|pair: (SerializedDataId, String)| (pair.0.0 as nat, pair.1@))
}

/// A list of numbers as plain values.
pub open spec fn id_views(list: Seq<SerializedDataId>) -> Seq<nat> {
    list.map_values(|id: SerializedDataId| id.0 as nat)
}

/// The index of the first occurrence of `id` in `list`.
fn pending_position(list: &Vec<SerializedDataId>, id: SerializedDataId) -> (found: Option<usize>)
    ensures
        match found {
            Some(at) => at < list.len() && id_views(list@).index_of_first(id.0 as nat) == Some(
                at as int,
            ),
            None => id_views(list@).index_of_first(id.0 as nat) is None,
        },
{
    let ghost all = id_views(list@);
    let mut i: usize = 0;
    while i < list.len()
        invariant
            i <= list.len(),
            all == id_views(list@),
            forall|j: int| 0 <= j < i ==> all[j] != id.0 as nat,
        decreases list.len() - i,
    {
        if list[i].0 == id.0 {
            proof {
                all.index_of_first_ensures(id.0 as nat);
                assert(all[i as int] == id.0 as nat);
            }
            return Some(i);
        }
        i += 1;
    }
    proof {
        all.index_of_first_ensures(id.0 as nat);
    }
    None
}

/// The registry of one render.
pub struct SharedContext {
    next: usize,
    incoming: Vec<(SerializedDataId, String)>,
    pending: Vec<SerializedDataId>,
    written: Vec<(SerializedDataId, String)>,
}

impl View for SharedContext {
    type V = SharedContextView;

    closed spec fn view(&self) -> SharedContextView {
        SharedContextView {
            next: self.next as nat,
            incoming: pair_views(self.incoming@),
            pending: id_views(self.pending@),
            written: pair_views(self.written@),
        }
    }
}

impl SharedContext {
    /// A registry that holds nothing, as a server render starts with.
    pub fn new() -> (ctx: SharedContext)
        ensures
            ctx@ == (SharedContextView {
                next: 0,
                incoming: Seq::empty(),
                pending: Seq::empty(),
                written: Seq::empty(),
            }),
    {
        let ctx = SharedContext {
            next: 0,
            incoming: Vec::new(),
            pending: Vec::new(),
            written: Vec::new(),
        };
        proof {
            assert(ctx@.incoming =~= Seq::empty());
            assert(ctx@.pending =~= Seq::empty());
        }
        ctx
    }

    /// A registry seeded with what a server embedded, as a client render
    /// starts with.
    pub fn with_embedded(embedded: Vec<(SerializedDataId, String)>) -> (ctx: SharedContext)
        ensures
            ctx@ == (SharedContextView {
                next: 0,
                incoming: pair_views(embedded@),
                pending: Seq::empty(),
                written: Seq::empty(),
            }),
    {
        let ctx = SharedContext {
            next: 0,
            incoming: embedded,
            pending: Vec::new(),
            written: Vec::new(),
        };
        proof {
            assert(ctx@.pending =~= Seq::empty());
            assert(ctx@.written =~= Seq::empty());
        }
        ctx
    }

    /// How many numbers were given out.
    pub fn issued(&self) -> (count: usize)
        ensures
            count == self@.next,
    {
        self.next
    }

    /// Gives out the next number. Numbers go up by one with every call,
    /// from zero, whatever is written or read in between.
    pub fn next_id(&mut self) -> (id: SerializedDataId)
        requires
            old(self)@.next < usize::MAX,
        ensures
            id.0 == old(self)@.next,
            final(self)@ == (SharedContextView { next: old(self)@.next + 1, ..old(self)@ }),
    {
        let id = SerializedDataId(self.next);
        self.next = self.next + 1;
        id
    }

    /// The text that the registry was seeded with for the number `id`, if
    /// any.
    pub fn read_data(&self, id: SerializedDataId) -> (data: Option<String>)
        ensures
            match data {
                Some(text) => lookup(self@.incoming, id.0 as nat) == Some(text@),
                None => lookup(self@.incoming, id.0 as nat) is None,
            },
    {
        let ghost all = pair_views(self.incoming@);
        proof {
            assert(all.skip(0) =~= all);
        }
        let mut i: usize = 0;
        while i < self.incoming.len()
            invariant
                i <= self.incoming.len(),
                all == pair_views(self.incoming@),
                lookup(all, id.0 as nat) == lookup(all.skip(i as int), id.0 as nat),
            decreases self.incoming.len() - i,
        {
            proof {
                let rest = all.skip(i as int);
                assert(rest.skip(1) =~= all.skip(i + 1));
            }
            if self.incoming[i].0.0 == id.0 {
                return Some(self.incoming[i].1.clone());
            }
            i += 1;
        }
        None
    }

    /// Registers that a value will be written once it is known, and says
    /// under which number: the one that the caller holds already, or else
    /// the next one, which the registration takes.
    pub fn write_async(&mut self, taken: Option<SerializedDataId>) -> (id: SerializedDataId)
        requires
            taken is None ==> old(self)@.next < usize::MAX,
        ensures
            match taken {
                Some(held) => id == held && final(self)@ == (SharedContextView {
                    pending: old(self)@.pending.push(held.0 as nat),
                    ..old(self)@
                }),
                None => id.0 == old(self)@.next && final(self)@ == (SharedContextView {
                    next: old(self)@.next + 1,
                    pending: old(self)@.pending.push(old(self)@.next),
                    ..old(self)@
                }),
            },
    {
        let id = match taken {
            Some(held) => held,
            None => self.next_id(),
        };
        self.pending.push(id);
        proof {
            assert(self@.pending =~= old(self)@.pending.push(id.0 as nat));
        }
        id
    }

    /// Takes in the text that the resource numbered `id` resolved to: it
    /// is kept behind what arrived before, and the number is no longer
    /// pending.
    pub fn complete_write(&mut self, id: SerializedDataId, data: String)
        ensures
            final(self)@ == (SharedContextView {
                pending: old(self)@.pending.remove_value(id.0 as nat),
                written: old(self)@.written.push((id.0 as nat, data@)),
                ..old(self)@
            }),
    {
        let ghost before = id_views(self.pending@);
        let at = pending_position(&self.pending, id);
        match at {
            Some(found) => {
                self.pending.remove(found);
                proof {
                    assert(id_views(self.pending@) =~= before.remove(found as int));
                }
            },
            None => {},
        }
        self.written.push((id, data));
        proof {
            assert(self@.written =~= old(self)@.written.push((id.0 as nat, data@)));
        }
    }

    /// Whether the value of the resource numbered `id` is still to be
    /// written.
    pub fn is_pending(&self, id: SerializedDataId) -> (pending: bool)
        ensures
            pending == self@.pending.contains(id.0 as nat),
    {
        let ghost all = id_views(self.pending@);
        proof {
            all.index_of_first_ensures(id.0 as nat);
        }
        pending_position(&self.pending, id).is_some()
    }

    /// What was written so far, in the order in which it arrived, to be
    /// embedded in the response. The registry keeps none of it.
    pub fn take_written(&mut self) -> (written: Vec<(SerializedDataId, String)>)
        ensures
            pair_views(written@) == old(self)@.written,
            final(self)@ == (SharedContextView { written: Seq::empty(), ..old(self)@ }),
    {
        let mut written: Vec<(SerializedDataId, String)> = Vec::new();
        std::mem::swap(&mut written, &mut self.written);
        proof {
            assert(self@.written =~= Seq::empty());
        }
        written
    }
}

/// A text that was written under a number that nothing before it was
/// written under is the text that is read under that number.
pub proof fn lemma_written_is_read(written: Seq<(nat, Seq<char>)>, id: nat, data: Seq<char>)
    requires
        !ids(written).contains(id),
    ensures
        lookup(written.push((id, data)), id) == Some(data),
        forall|other: nat| other != id ==> lookup(written.push((id, data)), other) == lookup(written, other),
    decreases written.len(),
{
    let all = written.push((id, data));
    if written.len() == 0 {
        assert forall|other: nat| other != id implies lookup(all, other) == lookup(
            written,
            other,
        ) by {
            assert(lookup(all.skip(1), other) is None);
        }
    } else {
        assert(ids(written)[0] == written[0].0);
        assert(all.skip(1) =~= written.skip(1).push((id, data)));
        assert forall|j: int| 0 <= j < written.skip(1).len() implies ids(written.skip(1))[j] != id by {
            assert(ids(written)[j + 1] == written[j + 1].0);
            assert(ids(written.skip(1))[j] == written.skip(1)[j].0);
        }
        lemma_written_is_read(written.skip(1), id, data);
        assert forall|other: nat| other != id implies lookup(all, other) == lookup(
            written,
            other,
        ) by {
            if written[0].0 != other {
                assert(lookup(all, other) == lookup(all.skip(1), other));
                assert(lookup(written, other) == lookup(written.skip(1), other));
            }
        }
    }
}

} // verus!
