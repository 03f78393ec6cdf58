//! Markup in pieces: what is known at once is written at once, and what
//! waits for a future gets a slot that is filled when the future resolves.
//!
//! The builder does not await anything itself. A slot is opened with
//! [`StreamBuilder::push_async`] and filled with [`StreamBuilder::resolve`]
//! by whoever awaited; [`StreamBuilder::take_ready`] hands out, in document
//! order, what no open slot holds back.
//!
//! A slot that is opened out of order holds nothing back: what follows it
//! is handed out without it, and what it resolves to is handed out as soon
//! as it is known, for the client to put in its place.

use vstd::prelude::*;

verus! {

/// One piece of a stream of markup.
pub enum StreamChunk {
    /// Markup that is known.
    Sync(String),
    /// A slot for markup that is not known yet, by its number.
    Pending(usize),
}

/// One piece of a stream, as a plain value.
pub enum ChunkView {
    Sync(Seq<char>),
    Pending(nat),
}

impl View for StreamChunk {
    type V = ChunkView;

    open spec fn view(&self) -> ChunkView {
        match self {
            StreamChunk::Sync(text) => ChunkView::Sync(text@),
            StreamChunk::Pending(id) => ChunkView::Pending(*id as nat),
        }
    }
}

/// A stream of markup, as plain values: the pieces that are closed, the
/// text that is still being written, the slots that are open out of order,
/// and the number of slots opened.
pub struct StreamView {
    pub chunks: Seq<ChunkView>,
    pub sync_buf: Seq<char>,
    pub out_of_order: Seq<nat>,
    pub slots: nat,
}

impl StreamView {
    /// The stream after `text` was written.
    pub open spec fn pushed_sync(self, text: Seq<char>) -> StreamView {
        StreamView { sync_buf: self.sync_buf + text, ..self }
    }

    /// The pieces with the text that is being written closed as a piece of
    /// its own, unless it is empty.
    pub open spec fn flushed(self) -> Seq<ChunkView> {
        if self.sync_buf.len() > 0 {
            self.chunks.push(ChunkView::Sync(self.sync_buf))
        } else {
            self.chunks
        }
    }

    /// The stream after a slot was opened. A slot in order closes the
    /// text that is being written and stands behind it; a slot out of
    /// order stands nowhere in the stream.
    pub open spec fn pushed_async(self, out_of_order: bool) -> StreamView {
        if out_of_order {
            StreamView {
                out_of_order: self.out_of_order.push(self.slots),
                slots: self.slots + 1,
                ..self
            }
        } else {
            StreamView {
                chunks: self.flushed().push(ChunkView::Pending(self.slots)),
                sync_buf: Seq::empty(),
                slots: self.slots + 1,
                ..self
            }
        }
    }

    /// The stream after the slot numbered `id` was filled with `text`. A
    /// slot that is open out of order is closed and keeps nothing; any
    /// other is filled where it stands.
    pub open spec fn resolved(self, id: nat, text: Seq<char>) -> StreamView {
        if self.out_of_order.contains(id) {
            StreamView { out_of_order: self.out_of_order.remove_value(id), ..self }
        } else {
            StreamView { chunks: filled(self.chunks, id, text), ..self }
        }
    }
}

/// The pieces with every slot numbered `id` filled with `text`.
pub open spec fn filled(chunks: Seq<ChunkView>, id: nat, text: Seq<char>) -> Seq<ChunkView> {
    chunks.map_values(
        |chunk: ChunkView|
            if chunk == ChunkView::Pending(id) {
                ChunkView::Sync(text)
            } else {
                chunk
            },
    )
}

/// How many pieces stand in front of the first open slot.
pub open spec fn ready_len(chunks: Seq<ChunkView>) -> nat
    decreases chunks.len(),
{
    if chunks.len() == 0 {
        0
    } else if chunks[0] is Pending {
        0
    } else {
        1 + ready_len(chunks.skip(1))
    }
}

/// The texts of pieces that hold no slot, joined.
pub open spec fn joined(chunks: Seq<ChunkView>) -> Seq<char>
    decreases chunks.len(),
{
    if chunks.len() == 0 {
        Seq::empty()
    } else {
        joined(chunks.drop_last()) + (match chunks.last() {
            ChunkView::Sync(text) => text,
            ChunkView::Pending(_) => Seq::empty(),
        })
    }
}

/// Collects markup in document order.
pub struct StreamBuilder {
    sync_buf: String,
    chunks: Vec<StreamChunk>,
    out_of_order: Vec<usize>,
    slots: usize,
}

impl View for StreamBuilder {
    type V = StreamView;

    closed spec fn view(&self) -> StreamView {
        StreamView {
            chunks: self.chunks@.map_values(|c: StreamChunk| c@),
            sync_buf: self.sync_buf@,
            out_of_order: self.out_of_order@.map_values(|id: usize| id as nat),
            slots: self.slots as nat,
        }
    }
}

impl StreamBuilder {
    /// An empty stream.
    pub fn new() -> (stream: StreamBuilder)
        ensures
            stream@ == (StreamView {
                chunks: Seq::empty(),
                sync_buf: Seq::empty(),
                out_of_order: Seq::empty(),
                slots: 0,
            }),
    {
        let stream = StreamBuilder {
            sync_buf: String::new(),
            chunks: Vec::new(),
            out_of_order: Vec::new(),
            slots: 0,
        };
        assert(stream@.chunks =~= Seq::empty());
        assert(stream@.out_of_order =~= Seq::empty());
        stream
    }

    /// Writes markup that is known.
    pub fn push_sync(&mut self, string: &str)
        ensures
            final(self)@ == old(self)@.pushed_sync(string@),
    {
        self.sync_buf.append(string);
    }

    /// Hands out the text that is being written, to write into.
    pub fn with_buf(&mut self) -> (buf: &mut String)
        ensures
            buf@ == old(self)@.sync_buf,
            final(self)@ == (StreamView { sync_buf: final(buf)@, ..old(self)@ }),
    {
        &mut self.sync_buf
    }

    /// Closes the text that is being written as a piece of its own, unless
    /// it is empty.
    fn flush(&mut self)
        ensures
            final(self)@ == (StreamView {
                chunks: old(self)@.flushed(),
                sync_buf: Seq::empty(),
                ..old(self)@
            }),
    {
        if !self.sync_buf.as_str().is_empty() {
            let mut text = String::new();
            std::mem::swap(&mut text, &mut self.sync_buf);
            self.chunks.push(StreamChunk::Sync(text));
            assert(self@.chunks =~= old(self)@.flushed());
        } else {
            assert(self@.sync_buf =~= Seq::empty());
        }
    }

    /// Opens a slot for markup that is not known yet, and returns its
    /// number. `OUT_OF_ORDER` says that what follows need not wait for
    /// it.
    pub fn push_async<const OUT_OF_ORDER: bool>(&mut self) -> (id: usize)
        requires
            old(self)@.slots < usize::MAX,
        ensures
            id == old(self)@.slots,
            final(self)@ == old(self)@.pushed_async(OUT_OF_ORDER),
    {
        let id = self.slots;
        if OUT_OF_ORDER {
            self.out_of_order.push(id);
            assert(self@.out_of_order =~= old(self)@.out_of_order.push(id as nat));
        } else {
            self.flush();
            self.chunks.push(StreamChunk::Pending(id));
            assert(self@.chunks =~= old(self)@.flushed().push(ChunkView::Pending(id as nat)));
        }
        self.slots = self.slots + 1;
        id
    }

    /// Fills the slot numbered `id` with the markup it waited for. Where
    /// the slot is open out of order, the markup is handed back to go out
    /// at once; otherwise it is kept until its turn comes.
    pub fn resolve(&mut self, id: usize, html: &str) -> (at_once: Option<String>)
        ensures
            final(self)@ == old(self)@.resolved(id as nat, html@),
            match at_once {
                Some(text) => old(self)@.out_of_order.contains(id as nat) && text@ == html@,
                None => !old(self)@.out_of_order.contains(id as nat),
            },
    {
        let ghost open = self@.out_of_order;
        match open_position(&self.out_of_order, id) {
            Some(at) => {
                self.out_of_order.remove(at);
                proof {
                    open.index_of_first_ensures(id as nat);
                    assert(self@.out_of_order =~= open.remove(at as int));
                }
                return Some(html.to_owned());
            },
            None => {
                proof {
                    open.index_of_first_ensures(id as nat);
                }
            },
        }
        let ghost before = self@.chunks;
        let mut i: usize = 0;
        while i < self.chunks.len()
            invariant
                i <= self.chunks.len(),
                self.chunks.len() == before.len(),
                self@.sync_buf == old(self)@.sync_buf,
                self@.slots == old(self)@.slots,
                self@.out_of_order == old(self)@.out_of_order,
                forall|j: int| 0 <= j < i ==> self@.chunks[j] == filled(before, id as nat, html@)[j],
                forall|j: int| i <= j < before.len() ==> self@.chunks[j] == before[j],
            decreases self.chunks.len() - i,
        {
            let fill = match &self.chunks[i] {
                StreamChunk::Pending(slot) => *slot == id,
                StreamChunk::Sync(_) => false,
            };
            let ghost step = self@.chunks;
            if fill {
                self.chunks.set(i, StreamChunk::Sync(html.to_owned()));
            }
            proof {
                assert forall|j: int| 0 <= j < i implies self@.chunks[j] == filled(
                    before,
                    id as nat,
                    html@,
                )[j] by {
                    assert(self@.chunks[j] == step[j]);
                }
            }
            i += 1;
        }
        assert(self@.chunks =~= filled(before, id as nat, html@));
        None
    }

    /// Hands out, joined, the pieces in front of the first open slot, with
    /// the text that is being written where no slot is open at all.
    pub fn take_ready(&mut self) -> (html: String)
        ensures
            html@ == joined(old(self)@.flushed().take(ready_len(old(self)@.flushed()) as int)),
            final(self)@ == (StreamView {
                chunks: old(self)@.flushed().skip(ready_len(old(self)@.flushed()) as int),
                sync_buf: Seq::empty(),
                ..old(self)@
            }),
    {
        self.flush();
        let ghost all = self@.chunks;
        let mut html = String::new();
        let mut count: usize = 0;
        while count < self.chunks.len() && is_sync(&self.chunks[count])
            invariant
                count <= self.chunks.len(),
                self@.chunks == all,
                self@.sync_buf == Seq::<char>::empty(),
                self@.slots == old(self)@.slots,
                self@.out_of_order == old(self)@.out_of_order,
                forall|j: int| 0 <= j < count ==> all[j] is Sync,
                html@ == joined(all.take(count as int)),
            decreases self.chunks.len() - count,
        {
            match &self.chunks[count] {
                StreamChunk::Sync(text) => {
                    html.append(text.as_str());
                },
                StreamChunk::Pending(_) => {},
            }
            proof {
                assert(all.take(count + 1).drop_last() =~= all.take(count as int));
            }
            count += 1;
        }
        proof {
            lemma_ready_len(all, count as nat);
        }
        let mut rest: Vec<StreamChunk> = self.chunks.split_off(count);
        std::mem::swap(&mut rest, &mut self.chunks);
        assert(self@.chunks =~= all.skip(count as int));
        html
    }

    /// Closes the stream and hands out its pieces.
    pub fn finish(self) -> (chunks: Vec<StreamChunk>)
        ensures
            chunks@.map_values(|c: StreamChunk| c@) == self@.flushed(),
    {
        let mut stream = self;
        stream.flush();
        stream.chunks
    }
}

/// The index of the first occurrence of `id` among the slots that are open
/// out of order.
fn open_position(open: &Vec<usize>, id: usize) -> (found: Option<usize>)
    ensures
        match found {
            Some(at) => at < open.len() && open@.map_values(|id: usize| id as nat).index_of_first(
                id as nat,
            ) == Some(at as int),
            None => open@.map_values(|id: usize| id as nat).index_of_first(id as nat) is None,
        },
{
    let ghost all = open@.map_values(|id: usize| id as nat);
    let mut i: usize = 0;
    while i < open.len()
        invariant
            i <= open.len(),
            all == open@.map_values(|id: usize| id as nat),
            forall|j: int| 0 <= j < i ==> all[j] != id as nat,
        decreases open.len() - i,
    {
        if open[i] == id {
            proof {
                all.index_of_first_ensures(id as nat);
                assert(all[i as int] == id as nat);
            }
            return Some(i);
        }
        i += 1;
    }
    proof {
        all.index_of_first_ensures(id as nat);
    }
    None
}

/// Whether a piece holds markup that is known.
fn is_sync(chunk: &StreamChunk) -> (sync: bool)
    ensures
        sync == (chunk@ is Sync),
{
    match chunk {
        StreamChunk::Sync(_) => true,
        StreamChunk::Pending(_) => false,
    }
}

/// The first piece that is a slot, or the end of the pieces, is where the
/// pieces that are ready end.
pub proof fn lemma_ready_len(chunks: Seq<ChunkView>, count: nat)
    requires
        count <= chunks.len(),
        forall|j: int| 0 <= j < count ==> chunks[j] is Sync,
        count < chunks.len() ==> chunks[count as int] is Pending,
    ensures
        ready_len(chunks) == count,
    decreases count,
{
    if count > 0 {
        let rest = chunks.skip(1);
        lemma_ready_len(rest, (count - 1) as nat);
    }
}

} // verus!
