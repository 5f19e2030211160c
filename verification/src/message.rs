//! The messages that an interface accumulates, and the streams that chunks of them go out on.
use crate::complete_lock::{CompleteLock, CompleteLockState};
use std::collections::VecDeque;
use vstd::prelude::*;

verus! {

/// What a map holds, with every value replaced by its view.
pub open spec fn views<K, T: View>(map: Map<K, T>) -> Map<K, T::V> {
    Map::new(|key: K| map.contains_key(key), |key: K| map[key]@)
}

/// The chunks of a list, each as a sequence of bytes.
pub open spec fn bytes_of(chunks: Seq<Vec<u8>>) -> Seq<Seq<u8>> {
    Seq::new(chunks.len(), |i: int| chunks[i]@)
}

/// Replacing values by their views goes well with changing what a map holds.
pub broadcast proof fn lemma_views_insert<K, T: View>(map: Map<K, T>, key: K, value: T)
    ensures
        #[trigger] views(map.insert(key, value)) == views(map).insert(key, value@),
{
    assert(views(map.insert(key, value)) =~= views(map).insert(key, value@));
}

/// Replacing values by their views goes well with changing what a map holds.
pub broadcast proof fn lemma_views_remove<K, T: View>(map: Map<K, T>, key: K)
    ensures
        #[trigger] views(map.remove(key)) == views(map).remove(key),
{
    assert(views(map.remove(key)) =~= views(map).remove(key));
}

/// Putting back a value under the key it was taken from.
pub broadcast proof fn lemma_remove_insert<K, T>(map: Map<K, T>, key: K, value: T)
    ensures
        #[trigger] map.remove(key).insert(key, value) == map.insert(key, value),
{
    assert(map.remove(key).insert(key, value) =~= map.insert(key, value));
}

/// Putting back the value that was taken changes nothing.
pub broadcast proof fn lemma_insert_same<K, T>(map: Map<K, T>, key: K)
    requires
        map.contains_key(key),
    ensures
        #[trigger] map.insert(key, map[key]) == map,
{
    assert(map.insert(key, map[key]) =~= map);
}

/// Taking away what is not there changes nothing.
pub broadcast proof fn lemma_remove_absent<K, T>(map: Map<K, T>, key: K)
    requires
        !map.contains_key(key),
    ensures
        #[trigger] map.remove(key) == map,
{
    assert(map.remove(key) =~= map);
}

/// Turning chunks into bytes goes well with appending one.
pub broadcast proof fn lemma_bytes_of_push(chunks: Seq<Vec<u8>>, chunk: Vec<u8>)
    ensures
        #[trigger] bytes_of(chunks.push(chunk)) == bytes_of(chunks).push(chunk@),
{
    assert(bytes_of(chunks.push(chunk)) =~= bytes_of(chunks).push(chunk@));
}

/// Turning chunks into bytes goes well with dropping the first one.
pub broadcast proof fn lemma_bytes_of_skip(chunks: Seq<Vec<u8>>)
    requires
        chunks.len() > 0,
    ensures
        #[trigger] bytes_of(chunks.skip(1)) == bytes_of(chunks).skip(1),
{
    assert(bytes_of(chunks.skip(1)) =~= bytes_of(chunks).skip(1));
}

pub broadcast group group_view_lemmas {
    lemma_views_insert,
    lemma_views_remove,
    lemma_remove_insert,
    lemma_insert_same,
    lemma_remove_absent,
    lemma_bytes_of_push,
    lemma_bytes_of_skip,
}

/// The sending end of a channel for the chunks of a message.
#[derive(PartialEq, Eq, Structural, Clone, Copy, Debug)]
pub enum ChunkSender {
    /// Nobody has ever asked for the chunks of this message in real-time.
    Absent,
    /// Chunks go to the stream with this identifier, as long as somebody receives from it.
    Attached(u64),
    /// There was a stream once, but the message has been terminated since.
    Released,
}

/// A single message held by an interface, as its chunks (of which there is always at least one),
/// whether it is complete, the serial number of its completion lock, and where its chunks go.
#[verifier::ext_equal]
pub struct BufferState {
    pub chunks: Seq<Seq<u8>>,
    pub lock: CompleteLockState,
    pub serial: u64,
    pub sender: ChunkSender,
}

impl BufferState {
    /// A message that nothing has been written to yet.
    pub open spec fn fresh(serial: u64) -> BufferState {
        BufferState {
            chunks: seq![Seq::empty()],
            lock: CompleteLockState::Incomplete,
            serial,
            sender: ChunkSender::Absent,
        }
    }

    /// The message with some more bytes at the end of its last chunk.
    pub open spec fn appended(self, data: Seq<u8>) -> BufferState {
        BufferState { chunks: self.chunks.drop_last().push(self.chunks.last() + data), ..self }
    }

    /// The message with a new, empty, chunk at its end.
    pub open spec fn chunk_started(self) -> BufferState {
        BufferState { chunks: self.chunks.push(Seq::empty()), ..self }
    }

    /// The message with its last chunk taken out of it, and an empty one in its place.
    pub open spec fn chunk_taken(self) -> BufferState {
        BufferState { chunks: self.chunks.drop_last().push(Seq::empty()), ..self }
    }

    /// The message after its completion lock has been completed.
    pub open spec fn completed(self) -> BufferState {
        BufferState { lock: CompleteLockState::Complete, ..self }
    }

    /// The message after its completion lock has been poisoned.
    pub open spec fn poisoned(self) -> BufferState {
        BufferState { lock: self.lock.poisoned(), ..self }
    }

    /// The message with its chunks going somewhere else.
    pub open spec fn sending_to(self, sender: ChunkSender) -> BufferState {
        BufferState { sender, ..self }
    }

    /// There is always at least one chunk, and a sender is only released by termination.
    pub open spec fn well_formed(self) -> bool {
        &&& self.chunks.len() > 0
        &&& self.sender is Released ==> self.lock is Complete
    }
}

/// A single message held by an interface.
pub struct MessageBuffer {
    /// The chunks that have been terminated. Chunks are defined by the sender of the message, and
    /// hence are not fixed-size.
    ended: Vec<Vec<u8>>,
    /// The chunk that new bytes are appended to. This is why there is always at least one.
    current: Vec<u8>,
    /// Whether or not the message is completed. This is not held for individual chunks.
    complete_lock: CompleteLock,
    /// What tells the lock of this message from those of others, even those that have had the
    /// same identifier.
    serial: u64,
    /// Where chunks are sent as soon as they are terminated.
    sender: ChunkSender,
}

impl View for MessageBuffer {
    type V = BufferState;

    closed spec fn view(&self) -> BufferState {
        BufferState {
            chunks: bytes_of(self.ended@).push(self.current@),
            lock: self.complete_lock@,
            serial: self.serial,
            sender: self.sender,
        }
    }
}

impl MessageBuffer {
    /// Creates a message that nothing has been written to yet.
    pub fn new(serial: u64) -> (buffer: Self)
        ensures
            buffer@ == BufferState::fresh(serial),
    {
        let buffer = Self {
            ended: Vec::new(),
            current: Vec::new(),
            complete_lock: CompleteLock::new(),
            serial,
            sender: ChunkSender::Absent,
        };
        assert(buffer@.chunks =~= seq![Seq::<u8>::empty()]);
        buffer
    }

    /// Gets the current state of the completion lock.
    pub fn lock_state(&self) -> (state: CompleteLockState)
        ensures
            state == self@.lock,
    {
        self.complete_lock.state()
    }

    /// Tells whether the message has been completed.
    pub fn is_complete(&self) -> (complete: bool)
        ensures
            complete == (self@.lock is Complete),
    {
        self.complete_lock.completed()
    }

    /// Gets the serial number of the completion lock.
    pub fn serial(&self) -> (serial: u64)
        ensures
            serial == self@.serial,
    {
        self.serial
    }

    /// Gets where chunks are sent.
    pub fn sender(&self) -> (sender: ChunkSender)
        ensures
            sender == self@.sender,
    {
        self.sender
    }

    /// Sets where chunks are sent.
    pub fn set_sender(&mut self, sender: ChunkSender)
        ensures
            final(self)@ == old(self)@.sending_to(sender),
    {
        self.sender = sender;
    }

    /// Tells whether there is more than one chunk.
    pub fn is_chunked(&self) -> (chunked: bool)
        ensures
            chunked == (self@.chunks.len() > 1),
    {
        self.ended.len() > 0
    }

    /// Appends one byte to the last chunk.
    pub fn push(&mut self, datum: u8)
        ensures
            final(self)@ == old(self)@.appended(seq![datum]),
    {
        self.current.push(datum);
        assert(self@.chunks =~= old(self)@.chunks.drop_last().push(
            old(self)@.chunks.last() + seq![datum],
        )) by {
            assert(self.current@ =~= old(self).current@ + seq![datum]);
        }
    }

    /// Appends many bytes to the last chunk.
    pub fn extend(&mut self, data: &[u8])
        ensures
            final(self)@ == old(self)@.appended(data@),
    {
        self.current.extend_from_slice(data);
        assert(self@.chunks =~= old(self)@.chunks.drop_last().push(
            old(self)@.chunks.last() + data@,
        )) by {
            assert(self.current@ =~= old(self).current@ + data@);
        }
    }

    /// Completes the message.
    pub fn mark_complete(&mut self)
        ensures
            final(self)@ == old(self)@.completed(),
    {
        self.complete_lock.mark_complete();
    }

    /// Poisons the completion lock.
    pub fn poison(&mut self)
        ensures
            final(self)@ == old(self)@.poisoned(),
    {
        self.complete_lock.poison();
    }

    /// Takes the last chunk out of the message, leaving an empty one in its place.
    pub fn take_chunk(&mut self) -> (chunk: Vec<u8>)
        ensures
            chunk@ == old(self)@.chunks.last(),
            final(self)@ == old(self)@.chunk_taken(),
    {
        let mut chunk: Vec<u8> = Vec::new();
        std::mem::swap(&mut chunk, &mut self.current);
        assert(self@.chunks =~= old(self)@.chunks.drop_last().push(Seq::empty()));
        chunk
    }

    /// Ends the last chunk and starts a new one.
    pub fn start_chunk(&mut self)
        ensures
            final(self)@ == old(self)@.chunk_started(),
    {
        let mut chunk: Vec<u8> = Vec::new();
        std::mem::swap(&mut chunk, &mut self.current);
        self.ended.push(chunk);
        assert(self@.chunks =~= old(self)@.chunks.push(Seq::empty()));
    }

    /// Copies the first chunk, which, for the majority of messages, is the only one.
    pub fn first_chunk(&self) -> (chunk: Vec<u8>)
        ensures
            chunk@ == self@.chunks[0],
    {
        let mut chunk: Vec<u8> = Vec::new();
        if self.ended.len() > 0 {
            chunk.extend_from_slice(self.ended[0].as_slice());
        } else {
            chunk.extend_from_slice(self.current.as_slice());
        }
        assert(chunk@ =~= self@.chunks[0]);
        chunk
    }

    /// Takes the message apart into its chunks.
    pub fn into_chunks(self) -> (chunks: Vec<Vec<u8>>)
        ensures
            bytes_of(chunks@) == self@.chunks,
    {
        let mut chunks = self.ended;
        chunks.push(self.current);
        proof {
            lemma_bytes_of_push(self.ended@, self.current);
        }
        chunks
    }
}

/// A stream of chunks, as the chunks that have not been received yet, whether more may follow, and
/// the state of the message's completion lock at the time when the message was deleted.
#[verifier::ext_equal]
pub struct StreamState {
    pub queue: Seq<Seq<u8>>,
    pub open: bool,
    pub lock: CompleteLockState,
}

impl StreamState {
    /// A stream that nothing has been sent to yet.
    pub open spec fn fresh() -> StreamState {
        StreamState { queue: Seq::empty(), open: true, lock: CompleteLockState::Incomplete }
    }

    /// The stream after a chunk has been sent to it.
    pub open spec fn sent(self, chunk: Seq<u8>) -> StreamState {
        StreamState { queue: self.queue.push(chunk), ..self }
    }

    /// The stream after its first chunk has been received.
    pub open spec fn received(self) -> StreamState {
        StreamState { queue: self.queue.skip(1), ..self }
    }

    /// The stream after its sending end has been dropped.
    pub open spec fn closed(self) -> StreamState {
        StreamState { open: false, ..self }
    }

    /// The stream after its sending end has been dropped along with the message.
    pub open spec fn orphaned(self, lock: CompleteLockState) -> StreamState {
        StreamState { open: false, lock, ..self }
    }
}

/// A channel for the chunks of one message, whose sending end the message has.
pub struct ChunkStream {
    queue: VecDeque<Vec<u8>>,
    open: bool,
    lock: CompleteLockState,
}

impl View for ChunkStream {
    type V = StreamState;

    closed spec fn view(&self) -> StreamState {
        StreamState { queue: bytes_of(self.queue@), open: self.open, lock: self.lock }
    }
}

impl ChunkStream {
    /// Creates a stream that nothing has been sent to yet.
    pub fn new() -> (stream: Self)
        ensures
            stream@ == StreamState::fresh(),
    {
        let stream = Self {
            queue: VecDeque::new(),
            open: true,
            lock: CompleteLockState::Incomplete,
        };
        assert(stream@.queue =~= Seq::empty());
        stream
    }

    /// Tells whether more chunks may follow those that have been sent.
    pub fn is_open(&self) -> (open: bool)
        ensures
            open == self@.open,
    {
        self.open
    }

    /// Gets the state that the completion lock had when the message was deleted.
    pub fn lock(&self) -> (lock: CompleteLockState)
        ensures
            lock == self@.lock,
    {
        self.lock
    }

    /// Sends a chunk.
    pub fn send(&mut self, chunk: Vec<u8>)
        ensures
            final(self)@ == old(self)@.sent(chunk@),
    {
        self.queue.push_back(chunk);
        proof {
            lemma_bytes_of_push(old(self).queue@, chunk);
        }
    }

    /// Receives the oldest chunk, if there is one.
    pub fn receive(&mut self) -> (chunk: Option<Vec<u8>>)
        ensures
            match chunk {
                Some(chunk) => {
                    &&& old(self)@.queue.len() > 0
                    &&& chunk@ == old(self)@.queue[0]
                    &&& final(self)@ == old(self)@.received()
                },
                None => {
                    &&& old(self)@.queue.len() == 0
                    &&& final(self)@ == old(self)@
                },
            },
    {
        let chunk = self.queue.pop_front();
        proof {
            if old(self).queue@.len() > 0 {
                assert(self.queue@ =~= old(self).queue@.skip(1));
                lemma_bytes_of_skip(old(self).queue@);
            }
        }
        chunk
    }

    /// Drops the sending end.
    pub fn close(&mut self)
        ensures
            final(self)@ == old(self)@.closed(),
    {
        self.open = false;
    }

    /// Drops the sending end along with the message, whose completion lock is in the given state.
    pub fn orphan(&mut self, lock: CompleteLockState)
        ensures
            final(self)@ == old(self)@.orphaned(lock),
    {
        self.open = false;
        self.lock = lock;
    }
}

/// Each change of a message leaves everything else about it as it is: bytes go to the end of the
/// last chunk, a new chunk comes behind all the others, a chunk that is taken leaves an empty one,
/// and neither completing, poisoning nor redirecting a message changes what it says.
pub proof fn law_message_changes(message: BufferState, data: Seq<u8>, sender: ChunkSender)
    requires
        message.chunks.len() > 0,
    ensures
        ({
            let after = message.appended(data);
            &&& after == (BufferState { chunks: after.chunks, ..message })
            &&& after.chunks.len() == message.chunks.len()
            &&& after.chunks.drop_last() == message.chunks.drop_last()
            &&& after.chunks.last() == message.chunks.last() + data
        }),
        ({
            let after = message.chunk_started();
            &&& after == (BufferState { chunks: after.chunks, ..message })
            &&& after.chunks.len() == message.chunks.len() + 1
            &&& after.chunks.drop_last() == message.chunks
            &&& after.chunks.last() == Seq::<u8>::empty()
        }),
        ({
            let after = message.chunk_taken();
            &&& after == (BufferState { chunks: after.chunks, ..message })
            &&& after.chunks.len() == message.chunks.len()
            &&& after.chunks.drop_last() == message.chunks.drop_last()
            &&& after.chunks.last() == Seq::<u8>::empty()
        }),
        message.completed() == (BufferState { lock: CompleteLockState::Complete, ..message }),
        message.poisoned().chunks == message.chunks,
        message.poisoned().serial == message.serial,
        message.poisoned().sender == message.sender,
        message.poisoned().lock is Complete <==> message.lock is Complete,
        message.poisoned().lock is Poisoned <==> !(message.lock is Complete),
        message.sending_to(sender) == (BufferState { sender, ..message }),
{
    assert(message.appended(data).chunks.drop_last() =~= message.chunks.drop_last());
    assert(message.chunk_started().chunks.drop_last() =~= message.chunks);
    assert(message.chunk_taken().chunks.drop_last() =~= message.chunks.drop_last());
}

/// Writing twice is writing both parts at once, and writing nothing changes nothing.
pub proof fn law_writes_add_up(message: BufferState, first: Seq<u8>, second: Seq<u8>)
    requires
        message.chunks.len() > 0,
    ensures
        message.appended(first).appended(second) == message.appended(first + second),
        message.appended(Seq::empty()) == message,
{
    assert(message.appended(first).appended(second) =~= message.appended(first + second)) by {
        assert(message.chunks.last() + first + second =~= message.chunks.last() + (first
            + second));
    }
    assert(message.chunks.last() + Seq::<u8>::empty() =~= message.chunks.last());
    assert(message.appended(Seq::empty()) =~= message);
}

/// Nothing has been written to a new message: it is one empty chunk, incomplete, and goes nowhere.
pub proof fn law_new_message(serial: u64)
    ensures
        BufferState::fresh(serial).chunks.len() == 1,
        BufferState::fresh(serial).chunks[0].len() == 0,
        BufferState::fresh(serial).lock is Incomplete,
        BufferState::fresh(serial).serial == serial,
        BufferState::fresh(serial).sender is Absent,
{
}

/// Chunks leave a stream in the order in which they were sent to it, each of them once. Closing a
/// stream keeps those that are still in it.
pub proof fn law_streams_keep_order(
    stream: StreamState,
    chunk: Seq<u8>,
    lock: CompleteLockState,
)
    ensures
        StreamState::fresh().queue.len() == 0,
        StreamState::fresh().open,
        StreamState::fresh().lock is Incomplete,
        stream.sent(chunk).queue.len() == stream.queue.len() + 1,
        stream.sent(chunk).queue.last() == chunk,
        stream.sent(chunk).queue.drop_last() == stream.queue,
        stream.sent(chunk).open == stream.open,
        stream.sent(chunk).lock == stream.lock,
        stream.queue.len() > 0 ==> seq![stream.queue[0]] + stream.received().queue
            == stream.queue,
        stream.queue.len() > 0 ==> stream.received().sent(chunk) == stream.sent(chunk).received(),
        stream.queue.len() == 0 ==> stream.sent(chunk).received() == stream,
        stream.received().open == stream.open,
        stream.received().lock == stream.lock,
        stream.closed().queue == stream.queue,
        !stream.closed().open,
        stream.closed().lock == stream.lock,
        stream.orphaned(lock).queue == stream.queue,
        !stream.orphaned(lock).open,
        stream.orphaned(lock).lock == lock,
{
    assert(stream.sent(chunk).queue.drop_last() =~= stream.queue);
    if stream.queue.len() > 0 {
        assert(seq![stream.queue[0]] + stream.received().queue =~= stream.queue);
        assert(stream.received().sent(chunk) =~= stream.sent(chunk).received());
    } else {
        assert(stream.sent(chunk).received() =~= stream);
    }
}

/// Looking at views instead of values changes neither the keys of a map nor the length of a list.
pub proof fn law_views_are_pointwise<K, T: View>(map: Map<K, T>, key: K, chunks: Seq<Vec<u8>>)
    ensures
        views(map).contains_key(key) <==> map.contains_key(key),
        map.contains_key(key) ==> views(map)[key] == map[key]@,
        bytes_of(chunks).len() == chunks.len(),
        forall|i: int| 0 <= i < chunks.len() ==> #[trigger] bytes_of(chunks)[i] == chunks[i]@,
{
}

} // verus!
