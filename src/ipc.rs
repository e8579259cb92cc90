//! The shared-memory mailbox: a region of `max_queue_size` slots of
//! `max_message_size` bytes, a used mark per slot, and a channel that hands
//! committed slot indices from senders to receivers in commit order.
//!
//! Each step here is non-blocking. Where a send finds every slot used on an
//! open mailbox it answers `SendStep::WaitForSlot`, and where a receive finds
//! nothing committed it answers `NoMessagesAvailable`; whoever drives the
//! mailbox waits for the other side and calls again.
use vstd::prelude::*;
use crate::bytes::{append_range, be_at, be_bytes, get_u32_be, lemma_le_round_trip, put_u32_be, write_at};
use crate::channel::{SignalChannel, TryRecv};
use crate::codec::{decoded_by, Serializer};
use crate::config::{IpcConfig, FRAME_HEADER, MIN_MESSAGE_SIZE};
use crate::error::MessengerError;
use crate::message::{Message, MessageView};
use crate::pool::PoolAllocator;

verus! {

/// Lifecycle of a mailbox: open, then draining, then closed for good.
#[derive(Debug, Clone, Copy, PartialEq, Eq)]
pub enum MailboxState {
    /// Accepts sends and delivers receives.
    Open,
    /// Refuses new sends, still delivers what was committed.
    Draining,
    /// Every operation fails with `ChannelClosed`.
    Closed,
}

/// How a send that did not fail ended.
#[derive(Debug, Clone, Copy, PartialEq, Eq)]
pub enum SendStep {
    /// The message is committed and will be received.
    Delivered,
    /// Every slot is used: wait until a receive frees one, then send again.
    WaitForSlot,
}

/// Number of used marks in `s`.
pub open spec fn count_used(s: Seq<bool>) -> nat
    decreases s.len(),
{
    if s.len() == 0 {
        0
    } else {
        count_used(s.drop_last()) + if s.last() {
            1nat
        } else {
            0nat
        }
    }
}

proof fn lemma_count_bound(s: Seq<bool>, i: int)
    requires
        0 <= i < s.len(),
        !s[i],
    ensures
        count_used(s) < s.len(),
    decreases s.len(),
{
    lemma_count_le(s.drop_last());
    if i < s.len() - 1 {
        lemma_count_bound(s.drop_last(), i);
    }
}

proof fn lemma_count_le(s: Seq<bool>)
    ensures
        count_used(s) <= s.len(),
    decreases s.len(),
{
    if s.len() > 0 {
        lemma_count_le(s.drop_last());
    }
}

proof fn lemma_count_update(s: Seq<bool>, i: int, v: bool)
    requires
        0 <= i < s.len(),
    ensures
        count_used(s.update(i, v)) + (if s[i] {
            1nat
        } else {
            0nat
        }) == count_used(s) + (if v {
            1nat
        } else {
            0nat
        }),
    decreases s.len(),
{
    if i == s.len() - 1 {
        assert(s.update(i, v).drop_last() =~= s.drop_last());
    } else {
        assert(s.update(i, v).drop_last() =~= s.drop_last().update(i, v));
        lemma_count_update(s.drop_last(), i, v);
    }
}

proof fn lemma_count_zero(s: Seq<bool>)
    requires
        count_used(s) == 0,
    ensures
        forall|i: int| 0 <= i < s.len() ==> !s[i],
    decreases s.len(),
{
    if s.len() > 0 {
        lemma_count_zero(s.drop_last());
        assert forall|i: int| 0 <= i < s.len() implies !s[i] by {
            if i < s.len() - 1 {
                assert(!s.drop_last()[i]);
            }
        }
    }
}

proof fn lemma_count_none(n: nat)
    ensures
        count_used(Seq::new(n, |_i: int| false)) == 0,
    decreases n,
{
    if n > 0 {
        assert(Seq::new(n, |_i: int| false).drop_last() =~= Seq::new((n - 1) as nat, |_i: int| false));
        lemma_count_none((n - 1) as nat);
    }
}

/// Slot `i` of `q` slots of `m` bytes lies inside the region.
proof fn lemma_slot_bounds(i: int, q: int, m: int)
    requires
        0 <= i < q,
        0 <= m,
    ensures
        0 <= i * m,
        i * m + m <= q * m,
{
    assert(0 <= i * m) by (nonlinear_arith)
        requires
            0 <= i,
            0 <= m,
    ;
    assert(i * m + m <= q * m) by (nonlinear_arith)
        requires
            i + 1 <= q,
            0 <= m,
    ;
}

/// Two different slots do not overlap.
proof fn lemma_slots_apart(i: int, j: int, m: int)
    requires
        0 <= i,
        0 <= j,
        i != j,
        0 <= m,
    ensures
        i * m + m <= j * m || j * m + m <= i * m,
{
    if i < j {
        assert(i * m + m <= j * m) by (nonlinear_arith)
            requires
                i + 1 <= j,
                0 <= m,
        ;
    } else {
        assert(j * m + m <= i * m) by (nonlinear_arith)
            requires
                j + 1 <= i,
                0 <= m,
        ;
    }
}

/// The body of the frame whose length prefix starts at `start`.
pub open spec fn frame_at(region: Seq<u8>, start: int) -> Seq<u8> {
    region.subrange(start + 4, start + 4 + be_at(region, start) as int)
}

/// A frame whose bytes all stay the same reads the same.
proof fn lemma_frame_kept(r1: Seq<u8>, r2: Seq<u8>, start: int, m: int)
    requires
        r1.len() == r2.len(),
        0 <= start,
        start + m <= r1.len(),
        4 + be_at(r1, start) <= m,
        forall|k: int| start <= k < start + m ==> r1[k] == r2[k],
    ensures
        be_at(r2, start) == be_at(r1, start),
        frame_at(r2, start) == frame_at(r1, start),
{
    assert(r1[start] == r2[start] && r1[start + 1] == r2[start + 1] && r1[start + 2] == r2[start + 2]
        && r1[start + 3] == r2[start + 3]);
    assert(frame_at(r2, start) =~= frame_at(r1, start));
}

/// The lowest-indexed free slot.
pub open spec fn first_free(marks: Seq<bool>) -> int {
    choose|i: int| 0 <= i < marks.len() && !marks[i] && forall|j: int| 0 <= j < i ==> marks[j]
}

/// Finds the lowest-indexed free slot.
fn find_free_slot(slots: &Vec<bool>) -> (r: Option<usize>)
    ensures
        r matches Some(i) ==> i < slots@.len() && !slots@[i as int] && forall|j: int| 0 <= j < i ==> slots@[j],
        r is None ==> forall|j: int| 0 <= j < slots@.len() ==> slots@[j],
{
    let mut i: usize = 0;
    while i < slots.len()
        invariant
            i <= slots@.len(),
            forall|j: int| 0 <= j < i ==> slots@[j],
        decreases slots@.len() - i,
    {
        if !slots[i] {
            return Some(i);
        }
        i = i + 1;
    }
    None
}

/// Sets every byte of `v` to zero.
fn fill_zero(v: &mut Vec<u8>)
    ensures
        final(v)@ == Seq::new(old(v)@.len(), |_i: int| 0u8),
{
    let n = v.len();
    let mut i: usize = 0;
    while i < n
        invariant
            n == v@.len(),
            i <= n,
            forall|k: int| 0 <= k < i ==> v@[k] == 0u8,
        decreases n - i,
    {
        v.set(i, 0u8);
        i = i + 1;
    }
    assert(v@ =~= Seq::new(old(v)@.len(), |_i: int| 0u8));
}

/// Marks every slot free.
fn clear_marks(v: &mut Vec<bool>)
    ensures
        final(v)@ == Seq::new(old(v)@.len(), |_i: int| false),
{
    let n = v.len();
    let mut i: usize = 0;
    while i < n
        invariant
            n == v@.len(),
            i <= n,
            forall|k: int| 0 <= k < i ==> !v@[k],
        decreases n - i,
    {
        v.set(i, false);
        i = i + 1;
    }
    assert(v@ =~= Seq::new(old(v)@.len(), |_i: int| false));
}

/// A bounded mailbox in a byte region, with slot allocation and a FIFO
/// hand-off of committed slots.
pub struct IpcTransport<S> {
    shmem: Vec<u8>,
    slots: Vec<bool>,
    channel: SignalChannel,
    config: IpcConfig,
    serializer: S,
    buffer_pool: PoolAllocator,
    state: MailboxState,
    epoch: u64,
}

impl<S: Serializer> IpcTransport<S> {
    /// The bytes of the region.
    pub closed spec fn region(&self) -> Seq<u8> {
        self.shmem@
    }

    /// The used mark of each slot.
    pub closed spec fn marks(&self) -> Seq<bool> {
        self.slots@
    }

    /// Committed slots not yet received, oldest first.
    pub closed spec fn pending(&self) -> Seq<usize> {
        self.channel.items()
    }

    pub closed spec fn config(&self) -> IpcConfig {
        self.config
    }

    pub closed spec fn codec(&self) -> S {
        self.serializer
    }

    pub closed spec fn state(&self) -> MailboxState {
        self.state
    }

    /// How many times the mailbox was cleaned up, modulo 2^64.
    pub closed spec fn epoch(&self) -> u64 {
        self.epoch
    }

    pub open spec fn msize(&self) -> int {
        self.config().max_message_size as int
    }

    pub open spec fn qsize(&self) -> int {
        self.config().max_queue_size as int
    }

    /// The encoded messages waiting to be received, oldest first.
    pub open spec fn frames(&self) -> Seq<Seq<u8>> {
        Seq::new(self.pending().len(), |k: int| frame_at(self.region(), self.pending()[k] * self.msize()))
    }

    /// Whether every slot is used.
    pub open spec fn is_full(&self) -> bool {
        forall|i: int| 0 <= i < self.qsize() ==> self.marks()[i]
    }

    /// The region has one slot per queue entry; a slot is used exactly while
    /// it is committed and not yet received; committed frames fit their slot;
    /// the channel is closed exactly when the mailbox is.
    pub closed spec fn wf(&self) -> bool {
        let q = self.config.max_queue_size as int;
        let m = self.config.max_message_size as int;
        let p = self.channel.items();
        &&& self.config.valid()
        &&& self.shmem@.len() == q * m
        &&& self.slots@.len() == q
        &&& self.channel.wf()
        &&& self.channel.capacity() == q
        &&& (self.channel.is_closed() <==> self.state is Closed)
        &&& count_used(self.slots@) == p.len()
        &&& forall|a: int, b: int| 0 <= a < b < p.len() ==> p[a] != p[b]
        &&& forall|k: int|
            0 <= k < p.len() ==> (#[trigger] p[k]) < q && self.slots@[p[k] as int] && 4 + be_at(
                self.shmem@,
                p[k] * m,
            ) <= m
    }

    /// What a send does: on an open mailbox it encodes the message, refuses
    /// one whose frame would not fit a slot, answers `WaitForSlot` when every
    /// slot is used, and otherwise commits the frame in the lowest free slot.
    pub open spec fn send_ensures(
        pre: Self,
        m: MessageView,
        post: Self,
        r: Result<SendStep, MessengerError>,
    ) -> bool {
        let enc = pre.codec().spec_encode(m);
        if pre.state() is Closed {
            (r matches Err(e) && e is ChannelClosed) && post == pre
        } else if pre.state() is Draining {
            (r matches Err(e) && e is NoFreeSlots) && post == pre
        } else if enc is None {
            (r matches Err(e) && e is Serialization) && post == pre
        } else if enc->Some_0.len() + FRAME_HEADER > pre.msize() {
            r == Err::<SendStep, MessengerError>(
                MessengerError::MessageTooLarge(enc->Some_0.len() as usize, pre.msize() as usize),
            ) && post == pre
        } else if pre.is_full() {
            r == Ok::<SendStep, MessengerError>(SendStep::WaitForSlot) && post == pre
        } else {
            &&& r == Ok::<SendStep, MessengerError>(SendStep::Delivered)
            &&& post.frames() == pre.frames().push(enc->Some_0)
            &&& post.pending() == pre.pending().push(first_free(pre.marks()) as usize)
            &&& post.marks() == pre.marks().update(first_free(pre.marks()), true)
            &&& post.state() == pre.state()
            &&& post.config() == pre.config()
            &&& post.codec() == pre.codec()
            &&& post.epoch() == pre.epoch()
        }
    }

    /// What a receive does: it takes the oldest committed frame, frees its
    /// slot and decodes it.
    pub open spec fn receive_ensures(pre: Self, post: Self, r: Result<Message, MessengerError>) -> bool {
        if pre.state() is Closed {
            (r matches Err(e) && e is ChannelClosed) && post == pre
        } else if pre.frames().len() == 0 {
            (r matches Err(e) && e is NoMessagesAvailable) && post == pre
        } else {
            &&& decoded_by(pre.codec(), pre.frames()[0], r)
            &&& post.frames() == pre.frames().drop_first()
            &&& post.pending() == pre.pending().drop_first()
            &&& post.marks() == pre.marks().update(pre.pending()[0] as int, false)
            &&& post.state() == pre.state()
            &&& post.config() == pre.config()
            &&& post.codec() == pre.codec()
            &&& post.epoch() == pre.epoch()
        }
    }

    /// A mailbox for `config`, with every slot free; fails with `ConfigError`
    /// unless there is at least one slot, slots hold at least the minimum
    /// size, and the region fits in memory.
    pub fn new(config: IpcConfig, serializer: S, buffer_pool: PoolAllocator) -> (r: Result<Self, MessengerError>)
        ensures
            r is Ok <==> config.valid(),
            r matches Err(e) ==> e is ConfigError,
            r matches Ok(t) ==> {
                &&& t.wf()
                &&& t.state() is Open
                &&& t.frames().len() == 0
                &&& t.config() == config
                &&& t.codec() == serializer
                &&& t.marks() == Seq::new(config.max_queue_size as nat, |_i: int| false)
            },
    {
        if config.max_queue_size < 1 {
            return Err(MessengerError::ConfigError("max_queue_size must be at least 1".to_string()));
        }
        if config.max_message_size < MIN_MESSAGE_SIZE {
            return Err(MessengerError::ConfigError("max_message_size must be at least 64".to_string()));
        }
        if config.max_message_size as u64 > 0xffff_ffffu64 {
            return Err(MessengerError::ConfigError("max_message_size must fit in 32 bits".to_string()));
        }
        let size = match config.max_queue_size.checked_mul(config.max_message_size) {
            Some(n) => n,
            None => {
                return Err(MessengerError::ConfigError("the region does not fit in memory".to_string()));
            },
        };
        let q = config.max_queue_size;
        let mut slots: Vec<bool> = Vec::new();
        let mut i: usize = 0;
        while i < q
            invariant
                i <= q,
                slots@ == Seq::new(i as nat, |_i: int| false),
            decreases q - i,
        {
            slots.push(false);
            i = i + 1;
            assert(slots@ =~= Seq::new(i as nat, |_i: int| false));
        }
        proof {
            lemma_count_none(q as nat);
        }
        let t = IpcTransport {
            shmem: crate::bytes::zeros(size),
            slots,
            channel: SignalChannel::new(q),
            config,
            serializer,
            buffer_pool,
            state: MailboxState::Open,
            epoch: 0,
        };
        assert(t.frames() =~= Seq::<Seq<u8>>::empty());
        Ok(t)
    }

    /// Encodes `msg` and commits it to the lowest free slot; see `send_ensures`.
    #[verifier::rlimit(30)]
    pub fn try_send(&mut self, msg: &Message) -> (r: Result<SendStep, MessengerError>)
        requires
            old(self).wf(),
        ensures
            final(self).wf(),
            Self::send_ensures(*old(self), msg@, *final(self), r),
    {
        match self.state {
            MailboxState::Closed => {
                return Err(MessengerError::ChannelClosed);
            },
            MailboxState::Draining => {
                return Err(MessengerError::NoFreeSlots);
            },
            MailboxState::Open => {},
        }
        let bytes = match self.serializer.serialize(msg) {
            Ok(b) => b,
            Err(e) => {
                return Err(e);
            },
        };
        let m = self.config.max_message_size;
        let len = bytes.len();
        if len > m - FRAME_HEADER {
            return Err(MessengerError::MessageTooLarge(len, m));
        }
        let slot = match find_free_slot(&self.slots) {
            Some(i) => i,
            None => {
                return Ok(SendStep::WaitForSlot);
            },
        };
        let ghost pre = *self;
        let ghost q = self.config.max_queue_size as int;
        proof {
            lemma_slot_bounds(slot as int, q, m as int);
            lemma_count_bound(self.slots@, slot as int);
            lemma_count_update(self.slots@, slot as int, true);
            assert(first_free(pre.slots@) == slot as int);
        }
        self.slots.set(slot, true);
        let mut frame: Vec<u8> = Vec::new();
        put_u32_be(&mut frame, len as u32);
        append_range(&mut frame, bytes.as_slice(), 0, len);
        let start = slot * m;
        write_at(&mut self.shmem, start, frame.as_slice());
        match self.channel.try_send(slot) {
            Ok(()) => {},
            Err(_) => {
                self.slots.set(slot, false);
                return Err(MessengerError::ChannelClosed);
            },
        }
        proof {
            let p = pre.channel.items();
            let b = bytes@;
            assert(frame@ =~= be_bytes(len as u32) + b);
            lemma_le_round_trip(len as u32);
            assert(be_at(frame@, 0) == be_at(be_bytes(len as u32), 0));
            let r2 = self.shmem@;
            assert(r2[start as int] == frame@[0] && r2[start + 1] == frame@[1] && r2[start + 2] == frame@[2]
                && r2[start + 3] == frame@[3]);
            assert(be_at(r2, start as int) == len);
            assert(frame_at(r2, start as int) =~= b);
            let after = self.channel.items();
            assert forall|k: int| 0 <= k < after.len() implies {
                &&& (#[trigger] after[k]) < q
                &&& self.slots@[after[k] as int]
                &&& 4 + be_at(r2, after[k] * m) <= m
                &&& frame_at(r2, after[k] * m) == if k < p.len() {
                    frame_at(pre.shmem@, p[k] * m)
                } else {
                    b
                }
            } by {
                if k < p.len() {
                    assert(after[k] == p[k]);
                    assert(p[k] != slot);
                    lemma_slots_apart(p[k] as int, slot as int, m as int);
                    lemma_slot_bounds(p[k] as int, q, m as int);
                    lemma_frame_kept(pre.shmem@, r2, p[k] * m, m as int);
                } else {
                    assert(after[k] == slot);
                }
            }
            assert(self.frames() =~= pre.frames().push(b));
            assert(pre == *old(self));
            assert(self.slots@ == pre.slots@.update(slot as int, true));
            assert(self.channel.items() == p.push(slot));
            assert forall|a: int, c: int| 0 <= a < c < self.channel.items().len() implies self.channel.items()[a]
                != self.channel.items()[c] by {
                if c == p.len() {
                    assert(pre.slots@[p[a] as int]);
                }
            }
        }
        proof {
            assert(old(self).codec().spec_encode(msg@) == Some(bytes@));
            assert(Self::send_ensures(*old(self), msg@, *self, Ok(SendStep::Delivered)));
        }
        Ok(SendStep::Delivered)
    }

    /// Takes the oldest committed message; see `receive_ensures`.
    pub fn try_receive(&mut self) -> (r: Result<Message, MessengerError>)
        requires
            old(self).wf(),
        ensures
            final(self).wf(),
            Self::receive_ensures(*old(self), *final(self), r),
    {
        match self.state {
            MailboxState::Closed => {
                return Err(MessengerError::ChannelClosed);
            },
            _ => {},
        }
        if self.channel.len() == 0 {
            return Err(MessengerError::NoMessagesAvailable);
        }
        let ghost pre = *self;
        let slot = match self.channel.try_recv() {
            TryRecv::Item(i) => i,
            TryRecv::Empty => {
                return Err(MessengerError::NoMessagesAvailable);
            },
            TryRecv::Closed => {
                return Err(MessengerError::ChannelClosed);
            },
        };
        let ghost q = self.config.max_queue_size as int;
        let m = self.config.max_message_size;
        proof {
            lemma_slot_bounds(slot as int, q, m as int);
            lemma_count_update(self.slots@, slot as int, false);
        }
        let start = slot * m;
        let len = get_u32_be(self.shmem.as_slice(), start) as usize;
        if len > m - FRAME_HEADER {
            self.slots.set(slot, false);
            return Err(MessengerError::MemoryOverflow);
        }
        let mut buf: Vec<u8> = Vec::new();
        append_range(&mut buf, self.shmem.as_slice(), start + FRAME_HEADER, start + FRAME_HEADER + len);
        self.slots.set(slot, false);
        proof {
            let p = pre.channel.items();
            assert(buf@ =~= pre.frames()[0]);
            assert(self.frames() =~= pre.frames().drop_first());
            assert forall|k: int| 0 <= k < self.channel.items().len() implies self.slots@[#[trigger] self.channel.items()[k] as int] by {
                assert(self.channel.items()[k] == p[k + 1]);
                assert(p[k + 1] != p[0]);
            }
        }
        self.serializer.deserialize(buf.as_slice())
    }

    /// Returns the mailbox to its initial state: zero bytes, every slot
    /// free, nothing pending. Receivers that were waiting see the epoch
    /// change. A closed mailbox stays closed. It always succeeds.
    pub fn cleanup(&mut self) -> (r: Result<(), MessengerError>)
        requires
            old(self).wf(),
        ensures
            final(self).wf(),
            r is Ok,
            final(self).frames().len() == 0,
            final(self).marks() == Seq::new(old(self).qsize() as nat, |_i: int| false),
            final(self).region() == Seq::new(old(self).region().len(), |_i: int| 0u8),
            final(self).state() == if old(self).state() is Closed {
                MailboxState::Closed
            } else {
                MailboxState::Open
            },
            final(self).config() == old(self).config(),
            final(self).codec() == old(self).codec(),
            final(self).epoch() == if old(self).epoch() == u64::MAX {
                0
            } else {
                (old(self).epoch() + 1) as u64
            },
    {
        fill_zero(&mut self.shmem);
        clear_marks(&mut self.slots);
        self.channel.reset();
        match self.state {
            MailboxState::Closed => self.channel.close(),
            _ => {
                self.state = MailboxState::Open;
            },
        }
        self.epoch = if self.epoch == u64::MAX {
            0
        } else {
            self.epoch + 1
        };
        proof {
            lemma_count_none(self.slots@.len());
            assert(self.slots@ =~= Seq::new(self.slots@.len(), |_i: int| false));
        }
        Ok(())
    }

    /// Stops taking sends; what is committed can still be received.
    pub fn drain(&mut self)
        requires
            old(self).wf(),
        ensures
            final(self).wf(),
            final(self).state() == if old(self).state() is Open {
                MailboxState::Draining
            } else {
                old(self).state()
            },
            final(self).frames() == old(self).frames(),
            final(self).pending() == old(self).pending(),
            final(self).marks() == old(self).marks(),
            final(self).config() == old(self).config(),
            final(self).codec() == old(self).codec(),
            final(self).epoch() == old(self).epoch(),
    {
        if let MailboxState::Open = self.state {
            self.state = MailboxState::Draining;
        }
    }

    /// Closes the mailbox for good, dropping what was pending. It always
    /// succeeds, also when called again.
    pub fn close(&mut self) -> (r: Result<(), MessengerError>)
        requires
            old(self).wf(),
        ensures
            final(self).wf(),
            r is Ok,
            final(self).state() is Closed,
            final(self).frames().len() == 0,
            final(self).config() == old(self).config(),
            final(self).codec() == old(self).codec(),
    {
        let _ = self.cleanup();
        self.state = MailboxState::Closed;
        self.channel.close();
        Ok(())
    }

    /// A mailbox is ready until it is closed.
    pub fn is_ready(&self) -> (r: bool)
        ensures
            r == !(self.state() is Closed),
    {
        match self.state {
            MailboxState::Closed => false,
            _ => true,
        }
    }

    /// Nothing to re-establish in memory: succeeds unless closed.
    pub fn reconnect(&self) -> (r: Result<(), MessengerError>)
        ensures
            self.state() is Closed ==> (r matches Err(e) && e is ChannelClosed),
            !(self.state() is Closed) ==> r is Ok,
    {
        match self.state {
            MailboxState::Closed => Err(MessengerError::ChannelClosed),
            _ => Ok(()),
        }
    }

    /// Bytes per slot, as configured.
    pub fn max_message_size(&self) -> (r: usize)
        ensures
            r == self.msize(),
    {
        self.config.max_message_size
    }

    /// The lifecycle state.
    pub fn current_state(&self) -> (r: MailboxState)
        ensures
            r == self.state(),
    {
        self.state
    }

    /// Changes with every cleanup; a receiver that waits across a change
    /// was woken by a cleanup.
    pub fn current_epoch(&self) -> (r: u64)
        ensures
            r == self.epoch(),
    {
        self.epoch
    }

    /// Number of committed messages not yet received.
    pub fn pending_count(&self) -> (r: usize)
        ensures
            r == self.frames().len(),
    {
        self.channel.len()
    }
}

/// On an open mailbox with nothing pending, a message that the codec can
/// encode and whose frame fits a slot is delivered, and the next receive
/// gives that message back.
pub proof fn lemma_send_then_receive<S: Serializer>(
    t0: IpcTransport<S>,
    m: MessageView,
    t1: IpcTransport<S>,
    sent: Result<SendStep, MessengerError>,
    t2: IpcTransport<S>,
    received: Result<Message, MessengerError>,
)
    requires
        t0.wf(),
        t0.state() is Open,
        t0.frames().len() == 0,
        t0.codec().spec_encode(m) is Some,
        t0.codec().spec_encode(m)->Some_0.len() + FRAME_HEADER <= t0.msize(),
        IpcTransport::send_ensures(t0, m, t1, sent),
        IpcTransport::receive_ensures(t1, t2, received),
    ensures
        sent == Ok::<SendStep, MessengerError>(SendStep::Delivered),
        received matches Ok(x) && x@ == m,
{
    lemma_not_full_when_empty(t0);
}

/// Two messages sent one after the other on an open mailbox with nothing
/// pending are received in the order they were sent.
pub proof fn lemma_receive_in_send_order<S: Serializer>(
    t0: IpcTransport<S>,
    m1: MessageView,
    m2: MessageView,
    t1: IpcTransport<S>,
    s1: Result<SendStep, MessengerError>,
    t2: IpcTransport<S>,
    s2: Result<SendStep, MessengerError>,
    t3: IpcTransport<S>,
    r1: Result<Message, MessengerError>,
    t4: IpcTransport<S>,
    r2: Result<Message, MessengerError>,
)
    requires
        t0.state() is Open,
        t0.frames().len() == 0,
        IpcTransport::send_ensures(t0, m1, t1, s1),
        IpcTransport::send_ensures(t1, m2, t2, s2),
        s1 == Ok::<SendStep, MessengerError>(SendStep::Delivered),
        s2 == Ok::<SendStep, MessengerError>(SendStep::Delivered),
        IpcTransport::receive_ensures(t2, t3, r1),
        IpcTransport::receive_ensures(t3, t4, r2),
    ensures
        r1 matches Ok(x) && x@ == m1,
        r2 matches Ok(x) && x@ == m2,
{
    let b1 = t0.codec().spec_encode(m1)->Some_0;
    let b2 = t0.codec().spec_encode(m2)->Some_0;
    assert(t2.frames() == seq![b1, b2]);
    assert(t3.frames() =~= seq![b2]);
}

proof fn lemma_not_full_when_empty<S: Serializer>(t: IpcTransport<S>)
    requires
        t.wf(),
        t.frames().len() == 0,
    ensures
        !t.is_full(),
{
    lemma_count_zero(t.slots@);
    assert(!t.marks()[0]);
}

} // verus!
