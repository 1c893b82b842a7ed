use vstd::prelude::*;

use crate::dt_data::DtData;

verus! {

// ---------------------------------------------------------------------------
// Trusted view of the outside MPMC queue.
// ---------------------------------------------------------------------------

/// `concurrent_queue::ConcurrentQueue` carries the buffered events; the
/// verifier treats values of it as opaque.
#[verifier::external_type_specification]
#[verifier::external_body]
#[verifier::reject_recursive_types(T)]
pub struct ExConcurrentQueue<T>(concurrent_queue::ConcurrentQueue<T>);

/// The events a queue holds, oldest first.
pub uninterp spec fn queue_items(q: concurrent_queue::ConcurrentQueue<DtData>) -> Seq<DtData>;

/// The fixed bound the queue was constructed with.
pub uninterp spec fn queue_capacity(q: concurrent_queue::ConcurrentQueue<DtData>) -> nat;

/// Whether the queue has been closed.
pub uninterp spec fn queue_closed(q: concurrent_queue::ConcurrentQueue<DtData>) -> bool;

/// Result of a single push attempt; a refused push hands the item back.
#[derive(Debug, PartialEq, Eq)]
pub enum PushOutcome {
    Pushed,
    Full(DtData),
    Closed(DtData),
}

/// Result of a single pop attempt.
#[derive(Debug, PartialEq, Eq)]
pub enum PopOutcome {
    Popped(DtData),
    Empty,
    Closed,
}

/// Relies on ConcurrentQueue::bounded: a fresh bounded queue is empty, open,
/// and allocates space for exactly `cap` items. It panics on a zero capacity,
/// which the precondition excludes.
#[verifier::external_body]
fn queue_bounded(cap: usize) -> (q: concurrent_queue::ConcurrentQueue<DtData>)
    requires
        1 <= cap,
    ensures
        queue_items(q) == Seq::<DtData>::empty(),
        queue_capacity(q) == cap as nat,
        !queue_closed(q),
{
    concurrent_queue::ConcurrentQueue::bounded(cap)
}

/// Relies on ConcurrentQueue::push: a closed queue refuses the item with the
/// closed error, a full one hands it back as full, and otherwise the item is
/// appended behind the existing ones; nothing is ever dropped or reordered.
#[verifier::external_body]
fn queue_push(q: &mut concurrent_queue::ConcurrentQueue<DtData>, item: DtData) -> (r: PushOutcome)
    ensures
        queue_capacity(*final(q)) == queue_capacity(*old(q)),
        queue_closed(*final(q)) == queue_closed(*old(q)),
        queue_closed(*old(q)) ==> r == PushOutcome::Closed(item) && queue_items(*final(q))
            == queue_items(*old(q)),
        !queue_closed(*old(q)) && queue_items(*old(q)).len() >= queue_capacity(*old(q)) ==> r
            == PushOutcome::Full(item) && queue_items(*final(q)) == queue_items(*old(q)),
        !queue_closed(*old(q)) && queue_items(*old(q)).len() < queue_capacity(*old(q)) ==> r
            == PushOutcome::Pushed && queue_items(*final(q)) == queue_items(*old(q)).push(item),
{
    match q.push(item) {
        Ok(()) => PushOutcome::Pushed,
        Err(concurrent_queue::PushError::Full(v)) => PushOutcome::Full(v),
        Err(concurrent_queue::PushError::Closed(v)) => PushOutcome::Closed(v),
    }
}

/// Relies on ConcurrentQueue::pop: the oldest item leaves first; an empty
/// queue reports empty while open and closed once closed, and closing never
/// discards items that are still buffered.
#[verifier::external_body]
fn queue_pop(q: &mut concurrent_queue::ConcurrentQueue<DtData>) -> (r: PopOutcome)
    ensures
        queue_capacity(*final(q)) == queue_capacity(*old(q)),
        queue_closed(*final(q)) == queue_closed(*old(q)),
        queue_items(*old(q)).len() > 0 ==> r == PopOutcome::Popped(queue_items(*old(q))[0])
            && queue_items(*final(q)) == queue_items(*old(q)).subrange(
            1,
            queue_items(*old(q)).len() as int,
        ),
        queue_items(*old(q)).len() == 0 && !queue_closed(*old(q)) ==> r == PopOutcome::Empty
            && queue_items(*final(q)) == queue_items(*old(q)),
        queue_items(*old(q)).len() == 0 && queue_closed(*old(q)) ==> r == PopOutcome::Closed
            && queue_items(*final(q)) == queue_items(*old(q)),
{
    match q.pop() {
        Ok(v) => PopOutcome::Popped(v),
        Err(concurrent_queue::PopError::Empty) => PopOutcome::Empty,
        Err(concurrent_queue::PopError::Closed) => PopOutcome::Closed,
    }
}

/// Relies on ConcurrentQueue::close: it only sets the closed flag, keeps the
/// buffered items poppable, and tells whether this call was the one that
/// closed the queue.
#[verifier::external_body]
fn queue_close(q: &mut concurrent_queue::ConcurrentQueue<DtData>) -> (r: bool)
    ensures
        queue_closed(*final(q)),
        queue_items(*final(q)) == queue_items(*old(q)),
        queue_capacity(*final(q)) == queue_capacity(*old(q)),
        r == !queue_closed(*old(q)),
{
    q.close()
}

/// Relies on ConcurrentQueue::len: the number of items currently buffered.
#[verifier::external_body]
fn queue_len(q: &concurrent_queue::ConcurrentQueue<DtData>) -> (r: usize)
    ensures
        r == queue_items(*q).len(),
{
    q.len()
}

// ---------------------------------------------------------------------------
// The verified buffer around the queue.
// ---------------------------------------------------------------------------

/// Mathematical model of a buffer: its items oldest first, its fixed bound,
/// and whether it has been closed.
#[verifier::ext_equal]
pub struct BufferModel {
    pub items: Seq<DtData>,
    pub capacity: nat,
    pub closed: bool,
}

/// A push is admitted exactly when the buffer is open and below its bound.
pub open spec fn can_push(m: BufferModel) -> bool {
    !m.closed && m.items.len() < m.capacity
}

/// The model after an admitted push.
pub open spec fn pushed_model(m: BufferModel, item: DtData) -> BufferModel {
    BufferModel { items: m.items.push(item), ..m }
}

/// The model after a successful pop.
pub open spec fn popped_model(m: BufferModel) -> BufferModel {
    BufferModel { items: m.items.subrange(1, m.items.len() as int), ..m }
}

/// The model after closing.
pub open spec fn closed_model(m: BufferModel) -> BufferModel {
    BufferModel { closed: true, ..m }
}

/// Bounded FIFO buffer of pipeline events: the sole backpressure mechanism
/// between extraction and consumption. Capacity is fixed at construction;
/// items are never reordered, dropped, or evicted.
pub struct Buffer {
    q: concurrent_queue::ConcurrentQueue<DtData>,
    cap: usize,
}

impl Buffer {
    pub closed spec fn wf(self) -> bool {
        &&& self.cap as nat == queue_capacity(self.q)
        &&& 1 <= self.cap
        &&& queue_items(self.q).len() <= self.cap as nat
    }

    pub closed spec fn view(self) -> BufferModel {
        BufferModel {
            items: queue_items(self.q),
            capacity: queue_capacity(self.q),
            closed: queue_closed(self.q),
        }
    }

    /// A fresh buffer is empty, open, and bounded by `capacity`.
    pub fn new(capacity: usize) -> (r: Buffer)
        requires
            1 <= capacity,
        ensures
            r.wf(),
            r@.items == Seq::<DtData>::empty(),
            r@.capacity == capacity as nat,
            !r@.closed,
    {
        let q = queue_bounded(capacity);
        Buffer { q, cap: capacity }
    }

    /// One push attempt: admitted exactly when the buffer is open and not
    /// full; a refused attempt hands the item back and changes nothing.
    pub fn try_push(&mut self, item: DtData) -> (r: PushOutcome)
        requires
            old(self).wf(),
        ensures
            final(self).wf(),
            old(self)@.closed ==> r == PushOutcome::Closed(item) && final(self)@ == old(self)@,
            !old(self)@.closed && !can_push(old(self)@) ==> r == PushOutcome::Full(item)
                && final(self)@ == old(self)@,
            can_push(old(self)@) ==> r == PushOutcome::Pushed && final(self)@ == pushed_model(
                old(self)@,
                item,
            ),
            final(self)@ == apply_op(old(self)@, BufferOp::Push(item)),
    {
        queue_push(&mut self.q, item)
    }

    /// One pop attempt: yields the oldest buffered item, or reports an empty
    /// buffer as empty while open and as closed after closing.
    pub fn pop(&mut self) -> (r: PopOutcome)
        requires
            old(self).wf(),
        ensures
            final(self).wf(),
            old(self)@.items.len() > 0 ==> r == PopOutcome::Popped(old(self)@.items[0])
                && final(self)@ == popped_model(old(self)@),
            old(self)@.items.len() == 0 && !old(self)@.closed ==> r == PopOutcome::Empty
                && final(self)@ == old(self)@,
            old(self)@.items.len() == 0 && old(self)@.closed ==> r == PopOutcome::Closed
                && final(self)@ == old(self)@,
            final(self)@ == apply_op(old(self)@, BufferOp::Pop),
    {
        queue_pop(&mut self.q)
    }

    /// Closes the buffer: future pushes are refused, buffered items remain
    /// poppable. Returns whether this call was the one that closed it.
    pub fn close(&mut self) -> (r: bool)
        requires
            old(self).wf(),
        ensures
            final(self).wf(),
            final(self)@ == closed_model(old(self)@),
            final(self)@ == apply_op(old(self)@, BufferOp::Close),
            r == !old(self)@.closed,
    {
        queue_close(&mut self.q)
    }

    /// Number of items currently buffered.
    pub fn len(&self) -> (r: usize)
        ensures
            r == self@.items.len(),
    {
        queue_len(&self.q)
    }

    /// The fixed bound this buffer was constructed with.
    pub fn capacity(&self) -> (r: usize)
        requires
            self.wf(),
        ensures
            r == self@.capacity,
    {
        self.cap
    }

    /// Whether the buffer is at its bound.
    pub fn is_full(&self) -> (r: bool)
        requires
            self.wf(),
        ensures
            r == (self@.items.len() >= self@.capacity),
    {
        let l = queue_len(&self.q);
        l >= self.cap
    }
}

// ---------------------------------------------------------------------------
// Laws of the buffer model.
// ---------------------------------------------------------------------------

/// The items a sequence of pop attempts yields, front first, when every
/// attempt succeeds.
pub open spec fn drained(items: Seq<DtData>) -> Seq<DtData>
    decreases items.len(),
{
    if items.len() == 0 {
        Seq::<DtData>::empty()
    } else {
        seq![items[0]] + drained(items.subrange(1, items.len() as int))
    }
}

/// Order preservation: for any buffered sequence — in particular the one a
/// producer's successful pushes build up, item by item — popping until empty
/// yields exactly that sequence, in the same order.
pub proof fn lemma_order_preservation(items: Seq<DtData>)
    ensures
        drained(items) == items,
    decreases items.len(),
{
    if items.len() == 0 {
        assert(drained(items) =~= items);
    } else {
        lemma_order_preservation(items.subrange(1, items.len() as int));
        assert(drained(items) =~= items);
    }
}

/// Backpressure: a full open buffer admits no push; after exactly one pop it
/// admits exactly one push, which fills it again.
pub proof fn lemma_backpressure(m: BufferModel, item: DtData)
    requires
        !m.closed,
        m.items.len() == m.capacity,
        m.capacity >= 1,
    ensures
        !can_push(m),
        can_push(popped_model(m)),
        !can_push(pushed_model(popped_model(m), item)),
{
}

/// One operation of the buffer model: a push attempt, a pop attempt, or a
/// close. Refused attempts leave the model unchanged, as the buffer's
/// operations do.
pub enum BufferOp {
    Push(DtData),
    Pop,
    Close,
}

pub open spec fn apply_op(m: BufferModel, op: BufferOp) -> BufferModel {
    match op {
        BufferOp::Push(item) => if can_push(m) {
            pushed_model(m, item)
        } else {
            m
        },
        BufferOp::Pop => if m.items.len() > 0 {
            popped_model(m)
        } else {
            m
        },
        BufferOp::Close => closed_model(m),
    }
}

pub open spec fn apply_ops(m: BufferModel, ops: Seq<BufferOp>) -> BufferModel
    decreases ops.len(),
{
    if ops.len() == 0 {
        m
    } else {
        apply_ops(apply_op(m, ops[0]), ops.subrange(1, ops.len() as int))
    }
}

/// Closed-buffer semantics: once a buffer is closed, it stays closed under
/// every later operation, so every pending and future push is refused rather
/// than admitted.
pub proof fn lemma_closed_buffer(m: BufferModel, ops: Seq<BufferOp>)
    requires
        m.closed,
    ensures
        apply_ops(m, ops).closed,
        !can_push(apply_ops(m, ops)),
    decreases ops.len(),
{
    if ops.len() > 0 {
        assert(apply_op(m, ops[0]).closed);
        lemma_closed_buffer(apply_op(m, ops[0]), ops.subrange(1, ops.len() as int));
    }
}

} // verus!
