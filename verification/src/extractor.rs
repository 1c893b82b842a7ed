use vstd::prelude::*;

use crate::buffer::{Buffer, BufferModel, PushOutcome, can_push};
use crate::dt_data::{DtData, is_stamped, stamp_position};
use crate::error::Error;
use crate::position::{offset_position, offset_position_text};

verus! {

/// Where a stream-consumer extractor joins its single partition: at an
/// explicitly assigned offset (the resume case), or at the current tail.
#[derive(Clone, Copy, Debug, PartialEq, Eq, Structural)]
pub enum StartMode {
    AssignedOffset(i64),
    Tail,
}

/// What one iteration of the extract loop observed: the shutdown flag set, or
/// the next record of the stream, with its native offset and its decoded
/// payload if it carried one.
pub enum ExtractEvent {
    ShutdownObserved,
    Message { offset: i64, payload: Option<DtData> },
}

/// The decision one iteration of the extract loop reached.
#[derive(Debug, PartialEq, Eq)]
pub enum StepOutcome {
    /// The shutdown flag was observed: leave the loop within this iteration.
    Stopped,
    /// The record carried no payload and was skipped.
    Skipped,
    /// The normalized, stamped event was enqueued.
    Pushed,
    /// The buffer is at capacity: the stamped event is handed back so the
    /// caller can suspend and retry it — backpressure, never a drop.
    MustRetry(DtData),
}

/// `post` is `pre` with exactly one more item: the event `d` stamped with the
/// canonical position of offset `k`, behind all previously buffered items.
pub open spec fn pushed_stamped(pre: BufferModel, post: BufferModel, d: DtData, k: int) -> bool {
    &&& post.capacity == pre.capacity
    &&& post.closed == pre.closed
    &&& post.items.len() == pre.items.len() + 1
    &&& post.items.subrange(0, pre.items.len() as int) == pre.items
    &&& is_stamped(d, offset_position_text(k), post.items.last())
}

/// Stamps onto `data` the canonical position of the record's own native
/// offset, so the payload's and the transport's idea of position cannot
/// drift. Stamping is the last step before enqueue.
pub fn stamp_for_offset(data: DtData, offset: i64) -> (r: DtData)
    ensures
        is_stamped(data, offset_position_text(offset as int), r),
{
    let pos = offset_position(offset);
    stamp_position(data, pos)
}

/// The queue-backed reference extractor: binds to a single partition of a
/// single topic and normalizes its records into the buffer.
pub struct KafkaExtractor {
    pub url: String,
    pub group: String,
    pub topic: String,
    pub partition: i32,
    pub offset: i64,
    pub ack_interval_secs: u64,
    pub buffer: Buffer,
}

impl KafkaExtractor {
    /// Resume correctness, the decision half: a configured positive offset is
    /// forwarded verbatim as an explicit partition assignment, so consumption
    /// starts at that offset and never earlier; otherwise the stream is
    /// joined at its current tail.
    pub fn plan_start(&self) -> (r: StartMode)
        ensures
            self.offset > 0 ==> r == StartMode::AssignedOffset(self.offset),
            self.offset <= 0 ==> r == StartMode::Tail,
    {
        if self.offset > 0 {
            StartMode::AssignedOffset(self.offset)
        } else {
            StartMode::Tail
        }
    }

    /// The decisions of one extract-loop iteration. A shutdown observation
    /// stops the loop at once and leaves the buffer untouched; a record is
    /// stamped with its own offset's canonical position and enqueued; a full
    /// buffer hands the stamped event back for retry; a closed buffer ends
    /// the loop with the closed-buffer error.
    pub fn extract_step(&mut self, event: ExtractEvent) -> (r: Result<StepOutcome, Error>)
        requires
            old(self).buffer.wf(),
        ensures
            final(self).buffer.wf(),
            final(self).url == old(self).url,
            final(self).group == old(self).group,
            final(self).topic == old(self).topic,
            final(self).partition == old(self).partition,
            final(self).offset == old(self).offset,
            final(self).ack_interval_secs == old(self).ack_interval_secs,
            event matches ExtractEvent::ShutdownObserved ==> r == Ok::<StepOutcome, Error>(
                StepOutcome::Stopped,
            ) && final(self).buffer@ == old(self).buffer@,
            event matches ExtractEvent::Message { offset: _, payload: None } ==> r == Ok::<
                StepOutcome,
                Error,
            >(StepOutcome::Skipped) && final(self).buffer@ == old(self).buffer@,
            event matches ExtractEvent::Message { offset, payload: Some(d) } ==> {
                &&& old(self).buffer@.closed ==> r == Err::<StepOutcome, Error>(
                    Error::ClosedBufferError,
                ) && final(self).buffer@ == old(self).buffer@
                &&& (!old(self).buffer@.closed && !can_push(old(self).buffer@)) ==> (match r {
                    Ok(StepOutcome::MustRetry(x)) => is_stamped(
                        d,
                        offset_position_text(offset as int),
                        x,
                    ),
                    _ => false,
                }) && final(self).buffer@ == old(self).buffer@
                &&& can_push(old(self).buffer@) ==> r == Ok::<StepOutcome, Error>(
                    StepOutcome::Pushed,
                ) && pushed_stamped(old(self).buffer@, final(self).buffer@, d, offset as int)
            },
    {
        match event {
            ExtractEvent::ShutdownObserved => Ok(StepOutcome::Stopped),
            ExtractEvent::Message { offset, payload } => match payload {
                None => Ok(StepOutcome::Skipped),
                Some(d) => {
                    let stamped = stamp_for_offset(d, offset);
                    match self.buffer.try_push(stamped) {
                        PushOutcome::Pushed => {
                            proof {
                                assert(self.buffer@.items.subrange(
                                    0,
                                    old(self).buffer@.items.len() as int,
                                ) =~= old(self).buffer@.items);
                            }
                            Ok(StepOutcome::Pushed)
                        },
                        PushOutcome::Full(x) => Ok(StepOutcome::MustRetry(x)),
                        PushOutcome::Closed(_) => Err(Error::ClosedBufferError),
                    }
                },
            },
        }
    }
}

} // verus!
