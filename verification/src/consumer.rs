use vstd::prelude::*;

use crate::dt_data::{DtData, is_commit, position_view};
use crate::syncer::Syncer;

verus! {

/// The consumer-side checkpoint rule: report a position back into the syncer
/// only at a transaction-boundary marker, never mid-transaction. `ordinal` is
/// the source-native ordering key the driver derives for the event's stream.
/// Returns whether the checkpoint advanced.
pub fn checkpoint_on_commit(syncer: &mut Syncer, data: &DtData, ordinal: i64) -> (r: bool)
    ensures
        !is_commit(*data) ==> !r && final(syncer).ordinal() == old(syncer).ordinal()
            && final(syncer).position() == old(syncer).position(),
        is_commit(*data) ==> {
            &&& r == (ordinal as int >= old(syncer).ordinal())
            &&& r ==> final(syncer).ordinal() == ordinal as int && final(syncer).position()
                == position_view(*data)
            &&& !r ==> final(syncer).ordinal() == old(syncer).ordinal() && final(syncer).position()
                == old(syncer).position()
        },
{
    match data {
        DtData::Commit { position, .. } => syncer.set(ordinal, position.clone()),
        _ => false,
    }
}

/// The checkpoint state `(ordinal, position text)` after one event is offered
/// to a consumer that checkpoints only at commit markers.
pub open spec fn checkpoint_step(st: (int, Seq<char>), d: DtData, k: int) -> (int, Seq<char>) {
    if is_commit(d) && k >= st.0 {
        (k, position_view(d))
    } else {
        st
    }
}

/// The checkpoint state after a whole sequence of `(event, ordinal)` pairs,
/// consumed in order.
pub open spec fn checkpoint_after(st: (int, Seq<char>), events: Seq<(DtData, i64)>) -> (
    int,
    Seq<char>,
)
    decreases events.len(),
{
    if events.len() == 0 {
        st
    } else {
        checkpoint_after(
            checkpoint_step(st, events[0].0, events[0].1 as int),
            events.subrange(1, events.len() as int),
        )
    }
}

/// Commit-boundary checkpointing: a consumer that checkpoints only at commit
/// markers never persists the position of a partially consumed transaction —
/// after any sequence of events, the stored checkpoint is either still the
/// seed or the position of some commit marker in the sequence.
pub proof fn lemma_commit_boundary(st: (int, Seq<char>), events: Seq<(DtData, i64)>)
    ensures
        checkpoint_after(st, events) == st || exists|i: int|
            0 <= i < events.len() && is_commit(#[trigger] events[i].0) && checkpoint_after(
                st,
                events,
            ).1 == position_view(events[i].0) && checkpoint_after(st, events).0 == events[i].1 as int,
    decreases events.len(),
{
    if events.len() > 0 {
        let st1 = checkpoint_step(st, events[0].0, events[0].1 as int);
        let tail = events.subrange(1, events.len() as int);
        let fin = checkpoint_after(st, events);
        lemma_commit_boundary(st1, tail);
        if fin == st1 {
            if st1 != st {
                assert(is_commit(events[0].0));
                assert(fin.1 == position_view(events[0].0));
                assert(fin.0 == events[0].1 as int);
            }
        } else {
            let j = choose|j: int|
                0 <= j < tail.len() && is_commit(#[trigger] tail[j].0) && checkpoint_after(
                    st1,
                    tail,
                ).1 == position_view(tail[j].0) && checkpoint_after(st1, tail).0 == tail[j].1 as int;
            assert(tail[j] == events[j + 1]);
            assert(is_commit(events[j + 1].0));
        }
    }
}

} // verus!
