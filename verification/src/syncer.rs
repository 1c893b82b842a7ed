use vstd::prelude::*;

verus! {

/// The durable, concurrently-readable checkpoint holder: the latest position
/// known to be safely resumable, together with the source-native ordinal that
/// orders positions of one stream. Readers query it; the single pipeline
/// driver advances it. A store of a lesser ordinal is a rejected no-op.
pub struct Syncer {
    checked_ordinal: i64,
    checked_position: String,
}

impl Syncer {
    /// The ordinal of the stored checkpoint.
    pub closed spec fn ordinal(self) -> int {
        self.checked_ordinal as int
    }

    /// The stored position text, persisted and replayed verbatim.
    pub closed spec fn position(self) -> Seq<char> {
        self.checked_position@
    }

    /// A syncer seeded from a persisted checkpoint for resume. A fresh,
    /// unseeded run passes the least ordinal and an empty text.
    pub fn new(ordinal: i64, position: String) -> (r: Syncer)
        ensures
            r.ordinal() == ordinal as int,
            r.position() == position@,
    {
        Syncer { checked_ordinal: ordinal, checked_position: position }
    }

    /// The stored checkpoint: its ordinal and a copy of its position text.
    pub fn get(&self) -> (r: (i64, String))
        ensures
            r.0 as int == self.ordinal(),
            r.1@ == self.position(),
    {
        (self.checked_ordinal, self.checked_position.clone())
    }

    /// Advances the checkpoint, but never backward: an update with a lesser
    /// ordinal than the stored one is rejected and changes nothing.
    pub fn set(&mut self, ordinal: i64, position: String) -> (accepted: bool)
        ensures
            accepted == (ordinal as int >= old(self).ordinal()),
            accepted ==> final(self).ordinal() == ordinal as int && final(self).position()
                == position@,
            !accepted ==> final(self).ordinal() == old(self).ordinal() && final(self).position()
                == old(self).position(),
    {
        if ordinal >= self.checked_ordinal {
            self.checked_ordinal = ordinal;
            self.checked_position = position;
            true
        } else {
            false
        }
    }
}

/// One checkpoint update as the syncer decides it: the stored ordinal after
/// offering `update` to a syncer holding `stored`.
pub open spec fn stored_after(stored: int, update: int) -> int {
    if update >= stored {
        update
    } else {
        stored
    }
}

/// The stored ordinal after offering a whole sequence of updates, first first.
pub open spec fn stored_after_all(stored: int, updates: Seq<int>) -> int
    decreases updates.len(),
{
    if updates.len() == 0 {
        stored
    } else {
        stored_after_all(stored_after(stored, updates[0]), updates.subrange(1, updates.len() as int))
    }
}

/// Position monotonicity: across any sequence of updates the stored ordinal
/// never decreases — each update leaves it at or above what it was, so the
/// checkpoint can never regress.
pub proof fn lemma_position_monotonic(stored: int, updates: Seq<int>)
    ensures
        stored_after_all(stored, updates) >= stored,
    decreases updates.len(),
{
    if updates.len() > 0 {
        lemma_position_monotonic(
            stored_after(stored, updates[0]),
            updates.subrange(1, updates.len() as int),
        );
    }
}

} // verus!
