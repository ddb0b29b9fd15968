use vstd::prelude::*;

verus! {

use crate::ID;

/// Reads the wall clock. Relies on chrono's `Utc::now` and
/// `DateTime::timestamp_millis`: milliseconds since the Unix epoch. Nothing
/// is assumed of the value — the generator below stays strictly increasing
/// whatever the clock returns, including a clock that moves backward.
#[verifier::external_body]
pub fn now_millis() -> i64 {
    chrono::Utc::now().timestamp_millis()
}

/// The identifier an issuing step hands out: the clock reading when the
/// clock moved past the last issued identifier, and the counter fallback
/// (one past the last issued identifier) otherwise.
pub open spec fn next_id_spec(last: int, now: int) -> int {
    if now > last {
        now
    } else {
        last + 1
    }
}

/// Issues 64-bit identifiers that are unique and strictly ascending across
/// the calls on one instance. Identifiers follow the clock while it moves
/// forward, so they sort roughly by creation time, and fall back to a
/// counter when the clock stalls or moves backward.
pub struct Generator {
    last: i64,
}

impl Generator {
    /// The last identifier issued, 0 when none has been.
    pub closed spec fn view(&self) -> int {
        self.last as int
    }

    pub closed spec fn wf(&self) -> bool {
        self.last >= 0
    }

    pub fn new() -> (r: Generator)
        ensures
            r.wf(),
            r@ == 0,
    {
        Generator { last: 0 }
    }

    /// The last identifier issued, 0 when none has been: what a caller
    /// checks before asking for another (the identifier space is finite).
    pub fn last(&self) -> (r: ID)
        ensures
            r == self@,
    {
        self.last
    }

    /// One issuing step as a pure function of the last issued identifier and
    /// a clock reading.
    pub fn next_id(last: ID, now: i64) -> (r: ID)
        requires
            0 <= last < i64::MAX,
        ensures
            r == next_id_spec(last as int, now as int),
            last < r,
    {
        if now > last {
            now
        } else {
            last + 1
        }
    }

    /// Issues the next identifier: strictly greater than every identifier
    /// this instance has issued before, and at least 1.
    pub fn generate(&mut self) -> (r: ID)
        requires
            old(self).wf(),
            old(self)@ < i64::MAX,
        ensures
            final(self).wf(),
            r as int == final(self)@,
            old(self)@ < r,
            1 <= r,
    {
        let now = now_millis();
        let id = Self::next_id(self.last, now);
        self.last = id;
        id
    }
}

impl Default for Generator {
    fn default() -> (r: Generator)
        ensures
            r.wf(),
            r@ == 0,
    {
        Generator::new()
    }
}

proof fn lemma_ascending_chain(ids: Seq<ID>, i: int, j: int)
    requires
        forall|k: int| 0 <= k < ids.len() - 1 ==> #[trigger] ids[k] < ids[k + 1],
        0 <= i < j < ids.len(),
    ensures
        ids[i] < ids[j],
    decreases j - i,
{
    if i + 1 < j {
        lemma_ascending_chain(ids, i, j - 1);
    }
}

/// Identifier uniqueness and order: a run of identifiers in which each one
/// is strictly greater than its predecessor — as `generate` ensures of
/// consecutive calls on one instance — holds no repeats and is ascending.
pub proof fn lemma_issued_ids_distinct_and_ascending(ids: Seq<ID>)
    requires
        forall|k: int| 0 <= k < ids.len() - 1 ==> #[trigger] ids[k] < ids[k + 1],
    ensures
        forall|i: int, j: int| 0 <= i < j < ids.len() ==> #[trigger] ids[i] < #[trigger] ids[j],
        forall|i: int, j: int| 0 <= i < j < ids.len() ==> ids[i] != ids[j],
{
    assert forall|i: int, j: int| 0 <= i < j < ids.len() implies #[trigger] ids[i]
        < #[trigger] ids[j] by {
        lemma_ascending_chain(ids, i, j);
    }
}

} // verus!
