//! The slot arena and its two per-tick passes.
//!
//! Each addressable slot carries at most one tag: a request waiting to be
//! dispatched, an inflight marker tied to a background task, or the recorded
//! outcome.  Mutual exclusion of the tags is enforced by construction: the
//! arena is, in its mathematical view, a map from slot identifier to a single
//! [`SlotTag`].  Every operation's contract is stated against that view
//! through the `*_step` transition functions, which the law lemmas then
//! reason about.

use vstd::prelude::*;

use crate::request::{HttpRequest, ReqwestRequest};
use crate::response::ReqwestBytesResult;

verus! {

/// The tag a slot carries, when it carries one.
#[derive(Debug, Eq, PartialEq)]
pub enum SlotTag {
    /// A collaborator attached a request that no dispatcher pass has consumed.
    Requested(ReqwestRequest),
    /// The request was handed to background work; the value identifies the task.
    Inflight(u64),
    /// The task finished and its outcome was recorded; the collaborator must
    /// consume and detach it.
    Completed(ReqwestBytesResult),
}

/// The slot holds an unconsumed request.
pub open spec fn is_requested(m: Map<u64, SlotTag>, slot: u64) -> bool {
    m.contains_key(slot) && m[slot] is Requested
}

/// The slot is tied to running background work.
pub open spec fn is_inflight(m: Map<u64, SlotTag>, slot: u64) -> bool {
    m.contains_key(slot) && m[slot] is Inflight
}

/// The slot holds a recorded outcome.
pub open spec fn is_completed(m: Map<u64, SlotTag>, slot: u64) -> bool {
    m.contains_key(slot) && m[slot] is Completed
}

/// The slot's tag, if any.
pub open spec fn tag_at(m: Map<u64, SlotTag>, slot: u64) -> Option<SlotTag> {
    if m.contains_key(slot) {
        Some(m[slot])
    } else {
        None
    }
}

/// The request descriptor still held at the slot, if any.
pub open spec fn request_at(m: Map<u64, SlotTag>, slot: u64) -> Option<HttpRequest> {
    if is_requested(m, slot) {
        m[slot]->Requested_0.0
    } else {
        None
    }
}

/// The task identifier the slot's inflight marker is tied to, if any.
pub open spec fn task_at(m: Map<u64, SlotTag>, slot: u64) -> Option<u64> {
    if is_inflight(m, slot) {
        Some(m[slot]->Inflight_0)
    } else {
        None
    }
}

/// The outcome recorded at the slot, if any.
pub open spec fn outcome_at(m: Map<u64, SlotTag>, slot: u64) -> Option<ReqwestBytesResult> {
    if is_completed(m, slot) {
        Some(m[slot]->Completed_0)
    } else {
        None
    }
}

/// A collaborator attaches a request to an untagged slot; a tagged slot is
/// left unchanged (the attempt is refused).
pub open spec fn submit_step(m: Map<u64, SlotTag>, slot: u64, req: HttpRequest) -> Map<
    u64,
    SlotTag,
> {
    if m.contains_key(slot) {
        m
    } else {
        m.insert(slot, SlotTag::Requested(ReqwestRequest(Some(req))))
    }
}

/// The dispatcher consumes a request, detaching the tag; any other state is
/// left unchanged.
pub open spec fn take_request_step(m: Map<u64, SlotTag>, slot: u64) -> Map<u64, SlotTag> {
    if is_requested(m, slot) {
        m.remove(slot)
    } else {
        m
    }
}

/// The dispatcher ties an untagged slot to a spawned task; a tagged slot is
/// left unchanged (the attempt is refused).
pub open spec fn mark_inflight_step(m: Map<u64, SlotTag>, slot: u64, task: u64) -> Map<
    u64,
    SlotTag,
> {
    if m.contains_key(slot) {
        m
    } else {
        m.insert(slot, SlotTag::Inflight(task))
    }
}

/// The poller records a finished task's outcome at its inflight slot; any
/// other state is left unchanged.
pub open spec fn complete_step(
    m: Map<u64, SlotTag>,
    slot: u64,
    outcome: Result<Vec<u8>, String>,
) -> Map<u64, SlotTag> {
    if is_inflight(m, slot) {
        m.insert(slot, SlotTag::Completed(ReqwestBytesResult(outcome)))
    } else {
        m
    }
}

/// The collaborator consumes a recorded outcome, reclaiming the slot; any
/// other state is left unchanged.
pub open spec fn take_result_step(m: Map<u64, SlotTag>, slot: u64) -> Map<u64, SlotTag> {
    if is_completed(m, slot) {
        m.remove(slot)
    } else {
        m
    }
}

/// No two entries of the backing vector name the same slot.
spec fn distinct_keys(s: Seq<(u64, SlotTag)>) -> bool {
    forall|i: int, j: int| 0 <= i < j < s.len() ==> s[i].0 != s[j].0
}

/// The map an entry vector denotes: later entries would shadow earlier ones,
/// though under [`distinct_keys`] no shadowing occurs.
spec fn slot_map(s: Seq<(u64, SlotTag)>) -> Map<u64, SlotTag>
    decreases s.len(),
{
    if s.len() == 0 {
        Map::empty()
    } else {
        slot_map(s.drop_last()).insert(s.last().0, s.last().1)
    }
}

proof fn lemma_slot_map_dom(s: Seq<(u64, SlotTag)>)
    ensures
        forall|k: u64| #[trigger]
            slot_map(s).contains_key(k) <==> exists|i: int| 0 <= i < s.len() && s[i].0 == k,
    decreases s.len(),
{
    if s.len() > 0 {
        lemma_slot_map_dom(s.drop_last());
        assert forall|k: u64| #[trigger] slot_map(s).contains_key(k) implies exists|i: int|
            0 <= i < s.len() && s[i].0 == k by {
            if k == s.last().0 {
                assert(s[s.len() - 1].0 == k);
            } else {
                assert(slot_map(s.drop_last()).contains_key(k));
                let i = choose|i: int| 0 <= i < s.drop_last().len() && s.drop_last()[i].0 == k;
                assert(s[i].0 == k);
            }
        }
        assert forall|k: u64| (exists|i: int| 0 <= i < s.len() && s[i].0 == k) implies #[trigger]
            slot_map(s).contains_key(k) by {
            let i = choose|i: int| 0 <= i < s.len() && s[i].0 == k;
            if i < s.len() - 1 {
                assert(s.drop_last()[i].0 == k);
                assert(slot_map(s.drop_last()).contains_key(k));
            }
        }
    }
}

proof fn lemma_slot_map_index(s: Seq<(u64, SlotTag)>, i: int)
    requires
        distinct_keys(s),
        0 <= i < s.len(),
    ensures
        slot_map(s).contains_key(s[i].0),
        slot_map(s)[s[i].0] == s[i].1,
    decreases s.len(),
{
    if i < s.len() - 1 {
        assert(distinct_keys(s.drop_last()));
        lemma_slot_map_index(s.drop_last(), i);
        assert(s[i].0 != s.last().0);
    }
}

proof fn lemma_slot_map_update(s: Seq<(u64, SlotTag)>, i: int, t: SlotTag)
    requires
        distinct_keys(s),
        0 <= i < s.len(),
    ensures
        slot_map(s.update(i, (s[i].0, t))) == slot_map(s).insert(s[i].0, t),
    decreases s.len(),
{
    let s2 = s.update(i, (s[i].0, t));
    if i == s.len() - 1 {
        assert(s2.drop_last() =~= s.drop_last());
        assert(slot_map(s2) =~= slot_map(s).insert(s[i].0, t));
    } else {
        assert(distinct_keys(s.drop_last()));
        assert(s2.drop_last() =~= s.drop_last().update(i, (s[i].0, t)));
        lemma_slot_map_update(s.drop_last(), i, t);
        assert(s2.last() == s.last());
        assert(s[i].0 != s.last().0);
        assert(slot_map(s2) =~= slot_map(s).insert(s[i].0, t));
    }
}

proof fn lemma_slot_map_remove(s: Seq<(u64, SlotTag)>, i: int)
    requires
        distinct_keys(s),
        0 <= i < s.len(),
    ensures
        slot_map(s.remove(i)) == slot_map(s).remove(s[i].0),
    decreases s.len(),
{
    if i == s.len() - 1 {
        assert(s.remove(i) =~= s.drop_last());
        lemma_slot_map_dom(s.drop_last());
        assert(!slot_map(s.drop_last()).contains_key(s[i].0)) by {
            if slot_map(s.drop_last()).contains_key(s[i].0) {
                let j = choose|j: int|
                    0 <= j < s.drop_last().len() && s.drop_last()[j].0 == s[i].0;
                assert(s[j].0 == s[i].0);
            }
        }
        assert(slot_map(s.remove(i)) =~= slot_map(s).remove(s[i].0));
    } else {
        assert(distinct_keys(s.drop_last()));
        assert(s.remove(i).drop_last() =~= s.drop_last().remove(i));
        assert(s.remove(i).last() == s.last());
        lemma_slot_map_remove(s.drop_last(), i);
        assert(s[i].0 != s.last().0);
        assert(slot_map(s.remove(i)) =~= slot_map(s).remove(s[i].0));
    }
}

/// The slot arena.  Collaborator-owned application data does not live here;
/// the bridge only attaches and detaches the three tags.
pub struct Bridge {
    entries: Vec<(u64, SlotTag)>,
}

impl View for Bridge {
    type V = Map<u64, SlotTag>;

    closed spec fn view(&self) -> Map<u64, SlotTag> {
        slot_map(self.entries@)
    }
}

impl Bridge {
    #[verifier::type_invariant]
    spec fn wf(&self) -> bool {
        distinct_keys(self.entries@)
    }

    /// An arena with no tagged slot.
    pub fn new() -> (b: Bridge)
        ensures
            b@ == Map::<u64, SlotTag>::empty(),
    {
        Bridge { entries: Vec::new() }
    }

    /// Index of the entry for `slot` in the backing vector, if present.
    fn position_of(&self, slot: u64) -> (r: Option<usize>)
        ensures
            match r {
                Some(i) => i < self.entries@.len() && self.entries@[i as int].0 == slot,
                None => forall|i: int| 0 <= i < self.entries@.len() ==> self.entries@[i].0 != slot,
            },
    {
        let n = self.entries.len();
        let mut idx: usize = 0;
        while idx < n
            invariant
                n == self.entries@.len(),
                idx <= n,
                forall|i: int| 0 <= i < idx ==> self.entries@[i].0 != slot,
            decreases n - idx,
        {
            if self.entries[idx].0 == slot {
                return Some(idx);
            }
            idx += 1;
        }
        None
    }

    /// Attach a request to `slot`.  Refused (and the arena unchanged) when the
    /// slot already carries any tag, which keeps the three tags exclusive.
    pub fn submit(&mut self, slot: u64, req: HttpRequest) -> (accepted: bool)
        ensures
            final(self)@ == submit_step(old(self)@, slot, req),
            accepted <==> !old(self)@.contains_key(slot),
    {
        proof {
            use_type_invariant(&*self);
            lemma_slot_map_dom(self.entries@);
        }
        match self.position_of(slot) {
            Some(_) => false,
            None => {
                let ghost s0 = self.entries@;
                let tag = SlotTag::Requested(ReqwestRequest(Some(req)));
                let mut entries: Vec<(u64, SlotTag)> = Vec::new();
                std::mem::swap(&mut entries, &mut self.entries);
                entries.push((slot, tag));
                self.entries = entries;
                proof {
                    assert(self.entries@.drop_last() =~= s0);
                    assert(final(self)@ =~= submit_step(old(self)@, slot, req));
                }
                true
            },
        }
    }

    /// Dispatcher pass, consumption half: move the request out of `slot`,
    /// detaching its tag.  `None` (and the arena unchanged) when the slot
    /// holds no request.
    pub fn take_request(&mut self, slot: u64) -> (r: Option<HttpRequest>)
        ensures
            final(self)@ == take_request_step(old(self)@, slot),
            r == request_at(old(self)@, slot),
    {
        proof {
            use_type_invariant(&*self);
            lemma_slot_map_dom(self.entries@);
        }
        match self.position_of(slot) {
            Some(i) => {
                proof {
                    lemma_slot_map_index(self.entries@, i as int);
                }
                let is_req = match &self.entries[i].1 {
                    SlotTag::Requested(_) => true,
                    _ => false,
                };
                if is_req {
                    let ghost s0 = self.entries@;
                    let mut entries: Vec<(u64, SlotTag)> = Vec::new();
                    std::mem::swap(&mut entries, &mut self.entries);
                    let taken = entries.remove(i);
                    self.entries = entries;
                    proof {
                        lemma_slot_map_remove(s0, i as int);
                        assert(final(self)@ =~= take_request_step(old(self)@, slot));
                    }
                    match taken.1 {
                        SlotTag::Requested(rr) => rr.0,
                        _ => unreached(),
                    }
                } else {
                    None
                }
            },
            None => None,
        }
    }

    /// Dispatcher pass, recording half: tie `slot` to the spawned task.
    /// Refused (and the arena unchanged) when the slot carries any tag.
    pub fn mark_inflight(&mut self, slot: u64, task: u64) -> (accepted: bool)
        ensures
            final(self)@ == mark_inflight_step(old(self)@, slot, task),
            accepted <==> !old(self)@.contains_key(slot),
    {
        proof {
            use_type_invariant(&*self);
            lemma_slot_map_dom(self.entries@);
        }
        match self.position_of(slot) {
            Some(_) => false,
            None => {
                let ghost s0 = self.entries@;
                let mut entries: Vec<(u64, SlotTag)> = Vec::new();
                std::mem::swap(&mut entries, &mut self.entries);
                entries.push((slot, SlotTag::Inflight(task)));
                self.entries = entries;
                proof {
                    assert(self.entries@.drop_last() =~= s0);
                    assert(final(self)@ =~= mark_inflight_step(old(self)@, slot, task));
                }
                true
            },
        }
    }

    /// Poller pass: record a finished task's outcome at its inflight slot,
    /// replacing the inflight marker.  Refused (and the arena unchanged) when
    /// the slot is not inflight — in particular once an outcome is recorded,
    /// so an outcome is written at most once.
    pub fn complete(&mut self, slot: u64, outcome: Result<Vec<u8>, String>) -> (recorded: bool)
        ensures
            final(self)@ == complete_step(old(self)@, slot, outcome),
            recorded <==> is_inflight(old(self)@, slot),
    {
        proof {
            use_type_invariant(&*self);
            lemma_slot_map_dom(self.entries@);
        }
        match self.position_of(slot) {
            Some(i) => {
                proof {
                    lemma_slot_map_index(self.entries@, i as int);
                }
                let is_inf = match &self.entries[i].1 {
                    SlotTag::Inflight(_) => true,
                    _ => false,
                };
                if is_inf {
                    let ghost s0 = self.entries@;
                    let tag = SlotTag::Completed(ReqwestBytesResult(outcome));
                    let mut entries: Vec<(u64, SlotTag)> = Vec::new();
                    std::mem::swap(&mut entries, &mut self.entries);
                    let _detached = entries.remove(i);
                    entries.insert(i, (slot, tag));
                    self.entries = entries;
                    proof {
                        assert(self.entries@ =~= s0.update(
                            i as int,
                            (s0[i as int].0, SlotTag::Completed(ReqwestBytesResult(outcome))),
                        ));
                        lemma_slot_map_update(
                            s0,
                            i as int,
                            SlotTag::Completed(ReqwestBytesResult(outcome)),
                        );
                        assert(final(self)@ =~= complete_step(old(self)@, slot, outcome));
                    }
                    true
                } else {
                    false
                }
            },
            None => false,
        }
    }

    /// Observe the outcome recorded at `slot` without consuming it: querying
    /// leaves the arena untouched, so a re-query returns the same outcome.
    pub fn result_of(&self, slot: u64) -> (r: Option<&ReqwestBytesResult>)
        ensures
            match r {
                Some(b) => outcome_at(self@, slot) == Some(*b),
                None => outcome_at(self@, slot) is None,
            },
    {
        proof {
            use_type_invariant(&*self);
            lemma_slot_map_dom(self.entries@);
        }
        match self.position_of(slot) {
            Some(i) => {
                proof {
                    lemma_slot_map_index(self.entries@, i as int);
                }
                match &self.entries[i].1 {
                    SlotTag::Completed(b) => Some(b),
                    _ => None,
                }
            },
            None => None,
        }
    }

    /// Whether `slot` currently holds a recorded outcome.
    pub fn has_result(&self, slot: u64) -> (r: bool)
        ensures
            r <==> is_completed(self@, slot),
    {
        match self.result_of(slot) {
            Some(_) => true,
            None => false,
        }
    }

    /// Consume the outcome recorded at `slot`, detaching its tag and
    /// reclaiming the slot.  `None` (and the arena unchanged) when the slot
    /// holds no outcome.
    pub fn take_result(&mut self, slot: u64) -> (r: Option<ReqwestBytesResult>)
        ensures
            final(self)@ == take_result_step(old(self)@, slot),
            r == outcome_at(old(self)@, slot),
    {
        proof {
            use_type_invariant(&*self);
            lemma_slot_map_dom(self.entries@);
        }
        match self.position_of(slot) {
            Some(i) => {
                proof {
                    lemma_slot_map_index(self.entries@, i as int);
                }
                let is_done = match &self.entries[i].1 {
                    SlotTag::Completed(_) => true,
                    _ => false,
                };
                if is_done {
                    let ghost s0 = self.entries@;
                    let mut entries: Vec<(u64, SlotTag)> = Vec::new();
                    std::mem::swap(&mut entries, &mut self.entries);
                    let taken = entries.remove(i);
                    self.entries = entries;
                    proof {
                        lemma_slot_map_remove(s0, i as int);
                        assert(final(self)@ =~= take_result_step(old(self)@, slot));
                    }
                    match taken.1 {
                        SlotTag::Completed(b) => Some(b),
                        _ => unreached(),
                    }
                } else {
                    None
                }
            },
            None => None,
        }
    }

    /// Dispatcher scan: the slots currently tagged with an unconsumed request,
    /// each exactly once.
    pub fn pending_requests(&self) -> (r: Vec<u64>)
        ensures
            forall|s: u64| #[trigger] r@.contains(s) <==> is_requested(self@, s),
            r@.no_duplicates(),
    {
        proof {
            use_type_invariant(&*self);
            lemma_slot_map_dom(self.entries@);
        }
        let mut out: Vec<u64> = Vec::new();
        let n = self.entries.len();
        let mut idx: usize = 0;
        while idx < n
            invariant
                n == self.entries@.len(),
                idx <= n,
                distinct_keys(self.entries@),
                forall|s: u64| #[trigger]
                    out@.contains(s) <==> exists|j: int|
                        0 <= j < idx && self.entries@[j].0 == s && self.entries@[j].1 is Requested,
                out@.no_duplicates(),
            decreases n - idx,
        {
            let is_req = match &self.entries[idx].1 {
                SlotTag::Requested(_) => true,
                _ => false,
            };
            if is_req {
                let key = self.entries[idx].0;
                proof {
                    if out@.contains(key) {
                        let j = choose|j: int|
                            0 <= j < idx && self.entries@[j].0 == key && self.entries@[
                                j
                            ].1 is Requested;
                        assert(false);
                    }
                }
                let ghost out0 = out@;
                out.push(key);
                proof {
                    assert forall|s: u64| #[trigger] out@.contains(s) implies exists|j: int|
                        0 <= j < idx + 1 && self.entries@[j].0 == s && self.entries@[
                            j
                        ].1 is Requested by {
                        let j = choose|j: int| 0 <= j < out@.len() && out@[j] == s;
                        if j < out0.len() {
                            assert(out0.contains(s));
                        } else {
                            assert(self.entries@[idx as int].0 == s);
                        }
                    }
                    assert forall|s: u64|
                        (exists|j: int|
                            0 <= j < idx + 1 && self.entries@[j].0 == s && self.entries@[
                                j
                            ].1 is Requested) implies #[trigger] out@.contains(s) by {
                        let j = choose|j: int|
                            0 <= j < idx + 1 && self.entries@[j].0 == s && self.entries@[
                                j
                            ].1 is Requested;
                        if j < idx {
                            assert(out0.contains(s));
                            let j2 = choose|j2: int| 0 <= j2 < out0.len() && out0[j2] == s;
                            assert(out@[j2] == s);
                        } else {
                            assert(out@[out@.len() - 1] == s);
                        }
                    }
                }
            } else {
                proof {
                    assert forall|s: u64|
                        (exists|j: int|
                            0 <= j < idx + 1 && self.entries@[j].0 == s && self.entries@[
                                j
                            ].1 is Requested) implies #[trigger] out@.contains(s) by {
                        let j = choose|j: int|
                            0 <= j < idx + 1 && self.entries@[j].0 == s && self.entries@[
                                j
                            ].1 is Requested;
                        assert(j < idx);
                    }
                }
            }
            idx += 1;
        }
        proof {
            assert forall|s: u64| #[trigger] out@.contains(s) implies is_requested(self@, s) by {
                let j = choose|j: int|
                    0 <= j < n && self.entries@[j].0 == s && self.entries@[j].1 is Requested;
                lemma_slot_map_index(self.entries@, j);
            }
            assert forall|s: u64| is_requested(self@, s) implies #[trigger] out@.contains(s) by {
                let i = choose|i: int| 0 <= i < self.entries@.len() && self.entries@[i].0 == s;
                lemma_slot_map_index(self.entries@, i);
            }
        }
        out
    }

    /// Poller scan: the slots currently tied to background work, paired with
    /// their task identifiers, each slot exactly once.  Slots already holding
    /// an outcome are — by tag exclusivity — never listed.
    pub fn inflight_tasks(&self) -> (r: Vec<(u64, u64)>)
        ensures
            forall|p: (u64, u64)| #[trigger] r@.contains(p) <==> task_at(self@, p.0) == Some(p.1),
            forall|i: int, j: int| 0 <= i < j < r@.len() ==> r@[i].0 != r@[j].0,
    {
        proof {
            use_type_invariant(&*self);
            lemma_slot_map_dom(self.entries@);
        }
        let mut out: Vec<(u64, u64)> = Vec::new();
        let n = self.entries.len();
        let mut idx: usize = 0;
        while idx < n
            invariant
                n == self.entries@.len(),
                idx <= n,
                distinct_keys(self.entries@),
                forall|p: (u64, u64)| #[trigger]
                    out@.contains(p) <==> exists|j: int|
                        0 <= j < idx && self.entries@[j].0 == p.0 && self.entries@[j].1
                            == SlotTag::Inflight(p.1),
                forall|i: int, j: int| 0 <= i < j < out@.len() ==> out@[i].0 != out@[j].0,
                forall|i: int|
                    0 <= i < out@.len() ==> exists|j: int|
                        0 <= j < idx && self.entries@[j].0 == #[trigger] out@[i].0,
            decreases n - idx,
        {
            let task = match &self.entries[idx].1 {
                SlotTag::Inflight(t) => Some(*t),
                _ => None,
            };
            if let Some(t) = task {
                let key = self.entries[idx].0;
                let ghost out0 = out@;
                out.push((key, t));
                proof {
                    assert forall|i: int, j: int|
                        0 <= i < j < out@.len() implies out@[i].0 != out@[j].0 by {
                        if j == out@.len() - 1 {
                            let j2 = choose|j2: int|
                                0 <= j2 < idx && self.entries@[j2].0 == out0[i].0;
                            assert(self.entries@[j2].0 != self.entries@[idx as int].0);
                        }
                    }
                    assert forall|p: (u64, u64)| #[trigger] out@.contains(p) implies exists|j: int|
                        0 <= j < idx + 1 && self.entries@[j].0 == p.0 && self.entries@[j].1
                            == SlotTag::Inflight(p.1) by {
                        let j = choose|j: int| 0 <= j < out@.len() && out@[j] == p;
                        if j < out0.len() {
                            assert(out0.contains(p));
                        } else {
                            assert(self.entries@[idx as int].0 == p.0);
                        }
                    }
                    assert forall|p: (u64, u64)|
                        (exists|j: int|
                            0 <= j < idx + 1 && self.entries@[j].0 == p.0 && self.entries@[j].1
                                == SlotTag::Inflight(p.1)) implies #[trigger] out@.contains(p) by {
                        let j = choose|j: int|
                            0 <= j < idx + 1 && self.entries@[j].0 == p.0 && self.entries@[j].1
                                == SlotTag::Inflight(p.1);
                        if j < idx {
                            assert(out0.contains(p));
                            let j2 = choose|j2: int| 0 <= j2 < out0.len() && out0[j2] == p;
                            assert(out@[j2] == p);
                        } else {
                            assert(out@[out@.len() - 1] == p);
                        }
                    }
                }
            } else {
                proof {
                    assert forall|p: (u64, u64)|
                        (exists|j: int|
                            0 <= j < idx + 1 && self.entries@[j].0 == p.0 && self.entries@[j].1
                                == SlotTag::Inflight(p.1)) implies #[trigger] out@.contains(p) by {
                        let j = choose|j: int|
                            0 <= j < idx + 1 && self.entries@[j].0 == p.0 && self.entries@[j].1
                                == SlotTag::Inflight(p.1);
                        assert(j < idx);
                    }
                }
            }
            idx += 1;
        }
        proof {
            assert forall|p: (u64, u64)| #[trigger] out@.contains(p) implies task_at(self@, p.0)
                == Some(p.1) by {
                let j = choose|j: int|
                    0 <= j < n && self.entries@[j].0 == p.0 && self.entries@[j].1
                        == SlotTag::Inflight(p.1);
                lemma_slot_map_index(self.entries@, j);
            }
            assert forall|p: (u64, u64)| task_at(self@, p.0) == Some(p.1) implies #[trigger]
                out@.contains(p) by {
                let i = choose|i: int| 0 <= i < self.entries@.len() && self.entries@[i].0 == p.0;
                lemma_slot_map_index(self.entries@, i);
            }
        }
        out
    }
}

} // verus!
