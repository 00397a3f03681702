//! The lookups of a list of issue keys, with a bound on how many are under
//! way at once. The batch decides which lookup starts next and keeps what
//! each one yields; the caller performs them and may finish them in any
//! order.

use crate::context::records;
use crate::jira::{opt_issue, JiraIssue, JiraIssueModel};
use crate::text::texts;
use vstd::prelude::*;

verus! {

/// The most lookups that are under way at once.
pub const MAX_IN_FLIGHT: usize = 5;

/// How far the lookup of one key has come.
pub enum Slot {
    /// Not started.
    Waiting,
    /// Started and not finished.
    InFlight,
    /// Finished, with the issue or without one.
    Resolved(Option<JiraIssue>),
}

/// A `Slot` as a mathematical value.
pub enum SlotModel {
    Waiting,
    InFlight,
    Resolved(Option<JiraIssueModel>),
}

impl View for Slot {
    type V = SlotModel;

    open spec fn view(&self) -> SlotModel {
        match self {
            Slot::Waiting => SlotModel::Waiting,
            Slot::InFlight => SlotModel::InFlight,
            Slot::Resolved(issue) => SlotModel::Resolved(opt_issue(*issue)),
        }
    }
}

/// How many lookups are under way.
pub open spec fn in_flight_count(slots: Seq<SlotModel>) -> nat
    decreases slots.len(),
{
    if slots.len() == 0 {
        0
    } else {
        in_flight_count(slots.drop_last()) + if slots.last() is InFlight {
            1nat
        } else {
            0nat
        }
    }
}

/// One for a slot that is under way, zero for any other.
pub open spec fn weight(slot: SlotModel) -> int {
    if slot is InFlight {
        1
    } else {
        0
    }
}

/// Changing one slot changes the number under way by what the slot
/// weighed before and weighs after.
pub proof fn lemma_count_update(slots: Seq<SlotModel>, index: int, slot: SlotModel)
    requires
        0 <= index < slots.len(),
    ensures
        in_flight_count(slots.update(index, slot)) == in_flight_count(slots) - weight(slots[index])
            + weight(slot),
    decreases slots.len(),
{
    let changed = slots.update(index, slot);
    if index == slots.len() - 1 {
        assert(changed.drop_last() =~= slots.drop_last());
    } else {
        assert(changed.drop_last() =~= slots.drop_last().update(index, slot));
        lemma_count_update(slots.drop_last(), index, slot);
    }
}

/// What a batch is made of: the keys, and for each key how far its
/// lookup has come.
pub struct BatchModel {
    pub keys: Seq<Seq<char>>,
    pub slots: Seq<SlotModel>,
}

impl BatchModel {
    /// There is a slot for each key, and at most `MAX_IN_FLIGHT` lookups
    /// are under way.
    pub open spec fn wf(self) -> bool {
        &&& self.slots.len() == self.keys.len()
        &&& in_flight_count(self.slots) <= MAX_IN_FLIGHT
    }

    /// The batch of `keys` in which no lookup has started.
    pub open spec fn initial(keys: Seq<Seq<char>>) -> BatchModel {
        BatchModel { keys, slots: Seq::new(keys.len(), |i: int| SlotModel::Waiting) }
    }

    /// How many lookups are under way.
    pub open spec fn in_flight(self) -> nat {
        in_flight_count(self.slots)
    }

    /// Whether `index` is the first key whose lookup has not started.
    pub open spec fn is_first_waiting(self, index: int) -> bool {
        &&& 0 <= index < self.slots.len()
        &&& self.slots[index] is Waiting
        &&& forall|j: int| 0 <= j < index ==> !(#[trigger] self.slots[j] is Waiting)
    }

    /// Whether some lookup has not started.
    pub open spec fn has_waiting(self) -> bool {
        exists|i: int| 0 <= i < self.slots.len() && #[trigger] self.slots[i] is Waiting
    }

    /// Whether a lookup may start: one is waiting, and fewer than
    /// `MAX_IN_FLIGHT` are under way.
    pub open spec fn can_start(self) -> bool {
        self.in_flight() < MAX_IN_FLIGHT && self.has_waiting()
    }

    /// The first key whose lookup has not started.
    pub open spec fn first_waiting(self) -> int {
        choose|i: int| self.is_first_waiting(i)
    }

    /// The batch after the next lookup has started, if one may start.
    pub open spec fn started(self) -> BatchModel {
        if self.can_start() {
            BatchModel {
                keys: self.keys,
                slots: self.slots.update(self.first_waiting(), SlotModel::InFlight),
            }
        } else {
            self
        }
    }

    /// Whether the lookup of the key at `index` is under way.
    pub open spec fn is_in_flight(self, index: int) -> bool {
        0 <= index < self.slots.len() && self.slots[index] is InFlight
    }

    /// The batch after the lookup at `index` has finished, if it was under
    /// way.
    pub open spec fn completed(self, index: int, issue: Option<JiraIssueModel>) -> BatchModel {
        if self.is_in_flight(index) {
            BatchModel {
                keys: self.keys,
                slots: self.slots.update(index, SlotModel::Resolved(issue)),
            }
        } else {
            self
        }
    }

    /// Whether every lookup has finished.
    pub open spec fn finished(self) -> bool {
        forall|i: int| 0 <= i < self.slots.len() ==> #[trigger] self.slots[i] is Resolved
    }

    /// What the lookups have yielded, in the order of the keys; nothing for
    /// one that has not finished.
    pub open spec fn results(self) -> Seq<Option<JiraIssueModel>> {
        Seq::new(
            self.slots.len(),
            |i: int|
                match self.slots[i] {
                    SlotModel::Resolved(issue) => issue,
                    _ => None,
                },
        )
    }
}

/// At most one key is the first that waits.
pub proof fn lemma_first_waiting_is_unique(model: BatchModel, index: int)
    requires
        model.is_first_waiting(index),
    ensures
        model.has_waiting(),
        model.first_waiting() == index,
{
    assert(model.is_first_waiting(model.first_waiting()));
}

/// One key of a batch and how far its lookup has come.
pub struct Entry {
    key: String,
    slot: Slot,
}

/// The lookups of a list of keys.
pub struct FetchBatch {
    entries: Vec<Entry>,
}

impl View for FetchBatch {
    type V = BatchModel;

    closed spec fn view(&self) -> BatchModel {
        BatchModel {
            keys: self.entries@.map_values(|e: Entry| e.key@),
            slots: self.entries@.map_values(|e: Entry| e.slot@),
        }
    }
}

impl FetchBatch {
    /// A batch in which no lookup has started.
    pub fn new(keys: Vec<String>) -> (batch: FetchBatch)
        ensures
            batch@ == BatchModel::initial(texts(keys@)),
            batch@.wf(),
            batch@.in_flight() == 0,
    {
        let ghost all = texts(keys@);
        proof {
            lemma_initial_is_wf(all);
        }
        let mut entries: Vec<Entry> = Vec::new();
        for key in it: keys
            invariant
                texts(it.seq()) == all,
                it.index() <= all.len(),
                entries.len() == it.index(),
                forall|j: int|
                    0 <= j < it.index() ==> (#[trigger] entries@[j]).key@ == all[j]
                        && entries@[j].slot is Waiting,
        {
            entries.push(Entry { key, slot: Slot::Waiting });
        }
        let batch = FetchBatch { entries };
        assert(batch@.keys =~= all);
        assert(batch@.slots =~= BatchModel::initial(all).slots);
        batch
    }

    /// A batch without keys.
    pub fn empty() -> (batch: FetchBatch)
        ensures
            batch@ == BatchModel::initial(Seq::empty()),
            batch@.wf(),
    {
        let keys: Vec<String> = Vec::new();
        assert(texts(keys@) =~= Seq::<Seq<char>>::empty());
        FetchBatch::new(keys)
    }

    /// How many keys the batch has. There is a slot for each.
    pub fn len(&self) -> (n: usize)
        ensures
            n == self@.keys.len(),
            n == self@.slots.len(),
    {
        self.entries.len()
    }

    /// The key at `index`.
    pub fn key(&self, index: usize) -> (key: Option<&String>)
        ensures
            key is Some <==> index < self@.keys.len(),
            key is Some ==> key->0@ == self@.keys[index as int],
    {
        if index < self.entries.len() {
            Some(&self.entries[index].key)
        } else {
            None
        }
    }

    /// How many lookups are under way.
    pub fn in_flight(&self) -> (n: usize)
        ensures
            n == self@.in_flight(),
    {
        let mut n: usize = 0;
        let mut i: usize = 0;
        let ghost all = self@.slots;
        while i < self.entries.len()
            invariant
                i <= self.entries.len(),
                all == self@.slots,
                n == in_flight_count(all.take(i as int)),
                n <= i,
            decreases self.entries.len() - i,
        {
            assert(all.take(i + 1).drop_last() =~= all.take(i as int));
            if let Slot::InFlight = &self.entries[i].slot {
                n = n + 1;
            }
            i = i + 1;
        }
        assert(all.take(i as int) =~= all);
        n
    }

    /// Starts the next lookup, if one is waiting and fewer than
    /// `MAX_IN_FLIGHT` are under way: returns the index of its key, the
    /// first that was waiting. Otherwise nothing changes. Either way no
    /// more than `MAX_IN_FLIGHT` are under way afterwards.
    pub fn start_next(&mut self) -> (started: Option<usize>)
        ensures
            final(self)@ == old(self)@.started(),
            started is Some <==> old(self)@.can_start(),
            started is Some ==> old(self)@.is_first_waiting(started->0 as int),
            started is Some ==> started->0 == old(self)@.first_waiting(),
            started is Some ==> started->0 < old(self)@.keys.len(),
            old(self)@.wf() ==> final(self)@.wf(),
    {
        if self.in_flight() >= MAX_IN_FLIGHT {
            return None;
        }
        let mut i: usize = 0;
        while i < self.entries.len()
            invariant
                i <= self.entries.len(),
                *self == *old(self),
                self@.in_flight() < MAX_IN_FLIGHT,
                forall|j: int| 0 <= j < i ==> !(#[trigger] self@.slots[j] is Waiting),
            decreases self.entries.len() - i,
        {
            let waiting = match &self.entries[i].slot {
                Slot::Waiting => true,
                _ => false,
            };
            if waiting {
                let ghost before = self@;
                proof {
                    lemma_first_waiting_is_unique(before, i as int);
                }
                self.entries[i].slot = Slot::InFlight;
                proof {
                    assert(self@.slots =~= before.slots.update(i as int, SlotModel::InFlight));
                    assert(self@.keys =~= before.keys);
                    if before.wf() {
                        lemma_apply_keeps_bound(before, BatchOp::Start);
                    }
                }
                return Some(i);
            }
            i = i + 1;
        }
        None
    }

    /// Records what the lookup of the key at `index` yielded. Returns
    /// whether that lookup was under way; if it was not, nothing changes.
    /// No other slot is touched, whatever the lookup yielded.
    pub fn complete(&mut self, index: usize, issue: Option<JiraIssue>) -> (taken: bool)
        ensures
            final(self)@ == old(self)@.completed(index as int, opt_issue(issue)),
            taken == old(self)@.is_in_flight(index as int),
            old(self)@.wf() ==> final(self)@.wf(),
    {
        proof {
            if old(self)@.wf() {
                lemma_apply_keeps_bound(
                    old(self)@,
                    BatchOp::Complete { index: index as int, issue: opt_issue(issue) },
                );
            }
        }
        if index >= self.entries.len() {
            return false;
        }
        let under_way = match &self.entries[index].slot {
            Slot::InFlight => true,
            _ => false,
        };
        if !under_way {
            return false;
        }
        let ghost before = self@;
        self.entries[index].slot = Slot::Resolved(issue);
        proof {
            assert(self@.slots =~= before.slots.update(
                index as int,
                SlotModel::Resolved(opt_issue(issue)),
            ));
            assert(self@.keys =~= before.keys);
        }
        true
    }

    /// Whether every lookup has finished.
    pub fn is_finished(&self) -> (finished: bool)
        ensures
            finished == self@.finished(),
    {
        let mut i: usize = 0;
        while i < self.entries.len()
            invariant
                i <= self.entries.len(),
                forall|j: int| 0 <= j < i ==> #[trigger] self@.slots[j] is Resolved,
            decreases self.entries.len() - i,
        {
            let resolved = match &self.entries[i].slot {
                Slot::Resolved(_) => true,
                _ => false,
            };
            assert(resolved == (self@.slots[i as int] is Resolved));
            if !resolved {
                return false;
            }
            i = i + 1;
        }
        true
    }

    /// Hands out what the lookups yielded, in the order of the keys,
    /// whatever the order in which they finished.
    pub fn into_results(self) -> (found: Vec<Option<JiraIssue>>)
        ensures
            records(found@) == self@.results(),
    {
        let ghost all = self@.slots;
        let mut found: Vec<Option<JiraIssue>> = Vec::new();
        let entries = self.entries;
        for entry in it: entries
            invariant
                it.seq().map_values(|e: Entry| e.slot@) == all,
                it.index() <= all.len(),
                found.len() == it.index(),
                forall|j: int|
                    0 <= j < it.index() ==> opt_issue(#[trigger] found@[j]) == match all[j] {
                        SlotModel::Resolved(issue) => issue,
                        _ => None,
                    },
        {
            match entry.slot {
                Slot::Resolved(issue) => found.push(issue),
                _ => found.push(None),
            }
        }
        found
    }
}

/// One thing that happens to a batch.
pub enum BatchOp {
    /// The next lookup is asked to start.
    Start,
    /// The lookup at `index` is reported as finished.
    Complete { index: int, issue: Option<JiraIssueModel> },
}

impl BatchModel {
    /// The batch after `op`.
    pub open spec fn apply(self, op: BatchOp) -> BatchModel {
        match op {
            BatchOp::Start => self.started(),
            BatchOp::Complete { index, issue } => self.completed(index, issue),
        }
    }

    /// The batch after a run of operations.
    pub open spec fn run(self, ops: Seq<BatchOp>) -> BatchModel
        decreases ops.len(),
    {
        if ops.len() == 0 {
            self
        } else {
            self.run(ops.drop_last()).apply(ops.last())
        }
    }
}

/// A slot under way counts.
pub proof fn lemma_in_flight_counts(slots: Seq<SlotModel>, index: int)
    requires
        0 <= index < slots.len(),
        slots[index] is InFlight,
    ensures
        in_flight_count(slots) > 0,
    decreases slots.len(),
{
    if index < slots.len() - 1 {
        lemma_in_flight_counts(slots.drop_last(), index);
    }
}

/// Where no slot is under way the count is zero.
pub proof fn lemma_none_in_flight(slots: Seq<SlotModel>)
    requires
        forall|i: int| 0 <= i < slots.len() ==> !(#[trigger] slots[i] is InFlight),
    ensures
        in_flight_count(slots) == 0,
    decreases slots.len(),
{
    if slots.len() > 0 {
        let rest = slots.drop_last();
        assert forall|i: int| 0 <= i < rest.len() implies !(#[trigger] rest[i] is InFlight) by {
            assert(rest[i] == slots[i]);
        }
        lemma_none_in_flight(rest);
    }
}

/// A new batch is well formed and has nothing under way.
pub proof fn lemma_initial_is_wf(keys: Seq<Seq<char>>)
    ensures
        BatchModel::initial(keys).wf(),
        BatchModel::initial(keys).in_flight() == 0,
{
    lemma_none_in_flight(BatchModel::initial(keys).slots);
}

/// Whatever happens to a well-formed batch, it stays well formed: no
/// operation brings more than `MAX_IN_FLIGHT` lookups under way.
pub proof fn lemma_apply_keeps_bound(model: BatchModel, op: BatchOp)
    requires
        model.wf(),
    ensures
        model.apply(op).wf(),
        model.apply(op).keys == model.keys,
{
    match op {
        BatchOp::Start => {
            if model.can_start() {
                let i = choose|i: int|
                    0 <= i < model.slots.len() && #[trigger] model.slots[i] is Waiting;
                lemma_some_first_waiting(model, i);
                lemma_count_update(model.slots, model.first_waiting(), SlotModel::InFlight);
            }
        },
        BatchOp::Complete { index, issue } => {
            if model.is_in_flight(index) {
                lemma_count_update(model.slots, index, SlotModel::Resolved(issue));
            }
        },
    }
}

/// Where a slot waits, some slot is the first that waits.
pub proof fn lemma_some_first_waiting(model: BatchModel, index: int)
    requires
        0 <= index < model.slots.len(),
        model.slots[index] is Waiting,
    ensures
        model.is_first_waiting(model.first_waiting()),
        model.first_waiting() <= index,
    decreases index,
{
    if exists|j: int| 0 <= j < index && #[trigger] model.slots[j] is Waiting {
        let j = choose|j: int| 0 <= j < index && #[trigger] model.slots[j] is Waiting;
        lemma_some_first_waiting(model, j);
    } else {
        lemma_first_waiting_is_unique(model, index);
    }
}

/// From a new batch on, whatever lookups are started and in whatever order
/// they are reported as finished, never more than `MAX_IN_FLIGHT` are
/// under way.
pub proof fn lemma_bound_holds_throughout(keys: Seq<Seq<char>>, ops: Seq<BatchOp>)
    ensures
        BatchModel::initial(keys).run(ops).wf(),
        BatchModel::initial(keys).run(ops).in_flight() <= MAX_IN_FLIGHT,
        BatchModel::initial(keys).run(ops).keys == keys,
    decreases ops.len(),
{
    if ops.len() == 0 {
        lemma_initial_is_wf(keys);
    } else {
        lemma_bound_holds_throughout(keys, ops.drop_last());
        lemma_apply_keeps_bound(BatchModel::initial(keys).run(ops.drop_last()), ops.last());
    }
}

/// A lookup that yields nothing holds up no other: the others stand as
/// they stood, each can still finish with what it yields, and the order in
/// which two lookups finish does not matter.
pub proof fn lemma_lookups_are_independent(
    model: BatchModel,
    failed: int,
    other: int,
    issue: Option<JiraIssueModel>,
)
    requires
        model.is_in_flight(failed),
        model.is_in_flight(other),
        failed != other,
    ensures
        model.completed(failed, None).is_in_flight(other),
        model.completed(failed, None).completed(other, issue).results()[other] == issue,
        model.completed(failed, None).completed(other, issue).results()[failed] == None::<
            JiraIssueModel,
        >,
        model.completed(failed, None).completed(other, issue) == model.completed(
            other,
            issue,
        ).completed(failed, None),
{
    let one = model.completed(failed, None).completed(other, issue);
    let two = model.completed(other, issue).completed(failed, None);
    assert(one.slots =~= two.slots);
}

/// A batch never stalls: while a lookup is unfinished and none is under
/// way, one can start.
pub proof fn lemma_no_stall(model: BatchModel)
    requires
        model.wf(),
        !model.finished(),
        model.in_flight() == 0,
    ensures
        model.can_start(),
{
    let i = choose|i: int| 0 <= i < model.slots.len() && !(#[trigger] model.slots[i] is Resolved);
    if model.slots[i] is InFlight {
        lemma_in_flight_counts(model.slots, i);
    }
}

} // verus!
