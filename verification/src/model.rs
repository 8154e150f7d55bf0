//! What the store's operations do, stated on the mathematical view of the
//! storage.

use vstd::prelude::*;
use crate::record::RecordView;
use crate::storage::StorageView;

verus! {

/// One changing call on the store, with the host's verdict on the caller's
/// proof of identity and, where the call notes a time, the host's clock.
pub enum Call {
    Create {
        authorized: bool,
        caller: Seq<char>,
        name: Seq<char>,
        description: Seq<char>,
        value: u64,
        now: u64,
    },
    Update {
        authorized: bool,
        caller: Seq<char>,
        id: u32,
        name: Seq<char>,
        description: Seq<char>,
        value: u64,
        now: u64,
    },
    Delete { authorized: bool, caller: Seq<char>, id: u32 },
}

impl Call {
    /// Whether the call creates a record: it is a creation whose caller the
    /// host has vouched for.
    pub open spec fn creates(self) -> bool {
        match self {
            Call::Create { authorized, .. } => authorized,
            _ => false,
        }
    }

    /// Whose call it is.
    pub open spec fn caller(self) -> Seq<char> {
        match self {
            Call::Create { caller, .. } => caller,
            Call::Update { caller, .. } => caller,
            Call::Delete { caller, .. } => caller,
        }
    }

    /// The id of the record that the call is to change. A creation names
    /// none.
    pub open spec fn target(self) -> Option<u32> {
        match self {
            Call::Create { .. } => None,
            Call::Update { id, .. } => Some(id),
            Call::Delete { id, .. } => Some(id),
        }
    }

    /// The host's clock at the call. A deletion notes no time.
    pub open spec fn time(self) -> Option<u64> {
        match self {
            Call::Create { now, .. } => Some(now),
            Call::Update { now, .. } => Some(now),
            Call::Delete { .. } => None,
        }
    }
}

/// Whether `ids` rise strictly.
pub open spec fn rising(ids: Seq<u32>) -> bool {
    forall|i: int, j: int| 0 <= i < j < ids.len() ==> ids[i] < ids[j]
}

/// How many of `calls` create a record.
pub open spec fn creations(calls: Seq<Call>) -> nat
    decreases calls.len(),
{
    if calls.len() == 0 {
        0
    } else {
        creations(calls.drop_last()) + if calls.last().creates() {
            1nat
        } else {
            0nat
        }
    }
}

/// Whether the host's clock never ran backwards during `calls` and was not
/// past `now` at the end.
pub open spec fn clock_runs_forward(calls: Seq<Call>, now: u64) -> bool
    decreases calls.len(),
{
    calls.len() == 0 || match calls.last().time() {
        Some(at) => at <= now && clock_runs_forward(calls.drop_last(), at),
        None => clock_runs_forward(calls.drop_last(), now),
    }
}

impl StorageView {
    /// The last id that was assigned. Without a counter entry none was, and
    /// this is 0.
    pub open spec fn last_id(self) -> u32 {
        match self.counter {
            Some(value) => value,
            None => 0,
        }
    }

    /// The id that the next creation gives: the one after the last.
    pub open spec fn next_id(self) -> u32
        recommends
            self.last_id() < u32::MAX,
    {
        (self.last_id() + 1) as u32
    }

    /// The listed ids in their order. Without a list entry there are none.
    pub open spec fn live_ids(self) -> Seq<u32> {
        match self.records_list {
            Some(ids) => ids,
            None => Seq::empty(),
        }
    }

    /// The record stored under `id`, if there is one.
    pub open spec fn read(self, id: u32) -> Option<RecordView> {
        if self.records.contains_key(id) {
            Some(self.records[id])
        } else {
            None
        }
    }

    /// Whether a record is stored under `id` and `caller` is its owner.
    pub open spec fn owns(self, caller: Seq<char>, id: u32) -> bool {
        self.records.contains_key(id) && self.records[id].owner == caller
    }

    /// The storage after `owner` has created a record at time `now`: the
    /// counter is one higher, the record stands under the new id, and the new
    /// id is the last of the listed ids.
    pub open spec fn after_create(
        self,
        owner: Seq<char>,
        name: Seq<char>,
        description: Seq<char>,
        value: u64,
        now: u64,
    ) -> StorageView
        recommends
            self.last_id() < u32::MAX,
    {
        let id = self.next_id();
        let record = RecordView {
            id,
            name,
            description,
            value,
            owner,
            created_at: now,
            updated_at: now,
        };
        StorageView {
            records: self.records.insert(id, record),
            counter: Some(id),
            records_list: Some(self.live_ids().push(id)),
        }
    }

    /// The storage after the record under `id` has been updated at time `now`.
    pub open spec fn after_update(
        self,
        id: u32,
        name: Seq<char>,
        description: Seq<char>,
        value: u64,
        now: u64,
    ) -> StorageView
        recommends
            self.records.contains_key(id),
    {
        self.with_record(id, self.records[id].revised(name, description, value, now))
    }

    /// The test by which a deletion of `id` keeps a listed id.
    pub open spec fn is_not(id: u32) -> spec_fn(u32) -> bool {
        |other: u32| other != id
    }

    /// The storage after the record under `id` has been deleted: the record
    /// is gone, and so is every occurrence of `id` among the listed ids, the
    /// others keeping their order.
    pub open spec fn after_delete(self, id: u32) -> StorageView {
        StorageView {
            records: self.records.remove(id),
            counter: self.counter,
            records_list: Some(self.live_ids().filter(Self::is_not(id))),
        }
    }

    /// The test by which a listing keeps an id: a record is stored under it.
    pub open spec fn is_stored(self) -> spec_fn(u32) -> bool {
        |id: u32| self.records.contains_key(id)
    }

    /// The record that a listing gives for an id.
    pub open spec fn stored(self) -> spec_fn(u32) -> RecordView {
        |id: u32| self.records[id]
    }

    /// The records stored under those of `ids` that have one, in the order of
    /// `ids`.
    pub open spec fn records_among(self, ids: Seq<u32>) -> Seq<RecordView> {
        ids.filter(self.is_stored()).map_values(self.stored())
    }

    /// The listing of all records: those of the listed ids, in their order.
    pub open spec fn listed(self) -> Seq<RecordView> {
        self.records_among(self.live_ids())
    }

    /// The ids under which a record of `owner` is stored.
    pub open spec fn ids_owned_by(self, owner: Seq<char>) -> Set<u32> {
        Set::new(|id: u32| self.owns(owner, id))
    }

    /// The test by which a listing by owner keeps a record.
    pub open spec fn is_owned_by(owner: Seq<char>) -> spec_fn(RecordView) -> bool {
        |record: RecordView| record.owner == owner
    }

    /// The listing of the records of `owner`: those of the listing of all
    /// records that `owner` owns, in the same order.
    pub open spec fn listed_by(self, owner: Seq<char>) -> Seq<RecordView> {
        self.listed().filter(Self::is_owned_by(owner))
    }

    /// What holds between the entries of a storage that only the store has
    /// written: the listed ids are in rising order, none of them is 0 or above
    /// the last id that was assigned, a record is stored under an id exactly
    /// if the id is listed, and each record carries the id that it is stored
    /// under.
    pub open spec fn consistent(self) -> bool {
        let ids = self.live_ids();
        &&& rising(ids)
        &&& forall|i: int| 0 <= i < ids.len() ==> 1 <= #[trigger] ids[i] <= self.last_id()
        &&& forall|id: u32|
            #![trigger self.records.contains_key(id)]
            #![trigger ids.contains(id)]
            self.records.contains_key(id) <==> ids.contains(id)
        &&& forall|id: u32|
            self.records.contains_key(id) ==> (#[trigger] self.records[id]).id == id
    }

    /// Whether the times of every record are in order and not after `now`:
    /// created, then last updated, then `now`.
    pub open spec fn timely(self, now: u64) -> bool {
        forall|id: u32|
            self.records.contains_key(id) ==> {
                let record = #[trigger] self.records[id];
                record.created_at <= record.updated_at <= now
            }
    }

    /// The storage after `call`.
    pub open spec fn after(self, call: Call) -> StorageView {
        match call {
            Call::Create { authorized, caller, name, description, value, now } => {
                if authorized {
                    self.after_create(caller, name, description, value, now)
                } else {
                    self
                }
            },
            Call::Update { authorized, caller, id, name, description, value, now } => {
                if authorized && self.owns(caller, id) {
                    self.after_update(id, name, description, value, now)
                } else {
                    self
                }
            },
            Call::Delete { authorized, caller, id } => {
                if authorized && self.owns(caller, id) {
                    self.after_delete(id)
                } else {
                    self
                }
            },
        }
    }

    /// The storage after `calls`, one after the other.
    pub open spec fn after_all(self, calls: Seq<Call>) -> StorageView
        decreases calls.len(),
    {
        if calls.len() == 0 {
            self
        } else {
            self.after_all(calls.drop_last()).after(calls.last())
        }
    }

    /// Taking one more id into account adds its record, if it has one, at the
    /// end.
    pub proof fn lemma_records_among_push(self, ids: Seq<u32>, id: u32)
        ensures
            self.records_among(ids.push(id)) == if self.records.contains_key(id) {
                self.records_among(ids).push(self.records[id])
            } else {
                self.records_among(ids)
            },
    {
        ids.lemma_filter_push(id, self.is_stored());
    }
}

} // verus!
