//! The operations of the record store.

use vstd::prelude::*;
use crate::identity::Identity;
use crate::laws::{
    law_call_keeps_consistent, law_count_is_number_of_records, law_listing_by_owner,
};
use crate::model::Call;
use crate::record::{Record, RecordView};
use crate::storage::{DataKey, Storage, StorageView};

verus! {

/// The failure of a changing operation whose caller has not proved to the
/// host that it is who it claims to be. The storage is then left as it was.
#[derive(Clone, Copy, Debug, PartialEq, Eq, Structural)]
pub struct Unauthorized;

/// The views of `records`, in their order.
pub open spec fn views(records: Seq<Record>) -> Seq<RecordView> {
    records.map_values(|record: Record| record@)
}

/// The record store. It has no state of its own: every operation works on
/// the storage that it is handed.
///
/// The three changing operations take the host's verdict on the caller's
/// proof of identity as `authorized`, and fail with [`Unauthorized`] where it
/// is `false`. What counts as the time of a creation or an update is the
/// host's clock, handed in as `now`.
pub struct CrudRecordsContract;

impl CrudRecordsContract {
    /// Assigns the next id: one more than the last, which it notes as the
    /// new last.
    fn get_next_id(storage: &mut Storage) -> (id: u32)
        requires
            old(storage)@.last_id() < u32::MAX,
        ensures
            id == old(storage)@.next_id(),
            final(storage)@ == old(storage)@.with_counter(id),
    {
        let current_counter: u32 = match storage.counter() {
            Some(value) => value,
            None => 0,
        };
        let next_id: u32 = current_counter + 1;
        storage.set_counter(next_id);
        next_id
    }

    /// Creates a record that `caller` owns and returns its id.
    pub fn create_record(
        storage: &mut Storage,
        authorized: bool,
        caller: &Identity,
        name: String,
        description: String,
        value: u64,
        now: u64,
    ) -> (result: Result<u32, Unauthorized>)
        requires
            authorized ==> old(storage)@.last_id() < u32::MAX,
        ensures
            result == if authorized {
                Ok::<u32, Unauthorized>(old(storage)@.next_id())
            } else {
                Err::<u32, Unauthorized>(Unauthorized)
            },
            final(storage)@ == if authorized {
                old(storage)@.after_create(caller@, name@, description@, value, now)
            } else {
                old(storage)@
            },
            // The same, as one call in the terms of the laws.
            final(storage)@ == old(storage)@.after(
                Call::Create {
                    authorized,
                    caller: caller@,
                    name: name@,
                    description: description@,
                    value,
                    now,
                },
            ),
            old(storage)@.consistent() ==> final(storage)@.consistent(),
    {
        if !authorized {
            return Err(Unauthorized);
        }
        proof {
            if storage@.consistent() {
                law_call_keeps_consistent(
                    storage@,
                    Call::Create {
                        authorized,
                        caller: caller@,
                        name: name@,
                        description: description@,
                        value,
                        now,
                    },
                );
            }
        }
        let id = Self::get_next_id(storage);
        let record = Record::new(id, name, description, value, caller.clone(), now);
        storage.set_record(id, record);

        let mut records_list: Vec<u32> = match storage.records_list() {
            Some(ids) => ids,
            None => Vec::new(),
        };
        records_list.push(id);
        storage.set_records_list(records_list);
        Ok(id)
    }

    /// The record under `id`, if there is one. Anybody may read.
    pub fn read_record(storage: &Storage, id: u32) -> (found: Option<Record>)
        ensures
            match found {
                Some(record) => storage@.read(id) == Some(record@),
                None => storage@.read(id) is None,
            },
    {
        storage.record(id)
    }

    /// Replaces name, description and value of the record under `id` and
    /// notes `now` as the time of the update, if `caller` owns that record.
    ///
    /// Returns whether it did. Where there is no such record, or `caller` is
    /// not its owner, nothing changes.
    pub fn update_record(
        storage: &mut Storage,
        authorized: bool,
        caller: &Identity,
        id: u32,
        name: String,
        description: String,
        value: u64,
        now: u64,
    ) -> (result: Result<bool, Unauthorized>)
        ensures
            result == if authorized {
                Ok::<bool, Unauthorized>(old(storage)@.owns(caller@, id))
            } else {
                Err::<bool, Unauthorized>(Unauthorized)
            },
            final(storage)@ == if authorized && old(storage)@.owns(caller@, id) {
                old(storage)@.after_update(id, name@, description@, value, now)
            } else {
                old(storage)@
            },
            // The same, as one call in the terms of the laws.
            final(storage)@ == old(storage)@.after(
                Call::Update {
                    authorized,
                    caller: caller@,
                    id,
                    name: name@,
                    description: description@,
                    value,
                    now,
                },
            ),
            old(storage)@.consistent() ==> final(storage)@.consistent(),
    {
        if !authorized {
            return Err(Unauthorized);
        }
        proof {
            if storage@.consistent() {
                law_call_keeps_consistent(
                    storage@,
                    Call::Update {
                        authorized,
                        caller: caller@,
                        id,
                        name: name@,
                        description: description@,
                        value,
                        now,
                    },
                );
            }
        }
        match storage.record(id) {
            Some(mut record) => {
                if !record.is_owned_by(caller) {
                    return Ok(false);
                }
                record.revise(name, description, value, now);
                storage.set_record(id, record);
                Ok(true)
            },
            None => Ok(false),
        }
    }

    /// Deletes the record under `id`, if `caller` owns that record: removes
    /// it from the storage and its id from the listed ids.
    ///
    /// Returns whether it did. Where there is no such record, or `caller` is
    /// not its owner, nothing changes.
    pub fn delete_record(
        storage: &mut Storage,
        authorized: bool,
        caller: &Identity,
        id: u32,
    ) -> (result: Result<bool, Unauthorized>)
        ensures
            result == if authorized {
                Ok::<bool, Unauthorized>(old(storage)@.owns(caller@, id))
            } else {
                Err::<bool, Unauthorized>(Unauthorized)
            },
            final(storage)@ == if authorized && old(storage)@.owns(caller@, id) {
                old(storage)@.after_delete(id)
            } else {
                old(storage)@
            },
            // The same, as one call in the terms of the laws.
            final(storage)@ == old(storage)@.after(Call::Delete { authorized, caller: caller@, id }),
            old(storage)@.consistent() ==> final(storage)@.consistent(),
    {
        if !authorized {
            return Err(Unauthorized);
        }
        proof {
            if storage@.consistent() {
                law_call_keeps_consistent(storage@, Call::Delete { authorized, caller: caller@, id });
            }
        }
        match storage.record(id) {
            Some(record) => {
                if !record.is_owned_by(caller) {
                    return Ok(false);
                }
                storage.remove(&DataKey::Record(id));

                let records_list: Vec<u32> = match storage.records_list() {
                    Some(ids) => ids,
                    None => Vec::new(),
                };
                let ghost keep = StorageView::is_not(id);
                let mut new_list: Vec<u32> = Vec::new();
                let mut i: usize = 0;
                while i < records_list.len()
                    invariant
                        i <= records_list.len(),
                        new_list@ == records_list@.take(i as int).filter(keep),
                        keep == StorageView::is_not(id),
                    decreases records_list.len() - i,
                {
                    let record_id: u32 = records_list[i];
                    proof {
                        let seen = records_list@.take(i as int);
                        assert(records_list@.take(i + 1) =~= seen.push(record_id));
                        seen.lemma_filter_push(record_id, keep);
                    }
                    if record_id != id {
                        new_list.push(record_id);
                    }
                    i += 1;
                }
                assert(records_list@.take(i as int) =~= records_list@);
                storage.set_records_list(new_list);
                Ok(true)
            },
            None => Ok(false),
        }
    }

    /// All records: those of the listed ids, in the order of the list. A
    /// listed id without a record is passed over.
    pub fn list_records(storage: &Storage) -> (records: Vec<Record>)
        ensures
            views(records@) == storage@.listed(),
    {
        let records_list: Vec<u32> = match storage.records_list() {
            Some(ids) => ids,
            None => Vec::new(),
        };
        let mut result: Vec<Record> = Vec::new();
        let mut i: usize = 0;
        while i < records_list.len()
            invariant
                i <= records_list.len(),
                records_list@ == storage@.live_ids(),
                views(result@) == storage@.records_among(records_list@.take(i as int)),
            decreases records_list.len() - i,
        {
            let id: u32 = records_list[i];
            proof {
                assert(records_list@.take(i + 1) =~= records_list@.take(i as int).push(id));
                storage@.lemma_records_among_push(records_list@.take(i as int), id);
            }
            match storage.record(id) {
                Some(record) => {
                    result.push(record);
                },
                None => {},
            }
            i += 1;
        }
        assert(records_list@.take(i as int) =~= records_list@);
        result
    }

    /// The records that `owner` owns, in the order of the list of all
    /// records.
    pub fn list_records_by_owner(storage: &Storage, owner: &Identity) -> (records: Vec<Record>)
        ensures
            views(records@) == storage@.listed_by(owner@),
            forall|i: int| 0 <= i < records.len() ==> (#[trigger] records[i])@.owner == owner@,
            storage@.consistent() ==> records.len() == storage@.ids_owned_by(owner@).len(),
    {
        proof {
            law_listing_by_owner(storage@, owner@);
        }
        let records_list: Vec<u32> = match storage.records_list() {
            Some(ids) => ids,
            None => Vec::new(),
        };
        let ghost owned = StorageView::is_owned_by(owner@);
        let mut result: Vec<Record> = Vec::new();
        let mut i: usize = 0;
        while i < records_list.len()
            invariant
                i <= records_list.len(),
                records_list@ == storage@.live_ids(),
                owned == StorageView::is_owned_by(owner@),
                views(result@) == storage@.records_among(records_list@.take(i as int)).filter(
                    owned,
                ),
            decreases records_list.len() - i,
        {
            let id: u32 = records_list[i];
            proof {
                let seen = records_list@.take(i as int);
                assert(records_list@.take(i + 1) =~= seen.push(id));
                storage@.lemma_records_among_push(seen, id);
                if storage@.records.contains_key(id) {
                    storage@.records_among(seen).lemma_filter_push(storage@.records[id], owned);
                }
            }
            match storage.record(id) {
                Some(record) => {
                    if record.is_owned_by(owner) {
                        result.push(record);
                    }
                },
                None => {},
            }
            i += 1;
        }
        assert(records_list@.take(i as int) =~= records_list@);
        assert forall|i: int| 0 <= i < result.len() implies (#[trigger] result[i])@.owner
            == owner@ by {
            assert(views(result@)[i] == result[i]@);
        }
        result
    }

    /// The number of listed ids.
    pub fn get_records_count(storage: &Storage) -> (count: usize)
        ensures
            count == storage@.live_ids().len(),
            storage@.consistent() ==> count == storage@.listed().len() && count
                == storage@.records.dom().len(),
    {
        proof {
            if storage@.consistent() {
                law_count_is_number_of_records(storage@);
            }
        }
        match storage.records_list() {
            Some(ids) => ids.len(),
            None => 0,
        }
    }
}

} // verus!
