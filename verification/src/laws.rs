//! What holds of the store whatever calls it has served.

use vstd::prelude::*;
use vstd::seq_lib::lemma_seq_contains_after_push;
use crate::model::{clock_runs_forward, creations, Call};
use crate::record::RecordView;
use crate::seq_facts::{lemma_filter_keeps_all, lemma_filter_of_records, lemma_filter_of_rising};
use crate::storage::StorageView;

verus! {

/// A storage without entries is consistent.
pub proof fn law_empty_is_consistent()
    ensures
        StorageView::empty().consistent(),
        forall|now: u64| StorageView::empty().timely(now),
{
}

/// A creation leaves a consistent storage consistent, as long as the ids do
/// not run out.
proof fn lemma_create_keeps_consistent(
    storage: StorageView,
    caller: Seq<char>,
    name: Seq<char>,
    description: Seq<char>,
    value: u64,
    now: u64,
)
    requires
        storage.consistent(),
        storage.last_id() < u32::MAX,
    ensures
        storage.after_create(caller, name, description, value, now).consistent(),
{
    // The new id is above the last id given, and so above every listed id.
    broadcast use lemma_seq_contains_after_push;

}

/// A deletion leaves a consistent storage consistent.
proof fn lemma_delete_keeps_consistent(storage: StorageView, id: u32)
    requires
        storage.consistent(),
    ensures
        storage.after_delete(id).consistent(),
{
    let ids = storage.live_ids();
    let kept = ids.filter(StorageView::is_not(id));
    lemma_filter_of_rising(ids, StorageView::is_not(id));
    // An id that is still listed was listed before, and is in range as it was.
    assert forall|i: int| 0 <= i < kept.len() implies 1 <= #[trigger] kept[i]
        <= storage.last_id() by {
        assert(kept.contains(kept[i]));
        let k = choose|k: int| 0 <= k < ids.len() && ids[k] == kept[i];
        assert(1 <= ids[k] <= storage.last_id());
    }
}

/// Every call leaves a consistent storage consistent, as long as the ids do
/// not run out.
pub proof fn law_call_keeps_consistent(storage: StorageView, call: Call)
    requires
        storage.consistent(),
        call.creates() ==> storage.last_id() < u32::MAX,
    ensures
        storage.after(call).consistent(),
{
    match call {
        Call::Create { authorized, caller, name, description, value, now } => {
            if authorized {
                lemma_create_keeps_consistent(storage, caller, name, description, value, now);
            }
        },
        Call::Update { authorized, caller, id, name, description, value, now } => {},
        Call::Delete { authorized, caller, id } => {
            lemma_delete_keeps_consistent(storage, id);
        },
    }
}

/// The ids count up: every creation is given the id that follows the last
/// one given, so after any calls the last id given is higher than before by
/// the number of creations among them. Updates and deletions give no id
/// back, and a call that is refused takes none.
pub proof fn law_ids_count_up(storage: StorageView, calls: Seq<Call>)
    requires
        storage.last_id() + creations(calls) <= u32::MAX,
    ensures
        storage.after_all(calls).last_id() == storage.last_id() + creations(calls),
    decreases calls.len(),
{
    if calls.len() > 0 {
        law_ids_count_up(storage, calls.drop_last());
    }
}

/// On a storage that began without entries the ids given are 1, 2, 3 and so
/// on: whatever calls came before, the next creation is given the number of
/// creations so far and one.
pub proof fn law_ids_start_at_one(calls: Seq<Call>)
    requires
        creations(calls) < u32::MAX,
    ensures
        StorageView::empty().after_all(calls).next_id() == creations(calls) + 1,
{
    law_ids_count_up(StorageView::empty(), calls);
}

/// Whatever calls the store has served on a storage that began without
/// entries, the storage is consistent, as long as the ids did not run out.
pub proof fn law_served_storage_is_consistent(calls: Seq<Call>)
    requires
        creations(calls) <= u32::MAX,
    ensures
        StorageView::empty().after_all(calls).consistent(),
    decreases calls.len(),
{
    if calls.len() > 0 {
        law_served_storage_is_consistent(calls.drop_last());
        law_ids_count_up(StorageView::empty(), calls.drop_last());
        law_call_keeps_consistent(StorageView::empty().after_all(calls.drop_last()), calls.last());
    }
}

/// The id that the next creation gives is in use nowhere in a consistent
/// storage: every id that is listed, and every id under which a record is
/// stored, is at most the last id given.
pub proof fn law_next_id_is_unused(storage: StorageView)
    requires
        storage.consistent(),
    ensures
        forall|id: u32| #[trigger] storage.records.contains_key(id) ==> id <= storage.last_id(),
        forall|id: u32| #[trigger] storage.live_ids().contains(id) ==> id <= storage.last_id(),
{
}

/// No call of another identity touches a record: after a call whose caller
/// is not the owner of the record under `id`, the record is there as it was.
pub proof fn law_others_change_nothing(storage: StorageView, call: Call, id: u32)
    requires
        storage.consistent(),
        storage.records.contains_key(id),
        call.caller() != storage.records[id].owner,
        call.creates() ==> storage.last_id() < u32::MAX,
    ensures
        storage.after(call).read(id) == storage.read(id),
{
    law_next_id_is_unused(storage);
}

/// As long as a record is there, it keeps the id it carries, its owner and
/// the time of its creation, whatever is called.
pub proof fn law_record_keeps_identity(storage: StorageView, call: Call, id: u32)
    requires
        storage.consistent(),
        storage.records.contains_key(id),
        storage.after(call).records.contains_key(id),
        call.creates() ==> storage.last_id() < u32::MAX,
    ensures
        storage.after(call).records[id].id == storage.records[id].id,
        storage.after(call).records[id].owner == storage.records[id].owner,
        storage.after(call).records[id].created_at == storage.records[id].created_at,
{
    law_next_id_is_unused(storage);
}

/// An update or a deletion by an identity that does not own the record
/// under `id` leaves the whole storage as it was.
pub proof fn law_not_the_owner(storage: StorageView, call: Call, id: u32)
    requires
        !storage.owns(call.caller(), id),
        call.target() == Some(id),
    ensures
        storage.after(call) == storage,
{
}

/// Right after a creation the new record is read back as it was created:
/// under the id given, with the name, description and value supplied, owned
/// by the caller, created and last updated at the time of the call.
pub proof fn law_read_after_create(
    storage: StorageView,
    caller: Seq<char>,
    name: Seq<char>,
    description: Seq<char>,
    value: u64,
    now: u64,
)
    requires
        storage.last_id() < u32::MAX,
    ensures
        storage.after_create(caller, name, description, value, now).read(storage.next_id())
            == Some(
            RecordView {
                id: storage.next_id(),
                name,
                description,
                value,
                owner: caller,
                created_at: now,
                updated_at: now,
            },
        ),
{
}

/// An update changes name, description and value and notes its time; id,
/// owner and time of creation stay. With a clock that does not run
/// backwards the time of the last update does not go back either.
pub proof fn law_update_keeps_identity(
    storage: StorageView,
    id: u32,
    name: Seq<char>,
    description: Seq<char>,
    value: u64,
    now: u64,
)
    requires
        storage.records.contains_key(id),
    ensures
        ({
            let before = storage.records[id];
            let after = storage.after_update(id, name, description, value, now).records[id];
            &&& storage.after_update(id, name, description, value, now).records.contains_key(id)
            &&& after.id == before.id
            &&& after.owner == before.owner
            &&& after.created_at == before.created_at
            &&& after.name == name
            &&& after.description == description
            &&& after.value == value
            &&& after.updated_at == now
            &&& before.updated_at <= now ==> before.updated_at <= after.updated_at
        }),
{
}

/// With a clock that does not run backwards, every call keeps the times of
/// every record in order: created, then last updated, then the time of the
/// call.
pub proof fn law_call_keeps_times_in_order(storage: StorageView, call: Call, before: u64, now: u64)
    requires
        storage.timely(before),
        before <= now,
        call.time() matches Some(at) ==> before <= at <= now,
    ensures
        storage.after(call).timely(now),
{
}

/// With a clock that never ran backwards, whatever calls the store has
/// served on a storage that began without entries, no record was last
/// updated before it was created, or after the clock's last time.
pub proof fn law_served_storage_keeps_times_in_order(calls: Seq<Call>, now: u64)
    requires
        clock_runs_forward(calls, now),
    ensures
        StorageView::empty().after_all(calls).timely(now),
    decreases calls.len(),
{
    if calls.len() > 0 {
        let earlier = StorageView::empty().after_all(calls.drop_last());
        match calls.last().time() {
            Some(at) => {
                law_served_storage_keeps_times_in_order(calls.drop_last(), at);
                law_call_keeps_times_in_order(earlier, calls.last(), at, now);
            },
            None => {
                law_served_storage_keeps_times_in_order(calls.drop_last(), now);
                law_call_keeps_times_in_order(earlier, calls.last(), now, now);
            },
        }
    }
}

/// In a consistent storage the listing gives the record of each listed id,
/// in the order of the ids, and each record carries its id: the records
/// come in the order in which they were created.
pub proof fn law_listing_follows_ids(storage: StorageView)
    requires
        storage.consistent(),
    ensures
        storage.listed().len() == storage.live_ids().len(),
        forall|i: int|
            0 <= i < storage.live_ids().len() ==> {
                &&& storage.records.contains_key(storage.live_ids()[i])
                &&& #[trigger] storage.listed()[i] == storage.records[storage.live_ids()[i]]
                &&& storage.listed()[i].id == storage.live_ids()[i]
            },
        forall|i: int, j: int|
            0 <= i < j < storage.listed().len() ==> storage.listed()[i].id < storage.listed()[j].id,
{
    // Every listed id has a record, so the listing passes over none.
    lemma_filter_keeps_all(storage.live_ids(), storage.is_stored());
}

/// After a deletion the record cannot be read and its id is not listed; in
/// a consistent storage no record of the listing carries the id.
pub proof fn law_read_after_delete(storage: StorageView, id: u32)
    ensures
        storage.after_delete(id).read(id) is None,
        !storage.after_delete(id).live_ids().contains(id),
        storage.consistent() ==> forall|i: int|
            0 <= i < storage.after_delete(id).listed().len() ==> (
            #[trigger] storage.after_delete(id).listed()[i]).id != id,
{
    let kept = storage.live_ids().filter(StorageView::is_not(id));
    if kept.contains(id) {
        let i = choose|i: int| 0 <= i < kept.len() && kept[i] == id;
        storage.live_ids().lemma_filter_pred(StorageView::is_not(id), i);
    }
    if storage.consistent() {
        lemma_delete_keeps_consistent(storage, id);
        law_listing_follows_ids(storage.after_delete(id));
    }
}

/// In a consistent storage the count of listed ids is the length of the
/// listing and the number of records that are stored.
pub proof fn law_count_is_number_of_records(storage: StorageView)
    requires
        storage.consistent(),
    ensures
        storage.live_ids().len() == storage.listed().len(),
        storage.records.dom().finite(),
        storage.live_ids().len() == storage.records.dom().len(),
{
    let ids = storage.live_ids();
    law_listing_follows_ids(storage);
    // Rising ids do not repeat, so there are as many of them as in their set,
    // which is the set of the ids that have a record.
    ids.unique_seq_to_set();
    assert(storage.records.dom() =~= ids.to_set());
}

/// Every record in the listing by owner is owned by that owner; and in a
/// consistent storage the listing has as many records as are stored with
/// that owner.
pub proof fn law_listing_by_owner(storage: StorageView, owner: Seq<char>)
    ensures
        forall|i: int|
            0 <= i < storage.listed_by(owner).len() ==> (#[trigger] storage.listed_by(
                owner,
            )[i]).owner == owner,
        storage.consistent() ==> storage.ids_owned_by(owner).finite() && storage.listed_by(
            owner,
        ).len() == storage.ids_owned_by(owner).len(),
{
    let owned = StorageView::is_owned_by(owner);
    if storage.consistent() {
        let ids = storage.live_ids();
        let record_of = storage.stored();
        let owned_id = |id: u32| owned(record_of(id));
        let picked = ids.filter(owned_id);
        // The listing is the records of all listed ids; those of `owner`
        // among them are the records of the listed ids that `owner` owns.
        lemma_filter_keeps_all(ids, storage.is_stored());
        lemma_filter_of_records(ids, record_of, owned);
        // These ids rise, so they do not repeat: there are as many of them
        // as in their set, which is the set of the ids that `owner` owns.
        lemma_filter_of_rising(ids, owned_id);
        picked.unique_seq_to_set();
        assert(storage.ids_owned_by(owner) =~= picked.to_set());
    }
}

} // verus!
