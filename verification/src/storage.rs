//! The keyed storage on which the record store keeps its state.

use vstd::prelude::*;
use std::collections::HashMap;
use crate::record::{Record, RecordView};

verus! {

/// The keys under which the record store keeps its durable state.
#[derive(Clone, Copy, Debug, PartialEq, Eq, Structural)]
pub enum DataKey {
    /// The record with the given id.
    Record(u32),
    /// The last id that was assigned.
    Counter,
    /// The ids of the live records, in the order of their creation.
    RecordsList,
}

/// A keyed mapping that holds records, the id counter and the list of live
/// ids, each under its [`DataKey`].
///
/// Every entry can be absent. The storage itself relates the entries in no
/// way: what holds between them is the business of the store that writes
/// them.
#[derive(Debug)]
pub struct Storage {
    records: HashMap<u32, Record>,
    counter: Option<u32>,
    records_list: Option<Vec<u32>>,
}

/// What a [`Storage`] holds, as mathematical values.
pub struct StorageView {
    /// The entries under `DataKey::Record`, by id.
    pub records: Map<u32, RecordView>,
    /// The entry under `DataKey::Counter`.
    pub counter: Option<u32>,
    /// The entry under `DataKey::RecordsList`.
    pub records_list: Option<Seq<u32>>,
}

impl StorageView {
    /// The storage without any entry.
    pub open spec fn empty() -> StorageView {
        StorageView { records: Map::empty(), counter: None, records_list: None }
    }

    /// Whether there is an entry under `key`.
    pub open spec fn has(self, key: DataKey) -> bool {
        match key {
            DataKey::Record(id) => self.records.contains_key(id),
            DataKey::Counter => self.counter is Some,
            DataKey::RecordsList => self.records_list is Some,
        }
    }

    /// The storage after the entry under `key`, if there is one, is removed.
    pub open spec fn without(self, key: DataKey) -> StorageView {
        match key {
            DataKey::Record(id) => StorageView { records: self.records.remove(id), ..self },
            DataKey::Counter => StorageView { counter: None, ..self },
            DataKey::RecordsList => StorageView { records_list: None, ..self },
        }
    }

    /// The storage after `record` is written under `DataKey::Record(id)`.
    pub open spec fn with_record(self, id: u32, record: RecordView) -> StorageView {
        StorageView { records: self.records.insert(id, record), ..self }
    }

    /// The storage after `value` is written under `DataKey::Counter`.
    pub open spec fn with_counter(self, value: u32) -> StorageView {
        StorageView { counter: Some(value), ..self }
    }

    /// The storage after `ids` is written under `DataKey::RecordsList`.
    pub open spec fn with_records_list(self, ids: Seq<u32>) -> StorageView {
        StorageView { records_list: Some(ids), ..self }
    }
}

impl View for Storage {
    type V = StorageView;

    closed spec fn view(&self) -> StorageView {
        StorageView {
            records: self.records@.map_values(|record: Record| record@),
            counter: self.counter,
            records_list: match self.records_list {
                Some(ids) => Some(ids@),
                None => None,
            },
        }
    }
}

impl Storage {
    /// A storage without any entry.
    pub fn new() -> (storage: Storage)
        ensures
            storage@ == StorageView::empty(),
    {
        let storage = Storage { records: HashMap::new(), counter: None, records_list: None };
        assert(storage@.records =~= Map::empty());
        storage
    }

    /// Whether there is an entry under `key`.
    pub fn has(&self, key: &DataKey) -> (present: bool)
        ensures
            present == self@.has(*key),
    {
        match key {
            DataKey::Record(id) => self.records.contains_key(id),
            DataKey::Counter => self.counter.is_some(),
            DataKey::RecordsList => self.records_list.is_some(),
        }
    }

    /// Removes the entry under `key`. Without such an entry nothing changes.
    pub fn remove(&mut self, key: &DataKey)
        ensures
            final(self)@ == old(self)@.without(*key),
    {
        match key {
            DataKey::Record(id) => {
                self.records.remove(id);
                assert(final(self)@.records =~= old(self)@.records.remove(*id));
            },
            DataKey::Counter => {
                self.counter = None;
            },
            DataKey::RecordsList => {
                self.records_list = None;
            },
        }
    }

    /// A copy of the record under `DataKey::Record(id)`.
    pub fn record(&self, id: u32) -> (found: Option<Record>)
        ensures
            match found {
                Some(record) => self@.records.contains_key(id) && record@ == self@.records[id],
                None => !self@.records.contains_key(id),
            },
    {
        match self.records.get(&id) {
            Some(record) => Some(record.clone()),
            None => None,
        }
    }

    /// Writes `record` under `DataKey::Record(id)`, in place of what was there.
    pub fn set_record(&mut self, id: u32, record: Record)
        ensures
            final(self)@ == old(self)@.with_record(id, record@),
    {
        self.records.insert(id, record);
        assert(final(self)@.records =~= old(self)@.records.insert(id, record@));
    }

    /// The value under `DataKey::Counter`.
    pub fn counter(&self) -> (value: Option<u32>)
        ensures
            value == self@.counter,
    {
        self.counter
    }

    /// Writes `value` under `DataKey::Counter`.
    pub fn set_counter(&mut self, value: u32)
        ensures
            final(self)@ == old(self)@.with_counter(value),
    {
        self.counter = Some(value);
    }

    /// A copy of the list under `DataKey::RecordsList`.
    pub fn records_list(&self) -> (found: Option<Vec<u32>>)
        ensures
            match found {
                Some(ids) => self@.records_list == Some(ids@),
                None => self@.records_list is None,
            },
    {
        match &self.records_list {
            Some(ids) => Some(ids.clone()),
            None => None,
        }
    }

    /// Writes `ids` under `DataKey::RecordsList`.
    pub fn set_records_list(&mut self, ids: Vec<u32>)
        ensures
            final(self)@ == old(self)@.with_records_list(ids@),
    {
        self.records_list = Some(ids);
    }
}

} // verus!
