//! The record: the one entity that the store manages.

use vstd::prelude::*;
use crate::identity::Identity;

verus! {

/// A stored record.
///
/// `id`, `owner` and `created_at` are fixed when the record is created;
/// `name`, `description` and `value` are what an update replaces, and
/// `updated_at` is the time of the last update, or of the creation if there
/// was none.
#[derive(Debug, PartialEq, Eq)]
pub struct Record {
    /// The id under which the record was created.
    pub id: u32,
    pub name: String,
    pub description: String,
    /// A number in a unit of the owner's choice.
    pub value: u64,
    /// The identity that created the record.
    pub owner: Identity,
    /// The host's time at the creation, in seconds since the epoch.
    pub created_at: u64,
    /// The host's time at the last update, in seconds since the epoch.
    pub updated_at: u64,
}

/// What a [`Record`] holds, as mathematical values.
pub struct RecordView {
    pub id: u32,
    pub name: Seq<char>,
    pub description: Seq<char>,
    pub value: u64,
    pub owner: Seq<char>,
    pub created_at: u64,
    pub updated_at: u64,
}

impl View for Record {
    type V = RecordView;

    open spec fn view(&self) -> RecordView {
        RecordView {
            id: self.id,
            name: self.name@,
            description: self.description@,
            value: self.value,
            owner: self.owner@,
            created_at: self.created_at,
            updated_at: self.updated_at,
        }
    }
}

impl RecordView {
    /// The record as it stands after an update at time `now`: the three
    /// mutable fields are replaced, the time of the update is noted, and the
    /// rest stays.
    pub open spec fn revised(
        self,
        name: Seq<char>,
        description: Seq<char>,
        value: u64,
        now: u64,
    ) -> RecordView {
        RecordView { name, description, value, updated_at: now, ..self }
    }
}

impl Record {
    /// A record as it stands right after its creation at time `now`.
    pub fn new(
        id: u32,
        name: String,
        description: String,
        value: u64,
        owner: Identity,
        now: u64,
    ) -> (record: Record)
        ensures
            record@ == (RecordView {
                id,
                name: name@,
                description: description@,
                value,
                owner: owner@,
                created_at: now,
                updated_at: now,
            }),
    {
        Record { id, name, description, value, owner, created_at: now, updated_at: now }
    }

    /// Whether `caller` is the identity that created this record.
    pub fn is_owned_by(&self, caller: &Identity) -> (owned: bool)
        ensures
            owned == (self@.owner == caller@),
    {
        self.owner.same_as(caller)
    }

    /// Replaces the mutable fields and notes `now` as the time of the update.
    pub fn revise(&mut self, name: String, description: String, value: u64, now: u64)
        ensures
            final(self)@ == old(self)@.revised(name@, description@, value, now),
    {
        self.name = name;
        self.description = description;
        self.value = value;
        self.updated_at = now;
    }
}

impl Clone for Record {
    fn clone(&self) -> (copy: Record)
        ensures
            copy@ == self@,
    {
        Record {
            id: self.id,
            name: self.name.clone(),
            description: self.description.clone(),
            value: self.value,
            owner: self.owner.clone(),
            created_at: self.created_at,
            updated_at: self.updated_at,
        }
    }
}

} // verus!
