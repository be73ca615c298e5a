//! What the database writes decide.

use vstd::prelude::*;

use crate::ids::{is_v4_uuid, new_record_id};

verus! {

/// How a scraped profile is written.
#[derive(Debug)]
pub enum UpsertPlan {
    /// Merge it into the stored profile with this id.
    Update(u128),
    /// Insert it as a new profile with this fresh id.
    Insert(u128),
}

impl UpsertPlan {
    /// The id of the profile written, and whether it is new.
    pub fn outcome(&self) -> (r: (u128, bool))
        ensures
            *self matches UpsertPlan::Update(id) ==> r == (id, false),
            *self matches UpsertPlan::Insert(id) ==> r == (id, true),
    {
        match self {
            UpsertPlan::Update(id) => (*id, false),
            UpsertPlan::Insert(id) => (*id, true),
        }
    }
}

/// A matched profile is updated in place; an unmatched one is inserted under a fresh id.
pub fn plan_upsert(existing: Option<u128>) -> (r: UpsertPlan)
    ensures
        existing matches Some(id) ==> r == UpsertPlan::Update(id),
        existing is None ==> (r matches UpsertPlan::Insert(id) && is_v4_uuid(id)),
{
    match existing {
        Some(id) => UpsertPlan::Update(id),
        None => UpsertPlan::Insert(new_record_id()),
    }
}

} // verus!
