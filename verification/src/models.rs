//! The record types held by the store, one per table.
//!
//! Identifier fields are generated by the store; in a record that has not
//! been stored yet they are `None` (or, for `Planner`, meaningless), and the
//! store fills them in on creation.

use vstd::prelude::*;

verus! {

/// An event: something that can be planned, with a name, a location and a
/// description.
pub struct Event {
    pub event_id: Option<i32>,
    pub event_name: String,
    pub event_location: String,
    pub event_description: String,
}

/// A person; may own a planner through `planner_id`.
pub struct Person {
    pub person_id: Option<i32>,
    pub person_name: String,
    pub planner_id: Option<i32>,
}

/// An ownership marker row with no attributes of its own; referenced by
/// `Person`, `Organization` and `Plan` to group them under one planning
/// context.
pub struct Planner {
    pub planner_id: i32,
}

/// An association row linking one planner to one event.
pub struct Plan {
    pub plan_id: Option<i32>,
    pub event_id: i32,
    pub planner_id: i32,
}

/// An association row linking one person to one organization.
pub struct Affiliation {
    pub affiliation_id: Option<i32>,
    pub person_id: i32,
    pub organization_id: i32,
}

/// An association row linking one person to one event. The table is part of
/// the schema but no operation writes to it.
pub struct Participation {
    pub participation_id: Option<i32>,
    pub event_id: i32,
    pub person_id: i32,
}

/// An organization; may own a planner through `planner_id`.
pub struct Organization {
    pub organization_id: Option<i32>,
    pub organization_name: String,
    pub planner_id: Option<i32>,
}

impl Clone for Event {
    fn clone(&self) -> (res: Self)
        ensures
            res == *self,
    {
        Event {
            event_id: self.event_id,
            event_name: self.event_name.clone(),
            event_location: self.event_location.clone(),
            event_description: self.event_description.clone(),
        }
    }
}

impl Clone for Person {
    fn clone(&self) -> (res: Self)
        ensures
            res == *self,
    {
        Person {
            person_id: self.person_id,
            person_name: self.person_name.clone(),
            planner_id: self.planner_id,
        }
    }
}

impl Clone for Planner {
    fn clone(&self) -> (res: Self)
        ensures
            res == *self,
    {
        Planner { planner_id: self.planner_id }
    }
}

impl Clone for Plan {
    fn clone(&self) -> (res: Self)
        ensures
            res == *self,
    {
        Plan { plan_id: self.plan_id, event_id: self.event_id, planner_id: self.planner_id }
    }
}

impl Clone for Affiliation {
    fn clone(&self) -> (res: Self)
        ensures
            res == *self,
    {
        Affiliation {
            affiliation_id: self.affiliation_id,
            person_id: self.person_id,
            organization_id: self.organization_id,
        }
    }
}

impl Clone for Participation {
    fn clone(&self) -> (res: Self)
        ensures
            res == *self,
    {
        Participation {
            participation_id: self.participation_id,
            event_id: self.event_id,
            person_id: self.person_id,
        }
    }
}

impl Clone for Organization {
    fn clone(&self) -> (res: Self)
        ensures
            res == *self,
    {
        Organization {
            organization_id: self.organization_id,
            organization_name: self.organization_name.clone(),
            planner_id: self.planner_id,
        }
    }
}

} // verus!
