//! One function per store operation, each performing exactly one insert,
//! update, select or delete against the [`Store`].
//!
//! Creates return the row as stored, including its generated id; updates
//! return the updated row or [`MyError::NotFound`]; deletes return the
//! number of rows affected. A constraint violation — a foreign key that
//! references no row, a delete blocked by a referencing row, or an
//! exhausted id sequence — surfaces as [`MyError::PGError`], exactly as the
//! schema would raise it.

use vstd::prelude::*;

use crate::errors::MyError;
use crate::laws::{
    lemma_delete_affiliation_idempotent, lemma_delete_event_idempotent,
    lemma_delete_organization_idempotent, lemma_delete_person_idempotent,
    lemma_delete_plan_idempotent, lemma_delete_planner_idempotent,
};
use crate::models::{Affiliation, Event, Organization, Participation, Person, Plan, Planner};
use crate::store::{
    affiliation_index, affiliation_refs_organization, affiliation_refs_person, event_index,
    has_affiliation, has_event, has_organization, has_person, has_plan, has_planner,
    lemma_affiliation_index_of, lemma_affiliation_push_fresh,
    lemma_affiliation_remove_keeps_valid, lemma_event_index_of,
    lemma_event_push_fresh, lemma_event_remove_keeps_valid, lemma_event_update_same_id,
    lemma_has_event_after_push, lemma_has_event_after_remove, lemma_has_organization_after_push,
    lemma_has_organization_after_remove, lemma_has_person_after_push, lemma_has_person_after_remove,
    lemma_has_planner_after_push, lemma_has_planner_after_remove, lemma_organization_index_of,
    lemma_organization_push_fresh, lemma_organization_remove_keeps_valid, lemma_person_index_of,
    lemma_person_push_fresh, lemma_person_remove_keeps_valid, lemma_person_update_same_id,
    lemma_plan_index_of, lemma_plan_push_fresh, lemma_plan_remove_keeps_valid,
    lemma_planner_index_of, lemma_planner_push_fresh, lemma_planner_remove_keeps_valid,
    organization_index, person_index, person_refs_planner, plan_index, plan_refs_event,
    plan_refs_planner, planner_events, planner_index, events_for_person,
    organization_refs_planner, participation_refs_event, participation_refs_person,
    same_except_affiliations, same_except_events, same_except_organizations, same_except_persons,
    same_except_planners, same_except_plans, Store,
};

verus! {

// ---------------------------------------------------------------------------
// Row lookup by id.
// ---------------------------------------------------------------------------
fn find_event(events: &Vec<Event>, id: i32) -> (r: Option<usize>)
    ensures
        (match r {
            Some(j) => j < events@.len() && events@[j as int].event_id == Some(id) && has_event(
                events@,
                id,
            ),
            None => !has_event(events@, id),
        }),
{
    let mut i: usize = 0;
    while i < events.len()
        invariant
            i <= events@.len(),
            forall|k: int| 0 <= k < i ==> (#[trigger] events@[k]).event_id != Some(id),
        decreases events@.len() - i,
    {
        match events[i].event_id {
            Some(x) => if x == id {
                return Some(i);
            },
            None => {},
        }
        i = i + 1;
    }
    None
}

fn find_person(persons: &Vec<Person>, id: i32) -> (r: Option<usize>)
    ensures
        (match r {
            Some(j) => j < persons@.len() && persons@[j as int].person_id == Some(id) && has_person(
                persons@,
                id,
            ),
            None => !has_person(persons@, id),
        }),
{
    let mut i: usize = 0;
    while i < persons.len()
        invariant
            i <= persons@.len(),
            forall|k: int| 0 <= k < i ==> (#[trigger] persons@[k]).person_id != Some(id),
        decreases persons@.len() - i,
    {
        match persons[i].person_id {
            Some(x) => if x == id {
                return Some(i);
            },
            None => {},
        }
        i = i + 1;
    }
    None
}

fn find_planner(planners: &Vec<Planner>, id: i32) -> (r: Option<usize>)
    ensures
        (match r {
            Some(j) => j < planners@.len() && planners@[j as int].planner_id == id && has_planner(
                planners@,
                id,
            ),
            None => !has_planner(planners@, id),
        }),
{
    let mut i: usize = 0;
    while i < planners.len()
        invariant
            i <= planners@.len(),
            forall|k: int| 0 <= k < i ==> (#[trigger] planners@[k]).planner_id != id,
        decreases planners@.len() - i,
    {
        if planners[i].planner_id == id {
            return Some(i);
        }
        i = i + 1;
    }
    None
}

fn find_plan(plans: &Vec<Plan>, id: i32) -> (r: Option<usize>)
    ensures
        (match r {
            Some(j) => j < plans@.len() && plans@[j as int].plan_id == Some(id) && has_plan(
                plans@,
                id,
            ),
            None => !has_plan(plans@, id),
        }),
{
    let mut i: usize = 0;
    while i < plans.len()
        invariant
            i <= plans@.len(),
            forall|k: int| 0 <= k < i ==> (#[trigger] plans@[k]).plan_id != Some(id),
        decreases plans@.len() - i,
    {
        match plans[i].plan_id {
            Some(x) => if x == id {
                return Some(i);
            },
            None => {},
        }
        i = i + 1;
    }
    None
}

fn find_affiliation(affiliations: &Vec<Affiliation>, id: i32) -> (r: Option<usize>)
    ensures
        (match r {
            Some(j) => j < affiliations@.len() && affiliations@[j as int].affiliation_id == Some(id)
                && has_affiliation(affiliations@, id),
            None => !has_affiliation(affiliations@, id),
        }),
{
    let mut i: usize = 0;
    while i < affiliations.len()
        invariant
            i <= affiliations@.len(),
            forall|k: int| 0 <= k < i ==> (#[trigger] affiliations@[k]).affiliation_id != Some(id),
        decreases affiliations@.len() - i,
    {
        match affiliations[i].affiliation_id {
            Some(x) => if x == id {
                return Some(i);
            },
            None => {},
        }
        i = i + 1;
    }
    None
}

fn find_organization(organizations: &Vec<Organization>, id: i32) -> (r: Option<usize>)
    ensures
        (match r {
            Some(j) => j < organizations@.len() && organizations@[j as int].organization_id == Some(
                id,
            ) && has_organization(organizations@, id),
            None => !has_organization(organizations@, id),
        }),
{
    let mut i: usize = 0;
    while i < organizations.len()
        invariant
            i <= organizations@.len(),
            forall|k: int|
                0 <= k < i ==> (#[trigger] organizations@[k]).organization_id != Some(id),
        decreases organizations@.len() - i,
    {
        match organizations[i].organization_id {
            Some(x) => if x == id {
                return Some(i);
            },
            None => {},
        }
        i = i + 1;
    }
    None
}

// ---------------------------------------------------------------------------
// Scans for rows that reference a given row.
// ---------------------------------------------------------------------------
fn plan_for_event_exists(plans: &Vec<Plan>, id: i32) -> (b: bool)
    ensures
        b == plan_refs_event(plans@, id),
{
    let mut i: usize = 0;
    while i < plans.len()
        invariant
            i <= plans@.len(),
            forall|k: int| 0 <= k < i ==> (#[trigger] plans@[k]).event_id != id,
        decreases plans@.len() - i,
    {
        if plans[i].event_id == id {
            return true;
        }
        i = i + 1;
    }
    false
}

fn plan_for_planner_exists(plans: &Vec<Plan>, id: i32) -> (b: bool)
    ensures
        b == plan_refs_planner(plans@, id),
{
    let mut i: usize = 0;
    while i < plans.len()
        invariant
            i <= plans@.len(),
            forall|k: int| 0 <= k < i ==> (#[trigger] plans@[k]).planner_id != id,
        decreases plans@.len() - i,
    {
        if plans[i].planner_id == id {
            return true;
        }
        i = i + 1;
    }
    false
}

fn person_for_planner_exists(persons: &Vec<Person>, id: i32) -> (b: bool)
    ensures
        b == person_refs_planner(persons@, id),
{
    let mut i: usize = 0;
    while i < persons.len()
        invariant
            i <= persons@.len(),
            forall|k: int| 0 <= k < i ==> (#[trigger] persons@[k]).planner_id != Some(id),
        decreases persons@.len() - i,
    {
        match persons[i].planner_id {
            Some(x) => if x == id {
                return true;
            },
            None => {},
        }
        i = i + 1;
    }
    false
}

fn organization_for_planner_exists(organizations: &Vec<Organization>, id: i32) -> (b: bool)
    ensures
        b == organization_refs_planner(organizations@, id),
{
    let mut i: usize = 0;
    while i < organizations.len()
        invariant
            i <= organizations@.len(),
            forall|k: int| 0 <= k < i ==> (#[trigger] organizations@[k]).planner_id != Some(id),
        decreases organizations@.len() - i,
    {
        match organizations[i].planner_id {
            Some(x) => if x == id {
                return true;
            },
            None => {},
        }
        i = i + 1;
    }
    false
}

fn affiliation_for_person_exists(affiliations: &Vec<Affiliation>, id: i32) -> (b: bool)
    ensures
        b == affiliation_refs_person(affiliations@, id),
{
    let mut i: usize = 0;
    while i < affiliations.len()
        invariant
            i <= affiliations@.len(),
            forall|k: int| 0 <= k < i ==> (#[trigger] affiliations@[k]).person_id != id,
        decreases affiliations@.len() - i,
    {
        if affiliations[i].person_id == id {
            return true;
        }
        i = i + 1;
    }
    false
}

fn affiliation_for_organization_exists(affiliations: &Vec<Affiliation>, id: i32) -> (b: bool)
    ensures
        b == affiliation_refs_organization(affiliations@, id),
{
    let mut i: usize = 0;
    while i < affiliations.len()
        invariant
            i <= affiliations@.len(),
            forall|k: int| 0 <= k < i ==> (#[trigger] affiliations@[k]).organization_id != id,
        decreases affiliations@.len() - i,
    {
        if affiliations[i].organization_id == id {
            return true;
        }
        i = i + 1;
    }
    false
}

fn participation_for_event_exists(participations: &Vec<Participation>, id: i32) -> (b: bool)
    ensures
        b == participation_refs_event(participations@, id),
{
    let mut i: usize = 0;
    while i < participations.len()
        invariant
            i <= participations@.len(),
            forall|k: int| 0 <= k < i ==> (#[trigger] participations@[k]).event_id != id,
        decreases participations@.len() - i,
    {
        if participations[i].event_id == id {
            return true;
        }
        i = i + 1;
    }
    false
}

fn participation_for_person_exists(participations: &Vec<Participation>, id: i32) -> (b: bool)
    ensures
        b == participation_refs_person(participations@, id),
{
    let mut i: usize = 0;
    while i < participations.len()
        invariant
            i <= participations@.len(),
            forall|k: int| 0 <= k < i ==> (#[trigger] participations@[k]).person_id != id,
        decreases participations@.len() - i,
    {
        if participations[i].person_id == id {
            return true;
        }
        i = i + 1;
    }
    false
}

// ---------------------------------------------------------------------------
// Events.
// ---------------------------------------------------------------------------
/// Insert an event; the id is generated, every other field is stored as
/// given. Returns the row as stored.
pub fn create_event(s: &mut Store, event_info: Event) -> (r: Result<Event, MyError>)
    requires
        old(s).wf(),
        old(s).next_event_id < i32::MAX,
    ensures
        final(s).wf(),
        r matches Ok(out) && ({
            &&& out.event_id == Some(old(s).next_event_id)
            &&& out.event_name == event_info.event_name
            &&& out.event_location == event_info.event_location
            &&& out.event_description == event_info.event_description
            &&& final(s).events@ == old(s).events@.push(out)
            &&& final(s).next_event_id == old(s).next_event_id + 1
            &&& same_except_events(*old(s), *final(s))
        }),
{
    let id = s.next_event_id;
    let stored = Event {
        event_id: Some(id),
        event_name: event_info.event_name,
        event_location: event_info.event_location,
        event_description: event_info.event_description,
    };
    let out = stored.clone();
    proof {
        lemma_event_push_fresh(s.events@, stored, id, (id + 1) as i32);
    }
    s.events.push(stored);
    s.next_event_id = id + 1;
    proof {
        assert forall|i: int| 0 <= i < s.plans@.len() implies has_event(
            s.events@,
            (#[trigger] s.plans@[i]).event_id,
        ) && has_planner(s.planners@, s.plans@[i].planner_id) by {
            assert(has_event(old(s).events@, s.plans@[i].event_id));
            lemma_has_event_after_push(old(s).events@, stored, s.plans@[i].event_id);
        }
        assert forall|i: int| 0 <= i < s.participations@.len() implies has_event(
            s.events@,
            (#[trigger] s.participations@[i]).event_id,
        ) && has_person(s.persons@, s.participations@[i].person_id) by {
            assert(has_event(old(s).events@, s.participations@[i].event_id));
            lemma_has_event_after_push(old(s).events@, stored, s.participations@[i].event_id);
        }
    }
    Ok(out)
}

/// Update the name and description of the event whose id is given; the
/// location is left as stored. Returns the updated row, or `NotFound` when
/// no row matches the id.
pub fn modify_event(s: &mut Store, event_info: Event) -> (r: Result<Event, MyError>)
    requires
        old(s).wf(),
        event_info.event_id is Some,
    ensures
        final(s).wf(),
        !has_event(old(s).events@, event_info.event_id->0) ==> (r matches Err(e) && e
            == MyError::NotFound && *final(s) == *old(s)),
        has_event(old(s).events@, event_info.event_id->0) ==> (r matches Ok(out) && ({
            let id = event_info.event_id->0;
            let j = event_index(old(s).events@, id);
            &&& out.event_id == Some(id)
            &&& out.event_name == event_info.event_name
            &&& out.event_description == event_info.event_description
            &&& out.event_location == old(s).events@[j].event_location
            &&& final(s).events@ == old(s).events@.update(j, out)
            &&& final(s).next_event_id == old(s).next_event_id
            &&& same_except_events(*old(s), *final(s))
        })),
{
    let id = event_info.event_id.unwrap();
    match find_event(&s.events, id) {
        None => Err(MyError::NotFound),
        Some(j) => {
            let location = s.events[j].event_location.clone();
            let updated = Event {
                event_id: Some(id),
                event_name: event_info.event_name,
                event_location: location,
                event_description: event_info.event_description,
            };
            let out = updated.clone();
            proof {
                lemma_event_index_of(s.events@, id, j as int);
                lemma_event_update_same_id(s.events@, j as int, updated, s.next_event_id);
            }
            s.events.set(j, updated);
            proof {
                assert forall|i: int| 0 <= i < s.plans@.len() implies has_event(
                    s.events@,
                    (#[trigger] s.plans@[i]).event_id,
                ) && has_planner(s.planners@, s.plans@[i].planner_id) by {
                    assert(has_event(old(s).events@, s.plans@[i].event_id));
                }
                assert forall|i: int| 0 <= i < s.participations@.len() implies has_event(
                    s.events@,
                    (#[trigger] s.participations@[i]).event_id,
                ) && has_person(s.persons@, s.participations@[i].person_id) by {
                    assert(has_event(old(s).events@, s.participations@[i].event_id));
                }
            }
            Ok(out)
        },
    }
}

/// All events reachable from the given person through its planner and that
/// planner's plans, in plan order; the empty sequence — never an error —
/// when the person or its planner reaches nothing.
pub fn get_events(s: &Store, person_info: Person) -> (r: Result<Vec<Event>, MyError>)
    requires
        s.wf(),
    ensures
        r matches Ok(v) && v@ == events_for_person(*s, person_info.person_id),
{
    let pid = match person_info.person_id {
        Some(id) => id,
        None => {
            return Ok(Vec::new());
        },
    };
    let pj = match find_person(&s.persons, pid) {
        Some(pj) => pj,
        None => {
            return Ok(Vec::new());
        },
    };
    proof {
        lemma_person_index_of(s.persons@, pid, pj as int);
    }
    let pl = match s.persons[pj].planner_id {
        Some(pl) => pl,
        None => {
            return Ok(Vec::new());
        },
    };
    let mut out: Vec<Event> = Vec::new();
    let mut i: usize = 0;
    while i < s.plans.len()
        invariant
            s.wf(),
            i <= s.plans@.len(),
            out@ == planner_events(s.plans@.subrange(0, i as int), s.events@, pl),
        decreases s.plans@.len() - i,
    {
        let plan_planner = s.plans[i].planner_id;
        let plan_event = s.plans[i].event_id;
        if plan_planner == pl {
            assert(has_event(s.events@, plan_event));
            // Every stored plan references a stored event, so this lookup
            // cannot miss.
            let ej = match find_event(&s.events, plan_event) {
                Some(ej) => ej,
                None => {
                    proof {
                        assert(false);
                    }
                    0
                },
            };
            proof {
                lemma_event_index_of(s.events@, plan_event, ej as int);
            }
            out.push(s.events[ej].clone());
        }
        proof {
            assert(s.plans@.subrange(0, i + 1).drop_last() =~= s.plans@.subrange(0, i as int));
            assert(s.plans@.subrange(0, i + 1).last() == s.plans@[i as int]);
        }
        i = i + 1;
    }
    proof {
        assert(s.plans@.subrange(0, s.plans@.len() as int) =~= s.plans@);
    }
    Ok(out)
}

/// Delete the event whose id is given; returns the number of rows affected
/// (0 when no row matches, 1 when one did). A delete blocked by a plan or
/// participation that still references the event fails as the schema's
/// foreign keys make it fail.
pub fn delete_event(s: &mut Store, event_info: Event) -> (r: Result<u64, MyError>)
    requires
        old(s).wf(),
        event_info.event_id is Some,
    ensures
        final(s).wf(),
        ({
            let id = event_info.event_id->0;
            &&& (!has_event(old(s).events@, id) ==> (r matches Ok(n) && n == 0 && *final(s) == *old(
                s,
            )))
            &&& ((has_event(old(s).events@, id) && old(s).event_referenced(id)) ==> (
            r matches Err(e) && e == MyError::PGError && *final(s) == *old(s)))
            &&& ((has_event(old(s).events@, id) && !old(s).event_referenced(id)) ==> (
            r matches Ok(n) && n == 1 && ({
                &&& final(s).events@ == old(s).events@.remove(event_index(old(s).events@, id))
                &&& !has_event(final(s).events@, id)
                &&& final(s).next_event_id == old(s).next_event_id
                &&& same_except_events(*old(s), *final(s))
            })))
        }),
{
    let id = event_info.event_id.unwrap();
    match find_event(&s.events, id) {
        None => Ok(0u64),
        Some(j) => {
            if plan_for_event_exists(&s.plans, id) || participation_for_event_exists(
                &s.participations,
                id,
            ) {
                Err(MyError::PGError)
            } else {
                proof {
                    lemma_event_index_of(s.events@, id, j as int);
                    lemma_delete_event_idempotent(s.events@, id);
                    lemma_event_remove_keeps_valid(s.events@, j as int, s.next_event_id);
                }
                let _removed = s.events.remove(j);
                proof {
                    assert forall|i: int| 0 <= i < s.plans@.len() implies has_event(
                        s.events@,
                        (#[trigger] s.plans@[i]).event_id,
                    ) && has_planner(s.planners@, s.plans@[i].planner_id) by {
                        if s.plans@[i].event_id == id {
                            assert(plan_refs_event(s.plans@, id));
                        }
                        assert(has_event(old(s).events@, s.plans@[i].event_id));
                        lemma_has_event_after_remove(old(s).events@, j as int, s.plans@[i].event_id);
                    }
                    assert forall|i: int| 0 <= i < s.participations@.len() implies has_event(
                        s.events@,
                        (#[trigger] s.participations@[i]).event_id,
                    ) && has_person(s.persons@, s.participations@[i].person_id) by {
                        if s.participations@[i].event_id == id {
                            assert(participation_refs_event(s.participations@, id));
                        }
                        assert(has_event(old(s).events@, s.participations@[i].event_id));
                        lemma_has_event_after_remove(
                            old(s).events@,
                            j as int,
                            s.participations@[i].event_id,
                        );
                    }
                }
                Ok(1u64)
            }
        },
    }
}

// ---------------------------------------------------------------------------
// Plans.
// ---------------------------------------------------------------------------
/// Insert a plan linking the given planner to the given event; the id is
/// generated, the given plan id is ignored. Fails as the schema does when
/// either foreign key references no row.
pub fn create_plan(s: &mut Store, plan_info: Plan) -> (r: Result<Plan, MyError>)
    requires
        old(s).wf(),
        old(s).next_plan_id < i32::MAX,
    ensures
        final(s).wf(),
        (has_event(old(s).events@, plan_info.event_id) && has_planner(
            old(s).planners@,
            plan_info.planner_id,
        )) ==> (r matches Ok(out) && ({
            &&& out.plan_id == Some(old(s).next_plan_id)
            &&& out.event_id == plan_info.event_id
            &&& out.planner_id == plan_info.planner_id
            &&& final(s).plans@ == old(s).plans@.push(out)
            &&& final(s).next_plan_id == old(s).next_plan_id + 1
            &&& same_except_plans(*old(s), *final(s))
        })),
        !(has_event(old(s).events@, plan_info.event_id) && has_planner(
            old(s).planners@,
            plan_info.planner_id,
        )) ==> (r matches Err(e) && e == MyError::PGError && *final(s) == *old(s)),
{
    if find_event(&s.events, plan_info.event_id).is_none() {
        return Err(MyError::PGError);
    }
    if find_planner(&s.planners, plan_info.planner_id).is_none() {
        return Err(MyError::PGError);
    }
    let id = s.next_plan_id;
    let stored = Plan {
        plan_id: Some(id),
        event_id: plan_info.event_id,
        planner_id: plan_info.planner_id,
    };
    let out = stored.clone();
    proof {
        lemma_plan_push_fresh(s.plans@, stored, id, (id + 1) as i32);
    }
    s.plans.push(stored);
    s.next_plan_id = id + 1;
    proof {
        let n = old(s).plans@.len() as int;
        assert forall|i: int| 0 <= i < s.plans@.len() implies has_event(
            s.events@,
            (#[trigger] s.plans@[i]).event_id,
        ) && has_planner(s.planners@, s.plans@[i].planner_id) by {
            if i < n {
                assert(s.plans@[i] == old(s).plans@[i]);
                assert(has_event(old(s).events@, old(s).plans@[i].event_id) && has_planner(
                    old(s).planners@,
                    old(s).plans@[i].planner_id,
                ));
            } else {
                assert(s.plans@[i] == stored);
            }
        }
    }
    Ok(out)
}

/// Delete the plan whose id is given; returns the number of rows affected.
/// Nothing references a plan, so the delete cannot be blocked.
pub fn delete_plan(s: &mut Store, plan_info: Plan) -> (r: Result<u64, MyError>)
    requires
        old(s).wf(),
        plan_info.plan_id is Some,
    ensures
        final(s).wf(),
        ({
            let id = plan_info.plan_id->0;
            &&& (!has_plan(old(s).plans@, id) ==> (r matches Ok(n) && n == 0 && *final(s) == *old(
                s,
            )))
            &&& (has_plan(old(s).plans@, id) ==> (r matches Ok(n) && n == 1 && ({
                &&& final(s).plans@ == old(s).plans@.remove(plan_index(old(s).plans@, id))
                &&& !has_plan(final(s).plans@, id)
                &&& final(s).next_plan_id == old(s).next_plan_id
                &&& same_except_plans(*old(s), *final(s))
            })))
        }),
{
    let id = plan_info.plan_id.unwrap();
    match find_plan(&s.plans, id) {
        None => Ok(0u64),
        Some(j) => {
            proof {
                lemma_plan_index_of(s.plans@, id, j as int);
                lemma_delete_plan_idempotent(s.plans@, id);
                lemma_plan_remove_keeps_valid(s.plans@, j as int, s.next_plan_id);
                s.plans@.remove_ensures(j as int);
            }
            let ghost pre = s.plans@;
            let _removed = s.plans.remove(j);
            proof {
                assert forall|i: int| 0 <= i < s.plans@.len() implies has_event(
                    s.events@,
                    (#[trigger] s.plans@[i]).event_id,
                ) && has_planner(s.planners@, s.plans@[i].planner_id) by {
                    let i0: int = if i < j as int {
                        i
                    } else {
                        i + 1
                    };
                    assert(s.plans@[i] == pre[i0]);
                    assert(has_event(old(s).events@, pre[i0].event_id) && has_planner(
                        old(s).planners@,
                        pre[i0].planner_id,
                    ));
                }
            }
            Ok(1u64)
        },
    }
}

// ---------------------------------------------------------------------------
// Planners.
// ---------------------------------------------------------------------------
/// Insert a planner row; its id is generated and it carries nothing else.
pub fn create_planner(s: &mut Store) -> (r: Result<Planner, MyError>)
    requires
        old(s).wf(),
        old(s).next_planner_id < i32::MAX,
    ensures
        final(s).wf(),
        r matches Ok(out) && ({
            &&& out.planner_id == old(s).next_planner_id
            &&& final(s).planners@ == old(s).planners@.push(out)
            &&& final(s).next_planner_id == old(s).next_planner_id + 1
            &&& same_except_planners(*old(s), *final(s))
        }),
{
    let id = s.next_planner_id;
    let stored = Planner { planner_id: id };
    let out = stored.clone();
    proof {
        lemma_planner_push_fresh(s.planners@, stored, id, (id + 1) as i32);
    }
    s.planners.push(stored);
    s.next_planner_id = id + 1;
    proof {
        assert forall|i: int| 0 <= i < s.plans@.len() implies has_event(
            s.events@,
            (#[trigger] s.plans@[i]).event_id,
        ) && has_planner(s.planners@, s.plans@[i].planner_id) by {
            assert(has_planner(old(s).planners@, s.plans@[i].planner_id));
            lemma_has_planner_after_push(old(s).planners@, stored, s.plans@[i].planner_id);
        }
        assert forall|i: int|
            0 <= i < s.persons@.len() implies ((#[trigger] s.persons@[i]).planner_id matches Some(
            pl,
        ) ==> has_planner(s.planners@, pl)) by {
            match s.persons@[i].planner_id {
                Some(pl) => {
                    assert(has_planner(old(s).planners@, pl));
                    lemma_has_planner_after_push(old(s).planners@, stored, pl);
                },
                None => {},
            }
        }
        assert forall|i: int|
            0 <= i < s.organizations@.len() implies ((
        #[trigger] s.organizations@[i]).planner_id matches Some(pl) ==> has_planner(
            s.planners@,
            pl,
        )) by {
            match s.organizations@[i].planner_id {
                Some(pl) => {
                    assert(has_planner(old(s).planners@, pl));
                    lemma_has_planner_after_push(old(s).planners@, stored, pl);
                },
                None => {},
            }
        }
    }
    Ok(out)
}

/// Delete the planner whose id is given; returns the number of rows
/// affected. A delete blocked by a person, organization or plan that still
/// references the planner fails as the schema's foreign keys make it fail.
pub fn delete_planner(s: &mut Store, planner_info: Planner) -> (r: Result<u64, MyError>)
    requires
        old(s).wf(),
    ensures
        final(s).wf(),
        ({
            let id = planner_info.planner_id;
            &&& (!has_planner(old(s).planners@, id) ==> (r matches Ok(n) && n == 0 && *final(s)
                == *old(s)))
            &&& ((has_planner(old(s).planners@, id) && old(s).planner_referenced(id)) ==> (
            r matches Err(e) && e == MyError::PGError && *final(s) == *old(s)))
            &&& ((has_planner(old(s).planners@, id) && !old(s).planner_referenced(id)) ==> (
            r matches Ok(n) && n == 1 && ({
                &&& final(s).planners@ == old(s).planners@.remove(
                    planner_index(old(s).planners@, id),
                )
                &&& !has_planner(final(s).planners@, id)
                &&& final(s).next_planner_id == old(s).next_planner_id
                &&& same_except_planners(*old(s), *final(s))
            })))
        }),
{
    let id = planner_info.planner_id;
    match find_planner(&s.planners, id) {
        None => Ok(0u64),
        Some(j) => {
            if person_for_planner_exists(&s.persons, id) || organization_for_planner_exists(
                &s.organizations,
                id,
            ) || plan_for_planner_exists(&s.plans, id) {
                Err(MyError::PGError)
            } else {
                proof {
                    lemma_planner_index_of(s.planners@, id, j as int);
                    lemma_delete_planner_idempotent(s.planners@, id);
                    lemma_planner_remove_keeps_valid(s.planners@, j as int, s.next_planner_id);
                }
                let _removed = s.planners.remove(j);
                proof {
                    assert forall|i: int| 0 <= i < s.plans@.len() implies has_event(
                        s.events@,
                        (#[trigger] s.plans@[i]).event_id,
                    ) && has_planner(s.planners@, s.plans@[i].planner_id) by {
                        if s.plans@[i].planner_id == id {
                            assert(plan_refs_planner(s.plans@, id));
                        }
                        assert(has_planner(old(s).planners@, s.plans@[i].planner_id));
                        lemma_has_planner_after_remove(
                            old(s).planners@,
                            j as int,
                            s.plans@[i].planner_id,
                        );
                    }
                    assert forall|i: int|
                        0 <= i < s.persons@.len() implies ((
                    #[trigger] s.persons@[i]).planner_id matches Some(pl) ==> has_planner(
                        s.planners@,
                        pl,
                    )) by {
                        match s.persons@[i].planner_id {
                            Some(pl) => {
                                if pl == id {
                                    assert(person_refs_planner(s.persons@, id));
                                }
                                assert(has_planner(old(s).planners@, pl));
                                lemma_has_planner_after_remove(old(s).planners@, j as int, pl);
                            },
                            None => {},
                        }
                    }
                    assert forall|i: int|
                        0 <= i < s.organizations@.len() implies ((
                    #[trigger] s.organizations@[i]).planner_id matches Some(pl) ==> has_planner(
                        s.planners@,
                        pl,
                    )) by {
                        match s.organizations@[i].planner_id {
                            Some(pl) => {
                                if pl == id {
                                    assert(organization_refs_planner(s.organizations@, id));
                                }
                                assert(has_planner(old(s).planners@, pl));
                                lemma_has_planner_after_remove(old(s).planners@, j as int, pl);
                            },
                            None => {},
                        }
                    }
                }
                Ok(1u64)
            }
        },
    }
}

// ---------------------------------------------------------------------------
// Persons.
// ---------------------------------------------------------------------------
/// Insert a person; the id is generated, the name and the owned planner are
/// stored as given. Fails as the schema does when the given planner id
/// references no row.
pub fn create_person(s: &mut Store, person_info: Person) -> (r: Result<Person, MyError>)
    requires
        old(s).wf(),
        old(s).next_person_id < i32::MAX,
    ensures
        final(s).wf(),
        (person_info.planner_id matches Some(pl) ==> has_planner(old(s).planners@, pl)) ==> (
        r matches Ok(out) && ({
            &&& out.person_id == Some(old(s).next_person_id)
            &&& out.person_name == person_info.person_name
            &&& out.planner_id == person_info.planner_id
            &&& final(s).persons@ == old(s).persons@.push(out)
            &&& final(s).next_person_id == old(s).next_person_id + 1
            &&& same_except_persons(*old(s), *final(s))
        })),
        !(person_info.planner_id matches Some(pl) ==> has_planner(old(s).planners@, pl)) ==> (
        r matches Err(e) && e == MyError::PGError && *final(s) == *old(s)),
{
    match person_info.planner_id {
        Some(pl) => {
            if find_planner(&s.planners, pl).is_none() {
                return Err(MyError::PGError);
            }
        },
        None => {},
    }
    let id = s.next_person_id;
    let stored = Person {
        person_id: Some(id),
        person_name: person_info.person_name,
        planner_id: person_info.planner_id,
    };
    let out = stored.clone();
    proof {
        lemma_person_push_fresh(s.persons@, stored, id, (id + 1) as i32);
    }
    s.persons.push(stored);
    s.next_person_id = id + 1;
    proof {
        let n = old(s).persons@.len() as int;
        assert forall|i: int|
            0 <= i < s.persons@.len() implies ((#[trigger] s.persons@[i]).planner_id matches Some(
            pl,
        ) ==> has_planner(s.planners@, pl)) by {
            if i < n {
                assert(s.persons@[i] == old(s).persons@[i]);
                assert(old(s).persons@[i].planner_id matches Some(pl) ==> has_planner(
                    old(s).planners@,
                    pl,
                ));
            } else {
                assert(s.persons@[i] == stored);
            }
        }
        assert forall|i: int| 0 <= i < s.affiliations@.len() implies has_person(
            s.persons@,
            (#[trigger] s.affiliations@[i]).person_id,
        ) && has_organization(s.organizations@, s.affiliations@[i].organization_id) by {
            assert(has_person(old(s).persons@, s.affiliations@[i].person_id));
            lemma_has_person_after_push(old(s).persons@, stored, s.affiliations@[i].person_id);
        }
        assert forall|i: int| 0 <= i < s.participations@.len() implies has_event(
            s.events@,
            (#[trigger] s.participations@[i]).event_id,
        ) && has_person(s.persons@, s.participations@[i].person_id) by {
            assert(has_person(old(s).persons@, s.participations@[i].person_id));
            lemma_has_person_after_push(old(s).persons@, stored, s.participations@[i].person_id);
        }
    }
    Ok(out)
}

/// Update the name of the person whose id is given; the owned planner is
/// left as stored. Returns the updated row, or `NotFound` when the id is
/// missing or matches no row.
pub fn modify_person(s: &mut Store, person_info: Person) -> (r: Result<Person, MyError>)
    requires
        old(s).wf(),
    ensures
        final(s).wf(),
        !(person_info.person_id matches Some(id) && has_person(old(s).persons@, id)) ==> (
        r matches Err(e) && e == MyError::NotFound && *final(s) == *old(s)),
        (person_info.person_id matches Some(id) && has_person(old(s).persons@, id)) ==> (
        r matches Ok(out) && ({
            let pid = person_info.person_id->0;
            let j = person_index(old(s).persons@, pid);
            &&& out.person_id == Some(pid)
            &&& out.person_name == person_info.person_name
            &&& out.planner_id == old(s).persons@[j].planner_id
            &&& final(s).persons@ == old(s).persons@.update(j, out)
            &&& final(s).next_person_id == old(s).next_person_id
            &&& same_except_persons(*old(s), *final(s))
        })),
{
    let id = match person_info.person_id {
        Some(id) => id,
        None => {
            return Err(MyError::NotFound);
        },
    };
    match find_person(&s.persons, id) {
        None => Err(MyError::NotFound),
        Some(j) => {
            let planner = s.persons[j].planner_id;
            let updated = Person {
                person_id: Some(id),
                person_name: person_info.person_name,
                planner_id: planner,
            };
            let out = updated.clone();
            proof {
                lemma_person_index_of(s.persons@, id, j as int);
                lemma_person_update_same_id(s.persons@, j as int, updated, s.next_person_id);
            }
            s.persons.set(j, updated);
            proof {
                let n = old(s).persons@.len() as int;
                assert forall|i: int|
                    0 <= i < s.persons@.len() implies ((
                #[trigger] s.persons@[i]).planner_id matches Some(pl) ==> has_planner(
                    s.planners@,
                    pl,
                )) by {
                    if i != j as int {
                        assert(s.persons@[i] == old(s).persons@[i]);
                    } else {
                        assert(s.persons@[i].planner_id == old(s).persons@[i].planner_id);
                    }
                    assert(old(s).persons@[i].planner_id matches Some(pl) ==> has_planner(
                        old(s).planners@,
                        pl,
                    ));
                }
                assert forall|i: int| 0 <= i < s.affiliations@.len() implies has_person(
                    s.persons@,
                    (#[trigger] s.affiliations@[i]).person_id,
                ) && has_organization(s.organizations@, s.affiliations@[i].organization_id) by {
                    assert(has_person(old(s).persons@, s.affiliations@[i].person_id));
                }
                assert forall|i: int| 0 <= i < s.participations@.len() implies has_event(
                    s.events@,
                    (#[trigger] s.participations@[i]).event_id,
                ) && has_person(s.persons@, s.participations@[i].person_id) by {
                    assert(has_person(old(s).persons@, s.participations@[i].person_id));
                }
            }
            Ok(out)
        },
    }
}

/// Delete the person whose id is given; returns the number of rows
/// affected. A delete blocked by an affiliation or participation that
/// still references the person fails as the schema's foreign keys make it
/// fail.
pub fn delete_person(s: &mut Store, person_info: Person) -> (r: Result<u64, MyError>)
    requires
        old(s).wf(),
        person_info.person_id is Some,
    ensures
        final(s).wf(),
        ({
            let id = person_info.person_id->0;
            &&& (!has_person(old(s).persons@, id) ==> (r matches Ok(n) && n == 0 && *final(s)
                == *old(s)))
            &&& ((has_person(old(s).persons@, id) && old(s).person_referenced(id)) ==> (
            r matches Err(e) && e == MyError::PGError && *final(s) == *old(s)))
            &&& ((has_person(old(s).persons@, id) && !old(s).person_referenced(id)) ==> (
            r matches Ok(n) && n == 1 && ({
                &&& final(s).persons@ == old(s).persons@.remove(person_index(old(s).persons@, id))
                &&& !has_person(final(s).persons@, id)
                &&& final(s).next_person_id == old(s).next_person_id
                &&& same_except_persons(*old(s), *final(s))
            })))
        }),
{
    let id = person_info.person_id.unwrap();
    match find_person(&s.persons, id) {
        None => Ok(0u64),
        Some(j) => {
            if affiliation_for_person_exists(&s.affiliations, id) || participation_for_person_exists(
                &s.participations,
                id,
            ) {
                Err(MyError::PGError)
            } else {
                proof {
                    lemma_person_index_of(s.persons@, id, j as int);
                    lemma_delete_person_idempotent(s.persons@, id);
                    lemma_person_remove_keeps_valid(s.persons@, j as int, s.next_person_id);
                    s.persons@.remove_ensures(j as int);
                }
                let ghost pre = s.persons@;
                let _removed = s.persons.remove(j);
                proof {
                    assert forall|i: int|
                        0 <= i < s.persons@.len() implies ((
                    #[trigger] s.persons@[i]).planner_id matches Some(pl) ==> has_planner(
                        s.planners@,
                        pl,
                    )) by {
                        let i0: int = if i < j as int {
                            i
                        } else {
                            i + 1
                        };
                        assert(s.persons@[i] == pre[i0]);
                        assert(pre[i0].planner_id matches Some(pl) ==> has_planner(
                            old(s).planners@,
                            pl,
                        ));
                    }
                    assert forall|i: int| 0 <= i < s.affiliations@.len() implies has_person(
                        s.persons@,
                        (#[trigger] s.affiliations@[i]).person_id,
                    ) && has_organization(s.organizations@, s.affiliations@[i].organization_id) by {
                        if s.affiliations@[i].person_id == id {
                            assert(affiliation_refs_person(s.affiliations@, id));
                        }
                        assert(has_person(old(s).persons@, s.affiliations@[i].person_id));
                        lemma_has_person_after_remove(
                            old(s).persons@,
                            j as int,
                            s.affiliations@[i].person_id,
                        );
                    }
                    assert forall|i: int| 0 <= i < s.participations@.len() implies has_event(
                        s.events@,
                        (#[trigger] s.participations@[i]).event_id,
                    ) && has_person(s.persons@, s.participations@[i].person_id) by {
                        if s.participations@[i].person_id == id {
                            assert(participation_refs_person(s.participations@, id));
                        }
                        assert(has_person(old(s).persons@, s.participations@[i].person_id));
                        lemma_has_person_after_remove(
                            old(s).persons@,
                            j as int,
                            s.participations@[i].person_id,
                        );
                    }
                }
                Ok(1u64)
            }
        },
    }
}

// ---------------------------------------------------------------------------
// Affiliations.
// ---------------------------------------------------------------------------
/// Insert an affiliation linking the given person to the given
/// organization; the id is generated, the given affiliation id is ignored.
/// Fails as the schema does when either foreign key references no row.
pub fn create_affiliation(s: &mut Store, affiliation_info: Affiliation) -> (r: Result<
    Affiliation,
    MyError,
>)
    requires
        old(s).wf(),
        old(s).next_affiliation_id < i32::MAX,
    ensures
        final(s).wf(),
        (has_person(old(s).persons@, affiliation_info.person_id) && has_organization(
            old(s).organizations@,
            affiliation_info.organization_id,
        )) ==> (r matches Ok(out) && ({
            &&& out.affiliation_id == Some(old(s).next_affiliation_id)
            &&& out.person_id == affiliation_info.person_id
            &&& out.organization_id == affiliation_info.organization_id
            &&& final(s).affiliations@ == old(s).affiliations@.push(out)
            &&& final(s).next_affiliation_id == old(s).next_affiliation_id + 1
            &&& same_except_affiliations(*old(s), *final(s))
        })),
        !(has_person(old(s).persons@, affiliation_info.person_id) && has_organization(
            old(s).organizations@,
            affiliation_info.organization_id,
        )) ==> (r matches Err(e) && e == MyError::PGError && *final(s) == *old(s)),
{
    if find_person(&s.persons, affiliation_info.person_id).is_none() {
        return Err(MyError::PGError);
    }
    if find_organization(&s.organizations, affiliation_info.organization_id).is_none() {
        return Err(MyError::PGError);
    }
    let id = s.next_affiliation_id;
    let stored = Affiliation {
        affiliation_id: Some(id),
        person_id: affiliation_info.person_id,
        organization_id: affiliation_info.organization_id,
    };
    let out = stored.clone();
    proof {
        lemma_affiliation_push_fresh(s.affiliations@, stored, id, (id + 1) as i32);
    }
    s.affiliations.push(stored);
    s.next_affiliation_id = id + 1;
    proof {
        let n = old(s).affiliations@.len() as int;
        assert forall|i: int| 0 <= i < s.affiliations@.len() implies has_person(
            s.persons@,
            (#[trigger] s.affiliations@[i]).person_id,
        ) && has_organization(s.organizations@, s.affiliations@[i].organization_id) by {
            if i < n {
                assert(s.affiliations@[i] == old(s).affiliations@[i]);
                assert(has_person(old(s).persons@, old(s).affiliations@[i].person_id)
                    && has_organization(
                    old(s).organizations@,
                    old(s).affiliations@[i].organization_id,
                ));
            } else {
                assert(s.affiliations@[i] == stored);
            }
        }
    }
    Ok(out)
}

/// Delete the affiliation whose id is given; returns the number of rows
/// affected. Nothing references an affiliation, so the delete cannot be
/// blocked.
pub fn delete_affiliation(s: &mut Store, affiliation_info: Affiliation) -> (r: Result<
    u64,
    MyError,
>)
    requires
        old(s).wf(),
        affiliation_info.affiliation_id is Some,
    ensures
        final(s).wf(),
        ({
            let id = affiliation_info.affiliation_id->0;
            &&& (!has_affiliation(old(s).affiliations@, id) ==> (r matches Ok(n) && n == 0
                && *final(s) == *old(s)))
            &&& (has_affiliation(old(s).affiliations@, id) ==> (r matches Ok(n) && n == 1 && ({
                &&& final(s).affiliations@ == old(s).affiliations@.remove(
                    affiliation_index(old(s).affiliations@, id),
                )
                &&& !has_affiliation(final(s).affiliations@, id)
                &&& final(s).next_affiliation_id == old(s).next_affiliation_id
                &&& same_except_affiliations(*old(s), *final(s))
            })))
        }),
{
    let id = affiliation_info.affiliation_id.unwrap();
    match find_affiliation(&s.affiliations, id) {
        None => Ok(0u64),
        Some(j) => {
            proof {
                lemma_affiliation_index_of(s.affiliations@, id, j as int);
                lemma_delete_affiliation_idempotent(s.affiliations@, id);
                lemma_affiliation_remove_keeps_valid(
                    s.affiliations@,
                    j as int,
                    s.next_affiliation_id,
                );
                s.affiliations@.remove_ensures(j as int);
            }
            let ghost pre = s.affiliations@;
            let _removed = s.affiliations.remove(j);
            proof {
                assert forall|i: int| 0 <= i < s.affiliations@.len() implies has_person(
                    s.persons@,
                    (#[trigger] s.affiliations@[i]).person_id,
                ) && has_organization(s.organizations@, s.affiliations@[i].organization_id) by {
                    let i0: int = if i < j as int {
                        i
                    } else {
                        i + 1
                    };
                    assert(s.affiliations@[i] == pre[i0]);
                    assert(has_person(old(s).persons@, pre[i0].person_id) && has_organization(
                        old(s).organizations@,
                        pre[i0].organization_id,
                    ));
                }
            }
            Ok(1u64)
        },
    }
}

// ---------------------------------------------------------------------------
// Organizations.
// ---------------------------------------------------------------------------
/// Insert an organization; the id is generated, the name and the owned
/// planner are stored as given. Fails as the schema does when the given
/// planner id references no row.
pub fn create_organization(s: &mut Store, organization_info: Organization) -> (r: Result<
    Organization,
    MyError,
>)
    requires
        old(s).wf(),
        old(s).next_organization_id < i32::MAX,
    ensures
        final(s).wf(),
        (organization_info.planner_id matches Some(pl) ==> has_planner(old(s).planners@, pl))
            ==> (r matches Ok(out) && ({
            &&& out.organization_id == Some(old(s).next_organization_id)
            &&& out.organization_name == organization_info.organization_name
            &&& out.planner_id == organization_info.planner_id
            &&& final(s).organizations@ == old(s).organizations@.push(out)
            &&& final(s).next_organization_id == old(s).next_organization_id + 1
            &&& same_except_organizations(*old(s), *final(s))
        })),
        !(organization_info.planner_id matches Some(pl) ==> has_planner(old(s).planners@, pl))
            ==> (r matches Err(e) && e == MyError::PGError && *final(s) == *old(s)),
{
    match organization_info.planner_id {
        Some(pl) => {
            if find_planner(&s.planners, pl).is_none() {
                return Err(MyError::PGError);
            }
        },
        None => {},
    }
    let id = s.next_organization_id;
    let stored = Organization {
        organization_id: Some(id),
        organization_name: organization_info.organization_name,
        planner_id: organization_info.planner_id,
    };
    let out = stored.clone();
    proof {
        lemma_organization_push_fresh(s.organizations@, stored, id, (id + 1) as i32);
    }
    s.organizations.push(stored);
    s.next_organization_id = id + 1;
    proof {
        let n = old(s).organizations@.len() as int;
        assert forall|i: int|
            0 <= i < s.organizations@.len() implies ((
        #[trigger] s.organizations@[i]).planner_id matches Some(pl) ==> has_planner(
            s.planners@,
            pl,
        )) by {
            if i < n {
                assert(s.organizations@[i] == old(s).organizations@[i]);
                assert(old(s).organizations@[i].planner_id matches Some(pl) ==> has_planner(
                    old(s).planners@,
                    pl,
                ));
            } else {
                assert(s.organizations@[i] == stored);
            }
        }
        assert forall|i: int| 0 <= i < s.affiliations@.len() implies has_person(
            s.persons@,
            (#[trigger] s.affiliations@[i]).person_id,
        ) && has_organization(s.organizations@, s.affiliations@[i].organization_id) by {
            assert(has_organization(old(s).organizations@, s.affiliations@[i].organization_id));
            lemma_has_organization_after_push(
                old(s).organizations@,
                stored,
                s.affiliations@[i].organization_id,
            );
        }
    }
    Ok(out)
}

/// Delete the organization whose id is given; returns the number of rows
/// affected. A delete blocked by an affiliation that still references the
/// organization fails as the schema's foreign keys make it fail.
pub fn delete_organization(s: &mut Store, organization_info: Organization) -> (r: Result<
    u64,
    MyError,
>)
    requires
        old(s).wf(),
        organization_info.organization_id is Some,
    ensures
        final(s).wf(),
        ({
            let id = organization_info.organization_id->0;
            &&& (!has_organization(old(s).organizations@, id) ==> (r matches Ok(n) && n == 0
                && *final(s) == *old(s)))
            &&& ((has_organization(old(s).organizations@, id) && old(s).organization_referenced(
                id,
            )) ==> (r matches Err(e) && e == MyError::PGError && *final(s) == *old(s)))
            &&& ((has_organization(old(s).organizations@, id) && !old(s).organization_referenced(
                id,
            )) ==> (r matches Ok(n) && n == 1 && ({
                &&& final(s).organizations@ == old(s).organizations@.remove(
                    organization_index(old(s).organizations@, id),
                )
                &&& !has_organization(final(s).organizations@, id)
                &&& final(s).next_organization_id == old(s).next_organization_id
                &&& same_except_organizations(*old(s), *final(s))
            })))
        }),
{
    let id = organization_info.organization_id.unwrap();
    match find_organization(&s.organizations, id) {
        None => Ok(0u64),
        Some(j) => {
            if affiliation_for_organization_exists(&s.affiliations, id) {
                Err(MyError::PGError)
            } else {
                proof {
                    lemma_organization_index_of(s.organizations@, id, j as int);
                    lemma_delete_organization_idempotent(s.organizations@, id);
                    lemma_organization_remove_keeps_valid(
                        s.organizations@,
                        j as int,
                        s.next_organization_id,
                    );
                    s.organizations@.remove_ensures(j as int);
                }
                let ghost pre = s.organizations@;
                let _removed = s.organizations.remove(j);
                proof {
                    assert forall|i: int|
                        0 <= i < s.organizations@.len() implies ((
                    #[trigger] s.organizations@[i]).planner_id matches Some(pl) ==> has_planner(
                        s.planners@,
                        pl,
                    )) by {
                        let i0: int = if i < j as int {
                            i
                        } else {
                            i + 1
                        };
                        assert(s.organizations@[i] == pre[i0]);
                        assert(pre[i0].planner_id matches Some(pl) ==> has_planner(
                            old(s).planners@,
                            pl,
                        ));
                    }
                    assert forall|i: int| 0 <= i < s.affiliations@.len() implies has_person(
                        s.persons@,
                        (#[trigger] s.affiliations@[i]).person_id,
                    ) && has_organization(s.organizations@, s.affiliations@[i].organization_id) by {
                        if s.affiliations@[i].organization_id == id {
                            assert(affiliation_refs_organization(s.affiliations@, id));
                        }
                        assert(has_organization(
                            old(s).organizations@,
                            s.affiliations@[i].organization_id,
                        ));
                        lemma_has_organization_after_remove(
                            old(s).organizations@,
                            j as int,
                            s.affiliations@[i].organization_id,
                        );
                    }
                }
                Ok(1u64)
            }
        },
    }
}

} // verus!
