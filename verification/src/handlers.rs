//! One function per HTTP route, mapped onto the store.
//!
//! Each handler performs one store operation — two for person and
//! organization creation, which first materialize an owning planner — and
//! decides the response: creates, updates and reads answer with the
//! resulting record or an error, deletes answer with a status code derived
//! from the number of rows affected (0 rows: 404, 1 row: 200, anything
//! else: 500). Decoding request bodies and writing responses is the web
//! layer's work and happens outside this crate.

use vstd::prelude::*;

use crate::errors::MyError;
use crate::models::{Affiliation, Event, Organization, Person, Plan, Planner};
use crate::query;
use crate::store::{
    affiliation_index, event_index, events_for_person, has_affiliation, has_event,
    has_organization, has_person, has_plan, has_planner, organization_index, person_index,
    plan_index, planner_index, same_except_affiliations, same_except_events,
    same_except_organizations, same_except_organizations_and_planners, same_except_persons,
    same_except_persons_and_planners, same_except_planners, same_except_plans, Store,
};

verus! {

/// The status a delete responds with, from the number of rows affected:
/// no row matched is 404, exactly one row is 200, and more than one row —
/// impossible while ids are unique — is reported as 500.
pub fn delete_status(n: u64) -> (code: u16)
    ensures
        code == (if n == 0 {
            404u16
        } else if n == 1 {
            200u16
        } else {
            500u16
        }),
{
    if n == 0 {
        404
    } else if n == 1 {
        200
    } else {
        500
    }
}

/// POST /events: store a new event and answer with the stored row.
pub fn create_event(s: &mut Store, event: Event) -> (r: Result<Event, MyError>)
    requires
        old(s).wf(),
        old(s).next_event_id < i32::MAX,
    ensures
        final(s).wf(),
        r matches Ok(out) && ({
            &&& out.event_id == Some(old(s).next_event_id)
            &&& out.event_name == event.event_name
            &&& out.event_location == event.event_location
            &&& out.event_description == event.event_description
            &&& final(s).events@ == old(s).events@.push(out)
            &&& final(s).next_event_id == old(s).next_event_id + 1
            &&& same_except_events(*old(s), *final(s))
        }),
{
    query::create_event(s, event)
}

/// PATCH /events: update an event's name and description by id and answer
/// with the updated row, or 404 when the id matches nothing.
pub fn modify_event(s: &mut Store, event: Event) -> (r: Result<Event, MyError>)
    requires
        old(s).wf(),
        event.event_id is Some,
    ensures
        final(s).wf(),
        !has_event(old(s).events@, event.event_id->0) ==> (r matches Err(e) && e
            == MyError::NotFound && *final(s) == *old(s)),
        has_event(old(s).events@, event.event_id->0) ==> (r matches Ok(out) && ({
            let id = event.event_id->0;
            let j = event_index(old(s).events@, id);
            &&& out.event_id == Some(id)
            &&& out.event_name == event.event_name
            &&& out.event_description == event.event_description
            &&& out.event_location == old(s).events@[j].event_location
            &&& final(s).events@ == old(s).events@.update(j, out)
            &&& final(s).next_event_id == old(s).next_event_id
            &&& same_except_events(*old(s), *final(s))
        })),
{
    query::modify_event(s, event)
}

/// DELETE /events: delete an event by id and answer with a status code.
pub fn delete_event(s: &mut Store, event: Event) -> (r: Result<u16, MyError>)
    requires
        old(s).wf(),
        event.event_id is Some,
    ensures
        final(s).wf(),
        ({
            let id = event.event_id->0;
            &&& (!has_event(old(s).events@, id) ==> (r matches Ok(c) && c == 404 && *final(s)
                == *old(s)))
            &&& ((has_event(old(s).events@, id) && old(s).event_referenced(id)) ==> (
            r matches Err(e) && e == MyError::PGError && *final(s) == *old(s)))
            &&& ((has_event(old(s).events@, id) && !old(s).event_referenced(id)) ==> (
            r matches Ok(c) && c == 200 && ({
                &&& final(s).events@ == old(s).events@.remove(event_index(old(s).events@, id))
                &&& !has_event(final(s).events@, id)
                &&& final(s).next_event_id == old(s).next_event_id
                &&& same_except_events(*old(s), *final(s))
            })))
        }),
{
    match query::delete_event(s, event) {
        Ok(n) => Ok(delete_status(n)),
        Err(e) => Err(e),
    }
}

/// GET /events, GET /users/{person_id}/events: answer with every event
/// reachable from the given person, the empty list when there are none.
pub fn get_events(s: &Store, person: Person) -> (r: Result<Vec<Event>, MyError>)
    requires
        s.wf(),
    ensures
        r matches Ok(v) && v@ == events_for_person(*s, person.person_id),
{
    query::get_events(s, person)
}

/// POST /plans: store a new plan and answer with the stored row.
pub fn create_plan(s: &mut Store, plan: Plan) -> (r: Result<Plan, MyError>)
    requires
        old(s).wf(),
        old(s).next_plan_id < i32::MAX,
    ensures
        final(s).wf(),
        (has_event(old(s).events@, plan.event_id) && has_planner(
            old(s).planners@,
            plan.planner_id,
        )) ==> (r matches Ok(out) && ({
            &&& out.plan_id == Some(old(s).next_plan_id)
            &&& out.event_id == plan.event_id
            &&& out.planner_id == plan.planner_id
            &&& final(s).plans@ == old(s).plans@.push(out)
            &&& final(s).next_plan_id == old(s).next_plan_id + 1
            &&& same_except_plans(*old(s), *final(s))
        })),
        !(has_event(old(s).events@, plan.event_id) && has_planner(
            old(s).planners@,
            plan.planner_id,
        )) ==> (r matches Err(e) && e == MyError::PGError && *final(s) == *old(s)),
{
    query::create_plan(s, plan)
}

/// DELETE /plans: delete a plan by id and answer with a status code.
pub fn delete_plan(s: &mut Store, plan: Plan) -> (r: Result<u16, MyError>)
    requires
        old(s).wf(),
        plan.plan_id is Some,
    ensures
        final(s).wf(),
        ({
            let id = plan.plan_id->0;
            &&& (!has_plan(old(s).plans@, id) ==> (r matches Ok(c) && c == 404 && *final(s) == *old(
                s,
            )))
            &&& (has_plan(old(s).plans@, id) ==> (r matches Ok(c) && c == 200 && ({
                &&& final(s).plans@ == old(s).plans@.remove(plan_index(old(s).plans@, id))
                &&& !has_plan(final(s).plans@, id)
                &&& final(s).next_plan_id == old(s).next_plan_id
                &&& same_except_plans(*old(s), *final(s))
            })))
        }),
{
    match query::delete_plan(s, plan) {
        Ok(n) => Ok(delete_status(n)),
        Err(e) => Err(e),
    }
}

/// POST /planner: store a new planner row and answer with it.
pub fn create_planner(s: &mut Store) -> (r: Result<Planner, MyError>)
    requires
        old(s).wf(),
        old(s).next_planner_id < i32::MAX,
    ensures
        final(s).wf(),
        r matches Ok(out) && ({
            &&& out.planner_id == old(s).next_planner_id
            &&& final(s).planners@ == old(s).planners@.push(out)
            &&& final(s).next_planner_id == old(s).next_planner_id + 1
            &&& same_except_planners(*old(s), *final(s))
        }),
{
    query::create_planner(s)
}

/// DELETE /planner: delete a planner by id and answer with a status code.
pub fn delete_planner(s: &mut Store, planner: Planner) -> (r: Result<u16, MyError>)
    requires
        old(s).wf(),
    ensures
        final(s).wf(),
        ({
            let id = planner.planner_id;
            &&& (!has_planner(old(s).planners@, id) ==> (r matches Ok(c) && c == 404 && *final(s)
                == *old(s)))
            &&& ((has_planner(old(s).planners@, id) && old(s).planner_referenced(id)) ==> (
            r matches Err(e) && e == MyError::PGError && *final(s) == *old(s)))
            &&& ((has_planner(old(s).planners@, id) && !old(s).planner_referenced(id)) ==> (
            r matches Ok(c) && c == 200 && ({
                &&& final(s).planners@ == old(s).planners@.remove(
                    planner_index(old(s).planners@, id),
                )
                &&& !has_planner(final(s).planners@, id)
                &&& final(s).next_planner_id == old(s).next_planner_id
                &&& same_except_planners(*old(s), *final(s))
            })))
        }),
{
    match query::delete_planner(s, planner) {
        Ok(n) => Ok(delete_status(n)),
        Err(e) => Err(e),
    }
}

/// POST /users: materialize a fresh planner, then store the person owning
/// it, and answer with the stored person. Exactly one planner row is
/// created alongside the person.
pub fn create_person(s: &mut Store, person: Person) -> (r: Result<Person, MyError>)
    requires
        old(s).wf(),
        old(s).next_planner_id < i32::MAX,
        old(s).next_person_id < i32::MAX,
    ensures
        final(s).wf(),
        r matches Ok(out) && ({
            let pl = (Planner { planner_id: old(s).next_planner_id });
            &&& out.person_id == Some(old(s).next_person_id)
            &&& out.person_name == person.person_name
            &&& out.planner_id == Some(old(s).next_planner_id)
            &&& final(s).planners@ == old(s).planners@.push(pl)
            &&& final(s).persons@ == old(s).persons@.push(out)
            &&& final(s).next_planner_id == old(s).next_planner_id + 1
            &&& final(s).next_person_id == old(s).next_person_id + 1
            &&& same_except_persons_and_planners(*old(s), *final(s))
        }),
{
    let planner = match query::create_planner(s) {
        Ok(p) => p,
        Err(e) => {
            return Err(e);
        },
    };
    let owned = Person {
        person_id: None,
        person_name: person.person_name,
        planner_id: Some(planner.planner_id),
    };
    proof {
        assert(s.planners@[s.planners@.len() - 1] == planner);
        assert(has_planner(s.planners@, planner.planner_id));
    }
    match query::create_person(s, owned) {
        Ok(p) => Ok(p),
        Err(e) => Err(e),
    }
}

/// PATCH /users: update a person's name by id and answer with the updated
/// row, or 404 when the id matches nothing.
pub fn modify_person(s: &mut Store, person: Person) -> (r: Result<Person, MyError>)
    requires
        old(s).wf(),
    ensures
        final(s).wf(),
        !(person.person_id matches Some(id) && has_person(old(s).persons@, id)) ==> (
        r matches Err(e) && e == MyError::NotFound && *final(s) == *old(s)),
        (person.person_id matches Some(id) && has_person(old(s).persons@, id)) ==> (
        r matches Ok(out) && ({
            let pid = person.person_id->0;
            let j = person_index(old(s).persons@, pid);
            &&& out.person_id == Some(pid)
            &&& out.person_name == person.person_name
            &&& out.planner_id == old(s).persons@[j].planner_id
            &&& final(s).persons@ == old(s).persons@.update(j, out)
            &&& final(s).next_person_id == old(s).next_person_id
            &&& same_except_persons(*old(s), *final(s))
        })),
{
    query::modify_person(s, person)
}

/// DELETE /users: delete a person by id and answer with a status code.
pub fn delete_person(s: &mut Store, person: Person) -> (r: Result<u16, MyError>)
    requires
        old(s).wf(),
        person.person_id is Some,
    ensures
        final(s).wf(),
        ({
            let id = person.person_id->0;
            &&& (!has_person(old(s).persons@, id) ==> (r matches Ok(c) && c == 404 && *final(s)
                == *old(s)))
            &&& ((has_person(old(s).persons@, id) && old(s).person_referenced(id)) ==> (
            r matches Err(e) && e == MyError::PGError && *final(s) == *old(s)))
            &&& ((has_person(old(s).persons@, id) && !old(s).person_referenced(id)) ==> (
            r matches Ok(c) && c == 200 && ({
                &&& final(s).persons@ == old(s).persons@.remove(person_index(old(s).persons@, id))
                &&& !has_person(final(s).persons@, id)
                &&& final(s).next_person_id == old(s).next_person_id
                &&& same_except_persons(*old(s), *final(s))
            })))
        }),
{
    match query::delete_person(s, person) {
        Ok(n) => Ok(delete_status(n)),
        Err(e) => Err(e),
    }
}

/// POST /affiliations: store a new affiliation and answer with the stored
/// row.
pub fn create_affiliation(s: &mut Store, affiliation: Affiliation) -> (r: Result<
    Affiliation,
    MyError,
>)
    requires
        old(s).wf(),
        old(s).next_affiliation_id < i32::MAX,
    ensures
        final(s).wf(),
        (has_person(old(s).persons@, affiliation.person_id) && has_organization(
            old(s).organizations@,
            affiliation.organization_id,
        )) ==> (r matches Ok(out) && ({
            &&& out.affiliation_id == Some(old(s).next_affiliation_id)
            &&& out.person_id == affiliation.person_id
            &&& out.organization_id == affiliation.organization_id
            &&& final(s).affiliations@ == old(s).affiliations@.push(out)
            &&& final(s).next_affiliation_id == old(s).next_affiliation_id + 1
            &&& same_except_affiliations(*old(s), *final(s))
        })),
        !(has_person(old(s).persons@, affiliation.person_id) && has_organization(
            old(s).organizations@,
            affiliation.organization_id,
        )) ==> (r matches Err(e) && e == MyError::PGError && *final(s) == *old(s)),
{
    query::create_affiliation(s, affiliation)
}

/// DELETE /affiliations: delete an affiliation by id and answer with a
/// status code.
pub fn delete_affiliation(s: &mut Store, affiliation: Affiliation) -> (r: Result<u16, MyError>)
    requires
        old(s).wf(),
        affiliation.affiliation_id is Some,
    ensures
        final(s).wf(),
        ({
            let id = affiliation.affiliation_id->0;
            &&& (!has_affiliation(old(s).affiliations@, id) ==> (r matches Ok(c) && c == 404
                && *final(s) == *old(s)))
            &&& (has_affiliation(old(s).affiliations@, id) ==> (r matches Ok(c) && c == 200 && ({
                &&& final(s).affiliations@ == old(s).affiliations@.remove(
                    affiliation_index(old(s).affiliations@, id),
                )
                &&& !has_affiliation(final(s).affiliations@, id)
                &&& final(s).next_affiliation_id == old(s).next_affiliation_id
                &&& same_except_affiliations(*old(s), *final(s))
            })))
        }),
{
    match query::delete_affiliation(s, affiliation) {
        Ok(n) => Ok(delete_status(n)),
        Err(e) => Err(e),
    }
}

/// POST /organizations: materialize a fresh planner, then store the
/// organization owning it, and answer with the stored organization.
/// Exactly one planner row is created alongside the organization.
pub fn create_organization(s: &mut Store, organization: Organization) -> (r: Result<
    Organization,
    MyError,
>)
    requires
        old(s).wf(),
        old(s).next_planner_id < i32::MAX,
        old(s).next_organization_id < i32::MAX,
    ensures
        final(s).wf(),
        r matches Ok(out) && ({
            let pl = (Planner { planner_id: old(s).next_planner_id });
            &&& out.organization_id == Some(old(s).next_organization_id)
            &&& out.organization_name == organization.organization_name
            &&& out.planner_id == Some(old(s).next_planner_id)
            &&& final(s).planners@ == old(s).planners@.push(pl)
            &&& final(s).organizations@ == old(s).organizations@.push(out)
            &&& final(s).next_planner_id == old(s).next_planner_id + 1
            &&& final(s).next_organization_id == old(s).next_organization_id + 1
            &&& same_except_organizations_and_planners(*old(s), *final(s))
        }),
{
    let planner = match query::create_planner(s) {
        Ok(p) => p,
        Err(e) => {
            return Err(e);
        },
    };
    let owned = Organization {
        organization_id: None,
        organization_name: organization.organization_name,
        planner_id: Some(planner.planner_id),
    };
    proof {
        assert(s.planners@[s.planners@.len() - 1] == planner);
        assert(has_planner(s.planners@, planner.planner_id));
    }
    match query::create_organization(s, owned) {
        Ok(o) => Ok(o),
        Err(e) => Err(e),
    }
}

/// DELETE /organizations: delete an organization by id and answer with a
/// status code.
pub fn delete_organization(s: &mut Store, organization: Organization) -> (r: Result<u16, MyError>)
    requires
        old(s).wf(),
        organization.organization_id is Some,
    ensures
        final(s).wf(),
        ({
            let id = organization.organization_id->0;
            &&& (!has_organization(old(s).organizations@, id) ==> (r matches Ok(c) && c == 404
                && *final(s) == *old(s)))
            &&& ((has_organization(old(s).organizations@, id) && old(s).organization_referenced(
                id,
            )) ==> (r matches Err(e) && e == MyError::PGError && *final(s) == *old(s)))
            &&& ((has_organization(old(s).organizations@, id) && !old(s).organization_referenced(
                id,
            )) ==> (r matches Ok(c) && c == 200 && ({
                &&& final(s).organizations@ == old(s).organizations@.remove(
                    organization_index(old(s).organizations@, id),
                )
                &&& !has_organization(final(s).organizations@, id)
                &&& final(s).next_organization_id == old(s).next_organization_id
                &&& same_except_organizations(*old(s), *final(s))
            })))
        }),
{
    match query::delete_organization(s, organization) {
        Ok(n) => Ok(delete_status(n)),
        Err(e) => Err(e),
    }
}

} // verus!
