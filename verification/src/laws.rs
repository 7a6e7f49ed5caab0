//! The laws of the store, stated over the model of [`crate::store`].
//!
//! Each proof function here is a property of the relational model that the
//! operations in [`crate::query`] and [`crate::handlers`] rely on or
//! guarantee: a created row is the one read back under its generated id, a
//! deleted row stays gone until recreated, and a person without plans sees
//! no events.

use vstd::prelude::*;

use crate::models::{Affiliation, Event, Organization, Person, Plan, Planner};
use crate::store::{
    affiliation_at, affiliation_ids_valid, affiliation_index, affiliations_unique, event_at,
    event_ids_valid, event_index, events_for_person, events_unique, has_affiliation, has_event,
    has_organization, has_person, has_plan, has_planner, organization_at, organization_ids_valid,
    organization_index, organizations_unique, person_at, person_ids_valid, person_index,
    persons_unique, plan_at, plan_ids_valid, plan_index, plan_refs_planner, planner_events,
    planner_index, planners_unique, plans_unique, Store,
};

verus! {

// ---------------------------------------------------------------------------
// Law: a freshly created row is exactly the one read back under its
// generated id.
// ---------------------------------------------------------------------------
/// In a table whose ids all lie below `next`, a row appended with id `next`
/// is the row that lookup under `next` returns.
pub proof fn lemma_created_event_reads_back(evs: Seq<Event>, ev: Event, next: i32)
    requires
        event_ids_valid(evs, next),
        ev.event_id == Some(next),
    ensures
        has_event(evs.push(ev), next),
        event_at(evs.push(ev), next) == ev,
{
    let r = evs.push(ev);
    let n = evs.len() as int;
    assert(r[n] == ev);
    assert(has_event(r, next));
    let k = event_index(r, next);
    assert(0 <= k < r.len() && r[k].event_id == Some(next));
    if k != n {
        assert(r[k] == evs[k]);
        assert(evs[k].event_id matches Some(id) && 1 <= id < next);
    }
}

/// In a table whose ids all lie below `next`, a row appended with id `next`
/// is the row that lookup under `next` returns.
pub proof fn lemma_created_person_reads_back(ps: Seq<Person>, p: Person, next: i32)
    requires
        person_ids_valid(ps, next),
        p.person_id == Some(next),
    ensures
        has_person(ps.push(p), next),
        person_at(ps.push(p), next) == p,
{
    let r = ps.push(p);
    let n = ps.len() as int;
    assert(r[n] == p);
    assert(has_person(r, next));
    let k = person_index(r, next);
    assert(0 <= k < r.len() && r[k].person_id == Some(next));
    if k != n {
        assert(r[k] == ps[k]);
        assert(ps[k].person_id matches Some(id) && 1 <= id < next);
    }
}

/// In a table whose ids all lie below `next`, a row appended with id `next`
/// is the row that lookup under `next` returns.
pub proof fn lemma_created_organization_reads_back(os: Seq<Organization>, o: Organization, next: i32)
    requires
        organization_ids_valid(os, next),
        o.organization_id == Some(next),
    ensures
        has_organization(os.push(o), next),
        organization_at(os.push(o), next) == o,
{
    let r = os.push(o);
    let n = os.len() as int;
    assert(r[n] == o);
    assert(has_organization(r, next));
    let k = organization_index(r, next);
    assert(0 <= k < r.len() && r[k].organization_id == Some(next));
    if k != n {
        assert(r[k] == os[k]);
        assert(os[k].organization_id matches Some(id) && 1 <= id < next);
    }
}

/// In a table whose ids all lie below `next`, a row appended with id `next`
/// is the row that lookup under `next` returns.
pub proof fn lemma_created_plan_reads_back(plans: Seq<Plan>, p: Plan, next: i32)
    requires
        plan_ids_valid(plans, next),
        p.plan_id == Some(next),
    ensures
        has_plan(plans.push(p), next),
        plan_at(plans.push(p), next) == p,
{
    let r = plans.push(p);
    let n = plans.len() as int;
    assert(r[n] == p);
    assert(has_plan(r, next));
    let k = plan_index(r, next);
    assert(0 <= k < r.len() && r[k].plan_id == Some(next));
    if k != n {
        assert(r[k] == plans[k]);
        assert(plans[k].plan_id matches Some(id) && 1 <= id < next);
    }
}

/// In a table whose ids all lie below `next`, a row appended with id `next`
/// is the row that lookup under `next` returns.
pub proof fn lemma_created_affiliation_reads_back(afs: Seq<Affiliation>, a: Affiliation, next: i32)
    requires
        affiliation_ids_valid(afs, next),
        a.affiliation_id == Some(next),
    ensures
        has_affiliation(afs.push(a), next),
        affiliation_at(afs.push(a), next) == a,
{
    let r = afs.push(a);
    let n = afs.len() as int;
    assert(r[n] == a);
    assert(has_affiliation(r, next));
    let k = affiliation_index(r, next);
    assert(0 <= k < r.len() && r[k].affiliation_id == Some(next));
    if k != n {
        assert(r[k] == afs[k]);
        assert(afs[k].affiliation_id matches Some(id) && 1 <= id < next);
    }
}

// ---------------------------------------------------------------------------
// Law: deletion is idempotent. Once the row with an id is removed, no row
// with that id is left, so a second delete by the same id affects nothing.
// ---------------------------------------------------------------------------
/// After removing the row with id `id` from a table of unique ids, lookup
/// under `id` finds nothing.
pub proof fn lemma_delete_event_idempotent(evs: Seq<Event>, id: i32)
    requires
        events_unique(evs),
        has_event(evs, id),
    ensures
        !has_event(evs.remove(event_index(evs, id)), id),
{
    let j = event_index(evs, id);
    assert(0 <= j < evs.len() && evs[j].event_id == Some(id));
    let r = evs.remove(j);
    evs.remove_ensures(j);
    assert forall|k: int| 0 <= k < r.len() implies (#[trigger] r[k]).event_id != Some(id) by {
        if k < j {
            assert(r[k] == evs[k]);
        } else {
            assert(r[k] == evs[k + 1]);
        }
    }
}

/// After removing the row with id `id` from a table of unique ids, lookup
/// under `id` finds nothing.
pub proof fn lemma_delete_person_idempotent(ps: Seq<Person>, id: i32)
    requires
        persons_unique(ps),
        has_person(ps, id),
    ensures
        !has_person(ps.remove(person_index(ps, id)), id),
{
    let j = person_index(ps, id);
    assert(0 <= j < ps.len() && ps[j].person_id == Some(id));
    let r = ps.remove(j);
    ps.remove_ensures(j);
    assert forall|k: int| 0 <= k < r.len() implies (#[trigger] r[k]).person_id != Some(id) by {
        if k < j {
            assert(r[k] == ps[k]);
        } else {
            assert(r[k] == ps[k + 1]);
        }
    }
}

/// After removing the row with id `id` from a table of unique ids, lookup
/// under `id` finds nothing.
pub proof fn lemma_delete_planner_idempotent(pls: Seq<Planner>, id: i32)
    requires
        planners_unique(pls),
        has_planner(pls, id),
    ensures
        !has_planner(pls.remove(planner_index(pls, id)), id),
{
    let j = planner_index(pls, id);
    assert(0 <= j < pls.len() && pls[j].planner_id == id);
    let r = pls.remove(j);
    pls.remove_ensures(j);
    assert forall|k: int| 0 <= k < r.len() implies (#[trigger] r[k]).planner_id != id by {
        if k < j {
            assert(r[k] == pls[k]);
        } else {
            assert(r[k] == pls[k + 1]);
        }
    }
}

/// After removing the row with id `id` from a table of unique ids, lookup
/// under `id` finds nothing.
pub proof fn lemma_delete_plan_idempotent(plans: Seq<Plan>, id: i32)
    requires
        plans_unique(plans),
        has_plan(plans, id),
    ensures
        !has_plan(plans.remove(plan_index(plans, id)), id),
{
    let j = plan_index(plans, id);
    assert(0 <= j < plans.len() && plans[j].plan_id == Some(id));
    let r = plans.remove(j);
    plans.remove_ensures(j);
    assert forall|k: int| 0 <= k < r.len() implies (#[trigger] r[k]).plan_id != Some(id) by {
        if k < j {
            assert(r[k] == plans[k]);
        } else {
            assert(r[k] == plans[k + 1]);
        }
    }
}

/// After removing the row with id `id` from a table of unique ids, lookup
/// under `id` finds nothing.
pub proof fn lemma_delete_affiliation_idempotent(afs: Seq<Affiliation>, id: i32)
    requires
        affiliations_unique(afs),
        has_affiliation(afs, id),
    ensures
        !has_affiliation(afs.remove(affiliation_index(afs, id)), id),
{
    let j = affiliation_index(afs, id);
    assert(0 <= j < afs.len() && afs[j].affiliation_id == Some(id));
    let r = afs.remove(j);
    afs.remove_ensures(j);
    assert forall|k: int| 0 <= k < r.len() implies (#[trigger] r[k]).affiliation_id != Some(id) by {
        if k < j {
            assert(r[k] == afs[k]);
        } else {
            assert(r[k] == afs[k + 1]);
        }
    }
}

/// After removing the row with id `id` from a table of unique ids, lookup
/// under `id` finds nothing.
pub proof fn lemma_delete_organization_idempotent(os: Seq<Organization>, id: i32)
    requires
        organizations_unique(os),
        has_organization(os, id),
    ensures
        !has_organization(os.remove(organization_index(os, id)), id),
{
    let j = organization_index(os, id);
    assert(0 <= j < os.len() && os[j].organization_id == Some(id));
    let r = os.remove(j);
    os.remove_ensures(j);
    assert forall|k: int| 0 <= k < r.len() implies (#[trigger] r[k]).organization_id != Some(id) by {
        if k < j {
            assert(r[k] == os[k]);
        } else {
            assert(r[k] == os[k + 1]);
        }
    }
}

// ---------------------------------------------------------------------------
// Law: a person with no reachable plans sees no events. (A person id that
// matches no row, or a person without a planner, yields the empty sequence
// directly by definition of `events_for_person`.)
// ---------------------------------------------------------------------------
/// A planner that no plan references reaches no events.
pub proof fn lemma_planner_events_empty(plans: Seq<Plan>, evs: Seq<Event>, pl: i32)
    requires
        forall|i: int| 0 <= i < plans.len() ==> (#[trigger] plans[i]).planner_id != pl,
    ensures
        planner_events(plans, evs, pl) == Seq::<Event>::empty(),
    decreases plans.len(),
{
    if plans.len() > 0 {
        assert(plans.last() == plans[plans.len() - 1]);
        assert forall|i: int| 0 <= i < plans.drop_last().len() implies (#[trigger] plans.drop_last(
        )[i]).planner_id != pl by {
            assert(plans.drop_last()[i] == plans[i]);
        }
        lemma_planner_events_empty(plans.drop_last(), evs, pl);
    }
}

/// A person whose planner no plan references — or who owns no planner at
/// all — is associated with no events.
pub proof fn lemma_person_without_plans_sees_no_events(s: Store, id: i32)
    requires
        has_person(s.persons@, id),
        person_at(s.persons@, id).planner_id matches Some(pl) ==> !plan_refs_planner(s.plans@, pl),
    ensures
        events_for_person(s, Some(id)) == Seq::<Event>::empty(),
{
    match person_at(s.persons@, id).planner_id {
        Some(pl) => {
            assert forall|i: int| 0 <= i < s.plans@.len() implies (
            #[trigger] s.plans@[i]).planner_id != pl by {
                if s.plans@[i].planner_id == pl {
                    assert(plan_refs_planner(s.plans@, pl));
                }
            }
            lemma_planner_events_empty(s.plans@, s.events@, pl);
        },
        None => {},
    }
}

} // verus!
