//! The relational state of the service and its invariant.
//!
//! [`Store`] holds one table per record type plus the id sequence of each
//! table. The well-formedness predicate [`Store::wf`] is what the schema
//! enforces: generated ids are unique and below the table's next id, and
//! every foreign key references an existing row. Every operation in
//! [`crate::query`] and [`crate::handlers`] preserves it.

use vstd::prelude::*;

use crate::models::{Affiliation, Event, Organization, Participation, Person, Plan, Planner};

verus! {

// ---------------------------------------------------------------------------
// Row lookup by id, per table.
// ---------------------------------------------------------------------------
/// Some row of `evs` carries the generated id `id`.
pub open spec fn has_event(evs: Seq<Event>, id: i32) -> bool {
    exists|i: int| 0 <= i < evs.len() && (#[trigger] evs[i]).event_id == Some(id)
}

/// The index of the row of `evs` with id `id` (meaningful when `has_event`
/// holds and ids are unique).
pub open spec fn event_index(evs: Seq<Event>, id: i32) -> int {
    choose|i: int| 0 <= i < evs.len() && (#[trigger] evs[i]).event_id == Some(id)
}

/// The row of `evs` with id `id`.
pub open spec fn event_at(evs: Seq<Event>, id: i32) -> Event {
    evs[event_index(evs, id)]
}

/// Some row of `ps` carries the generated id `id`.
pub open spec fn has_person(ps: Seq<Person>, id: i32) -> bool {
    exists|i: int| 0 <= i < ps.len() && (#[trigger] ps[i]).person_id == Some(id)
}

/// The index of the row of `ps` with id `id`.
pub open spec fn person_index(ps: Seq<Person>, id: i32) -> int {
    choose|i: int| 0 <= i < ps.len() && (#[trigger] ps[i]).person_id == Some(id)
}

/// The row of `ps` with id `id`.
pub open spec fn person_at(ps: Seq<Person>, id: i32) -> Person {
    ps[person_index(ps, id)]
}

/// Some row of `pls` carries the id `id`.
pub open spec fn has_planner(pls: Seq<Planner>, id: i32) -> bool {
    exists|i: int| 0 <= i < pls.len() && (#[trigger] pls[i]).planner_id == id
}

/// The index of the row of `pls` with id `id`.
pub open spec fn planner_index(pls: Seq<Planner>, id: i32) -> int {
    choose|i: int| 0 <= i < pls.len() && (#[trigger] pls[i]).planner_id == id
}

/// Some row of `plans` carries the generated id `id`.
pub open spec fn has_plan(plans: Seq<Plan>, id: i32) -> bool {
    exists|i: int| 0 <= i < plans.len() && (#[trigger] plans[i]).plan_id == Some(id)
}

/// The index of the row of `plans` with id `id`.
pub open spec fn plan_index(plans: Seq<Plan>, id: i32) -> int {
    choose|i: int| 0 <= i < plans.len() && (#[trigger] plans[i]).plan_id == Some(id)
}

/// The row of `plans` with id `id`.
pub open spec fn plan_at(plans: Seq<Plan>, id: i32) -> Plan {
    plans[plan_index(plans, id)]
}

/// Some row of `afs` carries the generated id `id`.
pub open spec fn has_affiliation(afs: Seq<Affiliation>, id: i32) -> bool {
    exists|i: int| 0 <= i < afs.len() && (#[trigger] afs[i]).affiliation_id == Some(id)
}

/// The index of the row of `afs` with id `id`.
pub open spec fn affiliation_index(afs: Seq<Affiliation>, id: i32) -> int {
    choose|i: int| 0 <= i < afs.len() && (#[trigger] afs[i]).affiliation_id == Some(id)
}

/// The row of `afs` with id `id`.
pub open spec fn affiliation_at(afs: Seq<Affiliation>, id: i32) -> Affiliation {
    afs[affiliation_index(afs, id)]
}

/// Some row of `os` carries the generated id `id`.
pub open spec fn has_organization(os: Seq<Organization>, id: i32) -> bool {
    exists|i: int| 0 <= i < os.len() && (#[trigger] os[i]).organization_id == Some(id)
}

/// The index of the row of `os` with id `id`.
pub open spec fn organization_index(os: Seq<Organization>, id: i32) -> int {
    choose|i: int| 0 <= i < os.len() && (#[trigger] os[i]).organization_id == Some(id)
}

/// The row of `os` with id `id`.
pub open spec fn organization_at(os: Seq<Organization>, id: i32) -> Organization {
    os[organization_index(os, id)]
}

// ---------------------------------------------------------------------------
// Generated ids: present, within the id sequence, unique.
// ---------------------------------------------------------------------------
/// Every event row has a generated id in `1 .. next`.
pub open spec fn event_ids_valid(evs: Seq<Event>, next: i32) -> bool {
    forall|i: int|
        0 <= i < evs.len() ==> ((#[trigger] evs[i]).event_id matches Some(id) && 1 <= id < next)
}

/// No two event rows share an id.
pub open spec fn events_unique(evs: Seq<Event>) -> bool {
    forall|i: int, j: int|
        0 <= i < evs.len() && 0 <= j < evs.len() && i != j ==> (#[trigger] evs[i]).event_id != (
        #[trigger] evs[j]).event_id
}

/// Every person row has a generated id in `1 .. next`.
pub open spec fn person_ids_valid(ps: Seq<Person>, next: i32) -> bool {
    forall|i: int|
        0 <= i < ps.len() ==> ((#[trigger] ps[i]).person_id matches Some(id) && 1 <= id < next)
}

/// No two person rows share an id.
pub open spec fn persons_unique(ps: Seq<Person>) -> bool {
    forall|i: int, j: int|
        0 <= i < ps.len() && 0 <= j < ps.len() && i != j ==> (#[trigger] ps[i]).person_id != (
        #[trigger] ps[j]).person_id
}

/// Every planner row has an id in `1 .. next`.
pub open spec fn planner_ids_valid(pls: Seq<Planner>, next: i32) -> bool {
    forall|i: int| 0 <= i < pls.len() ==> 1 <= (#[trigger] pls[i]).planner_id < next
}

/// No two planner rows share an id.
pub open spec fn planners_unique(pls: Seq<Planner>) -> bool {
    forall|i: int, j: int|
        0 <= i < pls.len() && 0 <= j < pls.len() && i != j ==> (#[trigger] pls[i]).planner_id != (
        #[trigger] pls[j]).planner_id
}

/// Every plan row has a generated id in `1 .. next`.
pub open spec fn plan_ids_valid(plans: Seq<Plan>, next: i32) -> bool {
    forall|i: int|
        0 <= i < plans.len() ==> ((#[trigger] plans[i]).plan_id matches Some(id) && 1 <= id < next)
}

/// No two plan rows share an id.
pub open spec fn plans_unique(plans: Seq<Plan>) -> bool {
    forall|i: int, j: int|
        0 <= i < plans.len() && 0 <= j < plans.len() && i != j ==> (#[trigger] plans[i]).plan_id
            != (#[trigger] plans[j]).plan_id
}

/// Every affiliation row has a generated id in `1 .. next`.
pub open spec fn affiliation_ids_valid(afs: Seq<Affiliation>, next: i32) -> bool {
    forall|i: int|
        0 <= i < afs.len() ==> ((#[trigger] afs[i]).affiliation_id matches Some(id) && 1 <= id
            < next)
}

/// No two affiliation rows share an id.
pub open spec fn affiliations_unique(afs: Seq<Affiliation>) -> bool {
    forall|i: int, j: int|
        0 <= i < afs.len() && 0 <= j < afs.len() && i != j ==> (
        #[trigger] afs[i]).affiliation_id != (#[trigger] afs[j]).affiliation_id
}

/// Every participation row has a generated id in `1 .. next`.
pub open spec fn participation_ids_valid(pts: Seq<Participation>, next: i32) -> bool {
    forall|i: int|
        0 <= i < pts.len() ==> ((#[trigger] pts[i]).participation_id matches Some(id) && 1 <= id
            < next)
}

/// No two participation rows share an id.
pub open spec fn participations_unique(pts: Seq<Participation>) -> bool {
    forall|i: int, j: int|
        0 <= i < pts.len() && 0 <= j < pts.len() && i != j ==> (
        #[trigger] pts[i]).participation_id != (#[trigger] pts[j]).participation_id
}

/// Every organization row has a generated id in `1 .. next`.
pub open spec fn organization_ids_valid(os: Seq<Organization>, next: i32) -> bool {
    forall|i: int|
        0 <= i < os.len() ==> ((#[trigger] os[i]).organization_id matches Some(id) && 1 <= id
            < next)
}

/// No two organization rows share an id.
pub open spec fn organizations_unique(os: Seq<Organization>) -> bool {
    forall|i: int, j: int|
        0 <= i < os.len() && 0 <= j < os.len() && i != j ==> (
        #[trigger] os[i]).organization_id != (#[trigger] os[j]).organization_id
}

// ---------------------------------------------------------------------------
// Foreign keys out of each table.
// ---------------------------------------------------------------------------
/// Every plan references an existing event and an existing planner.
pub open spec fn plans_fk_valid(
    plans: Seq<Plan>,
    evs: Seq<Event>,
    pls: Seq<Planner>,
) -> bool {
    forall|i: int|
        0 <= i < plans.len() ==> has_event(evs, (#[trigger] plans[i]).event_id) && has_planner(
            pls,
            plans[i].planner_id,
        )
}

/// Every person that owns a planner references an existing one.
pub open spec fn persons_fk_valid(ps: Seq<Person>, pls: Seq<Planner>) -> bool {
    forall|i: int|
        0 <= i < ps.len() ==> ((#[trigger] ps[i]).planner_id matches Some(pl) ==> has_planner(
            pls,
            pl,
        ))
}

/// Every organization that owns a planner references an existing one.
pub open spec fn organizations_fk_valid(os: Seq<Organization>, pls: Seq<Planner>) -> bool {
    forall|i: int|
        0 <= i < os.len() ==> ((#[trigger] os[i]).planner_id matches Some(pl) ==> has_planner(
            pls,
            pl,
        ))
}

/// Every affiliation references an existing person and organization.
pub open spec fn affiliations_fk_valid(
    afs: Seq<Affiliation>,
    ps: Seq<Person>,
    os: Seq<Organization>,
) -> bool {
    forall|i: int|
        0 <= i < afs.len() ==> has_person(ps, (#[trigger] afs[i]).person_id) && has_organization(
            os,
            afs[i].organization_id,
        )
}

/// Every participation references an existing event and person.
pub open spec fn participations_fk_valid(
    pts: Seq<Participation>,
    evs: Seq<Event>,
    ps: Seq<Person>,
) -> bool {
    forall|i: int|
        0 <= i < pts.len() ==> has_event(evs, (#[trigger] pts[i]).event_id) && has_person(
            ps,
            pts[i].person_id,
        )
}

// ---------------------------------------------------------------------------
// Foreign keys into a row: what blocks its deletion.
// ---------------------------------------------------------------------------
/// Some plan references the event with id `id`.
pub open spec fn plan_refs_event(plans: Seq<Plan>, id: i32) -> bool {
    exists|i: int| 0 <= i < plans.len() && (#[trigger] plans[i]).event_id == id
}

/// Some plan references the planner with id `id`.
pub open spec fn plan_refs_planner(plans: Seq<Plan>, id: i32) -> bool {
    exists|i: int| 0 <= i < plans.len() && (#[trigger] plans[i]).planner_id == id
}

/// Some person owns the planner with id `id`.
pub open spec fn person_refs_planner(ps: Seq<Person>, id: i32) -> bool {
    exists|i: int| 0 <= i < ps.len() && (#[trigger] ps[i]).planner_id == Some(id)
}

/// Some organization owns the planner with id `id`.
pub open spec fn organization_refs_planner(os: Seq<Organization>, id: i32) -> bool {
    exists|i: int| 0 <= i < os.len() && (#[trigger] os[i]).planner_id == Some(id)
}

/// Some affiliation references the person with id `id`.
pub open spec fn affiliation_refs_person(afs: Seq<Affiliation>, id: i32) -> bool {
    exists|i: int| 0 <= i < afs.len() && (#[trigger] afs[i]).person_id == id
}

/// Some affiliation references the organization with id `id`.
pub open spec fn affiliation_refs_organization(afs: Seq<Affiliation>, id: i32) -> bool {
    exists|i: int| 0 <= i < afs.len() && (#[trigger] afs[i]).organization_id == id
}

/// Some participation references the event with id `id`.
pub open spec fn participation_refs_event(pts: Seq<Participation>, id: i32) -> bool {
    exists|i: int| 0 <= i < pts.len() && (#[trigger] pts[i]).event_id == id
}

/// Some participation references the person with id `id`.
pub open spec fn participation_refs_person(pts: Seq<Participation>, id: i32) -> bool {
    exists|i: int| 0 <= i < pts.len() && (#[trigger] pts[i]).person_id == id
}

// ---------------------------------------------------------------------------
// The events reachable from a person: person -> planner -> plan -> event.
// ---------------------------------------------------------------------------
/// The events referenced, in plan-table order, by the plans that belong to
/// the planner with id `pl` (one entry per such plan).
pub open spec fn planner_events(plans: Seq<Plan>, evs: Seq<Event>, pl: i32) -> Seq<Event>
    decreases plans.len(),
{
    if plans.len() == 0 {
        Seq::empty()
    } else {
        let front = planner_events(plans.drop_last(), evs, pl);
        if plans.last().planner_id == pl {
            front.push(event_at(evs, plans.last().event_id))
        } else {
            front
        }
    }
}

/// The events reachable from the person with id `pid` through its planner
/// and that planner's plans; empty when no person row matches `pid` or the
/// person owns no planner.
pub open spec fn events_for_person(s: Store, pid: Option<i32>) -> Seq<Event> {
    match pid {
        Some(id) => if has_person(s.persons@, id) {
            match person_at(s.persons@, id).planner_id {
                Some(pl) => planner_events(s.plans@, s.events@, pl),
                None => Seq::empty(),
            }
        } else {
            Seq::empty()
        },
        None => Seq::empty(),
    }
}

// ---------------------------------------------------------------------------
// The store.
// ---------------------------------------------------------------------------
/// The whole relational state: one table per record type, and the next
/// generated id of each table.
pub struct Store {
    pub events: Vec<Event>,
    pub persons: Vec<Person>,
    pub planners: Vec<Planner>,
    pub plans: Vec<Plan>,
    pub affiliations: Vec<Affiliation>,
    pub participations: Vec<Participation>,
    pub organizations: Vec<Organization>,
    pub next_event_id: i32,
    pub next_person_id: i32,
    pub next_planner_id: i32,
    pub next_plan_id: i32,
    pub next_affiliation_id: i32,
    pub next_participation_id: i32,
    pub next_organization_id: i32,
}

impl Store {
    /// Each id sequence starts at one and never goes back.
    pub open spec fn counters_wf(self) -> bool {
        &&& 1 <= self.next_event_id
        &&& 1 <= self.next_person_id
        &&& 1 <= self.next_planner_id
        &&& 1 <= self.next_plan_id
        &&& 1 <= self.next_affiliation_id
        &&& 1 <= self.next_participation_id
        &&& 1 <= self.next_organization_id
    }

    /// Every table holds rows with unique generated ids below its next id.
    pub open spec fn tables_wf(self) -> bool {
        &&& event_ids_valid(self.events@, self.next_event_id)
        &&& events_unique(self.events@)
        &&& person_ids_valid(self.persons@, self.next_person_id)
        &&& persons_unique(self.persons@)
        &&& planner_ids_valid(self.planners@, self.next_planner_id)
        &&& planners_unique(self.planners@)
        &&& plan_ids_valid(self.plans@, self.next_plan_id)
        &&& plans_unique(self.plans@)
        &&& affiliation_ids_valid(self.affiliations@, self.next_affiliation_id)
        &&& affiliations_unique(self.affiliations@)
        &&& participation_ids_valid(self.participations@, self.next_participation_id)
        &&& participations_unique(self.participations@)
        &&& organization_ids_valid(self.organizations@, self.next_organization_id)
        &&& organizations_unique(self.organizations@)
    }

    /// Every foreign key references an existing row.
    pub open spec fn fks_wf(self) -> bool {
        &&& plans_fk_valid(self.plans@, self.events@, self.planners@)
        &&& persons_fk_valid(self.persons@, self.planners@)
        &&& organizations_fk_valid(self.organizations@, self.planners@)
        &&& affiliations_fk_valid(self.affiliations@, self.persons@, self.organizations@)
        &&& participations_fk_valid(self.participations@, self.events@, self.persons@)
    }

    /// What the schema enforces, all together.
    pub open spec fn wf(self) -> bool {
        self.counters_wf() && self.tables_wf() && self.fks_wf()
    }

    /// The event with id `id` cannot be deleted while a plan or a
    /// participation references it.
    pub open spec fn event_referenced(self, id: i32) -> bool {
        plan_refs_event(self.plans@, id) || participation_refs_event(self.participations@, id)
    }

    /// The planner with id `id` cannot be deleted while a person, an
    /// organization or a plan references it.
    pub open spec fn planner_referenced(self, id: i32) -> bool {
        person_refs_planner(self.persons@, id) || organization_refs_planner(
            self.organizations@,
            id,
        ) || plan_refs_planner(self.plans@, id)
    }

    /// The person with id `id` cannot be deleted while an affiliation or a
    /// participation references it.
    pub open spec fn person_referenced(self, id: i32) -> bool {
        affiliation_refs_person(self.affiliations@, id) || participation_refs_person(
            self.participations@,
            id,
        )
    }

    /// The organization with id `id` cannot be deleted while an affiliation
    /// references it.
    pub open spec fn organization_referenced(self, id: i32) -> bool {
        affiliation_refs_organization(self.affiliations@, id)
    }

    /// An empty store: no rows, every id sequence at one.
    pub fn new() -> (s: Store)
        ensures
            s.wf(),
            s.events@ == Seq::<Event>::empty(),
            s.persons@ == Seq::<Person>::empty(),
            s.planners@ == Seq::<Planner>::empty(),
            s.plans@ == Seq::<Plan>::empty(),
            s.affiliations@ == Seq::<Affiliation>::empty(),
            s.participations@ == Seq::<Participation>::empty(),
            s.organizations@ == Seq::<Organization>::empty(),
            s.next_event_id == 1,
            s.next_person_id == 1,
            s.next_planner_id == 1,
            s.next_plan_id == 1,
            s.next_affiliation_id == 1,
            s.next_participation_id == 1,
            s.next_organization_id == 1,
    {
        Store {
            events: Vec::new(),
            persons: Vec::new(),
            planners: Vec::new(),
            plans: Vec::new(),
            affiliations: Vec::new(),
            participations: Vec::new(),
            organizations: Vec::new(),
            next_event_id: 1,
            next_person_id: 1,
            next_planner_id: 1,
            next_plan_id: 1,
            next_affiliation_id: 1,
            next_participation_id: 1,
            next_organization_id: 1,
        }
    }
}

// ---------------------------------------------------------------------------
// Frame predicates: what an operation leaves untouched.
// ---------------------------------------------------------------------------
/// Everything but the event table and its id sequence is unchanged.
pub open spec fn same_except_events(pre: Store, post: Store) -> bool {
    &&& post.persons == pre.persons
    &&& post.planners == pre.planners
    &&& post.plans == pre.plans
    &&& post.affiliations == pre.affiliations
    &&& post.participations == pre.participations
    &&& post.organizations == pre.organizations
    &&& post.next_person_id == pre.next_person_id
    &&& post.next_planner_id == pre.next_planner_id
    &&& post.next_plan_id == pre.next_plan_id
    &&& post.next_affiliation_id == pre.next_affiliation_id
    &&& post.next_participation_id == pre.next_participation_id
    &&& post.next_organization_id == pre.next_organization_id
}

/// Everything but the person table and its id sequence is unchanged.
pub open spec fn same_except_persons(pre: Store, post: Store) -> bool {
    &&& post.events == pre.events
    &&& post.planners == pre.planners
    &&& post.plans == pre.plans
    &&& post.affiliations == pre.affiliations
    &&& post.participations == pre.participations
    &&& post.organizations == pre.organizations
    &&& post.next_event_id == pre.next_event_id
    &&& post.next_planner_id == pre.next_planner_id
    &&& post.next_plan_id == pre.next_plan_id
    &&& post.next_affiliation_id == pre.next_affiliation_id
    &&& post.next_participation_id == pre.next_participation_id
    &&& post.next_organization_id == pre.next_organization_id
}

/// Everything but the planner table and its id sequence is unchanged.
pub open spec fn same_except_planners(pre: Store, post: Store) -> bool {
    &&& post.events == pre.events
    &&& post.persons == pre.persons
    &&& post.plans == pre.plans
    &&& post.affiliations == pre.affiliations
    &&& post.participations == pre.participations
    &&& post.organizations == pre.organizations
    &&& post.next_event_id == pre.next_event_id
    &&& post.next_person_id == pre.next_person_id
    &&& post.next_plan_id == pre.next_plan_id
    &&& post.next_affiliation_id == pre.next_affiliation_id
    &&& post.next_participation_id == pre.next_participation_id
    &&& post.next_organization_id == pre.next_organization_id
}

/// Everything but the plan table and its id sequence is unchanged.
pub open spec fn same_except_plans(pre: Store, post: Store) -> bool {
    &&& post.events == pre.events
    &&& post.persons == pre.persons
    &&& post.planners == pre.planners
    &&& post.affiliations == pre.affiliations
    &&& post.participations == pre.participations
    &&& post.organizations == pre.organizations
    &&& post.next_event_id == pre.next_event_id
    &&& post.next_person_id == pre.next_person_id
    &&& post.next_planner_id == pre.next_planner_id
    &&& post.next_affiliation_id == pre.next_affiliation_id
    &&& post.next_participation_id == pre.next_participation_id
    &&& post.next_organization_id == pre.next_organization_id
}

/// Everything but the affiliation table and its id sequence is unchanged.
pub open spec fn same_except_affiliations(pre: Store, post: Store) -> bool {
    &&& post.events == pre.events
    &&& post.persons == pre.persons
    &&& post.planners == pre.planners
    &&& post.plans == pre.plans
    &&& post.participations == pre.participations
    &&& post.organizations == pre.organizations
    &&& post.next_event_id == pre.next_event_id
    &&& post.next_person_id == pre.next_person_id
    &&& post.next_planner_id == pre.next_planner_id
    &&& post.next_plan_id == pre.next_plan_id
    &&& post.next_participation_id == pre.next_participation_id
    &&& post.next_organization_id == pre.next_organization_id
}

/// Everything but the organization table and its id sequence is unchanged.
pub open spec fn same_except_organizations(pre: Store, post: Store) -> bool {
    &&& post.events == pre.events
    &&& post.persons == pre.persons
    &&& post.planners == pre.planners
    &&& post.plans == pre.plans
    &&& post.affiliations == pre.affiliations
    &&& post.participations == pre.participations
    &&& post.next_event_id == pre.next_event_id
    &&& post.next_person_id == pre.next_person_id
    &&& post.next_planner_id == pre.next_planner_id
    &&& post.next_plan_id == pre.next_plan_id
    &&& post.next_affiliation_id == pre.next_affiliation_id
    &&& post.next_participation_id == pre.next_participation_id
}

/// Everything but the person and planner tables and their id sequences is
/// unchanged.
pub open spec fn same_except_persons_and_planners(pre: Store, post: Store) -> bool {
    &&& post.events == pre.events
    &&& post.plans == pre.plans
    &&& post.affiliations == pre.affiliations
    &&& post.participations == pre.participations
    &&& post.organizations == pre.organizations
    &&& post.next_event_id == pre.next_event_id
    &&& post.next_plan_id == pre.next_plan_id
    &&& post.next_affiliation_id == pre.next_affiliation_id
    &&& post.next_participation_id == pre.next_participation_id
    &&& post.next_organization_id == pre.next_organization_id
}

// ---------------------------------------------------------------------------
// Lemmas about lookup under uniqueness, and its preservation by the three
// table edits an operation can make: push, remove, update.
// ---------------------------------------------------------------------------
/// With unique ids, any witness index is the index that lookup finds.
pub proof fn lemma_event_index_of(evs: Seq<Event>, id: i32, j: int)
    requires
        events_unique(evs),
        0 <= j < evs.len(),
        evs[j].event_id == Some(id),
    ensures
        has_event(evs, id),
        event_index(evs, id) == j,
{
    assert(has_event(evs, id));
    let k = event_index(evs, id);
    assert(0 <= k < evs.len() && evs[k].event_id == Some(id));
    if k != j {
        assert(evs[k].event_id != evs[j].event_id);
    }
}

/// With unique ids, any witness index is the index that lookup finds.
pub proof fn lemma_person_index_of(ps: Seq<Person>, id: i32, j: int)
    requires
        persons_unique(ps),
        0 <= j < ps.len(),
        ps[j].person_id == Some(id),
    ensures
        has_person(ps, id),
        person_index(ps, id) == j,
{
    assert(has_person(ps, id));
    let k = person_index(ps, id);
    assert(0 <= k < ps.len() && ps[k].person_id == Some(id));
    if k != j {
        assert(ps[k].person_id != ps[j].person_id);
    }
}

/// With unique ids, any witness index is the index that lookup finds.
pub proof fn lemma_planner_index_of(pls: Seq<Planner>, id: i32, j: int)
    requires
        planners_unique(pls),
        0 <= j < pls.len(),
        pls[j].planner_id == id,
    ensures
        has_planner(pls, id),
        planner_index(pls, id) == j,
{
    assert(has_planner(pls, id));
    let k = planner_index(pls, id);
    assert(0 <= k < pls.len() && pls[k].planner_id == id);
    if k != j {
        assert(pls[k].planner_id != pls[j].planner_id);
    }
}

/// With unique ids, any witness index is the index that lookup finds.
pub proof fn lemma_plan_index_of(plans: Seq<Plan>, id: i32, j: int)
    requires
        plans_unique(plans),
        0 <= j < plans.len(),
        plans[j].plan_id == Some(id),
    ensures
        has_plan(plans, id),
        plan_index(plans, id) == j,
{
    assert(has_plan(plans, id));
    let k = plan_index(plans, id);
    assert(0 <= k < plans.len() && plans[k].plan_id == Some(id));
    if k != j {
        assert(plans[k].plan_id != plans[j].plan_id);
    }
}

/// With unique ids, any witness index is the index that lookup finds.
pub proof fn lemma_affiliation_index_of(afs: Seq<Affiliation>, id: i32, j: int)
    requires
        affiliations_unique(afs),
        0 <= j < afs.len(),
        afs[j].affiliation_id == Some(id),
    ensures
        has_affiliation(afs, id),
        affiliation_index(afs, id) == j,
{
    assert(has_affiliation(afs, id));
    let k = affiliation_index(afs, id);
    assert(0 <= k < afs.len() && afs[k].affiliation_id == Some(id));
    if k != j {
        assert(afs[k].affiliation_id != afs[j].affiliation_id);
    }
}

/// With unique ids, any witness index is the index that lookup finds.
pub proof fn lemma_organization_index_of(os: Seq<Organization>, id: i32, j: int)
    requires
        organizations_unique(os),
        0 <= j < os.len(),
        os[j].organization_id == Some(id),
    ensures
        has_organization(os, id),
        organization_index(os, id) == j,
{
    assert(has_organization(os, id));
    let k = organization_index(os, id);
    assert(0 <= k < os.len() && os[k].organization_id == Some(id));
    if k != j {
        assert(os[k].organization_id != os[j].organization_id);
    }
}

/// A row that a new row is appended after is still found.
pub proof fn lemma_has_event_after_push(evs: Seq<Event>, ev: Event, id: i32)
    requires
        has_event(evs, id),
    ensures
        has_event(evs.push(ev), id),
{
    let k = event_index(evs, id);
    assert(evs.push(ev)[k] == evs[k]);
}

/// A row that a new row is appended after is still found.
pub proof fn lemma_has_person_after_push(ps: Seq<Person>, p: Person, id: i32)
    requires
        has_person(ps, id),
    ensures
        has_person(ps.push(p), id),
{
    let k = person_index(ps, id);
    assert(ps.push(p)[k] == ps[k]);
}

/// A row that a new row is appended after is still found.
pub proof fn lemma_has_planner_after_push(pls: Seq<Planner>, pl: Planner, id: i32)
    requires
        has_planner(pls, id),
    ensures
        has_planner(pls.push(pl), id),
{
    let k = planner_index(pls, id);
    assert(pls.push(pl)[k] == pls[k]);
}

/// A row that a new row is appended after is still found.
pub proof fn lemma_has_organization_after_push(os: Seq<Organization>, o: Organization, id: i32)
    requires
        has_organization(os, id),
    ensures
        has_organization(os.push(o), id),
{
    let k = organization_index(os, id);
    assert(os.push(o)[k] == os[k]);
}

/// Removing some other row keeps a row findable.
pub proof fn lemma_has_event_after_remove(evs: Seq<Event>, j: int, id: i32)
    requires
        0 <= j < evs.len(),
        evs[j].event_id != Some(id),
        has_event(evs, id),
    ensures
        has_event(evs.remove(j), id),
{
    let k = event_index(evs, id);
    assert(0 <= k < evs.len() && evs[k].event_id == Some(id));
    evs.remove_ensures(j);
    if k < j {
        assert(evs.remove(j)[k] == evs[k]);
    } else {
        assert(evs.remove(j)[k - 1] == evs[k]);
    }
}

/// Removing some other row keeps a row findable.
pub proof fn lemma_has_person_after_remove(ps: Seq<Person>, j: int, id: i32)
    requires
        0 <= j < ps.len(),
        ps[j].person_id != Some(id),
        has_person(ps, id),
    ensures
        has_person(ps.remove(j), id),
{
    let k = person_index(ps, id);
    assert(0 <= k < ps.len() && ps[k].person_id == Some(id));
    ps.remove_ensures(j);
    if k < j {
        assert(ps.remove(j)[k] == ps[k]);
    } else {
        assert(ps.remove(j)[k - 1] == ps[k]);
    }
}

/// Removing some other row keeps a row findable.
pub proof fn lemma_has_planner_after_remove(pls: Seq<Planner>, j: int, id: i32)
    requires
        0 <= j < pls.len(),
        pls[j].planner_id != id,
        has_planner(pls, id),
    ensures
        has_planner(pls.remove(j), id),
{
    let k = planner_index(pls, id);
    assert(0 <= k < pls.len() && pls[k].planner_id == id);
    pls.remove_ensures(j);
    if k < j {
        assert(pls.remove(j)[k] == pls[k]);
    } else {
        assert(pls.remove(j)[k - 1] == pls[k]);
    }
}

/// Removing some other row keeps a row findable.
pub proof fn lemma_has_organization_after_remove(os: Seq<Organization>, j: int, id: i32)
    requires
        0 <= j < os.len(),
        os[j].organization_id != Some(id),
        has_organization(os, id),
    ensures
        has_organization(os.remove(j), id),
{
    let k = organization_index(os, id);
    assert(0 <= k < os.len() && os[k].organization_id == Some(id));
    os.remove_ensures(j);
    if k < j {
        assert(os.remove(j)[k] == os[k]);
    } else {
        assert(os.remove(j)[k - 1] == os[k]);
    }
}

/// Replacing a row by one with the same id changes no lookup, and keeps the
/// table's ids unique and valid.
pub proof fn lemma_event_update_same_id(evs: Seq<Event>, j: int, v: Event, next: i32)
    requires
        0 <= j < evs.len(),
        evs[j].event_id == v.event_id,
    ensures
        forall|x: i32| has_event(evs.update(j, v), x) == has_event(evs, x),
        events_unique(evs) ==> events_unique(evs.update(j, v)),
        event_ids_valid(evs, next) ==> event_ids_valid(evs.update(j, v), next),
{
    let r = evs.update(j, v);
    assert forall|x: i32| has_event(r, x) == has_event(evs, x) by {
        if has_event(evs, x) {
            let k = event_index(evs, x);
            assert(r[k].event_id == Some(x));
            assert(has_event(r, x));
        }
        if has_event(r, x) {
            let k = event_index(r, x);
            assert(evs[k].event_id == Some(x));
            assert(has_event(evs, x));
        }
    }
    assert forall|i: int| 0 <= i < r.len() implies r[i].event_id == evs[i].event_id by {}
}

/// Replacing a row by one with the same id changes no lookup, and keeps the
/// table's ids unique and valid.
pub proof fn lemma_person_update_same_id(ps: Seq<Person>, j: int, v: Person, next: i32)
    requires
        0 <= j < ps.len(),
        ps[j].person_id == v.person_id,
    ensures
        forall|x: i32| has_person(ps.update(j, v), x) == has_person(ps, x),
        persons_unique(ps) ==> persons_unique(ps.update(j, v)),
        person_ids_valid(ps, next) ==> person_ids_valid(ps.update(j, v), next),
{
    let r = ps.update(j, v);
    assert forall|x: i32| has_person(r, x) == has_person(ps, x) by {
        if has_person(ps, x) {
            let k = person_index(ps, x);
            assert(r[k].person_id == Some(x));
            assert(has_person(r, x));
        }
        if has_person(r, x) {
            let k = person_index(r, x);
            assert(ps[k].person_id == Some(x));
            assert(has_person(ps, x));
        }
    }
    assert forall|i: int| 0 <= i < r.len() implies r[i].person_id == ps[i].person_id by {}
}

/// Appending a row with the fresh id `next` keeps ids unique and valid for
/// any id sequence that has moved past `next`.
pub proof fn lemma_event_push_fresh(evs: Seq<Event>, ev: Event, next: i32, next1: i32)
    requires
        event_ids_valid(evs, next),
        events_unique(evs),
        ev.event_id == Some(next),
        1 <= next < next1,
    ensures
        event_ids_valid(evs.push(ev), next1),
        events_unique(evs.push(ev)),
{
    let r = evs.push(ev);
    let n = evs.len() as int;
    assert forall|i: int| 0 <= i < r.len() implies ((#[trigger] r[i]).event_id matches Some(id)
        && 1 <= id < next1) by {
        if i < n {
            assert(r[i] == evs[i]);
            assert(evs[i].event_id matches Some(id) && 1 <= id < next);
        } else {
            assert(r[i] == ev);
        }
    }
    assert forall|i: int, j: int|
        0 <= i < r.len() && 0 <= j < r.len() && i != j implies (#[trigger] r[i]).event_id != (
    #[trigger] r[j]).event_id by {
        if i < n && j < n {
            assert(r[i] == evs[i] && r[j] == evs[j]);
        } else if i < n {
            assert(r[i] == evs[i] && r[j] == ev);
            assert(evs[i].event_id matches Some(id) && 1 <= id < next);
        } else {
            assert(r[i] == ev && r[j] == evs[j]);
            assert(evs[j].event_id matches Some(id) && 1 <= id < next);
        }
    }
}

/// Appending a row with the fresh id `next` keeps ids unique and valid for
/// any id sequence that has moved past `next`.
pub proof fn lemma_person_push_fresh(ps: Seq<Person>, p: Person, next: i32, next1: i32)
    requires
        person_ids_valid(ps, next),
        persons_unique(ps),
        p.person_id == Some(next),
        1 <= next < next1,
    ensures
        person_ids_valid(ps.push(p), next1),
        persons_unique(ps.push(p)),
{
    let r = ps.push(p);
    let n = ps.len() as int;
    assert forall|i: int| 0 <= i < r.len() implies ((#[trigger] r[i]).person_id matches Some(id)
        && 1 <= id < next1) by {
        if i < n {
            assert(r[i] == ps[i]);
            assert(ps[i].person_id matches Some(id) && 1 <= id < next);
        } else {
            assert(r[i] == p);
        }
    }
    assert forall|i: int, j: int|
        0 <= i < r.len() && 0 <= j < r.len() && i != j implies (#[trigger] r[i]).person_id != (
    #[trigger] r[j]).person_id by {
        if i < n && j < n {
            assert(r[i] == ps[i] && r[j] == ps[j]);
        } else if i < n {
            assert(r[i] == ps[i] && r[j] == p);
            assert(ps[i].person_id matches Some(id) && 1 <= id < next);
        } else {
            assert(r[i] == p && r[j] == ps[j]);
            assert(ps[j].person_id matches Some(id) && 1 <= id < next);
        }
    }
}

/// Appending a row with the fresh id `next` keeps ids unique and valid for
/// any id sequence that has moved past `next`.
pub proof fn lemma_planner_push_fresh(pls: Seq<Planner>, pl: Planner, next: i32, next1: i32)
    requires
        planner_ids_valid(pls, next),
        planners_unique(pls),
        pl.planner_id == next,
        1 <= next < next1,
    ensures
        planner_ids_valid(pls.push(pl), next1),
        planners_unique(pls.push(pl)),
{
    let r = pls.push(pl);
    let n = pls.len() as int;
    assert forall|i: int| 0 <= i < r.len() implies 1 <= (#[trigger] r[i]).planner_id < next1 by {
        if i < n {
            assert(r[i] == pls[i]);
            assert(1 <= pls[i].planner_id < next);
        } else {
            assert(r[i] == pl);
        }
    }
    assert forall|i: int, j: int|
        0 <= i < r.len() && 0 <= j < r.len() && i != j implies (#[trigger] r[i]).planner_id != (
    #[trigger] r[j]).planner_id by {
        if i < n && j < n {
            assert(r[i] == pls[i] && r[j] == pls[j]);
        } else if i < n {
            assert(r[i] == pls[i] && r[j] == pl);
            assert(1 <= pls[i].planner_id < next);
        } else {
            assert(r[i] == pl && r[j] == pls[j]);
            assert(1 <= pls[j].planner_id < next);
        }
    }
}

/// Appending a row with the fresh id `next` keeps ids unique and valid for
/// any id sequence that has moved past `next`.
pub proof fn lemma_plan_push_fresh(plans: Seq<Plan>, p: Plan, next: i32, next1: i32)
    requires
        plan_ids_valid(plans, next),
        plans_unique(plans),
        p.plan_id == Some(next),
        1 <= next < next1,
    ensures
        plan_ids_valid(plans.push(p), next1),
        plans_unique(plans.push(p)),
{
    let r = plans.push(p);
    let n = plans.len() as int;
    assert forall|i: int| 0 <= i < r.len() implies ((#[trigger] r[i]).plan_id matches Some(id) && 1
        <= id < next1) by {
        if i < n {
            assert(r[i] == plans[i]);
            assert(plans[i].plan_id matches Some(id) && 1 <= id < next);
        } else {
            assert(r[i] == p);
        }
    }
    assert forall|i: int, j: int|
        0 <= i < r.len() && 0 <= j < r.len() && i != j implies (#[trigger] r[i]).plan_id != (
    #[trigger] r[j]).plan_id by {
        if i < n && j < n {
            assert(r[i] == plans[i] && r[j] == plans[j]);
        } else if i < n {
            assert(r[i] == plans[i] && r[j] == p);
            assert(plans[i].plan_id matches Some(id) && 1 <= id < next);
        } else {
            assert(r[i] == p && r[j] == plans[j]);
            assert(plans[j].plan_id matches Some(id) && 1 <= id < next);
        }
    }
}

/// Appending a row with the fresh id `next` keeps ids unique and valid for
/// any id sequence that has moved past `next`.
pub proof fn lemma_affiliation_push_fresh(afs: Seq<Affiliation>, a: Affiliation, next: i32, next1: i32)
    requires
        affiliation_ids_valid(afs, next),
        affiliations_unique(afs),
        a.affiliation_id == Some(next),
        1 <= next < next1,
    ensures
        affiliation_ids_valid(afs.push(a), next1),
        affiliations_unique(afs.push(a)),
{
    let r = afs.push(a);
    let n = afs.len() as int;
    assert forall|i: int| 0 <= i < r.len() implies ((#[trigger] r[i]).affiliation_id matches Some(
        id,
    ) && 1 <= id < next1) by {
        if i < n {
            assert(r[i] == afs[i]);
            assert(afs[i].affiliation_id matches Some(id) && 1 <= id < next);
        } else {
            assert(r[i] == a);
        }
    }
    assert forall|i: int, j: int|
        0 <= i < r.len() && 0 <= j < r.len() && i != j implies (#[trigger] r[i]).affiliation_id
        != (#[trigger] r[j]).affiliation_id by {
        if i < n && j < n {
            assert(r[i] == afs[i] && r[j] == afs[j]);
        } else if i < n {
            assert(r[i] == afs[i] && r[j] == a);
            assert(afs[i].affiliation_id matches Some(id) && 1 <= id < next);
        } else {
            assert(r[i] == a && r[j] == afs[j]);
            assert(afs[j].affiliation_id matches Some(id) && 1 <= id < next);
        }
    }
}

/// Appending a row with the fresh id `next` keeps ids unique and valid for
/// any id sequence that has moved past `next`.
pub proof fn lemma_organization_push_fresh(os: Seq<Organization>, o: Organization, next: i32, next1: i32)
    requires
        organization_ids_valid(os, next),
        organizations_unique(os),
        o.organization_id == Some(next),
        1 <= next < next1,
    ensures
        organization_ids_valid(os.push(o), next1),
        organizations_unique(os.push(o)),
{
    let r = os.push(o);
    let n = os.len() as int;
    assert forall|i: int| 0 <= i < r.len() implies ((#[trigger] r[i]).organization_id matches Some(
        id,
    ) && 1 <= id < next1) by {
        if i < n {
            assert(r[i] == os[i]);
            assert(os[i].organization_id matches Some(id) && 1 <= id < next);
        } else {
            assert(r[i] == o);
        }
    }
    assert forall|i: int, j: int|
        0 <= i < r.len() && 0 <= j < r.len() && i != j implies (#[trigger] r[i]).organization_id
        != (#[trigger] r[j]).organization_id by {
        if i < n && j < n {
            assert(r[i] == os[i] && r[j] == os[j]);
        } else if i < n {
            assert(r[i] == os[i] && r[j] == o);
            assert(os[i].organization_id matches Some(id) && 1 <= id < next);
        } else {
            assert(r[i] == o && r[j] == os[j]);
            assert(os[j].organization_id matches Some(id) && 1 <= id < next);
        }
    }
}

/// Removing a row keeps the remaining ids unique and valid.
pub proof fn lemma_event_remove_keeps_valid(evs: Seq<Event>, j: int, next: i32)
    requires
        0 <= j < evs.len(),
        event_ids_valid(evs, next),
        events_unique(evs),
    ensures
        event_ids_valid(evs.remove(j), next),
        events_unique(evs.remove(j)),
{
    let r = evs.remove(j);
    evs.remove_ensures(j);
    assert forall|i: int| 0 <= i < r.len() implies ((#[trigger] r[i]).event_id matches Some(id)
        && 1 <= id < next) by {
        if i < j {
            assert(r[i] == evs[i]);
        } else {
            assert(r[i] == evs[i + 1]);
        }
    }
    assert forall|i: int, k: int|
        0 <= i < r.len() && 0 <= k < r.len() && i != k implies (#[trigger] r[i]).event_id != (
    #[trigger] r[k]).event_id by {
        let i0: int = if i < j { i } else { i + 1 };
        let k0: int = if k < j { k } else { k + 1 };
        assert(r[i] == evs[i0] && r[k] == evs[k0]);
    }
}

/// Removing a row keeps the remaining ids unique and valid.
pub proof fn lemma_person_remove_keeps_valid(ps: Seq<Person>, j: int, next: i32)
    requires
        0 <= j < ps.len(),
        person_ids_valid(ps, next),
        persons_unique(ps),
    ensures
        person_ids_valid(ps.remove(j), next),
        persons_unique(ps.remove(j)),
{
    let r = ps.remove(j);
    ps.remove_ensures(j);
    assert forall|i: int| 0 <= i < r.len() implies ((#[trigger] r[i]).person_id matches Some(id)
        && 1 <= id < next) by {
        if i < j {
            assert(r[i] == ps[i]);
        } else {
            assert(r[i] == ps[i + 1]);
        }
    }
    assert forall|i: int, k: int|
        0 <= i < r.len() && 0 <= k < r.len() && i != k implies (#[trigger] r[i]).person_id != (
    #[trigger] r[k]).person_id by {
        let i0: int = if i < j { i } else { i + 1 };
        let k0: int = if k < j { k } else { k + 1 };
        assert(r[i] == ps[i0] && r[k] == ps[k0]);
    }
}

/// Removing a row keeps the remaining ids unique and valid.
pub proof fn lemma_planner_remove_keeps_valid(pls: Seq<Planner>, j: int, next: i32)
    requires
        0 <= j < pls.len(),
        planner_ids_valid(pls, next),
        planners_unique(pls),
    ensures
        planner_ids_valid(pls.remove(j), next),
        planners_unique(pls.remove(j)),
{
    let r = pls.remove(j);
    pls.remove_ensures(j);
    assert forall|i: int| 0 <= i < r.len() implies 1 <= (#[trigger] r[i]).planner_id < next by {
        if i < j {
            assert(r[i] == pls[i]);
        } else {
            assert(r[i] == pls[i + 1]);
        }
    }
    assert forall|i: int, k: int|
        0 <= i < r.len() && 0 <= k < r.len() && i != k implies (#[trigger] r[i]).planner_id != (
    #[trigger] r[k]).planner_id by {
        let i0: int = if i < j { i } else { i + 1 };
        let k0: int = if k < j { k } else { k + 1 };
        assert(r[i] == pls[i0] && r[k] == pls[k0]);
    }
}

/// Removing a row keeps the remaining ids unique and valid.
pub proof fn lemma_plan_remove_keeps_valid(plans: Seq<Plan>, j: int, next: i32)
    requires
        0 <= j < plans.len(),
        plan_ids_valid(plans, next),
        plans_unique(plans),
    ensures
        plan_ids_valid(plans.remove(j), next),
        plans_unique(plans.remove(j)),
{
    let r = plans.remove(j);
    plans.remove_ensures(j);
    assert forall|i: int| 0 <= i < r.len() implies ((#[trigger] r[i]).plan_id matches Some(id) && 1
        <= id < next) by {
        if i < j {
            assert(r[i] == plans[i]);
        } else {
            assert(r[i] == plans[i + 1]);
        }
    }
    assert forall|i: int, k: int|
        0 <= i < r.len() && 0 <= k < r.len() && i != k implies (#[trigger] r[i]).plan_id != (
    #[trigger] r[k]).plan_id by {
        let i0: int = if i < j { i } else { i + 1 };
        let k0: int = if k < j { k } else { k + 1 };
        assert(r[i] == plans[i0] && r[k] == plans[k0]);
    }
}

/// Removing a row keeps the remaining ids unique and valid.
pub proof fn lemma_affiliation_remove_keeps_valid(afs: Seq<Affiliation>, j: int, next: i32)
    requires
        0 <= j < afs.len(),
        affiliation_ids_valid(afs, next),
        affiliations_unique(afs),
    ensures
        affiliation_ids_valid(afs.remove(j), next),
        affiliations_unique(afs.remove(j)),
{
    let r = afs.remove(j);
    afs.remove_ensures(j);
    assert forall|i: int| 0 <= i < r.len() implies ((#[trigger] r[i]).affiliation_id matches Some(
        id,
    ) && 1 <= id < next) by {
        if i < j {
            assert(r[i] == afs[i]);
        } else {
            assert(r[i] == afs[i + 1]);
        }
    }
    assert forall|i: int, k: int|
        0 <= i < r.len() && 0 <= k < r.len() && i != k implies (#[trigger] r[i]).affiliation_id
        != (#[trigger] r[k]).affiliation_id by {
        let i0: int = if i < j { i } else { i + 1 };
        let k0: int = if k < j { k } else { k + 1 };
        assert(r[i] == afs[i0] && r[k] == afs[k0]);
    }
}

/// Removing a row keeps the remaining ids unique and valid.
pub proof fn lemma_organization_remove_keeps_valid(os: Seq<Organization>, j: int, next: i32)
    requires
        0 <= j < os.len(),
        organization_ids_valid(os, next),
        organizations_unique(os),
    ensures
        organization_ids_valid(os.remove(j), next),
        organizations_unique(os.remove(j)),
{
    let r = os.remove(j);
    os.remove_ensures(j);
    assert forall|i: int| 0 <= i < r.len() implies ((#[trigger] r[i]).organization_id matches Some(
        id,
    ) && 1 <= id < next) by {
        if i < j {
            assert(r[i] == os[i]);
        } else {
            assert(r[i] == os[i + 1]);
        }
    }
    assert forall|i: int, k: int|
        0 <= i < r.len() && 0 <= k < r.len() && i != k implies (#[trigger] r[i]).organization_id
        != (#[trigger] r[k]).organization_id by {
        let i0: int = if i < j { i } else { i + 1 };
        let k0: int = if k < j { k } else { k + 1 };
        assert(r[i] == os[i0] && r[k] == os[k0]);
    }
}

/// Everything but the organization and planner tables and their id sequences
/// is unchanged.
pub open spec fn same_except_organizations_and_planners(pre: Store, post: Store) -> bool {
    &&& post.events == pre.events
    &&& post.persons == pre.persons
    &&& post.plans == pre.plans
    &&& post.affiliations == pre.affiliations
    &&& post.participations == pre.participations
    &&& post.next_event_id == pre.next_event_id
    &&& post.next_person_id == pre.next_person_id
    &&& post.next_plan_id == pre.next_plan_id
    &&& post.next_affiliation_id == pre.next_affiliation_id
    &&& post.next_participation_id == pre.next_participation_id
}

} // verus!
