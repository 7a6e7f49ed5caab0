//! The SQL statement of each store operation, one function per statement.
//!
//! Every statement is parameterized — `$1`, `$2`, … — so no user input is
//! ever spliced into statement text; creates and updates return the row via
//! a `RETURNING` clause listing the table's columns in record order. A
//! relational backend executes these verbatim against the schema of
//! [`crate::store`].

use vstd::prelude::*;

verus! {

/// The insert behind event creation.
pub fn event_insert_statement() -> (s: String)
    ensures
        s@
            == "INSERT INTO event(event_name, event_location, event_description) VALUES($1, $2, $3) RETURNING event.event_id, event.event_name, event.event_location, event.event_description;"@,
{
    String::from_str(
        "INSERT INTO event(event_name, event_location, event_description) VALUES($1, $2, $3) RETURNING event.event_id, event.event_name, event.event_location, event.event_description;",
    )
}

/// The update behind event modification: name and description, by id.
pub fn event_update_statement() -> (s: String)
    ensures
        s@
            == "UPDATE event SET event_name = $1, event_description = $2 WHERE event_id = $3 RETURNING event.event_id, event.event_name, event.event_location, event.event_description;"@,
{
    String::from_str(
        "UPDATE event SET event_name = $1, event_description = $2 WHERE event_id = $3 RETURNING event.event_id, event.event_name, event.event_location, event.event_description;",
    )
}

/// The select behind the events-by-person query: the join
/// person -> planner -> plan -> event.
pub fn events_by_person_statement() -> (s: String)
    ensures
        s@
            == "SELECT event.event_id, event.event_name, event.event_location, event.event_description FROM event JOIN plan ON event.event_id = plan.event_id JOIN planner ON plan.planner_id = planner.planner_id JOIN person ON planner.planner_id = person.planner_id WHERE person.person_id = $1;"@,
{
    String::from_str(
        "SELECT event.event_id, event.event_name, event.event_location, event.event_description FROM event JOIN plan ON event.event_id = plan.event_id JOIN planner ON plan.planner_id = planner.planner_id JOIN person ON planner.planner_id = person.planner_id WHERE person.person_id = $1;",
    )
}

/// The delete behind event deletion.
pub fn event_delete_statement() -> (s: String)
    ensures
        s@ == "DELETE FROM event WHERE event_id = $1;"@,
{
    String::from_str("DELETE FROM event WHERE event_id = $1;")
}

/// The insert behind plan creation.
pub fn plan_insert_statement() -> (s: String)
    ensures
        s@
            == "INSERT INTO plan(planner_id, event_id) VALUES($1, $2) RETURNING plan.plan_id, plan.event_id, plan.planner_id;"@,
{
    String::from_str(
        "INSERT INTO plan(planner_id, event_id) VALUES($1, $2) RETURNING plan.plan_id, plan.event_id, plan.planner_id;",
    )
}

/// The delete behind plan deletion.
pub fn plan_delete_statement() -> (s: String)
    ensures
        s@ == "DELETE FROM plan WHERE plan_id = $1;"@,
{
    String::from_str("DELETE FROM plan WHERE plan_id = $1;")
}

/// The insert behind planner creation; the row has no caller-supplied
/// columns.
pub fn planner_insert_statement() -> (s: String)
    ensures
        s@ == "INSERT INTO planner DEFAULT VALUES RETURNING planner.planner_id;"@,
{
    String::from_str("INSERT INTO planner DEFAULT VALUES RETURNING planner.planner_id;")
}

/// The delete behind planner deletion.
pub fn planner_delete_statement() -> (s: String)
    ensures
        s@ == "DELETE FROM planner WHERE planner_id = $1;"@,
{
    String::from_str("DELETE FROM planner WHERE planner_id = $1;")
}

/// The insert behind person creation: the name and the owned planner.
pub fn person_insert_statement() -> (s: String)
    ensures
        s@
            == "INSERT INTO person(person_name, planner_id) VALUES($1, $2) RETURNING person.person_id, person.person_name, person.planner_id;"@,
{
    String::from_str(
        "INSERT INTO person(person_name, planner_id) VALUES($1, $2) RETURNING person.person_id, person.person_name, person.planner_id;",
    )
}

/// The update behind person modification: the name, by id.
pub fn person_update_statement() -> (s: String)
    ensures
        s@
            == "UPDATE person SET person_name = $1 WHERE person_id = $2 RETURNING person.person_id, person.person_name, person.planner_id;"@,
{
    String::from_str(
        "UPDATE person SET person_name = $1 WHERE person_id = $2 RETURNING person.person_id, person.person_name, person.planner_id;",
    )
}

/// The delete behind person deletion.
pub fn person_delete_statement() -> (s: String)
    ensures
        s@ == "DELETE FROM person WHERE person_id = $1;"@,
{
    String::from_str("DELETE FROM person WHERE person_id = $1;")
}

/// The insert behind affiliation creation.
pub fn affiliation_insert_statement() -> (s: String)
    ensures
        s@
            == "INSERT INTO affiliation(person_id, organization_id) VALUES($1, $2) RETURNING affiliation.affiliation_id, affiliation.person_id, affiliation.organization_id;"@,
{
    String::from_str(
        "INSERT INTO affiliation(person_id, organization_id) VALUES($1, $2) RETURNING affiliation.affiliation_id, affiliation.person_id, affiliation.organization_id;",
    )
}

/// The delete behind affiliation deletion.
pub fn affiliation_delete_statement() -> (s: String)
    ensures
        s@ == "DELETE FROM affiliation WHERE affiliation_id = $1;"@,
{
    String::from_str("DELETE FROM affiliation WHERE affiliation_id = $1;")
}

/// The insert behind organization creation: the name and the owned planner.
pub fn organization_insert_statement() -> (s: String)
    ensures
        s@
            == "INSERT INTO organization(organization_name, planner_id) VALUES($1, $2) RETURNING organization.organization_id, organization.organization_name, organization.planner_id;"@,
{
    String::from_str(
        "INSERT INTO organization(organization_name, planner_id) VALUES($1, $2) RETURNING organization.organization_id, organization.organization_name, organization.planner_id;",
    )
}

/// The delete behind organization deletion.
pub fn organization_delete_statement() -> (s: String)
    ensures
        s@ == "DELETE FROM organization WHERE organization_id = $1;"@,
{
    String::from_str("DELETE FROM organization WHERE organization_id = $1;")
}

} // verus!
