use event_planner::errors::MyError;
use event_planner::models::{Event, Organization, Person};
use event_planner::query;
use event_planner::statements;
use event_planner::store::Store;

#[test]
fn test_query_create_person_stores_given_planner() {
    let mut s = Store::new();
    let planner = query::create_planner(&mut s).unwrap();
    let person = Person {
        person_id: None,
        person_name: "GDVCB".to_string(),
        planner_id: Some(planner.planner_id),
    };
    let stored = query::create_person(&mut s, person).unwrap();
    assert_eq!(stored.person_id, Some(1));
    assert_eq!(stored.planner_id, Some(1));
}

#[test]
fn test_query_create_person_without_planner() {
    let mut s = Store::new();
    let person = Person { person_id: None, person_name: "GDVCB".to_string(), planner_id: None };
    let stored = query::create_person(&mut s, person).unwrap();
    assert_eq!(stored.person_id, Some(1));
    assert_eq!(stored.planner_id, None);
}

#[test]
fn test_query_create_person_with_dangling_planner_fails() {
    let mut s = Store::new();
    let person = Person { person_id: None, person_name: "GDVCB".to_string(), planner_id: Some(9) };
    match query::create_person(&mut s, person) {
        Err(e) => assert_eq!(e, MyError::PGError),
        Ok(_) => panic!("a person owning a missing planner must not be stored"),
    }
}

#[test]
fn test_query_create_organization_with_dangling_planner_fails() {
    let mut s = Store::new();
    let organization = Organization {
        organization_id: None,
        organization_name: "festival_a".to_string(),
        planner_id: Some(4),
    };
    match query::create_organization(&mut s, organization) {
        Err(e) => assert_eq!(e, MyError::PGError),
        Ok(_) => panic!("an organization owning a missing planner must not be stored"),
    }
}

#[test]
fn test_query_delete_event_counts_rows() {
    let mut s = Store::new();
    let event = Event {
        event_id: None,
        event_name: "anniv".to_string(),
        event_location: "Paris".to_string(),
        event_description: "Petit anniv".to_string(),
    };
    let stored = query::create_event(&mut s, event).unwrap();
    assert_eq!(query::delete_event(&mut s, stored.clone()).unwrap(), 1);
    assert_eq!(query::delete_event(&mut s, stored).unwrap(), 0);
}

#[test]
fn test_query_ids_are_sequential_per_table() {
    let mut s = Store::new();
    for expected in 1i32..4i32 {
        let event = Event {
            event_id: None,
            event_name: format!("event {}", expected),
            event_location: "Paris".to_string(),
            event_description: "one of several".to_string(),
        };
        let stored = query::create_event(&mut s, event).unwrap();
        assert_eq!(stored.event_id, Some(expected));
    }
    let planner = query::create_planner(&mut s).unwrap();
    assert_eq!(planner.planner_id, 1);
}

#[test]
fn test_error_status_codes() {
    assert_eq!(MyError::NotFound.status_code(), 404);
    assert_eq!(MyError::PGError.status_code(), 500);
    assert_eq!(MyError::PGMError.status_code(), 500);
    assert_eq!(MyError::PoolError.status_code(), 500);
}

#[test]
fn test_error_messages() {
    assert_eq!(MyError::NotFound.message(), "Not Found");
    assert_eq!(MyError::PGError.message(), "PGError");
    assert_eq!(MyError::PGMError.message(), "PGMError");
    assert_eq!(MyError::PoolError.message(), "PoolError");
}

#[test]
fn test_statements_are_parameterized() {
    assert_eq!(
        statements::event_insert_statement(),
        "INSERT INTO event(event_name, event_location, event_description) VALUES($1, $2, $3) RETURNING event.event_id, event.event_name, event.event_location, event.event_description;"
    );
    assert_eq!(
        statements::planner_insert_statement(),
        "INSERT INTO planner DEFAULT VALUES RETURNING planner.planner_id;"
    );
    assert_eq!(
        statements::person_update_statement(),
        "UPDATE person SET person_name = $1 WHERE person_id = $2 RETURNING person.person_id, person.person_name, person.planner_id;"
    );
    assert_eq!(statements::event_delete_statement(), "DELETE FROM event WHERE event_id = $1;");
    assert_eq!(statements::plan_delete_statement(), "DELETE FROM plan WHERE plan_id = $1;");
    assert_eq!(
        statements::affiliation_delete_statement(),
        "DELETE FROM affiliation WHERE affiliation_id = $1;"
    );
}
