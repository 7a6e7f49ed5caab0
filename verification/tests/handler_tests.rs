use event_planner::errors::MyError;
use event_planner::handlers::{
    create_affiliation, create_event, create_organization, create_person, create_plan,
    create_planner, delete_affiliation, delete_event, delete_organization, delete_person,
    delete_plan, delete_planner, delete_status, get_events, modify_event, modify_person,
};
use event_planner::models::{Affiliation, Event, Organization, Person, Plan, Planner};
use event_planner::store::Store;

fn fresh_person(name: &str) -> Person {
    Person { person_id: None, person_name: name.to_string(), planner_id: None }
}

fn fresh_event(name: &str, location: &str, description: &str) -> Event {
    Event {
        event_id: None,
        event_name: name.to_string(),
        event_location: location.to_string(),
        event_description: description.to_string(),
    }
}

#[test]
fn test_create_delete_person() {
    let mut s = Store::new();
    let person = fresh_person("GDVCB");

    let created = create_person(&mut s, person).unwrap();
    assert_eq!(created.person_id, Some(1));
    assert_eq!(created.person_name, "GDVCB");
    assert_eq!(created.planner_id, Some(1));

    let code = delete_person(&mut s, created.clone()).unwrap();
    assert_eq!(code, 200);

    let code = delete_person(&mut s, created).unwrap();
    assert_eq!(code, 404);
}

#[test]
fn test_create_delete_event() {
    let mut s = Store::new();
    let event = fresh_event("anniv GDVCB", "Paris", "Petit anniv");

    let body = create_event(&mut s, event).unwrap();
    assert_eq!(body.event_id, Some(1));
    assert_eq!(body.event_name, "anniv GDVCB");
    assert_eq!(body.event_location, "Paris");
    assert_eq!(body.event_description, "Petit anniv");

    let code = delete_event(&mut s, body).unwrap();
    assert_eq!(code, 200);
}

#[test]
fn test_create_delete_organization() {
    let mut s = Store::new();
    let organization = Organization {
        organization_id: None,
        organization_name: "festival_a".to_string(),
        planner_id: None,
    };

    let body = create_organization(&mut s, organization).unwrap();
    assert_eq!(body.organization_id, Some(1));
    assert_eq!(body.organization_name, "festival_a");
    assert_eq!(body.planner_id, Some(1));

    let code = delete_organization(&mut s, body.clone()).unwrap();
    assert_eq!(code, 200);

    let code = delete_organization(&mut s, body).unwrap();
    assert_eq!(code, 404);
}

#[test]
fn test_event_roundtrip_then_no_events_for_person() {
    let mut s = Store::new();
    let body = create_event(&mut s, fresh_event("anniv", "Paris", "Petit anniv")).unwrap();
    assert_eq!(body.event_id, Some(1));
    assert_eq!(body.event_name, "anniv");
    assert_eq!(body.event_location, "Paris");
    assert_eq!(body.event_description, "Petit anniv");

    let person = create_person(&mut s, fresh_person("GDVCB")).unwrap();
    let events = get_events(&s, person).unwrap();
    assert!(events.is_empty());
}

#[test]
fn test_get_events_unknown_person_is_empty() {
    let s = Store::new();
    let ghostly = Person { person_id: Some(42), person_name: "nobody".to_string(), planner_id: None };
    let events = get_events(&s, ghostly).unwrap();
    assert!(events.is_empty());

    let unidentified = fresh_person("anonymous");
    let events = get_events(&s, unidentified).unwrap();
    assert!(events.is_empty());
}

#[test]
fn test_get_events_after_plan_links_person_to_event() {
    let mut s = Store::new();
    let event = create_event(&mut s, fresh_event("anniv", "Paris", "Petit anniv")).unwrap();
    let person = create_person(&mut s, fresh_person("GDVCB")).unwrap();

    let plan = Plan {
        plan_id: None,
        event_id: event.event_id.unwrap(),
        planner_id: person.planner_id.unwrap(),
    };
    let plan = create_plan(&mut s, plan).unwrap();
    assert_eq!(plan.plan_id, Some(1));

    let events = get_events(&s, person).unwrap();
    assert_eq!(events.len(), 1);
    assert_eq!(events[0].event_id, Some(1));
    assert_eq!(events[0].event_name, "anniv");
}

#[test]
fn test_modify_event_missing_id_is_not_found() {
    let mut s = Store::new();
    let mut event = fresh_event("anniv", "Paris", "Petit anniv");
    event.event_id = Some(42);
    match modify_event(&mut s, event) {
        Err(e) => assert_eq!(e, MyError::NotFound),
        Ok(_) => panic!("an update without a matching row must not return a record"),
    }
}

#[test]
fn test_modify_person_missing_id_is_not_found() {
    let mut s = Store::new();
    let absent = Person { person_id: Some(7), person_name: "x".to_string(), planner_id: None };
    match modify_person(&mut s, absent) {
        Err(e) => assert_eq!(e, MyError::NotFound),
        Ok(_) => panic!("an update without a matching row must not return a record"),
    }
}

#[test]
fn test_modify_event_updates_name_and_description_only() {
    let mut s = Store::new();
    let created = create_event(&mut s, fresh_event("anniv", "Paris", "Petit anniv")).unwrap();
    let patch = Event {
        event_id: created.event_id,
        event_name: "grand anniv".to_string(),
        event_location: "Lyon".to_string(),
        event_description: "Grand anniv".to_string(),
    };
    let updated = modify_event(&mut s, patch).unwrap();
    assert_eq!(updated.event_id, Some(1));
    assert_eq!(updated.event_name, "grand anniv");
    assert_eq!(updated.event_description, "Grand anniv");
    assert_eq!(updated.event_location, "Paris");
}

#[test]
fn test_modify_person_keeps_planner() {
    let mut s = Store::new();
    let created = create_person(&mut s, fresh_person("GDVCB")).unwrap();
    let patch = Person { person_id: created.person_id, person_name: "BCVDG".to_string(), planner_id: None };
    let updated = modify_person(&mut s, patch).unwrap();
    assert_eq!(updated.person_id, Some(1));
    assert_eq!(updated.person_name, "BCVDG");
    assert_eq!(updated.planner_id, Some(1));
}

#[test]
fn test_create_plan_with_missing_references_fails() {
    let mut s = Store::new();
    let plan = Plan { plan_id: None, event_id: 5, planner_id: 1 };
    match create_plan(&mut s, plan) {
        Err(e) => assert_eq!(e, MyError::PGError),
        Ok(_) => panic!("a plan with dangling references must not be stored"),
    }
}

#[test]
fn test_delete_plan_twice() {
    let mut s = Store::new();
    let event = create_event(&mut s, fresh_event("anniv", "Paris", "Petit anniv")).unwrap();
    let planner = create_planner(&mut s).unwrap();
    let plan = Plan { plan_id: None, event_id: event.event_id.unwrap(), planner_id: planner.planner_id };
    let plan = create_plan(&mut s, plan).unwrap();

    let code = delete_plan(&mut s, plan.clone()).unwrap();
    assert_eq!(code, 200);
    let code = delete_plan(&mut s, plan).unwrap();
    assert_eq!(code, 404);
}

#[test]
fn test_delete_event_blocked_by_plan() {
    let mut s = Store::new();
    let event = create_event(&mut s, fresh_event("anniv", "Paris", "Petit anniv")).unwrap();
    let planner = create_planner(&mut s).unwrap();
    let plan = Plan { plan_id: None, event_id: event.event_id.unwrap(), planner_id: planner.planner_id };
    let plan = create_plan(&mut s, plan).unwrap();

    match delete_event(&mut s, event.clone()) {
        Err(e) => assert_eq!(e, MyError::PGError),
        Ok(_) => panic!("deleting a referenced event must violate the foreign key"),
    }

    assert_eq!(delete_plan(&mut s, plan).unwrap(), 200);
    assert_eq!(delete_event(&mut s, event).unwrap(), 200);
}

#[test]
fn test_delete_planner_blocked_by_owner() {
    let mut s = Store::new();
    let person = create_person(&mut s, fresh_person("GDVCB")).unwrap();
    let planner = Planner { planner_id: person.planner_id.unwrap() };

    match delete_planner(&mut s, planner.clone()) {
        Err(e) => assert_eq!(e, MyError::PGError),
        Ok(_) => panic!("deleting an owned planner must violate the foreign key"),
    }

    assert_eq!(delete_person(&mut s, person).unwrap(), 200);
    assert_eq!(delete_planner(&mut s, planner).unwrap(), 200);
}

#[test]
fn test_create_delete_planner() {
    let mut s = Store::new();
    let planner = create_planner(&mut s).unwrap();
    assert_eq!(planner.planner_id, 1);
    let second = create_planner(&mut s).unwrap();
    assert_eq!(second.planner_id, 2);

    assert_eq!(delete_planner(&mut s, planner.clone()).unwrap(), 200);
    assert_eq!(delete_planner(&mut s, planner).unwrap(), 404);
}

#[test]
fn test_affiliation_lifecycle() {
    let mut s = Store::new();
    let person = create_person(&mut s, fresh_person("GDVCB")).unwrap();
    let organization = create_organization(
        &mut s,
        Organization {
            organization_id: None,
            organization_name: "festival_a".to_string(),
            planner_id: None,
        },
    )
    .unwrap();

    let affiliation = Affiliation {
        affiliation_id: None,
        person_id: person.person_id.unwrap(),
        organization_id: organization.organization_id.unwrap(),
    };
    let stored = create_affiliation(&mut s, affiliation).unwrap();
    assert_eq!(stored.affiliation_id, Some(1));
    assert_eq!(stored.person_id, 1);
    assert_eq!(stored.organization_id, 1);

    match delete_person(&mut s, person.clone()) {
        Err(e) => assert_eq!(e, MyError::PGError),
        Ok(_) => panic!("deleting an affiliated person must violate the foreign key"),
    }

    assert_eq!(delete_affiliation(&mut s, stored.clone()).unwrap(), 200);
    assert_eq!(delete_affiliation(&mut s, stored).unwrap(), 404);
    assert_eq!(delete_person(&mut s, person).unwrap(), 200);
}

#[test]
fn test_affiliation_with_missing_references_fails() {
    let mut s = Store::new();
    let affiliation = Affiliation { affiliation_id: None, person_id: 3, organization_id: 9 };
    match create_affiliation(&mut s, affiliation) {
        Err(e) => assert_eq!(e, MyError::PGError),
        Ok(_) => panic!("an affiliation with dangling references must not be stored"),
    }
}

#[test]
fn test_each_create_adds_one_planner() {
    let mut s = Store::new();
    let person = create_person(&mut s, fresh_person("GDVCB")).unwrap();
    assert_eq!(person.planner_id, Some(1));
    let organization = create_organization(
        &mut s,
        Organization {
            organization_id: None,
            organization_name: "festival_a".to_string(),
            planner_id: None,
        },
    )
    .unwrap();
    assert_eq!(organization.planner_id, Some(2));
    let planner = create_planner(&mut s).unwrap();
    assert_eq!(planner.planner_id, 3);
}

#[test]
fn test_delete_status_mapping() {
    assert_eq!(delete_status(0), 404);
    assert_eq!(delete_status(1), 200);
    assert_eq!(delete_status(2), 500);
    assert_eq!(delete_status(7), 500);
}
