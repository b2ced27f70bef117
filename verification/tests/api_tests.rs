use backend::api::{
    check_part_ids, database_failure, deletion_reply,
    exhibit_deletion_after_lookup, exhibit_deletion_reply, found_or_not_found,
    jotform_key, pick_random_exhibit, update_reply, wipe_steps, ChangeStatusRequest,
    ExhibitDeletion, NewExhibit, NewNote,
};
use backend::db::{parts_by_ids_query, placeholders};
use backend::errors::ApiError;
use backend::models::{Exhibit, Sponsor};

fn exhibit(name: &str, cluster: &str) -> Exhibit {
    Exhibit {
        id: None,
        name: name.to_string(),
        cluster: cluster.to_string(),
        location: "Gallery 1".to_string(),
        status: "Active".to_string(),
        image_url: "http://localhost:3030/images/sample1.jpg".to_string(),
        sponsor_name: Some("Art Sponsor 1".to_string()),
        sponsor_start_date: Some("2024-01-01".to_string()),
        sponsor_end_date: Some("2024-12-31".to_string()),
        part_ids: vec![],
        notes: vec![],
    }
}

#[test]
fn test_get_random_exhibit_success() {
    let exhibits = vec![exhibit("Art Exhibit 1", "Modern Art"), exhibit("Art Exhibit 2", "Contemporary Art")];
    for _ in 0..20 {
        let e = pick_random_exhibit(exhibits.clone()).unwrap();
        assert!(e.name == "Art Exhibit 1" || e.name == "Art Exhibit 2");
    }
}

#[test]
fn random_exhibit_of_none_is_not_found() {
    assert_eq!(pick_random_exhibit(vec![]), Err(ApiError::NotFound));
}

#[test]
fn test_get_parts_by_ids_empty_list() {
    // An empty batch is refused with 400 and error "No part IDs provided".
    let reply = check_part_ids(&vec![]).unwrap_err();
    assert_eq!(reply.status, 400);
    assert_eq!(reply.body.error, "No part IDs provided");
    assert_eq!(check_part_ids(&vec![1, 2]), Ok(()));
}

#[test]
fn note_validation() {
    let empty = NewNote { submitter: "a".to_string(), message: "".to_string() };
    let reply = empty.validate().unwrap_err();
    assert_eq!(reply.status, 400);
    assert_eq!(reply.body.error, "Note cannot be empty");
    let ok = NewNote { submitter: "a".to_string(), message: "é".to_string() };
    assert_eq!(ok.validate(), Ok(()));
}

#[test]
fn status_is_trimmed_and_ids_rendered() {
    let r = ChangeStatusRequest { new_status: "  Closed \n".to_string() };
    assert_eq!(r.normalized_status(), "Closed");
    assert_eq!(jotform_key(6111451635317428145), "6111451635317428145");
    assert_eq!(jotform_key(-3), "-3");
}

#[test]
fn lookups_and_row_counts() {
    assert_eq!(found_or_not_found(Some(5)), Ok(5));
    assert_eq!(found_or_not_found::<i32>(None), Err(ApiError::NotFound));
    assert_eq!(deletion_reply(1), Ok(204));
    assert_eq!(deletion_reply(0), Err(ApiError::NotFound));
    assert_eq!(update_reply(3), Ok(200));
    assert_eq!(update_reply(0), Err(ApiError::NotFound));
    assert_eq!(database_failure("Database Error"), ApiError::DatabaseError("Database Error".to_string()));
}

#[test]
fn exhibit_deletion_steps() {
    assert_eq!(exhibit_deletion_after_lookup(Ok(true)), ExhibitDeletion::Delete);
    assert_eq!(exhibit_deletion_after_lookup(Ok(false)), ExhibitDeletion::Fail(ApiError::NotFound));
    assert_eq!(
        exhibit_deletion_after_lookup(Err("locked".to_string())),
        ExhibitDeletion::Fail(ApiError::DatabaseError("Failed to get exhibit".to_string()))
    );
    assert_eq!(exhibit_deletion_reply(Ok(1)), Ok(204));
    assert_eq!(
        exhibit_deletion_reply(Err("x".to_string())),
        Err(ApiError::DatabaseError("Failed to delete exhibit".to_string()))
    );
}

#[test]
fn wipe_drops_children_first() {
    let steps = wipe_steps();
    let statements: Vec<&str> = steps.iter().map(|s| s.statement.as_str()).collect();
    assert_eq!(
        statements,
        vec![
            "DROP TABLE IF EXISTS exhibit_parts",
            "DROP TABLE IF EXISTS exhibit_notes",
            "DROP TABLE IF EXISTS part_notes",
            "DROP TABLE IF EXISTS parts",
            "DROP TABLE IF EXISTS exhibits",
            "DROP TABLE IF EXISTS jotforms",
        ]
    );
    assert_eq!(steps[3].failure, "Failed to drop parts table");
    assert_eq!(steps[5].failure, "Failed to drop jotforms table");
}

#[test]
fn batch_query_placeholders() {
    assert_eq!(placeholders(0), "");
    assert_eq!(placeholders(1), "?");
    assert_eq!(placeholders(3), "?, ?, ?");
    assert_eq!(parts_by_ids_query(2), "SELECT id, name, link FROM parts WHERE id IN (?, ?)");
}

#[test]
fn posted_exhibit_becomes_a_record() {
    let posted = NewExhibit {
        name: "Art Exhibit".to_string(),
        cluster: "Modern Art".to_string(),
        location: "Gallery 1".to_string(),
        description: "Paintings".to_string(),
        status: "Active".to_string(),
        image_url: "data:image/jpeg;base64,/9j/4AAQSkZJRgABAQAAAQABAAD...".to_string(),
        sponsor: Some(Sponsor {
            name: "Art Sponsor".to_string(),
            start_date: "2024-01-01".to_string(),
            end_date: "2024-12-31".to_string(),
        }),
        part_ids: vec![],
        notes: vec![],
    };
    let mut expected = exhibit("Art Exhibit", "Modern Art");
    expected.status = "Active".to_string();
    expected.image_url = "data:image/jpeg;base64,/9j/4AAQSkZJRgABAQAAAQABAAD...".to_string();
    expected.sponsor_name = Some("Art Sponsor".to_string());
    expected.sponsor_end_date = Some("2024-12-31".to_string());
    assert_eq!(posted.clone().into_exhibit(), expected);
    let unsponsored = NewExhibit { sponsor: None, ..posted };
    let e = unsponsored.into_exhibit();
    assert_eq!((e.sponsor_name, e.sponsor_start_date, e.sponsor_end_date), (None, None, None));
}
