use backend::models::{Exhibit, Note, Part};
use backend::store::{
    exhibit_create_writes, exhibit_row_of, exhibit_update_writes, part_create_writes, part_row_of,
    part_update_writes, rest_of_update, ExhibitRow, PartRow, Write,
};
use backend::errors::ApiError;

fn note(timestamp: &str, text: &str) -> Note {
    Note { timestamp: timestamp.to_string(), note: text.to_string() }
}

fn art_exhibit() -> Exhibit {
    Exhibit {
        id: None,
        name: "Updated Art Exhibit".to_string(),
        cluster: "Contemporary Art".to_string(),
        location: "Gallery 2".to_string(),
        status: "Inactive".to_string(),
        image_url: "http://localhost:3030/images/updated_sample.jpg".to_string(),
        sponsor_name: Some("Updated Sponsor".to_string()),
        sponsor_start_date: Some("2025-01-01".to_string()),
        sponsor_end_date: None,
        part_ids: vec![3, 9],
        notes: vec![note("2024-01-01T00:00:00Z", "First note")],
    }
}

fn test_part() -> Part {
    Part {
        id: None,
        name: "Updated Test Part".to_string(),
        link: "https://www.example.com/updated-test-part".to_string(),
        exhibit_ids: vec![1, 2],
        notes: vec![
            note("2024-01-01T00:00:00Z", "First note"),
            note("2024-01-02T00:00:00Z", "Second note"),
        ],
    }
}

#[test]
fn exhibit_row_holds_the_columns() {
    let row = exhibit_row_of(&art_exhibit());
    assert_eq!(
        row,
        ExhibitRow {
            name: "Updated Art Exhibit".to_string(),
            cluster: "Contemporary Art".to_string(),
            location: "Gallery 2".to_string(),
            status: "Inactive".to_string(),
            image_url: "http://localhost:3030/images/updated_sample.jpg".to_string(),
            sponsor_name: Some("Updated Sponsor".to_string()),
            sponsor_start_date: Some("2025-01-01".to_string()),
            sponsor_end_date: None,
        }
    );
}

#[test]
fn exhibit_update_replaces_links_and_notes() {
    let e = art_exhibit();
    let writes = exhibit_update_writes(7, &e);
    assert_eq!(
        writes,
        vec![
            Write::UpdateExhibit(7, exhibit_row_of(&e)),
            Write::UnlinkExhibit(7),
            Write::Link(7, 3),
            Write::Link(7, 9),
            Write::ClearExhibitNotes(7),
            Write::AddExhibitNote(7, note("2024-01-01T00:00:00Z", "First note")),
        ]
    );
}

#[test]
fn exhibit_creation_links_then_notes() {
    let writes = exhibit_create_writes(12, &art_exhibit());
    assert_eq!(
        writes,
        vec![
            Write::Link(12, 3),
            Write::Link(12, 9),
            Write::AddExhibitNote(12, note("2024-01-01T00:00:00Z", "First note")),
        ]
    );
}

#[test]
fn exhibit_without_parts_or_notes_needs_no_follow_up() {
    let mut e = art_exhibit();
    e.part_ids.clear();
    e.notes.clear();
    assert!(exhibit_create_writes(1, &e).is_empty());
    assert_eq!(exhibit_update_writes(1, &e).len(), 3);
}

#[test]
fn part_update_replaces_links_and_notes() {
    let p = test_part();
    assert_eq!(
        part_row_of(&p),
        PartRow {
            name: "Updated Test Part".to_string(),
            link: "https://www.example.com/updated-test-part".to_string(),
        }
    );
    let writes = part_update_writes(4, &p);
    assert_eq!(
        writes,
        vec![
            Write::UpdatePart(4, part_row_of(&p)),
            Write::UnlinkPart(4),
            Write::Link(1, 4),
            Write::Link(2, 4),
            Write::ClearPartNotes(4),
            Write::AddPartNote(4, note("2024-01-01T00:00:00Z", "First note")),
            Write::AddPartNote(4, note("2024-01-02T00:00:00Z", "Second note")),
        ]
    );
}

#[test]
fn part_creation_links_then_notes() {
    let writes = part_create_writes(5, &test_part());
    assert_eq!(
        writes,
        vec![
            Write::Link(1, 5),
            Write::Link(2, 5),
            Write::AddPartNote(5, note("2024-01-01T00:00:00Z", "First note")),
            Write::AddPartNote(5, note("2024-01-02T00:00:00Z", "Second note")),
        ]
    );
}

#[test]
fn statement_text_per_write() {
    assert_eq!(Write::DeletePart(1).statement(), "DELETE FROM parts WHERE id = ?1");
    assert_eq!(Write::Link(1, 2).statement(), "INSERT INTO exhibit_parts (exhibit_id, part_id) VALUES (?1, ?2)");
    assert_eq!(
        Write::AddExhibitNote(3, note("t", "n")).statement(),
        "INSERT INTO exhibit_notes (exhibit_id, timestamp, note) VALUES (?1, ?2, ?3)"
    );
    assert_eq!(Write::UpdatePart(4, part_row_of(&test_part())).statement(), "UPDATE parts SET name = ?1, link = ?2 WHERE id = ?3");
}

#[test]
fn update_stops_when_no_row_was_touched() {
    let plan = part_update_writes(4, &test_part());
    assert_eq!(rest_of_update(0, plan.clone()), Err(ApiError::NotFound));
    let (status, rest) = rest_of_update(1, plan.clone()).unwrap();
    assert_eq!(status, 200);
    assert_eq!(rest, plan[1..].to_vec());
}
