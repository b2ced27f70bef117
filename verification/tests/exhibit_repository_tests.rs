// The library's planned writes run against a real in-memory SQLite database,
// then the exhibit is read back with plain queries.
use backend::models::{Exhibit, Note};
use backend::store::{exhibit_create_writes, exhibit_row_of, exhibit_update_writes, Write};
use rusqlite::{Connection, OptionalExtension};

const SCHEMA: [&str; 5] = [
    "CREATE TABLE exhibits (id INTEGER PRIMARY KEY, name TEXT NOT NULL, cluster TEXT NOT NULL,
        location TEXT NOT NULL, status TEXT NOT NULL, image_url TEXT NOT NULL, sponsor_name TEXT,
        sponsor_start_date TEXT, sponsor_end_date TEXT)",
    "CREATE TABLE parts (id INTEGER PRIMARY KEY, name TEXT NOT NULL, link TEXT NOT NULL)",
    "CREATE TABLE exhibit_parts (exhibit_id INTEGER NOT NULL, part_id INTEGER NOT NULL,
        FOREIGN KEY (exhibit_id) REFERENCES exhibits(id) ON DELETE CASCADE,
        FOREIGN KEY (part_id) REFERENCES parts(id) ON DELETE CASCADE,
        PRIMARY KEY (exhibit_id, part_id))",
    "CREATE TABLE exhibit_notes (id INTEGER PRIMARY KEY, exhibit_id INTEGER NOT NULL,
        timestamp TEXT NOT NULL, note TEXT NOT NULL,
        FOREIGN KEY (exhibit_id) REFERENCES exhibits(id) ON DELETE CASCADE)",
    "CREATE TABLE part_notes (id INTEGER PRIMARY KEY, part_id INTEGER NOT NULL,
        timestamp TEXT NOT NULL, note TEXT NOT NULL,
        FOREIGN KEY (part_id) REFERENCES parts(id) ON DELETE CASCADE)",
];

fn open() -> Connection {
    let conn = Connection::open_in_memory().expect("Failed to create in-memory database");
    conn.execute("PRAGMA foreign_keys = ON;", []).unwrap();
    for statement in SCHEMA.iter() {
        conn.execute(statement, []).expect("Failed to setup tables");
    }
    conn
}

fn run(conn: &Connection, write: &Write) -> usize {
    let sql = write.statement();
    match write {
        Write::UpdateExhibit(id, row) => conn.execute(
            sql,
            (
                &row.name,
                &row.cluster,
                &row.location,
                &row.status,
                &row.image_url,
                &row.sponsor_name,
                &row.sponsor_start_date,
                &row.sponsor_end_date,
                id,
            ),
        ),
        Write::UpdatePart(id, row) => conn.execute(sql, (&row.name, &row.link, id)),
        Write::DeleteExhibit(id)
        | Write::UnlinkExhibit(id)
        | Write::UnlinkPart(id)
        | Write::ClearExhibitNotes(id)
        | Write::DeletePart(id)
        | Write::ClearPartNotes(id) => conn.execute(sql, (id,)),
        Write::Link(e, p) => conn.execute(sql, (e, p)),
        Write::AddExhibitNote(id, n) | Write::AddPartNote(id, n) => conn.execute(sql, (id, &n.timestamp, &n.note)),
    }
    .expect("write failed")
}

fn add_part(conn: &Connection, name: &str) -> i64 {
    conn.execute("INSERT INTO parts (name, link) VALUES (?1, ?2)", (name, "https://www.example.com")).unwrap();
    conn.last_insert_rowid()
}

fn create_exhibit(conn: &Connection, exhibit: &Exhibit) -> i64 {
    let row = exhibit_row_of(exhibit);
    conn.execute(
        "INSERT INTO exhibits (name, cluster, location, status, image_url, sponsor_name, sponsor_start_date, sponsor_end_date)
         VALUES (?1, ?2, ?3, ?4, ?5, ?6, ?7, ?8)",
        (
            &row.name,
            &row.cluster,
            &row.location,
            &row.status,
            &row.image_url,
            &row.sponsor_name,
            &row.sponsor_start_date,
            &row.sponsor_end_date,
        ),
    )
    .expect("Failed to create exhibit");
    let id = conn.last_insert_rowid();
    for w in exhibit_create_writes(id, exhibit) {
        run(conn, &w);
    }
    id
}

fn get_exhibit(conn: &Connection, id: i64) -> Option<Exhibit> {
    let found = conn
        .query_row(
            "SELECT id, name, cluster, location, status, image_url, sponsor_name, sponsor_start_date, sponsor_end_date
             FROM exhibits WHERE id = ?1",
            (id,),
            |row| {
                Ok(Exhibit {
                    id: Some(row.get(0)?),
                    name: row.get(1)?,
                    cluster: row.get(2)?,
                    location: row.get(3)?,
                    status: row.get(4)?,
                    image_url: row.get(5)?,
                    sponsor_name: row.get(6)?,
                    sponsor_start_date: row.get(7)?,
                    sponsor_end_date: row.get(8)?,
                    part_ids: vec![],
                    notes: vec![],
                })
            },
        )
        .optional()
        .expect("Failed to retrieve exhibit");
    found.map(|mut e| {
        let mut stmt = conn.prepare("SELECT part_id FROM exhibit_parts WHERE exhibit_id = ?1").unwrap();
        e.part_ids = stmt.query_map((id,), |r| r.get(0)).unwrap().map(|x| x.unwrap()).collect();
        e.part_ids.sort();
        let mut stmt = conn.prepare("SELECT timestamp, note FROM exhibit_notes WHERE exhibit_id = ?1 ORDER BY id").unwrap();
        e.notes = stmt
            .query_map((id,), |r| Ok(Note { timestamp: r.get(0)?, note: r.get(1)? }))
            .unwrap()
            .map(|x| x.unwrap())
            .collect();
        e
    })
}

fn art_exhibit(part_ids: Vec<i64>) -> Exhibit {
    Exhibit {
        id: None,
        name: "Art Exhibit".to_string(),
        cluster: "Modern Art".to_string(),
        location: "Gallery 1".to_string(),
        status: "Active".to_string(),
        image_url: "http://localhost:3030/images/sample.jpg".to_string(),
        sponsor_name: Some("Art Sponsor".to_string()),
        sponsor_start_date: Some("2024-01-01".to_string()),
        sponsor_end_date: Some("2024-12-31".to_string()),
        part_ids,
        notes: vec![
            Note { timestamp: "2024-01-02T00:00:00Z".to_string(), note: "Installed".to_string() },
            Note { timestamp: "2024-01-01T00:00:00Z".to_string(), note: "Cleaned".to_string() },
        ],
    }
}

#[test]
fn created_exhibit_reads_back() {
    let conn = open();
    let a = add_part(&conn, "Lamp");
    let b = add_part(&conn, "Lens");
    let mut exhibit = art_exhibit(vec![a, b]);
    let id = create_exhibit(&conn, &exhibit);
    exhibit.id = Some(id);
    assert_eq!(get_exhibit(&conn, id), Some(exhibit));
}

#[test]
fn updated_exhibit_reads_back() {
    let conn = open();
    let a = add_part(&conn, "Lamp");
    let b = add_part(&conn, "Lens");
    let id = create_exhibit(&conn, &art_exhibit(vec![a]));
    let mut updated = art_exhibit(vec![b]);
    updated.name = "Updated Art Exhibit".to_string();
    updated.cluster = "Contemporary Art".to_string();
    updated.location = "Gallery 2".to_string();
    updated.status = "Inactive".to_string();
    updated.image_url = "http://localhost:3030/images/updated_sample.jpg".to_string();
    updated.sponsor_name = Some("Updated Sponsor".to_string());
    updated.sponsor_start_date = Some("2025-01-01".to_string());
    updated.sponsor_end_date = Some("2025-12-31".to_string());
    updated.notes = vec![];
    let writes = exhibit_update_writes(id, &updated);
    let touched = run(&conn, &writes[0]);
    for w in &writes[1..] {
        run(&conn, w);
    }
    assert_eq!(touched, 1);
    updated.id = Some(id);
    assert_eq!(get_exhibit(&conn, id), Some(updated));
}

#[test]
fn update_of_a_missing_exhibit_touches_nothing() {
    let conn = open();
    let mut e = art_exhibit(vec![]);
    e.notes = vec![];
    let writes = exhibit_update_writes(99, &e);
    assert_eq!(run(&conn, &writes[0]), 0);
    assert!(get_exhibit(&conn, 99).is_none());
}

#[test]
fn deleted_exhibit_is_forgotten_with_its_links_and_notes() {
    let conn = open();
    let a = add_part(&conn, "Lamp");
    let id = create_exhibit(&conn, &art_exhibit(vec![a]));
    assert_eq!(run(&conn, &Write::DeleteExhibit(id)), 1);
    assert!(get_exhibit(&conn, id).is_none());
    let links: i64 = conn.query_row("SELECT COUNT(*) FROM exhibit_parts", [], |r| r.get(0)).unwrap();
    let notes: i64 = conn.query_row("SELECT COUNT(*) FROM exhibit_notes", [], |r| r.get(0)).unwrap();
    let parts: i64 = conn.query_row("SELECT COUNT(*) FROM parts", [], |r| r.get(0)).unwrap();
    assert_eq!((links, notes, parts), (0, 0, 1));
}

#[test]
fn naming_a_part_twice_fails() {
    let conn = open();
    let a = add_part(&conn, "Lamp");
    let row_id = create_exhibit(&conn, &art_exhibit(vec![]));
    let writes = exhibit_update_writes(row_id, &art_exhibit(vec![a, a]));
    run(&conn, &writes[0]);
    run(&conn, &writes[1]);
    run(&conn, &writes[2]);
    let Write::Link(e, p) = &writes[3] else { panic!("expected a link") };
    let r = conn.execute("INSERT INTO exhibit_parts (exhibit_id, part_id) VALUES (?1, ?2)", (e, p));
    assert!(r.is_err());
}
