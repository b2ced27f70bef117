// The library's planned writes run against a real in-memory SQLite database,
// then the part is read back with plain queries.
use backend::models::{Note, Part};
use backend::store::{part_create_writes, part_row_of, part_update_writes, Write};
use rusqlite::{Connection, OptionalExtension};

const SCHEMA: [&str; 5] = [
    "CREATE TABLE exhibits (id INTEGER PRIMARY KEY, name TEXT NOT NULL, cluster TEXT NOT NULL,
        location TEXT NOT NULL, status TEXT NOT NULL, image_url TEXT NOT NULL, sponsor_name TEXT,
        sponsor_start_date TEXT, sponsor_end_date TEXT)",
    "CREATE TABLE parts (id INTEGER PRIMARY KEY, name TEXT NOT NULL, link TEXT NOT NULL)",
    "CREATE TABLE exhibit_parts (exhibit_id INTEGER NOT NULL, part_id INTEGER NOT NULL,
        FOREIGN KEY (exhibit_id) REFERENCES exhibits(id) ON DELETE CASCADE,
        FOREIGN KEY (part_id) REFERENCES parts(id) ON DELETE CASCADE,
        PRIMARY KEY (exhibit_id, part_id))",
    "CREATE TABLE exhibit_notes (id INTEGER PRIMARY KEY, exhibit_id INTEGER NOT NULL,
        timestamp TEXT NOT NULL, note TEXT NOT NULL,
        FOREIGN KEY (exhibit_id) REFERENCES exhibits(id) ON DELETE CASCADE)",
    "CREATE TABLE part_notes (id INTEGER PRIMARY KEY, part_id INTEGER NOT NULL,
        timestamp TEXT NOT NULL, note TEXT NOT NULL,
        FOREIGN KEY (part_id) REFERENCES parts(id) ON DELETE CASCADE)",
];

fn open() -> Connection {
    let conn = Connection::open_in_memory().expect("Failed to create in-memory database");
    conn.execute("PRAGMA foreign_keys = ON;", []).unwrap();
    for statement in SCHEMA.iter() {
        conn.execute(statement, []).expect("Failed to setup tables");
    }
    conn
}

fn run(conn: &Connection, write: &Write) -> usize {
    let sql = write.statement();
    match write {
        Write::UpdateExhibit(id, row) => conn.execute(
            sql,
            (
                &row.name,
                &row.cluster,
                &row.location,
                &row.status,
                &row.image_url,
                &row.sponsor_name,
                &row.sponsor_start_date,
                &row.sponsor_end_date,
                id,
            ),
        ),
        Write::UpdatePart(id, row) => conn.execute(sql, (&row.name, &row.link, id)),
        Write::DeleteExhibit(id)
        | Write::UnlinkExhibit(id)
        | Write::UnlinkPart(id)
        | Write::ClearExhibitNotes(id)
        | Write::DeletePart(id)
        | Write::ClearPartNotes(id) => conn.execute(sql, (id,)),
        Write::Link(e, p) => conn.execute(sql, (e, p)),
        Write::AddExhibitNote(id, n) | Write::AddPartNote(id, n) => conn.execute(sql, (id, &n.timestamp, &n.note)),
    }
    .expect("write failed")
}

fn create_part(conn: &Connection, part: &Part) -> i64 {
    let row = part_row_of(part);
    conn.execute("INSERT INTO parts (name, link) VALUES (?1, ?2)", (&row.name, &row.link))
        .expect("Failed to create part");
    let id = conn.last_insert_rowid();
    for w in part_create_writes(id, part) {
        run(conn, &w);
    }
    id
}

fn get_part(conn: &Connection, id: i64) -> Option<Part> {
    let found = conn
        .query_row("SELECT id, name, link FROM parts WHERE id = ?1", (id,), |row| {
            Ok(Part { id: Some(row.get(0)?), name: row.get(1)?, link: row.get(2)?, exhibit_ids: vec![], notes: vec![] })
        })
        .optional()
        .expect("Failed to retrieve part");
    found.map(|mut p| {
        let mut stmt = conn.prepare("SELECT exhibit_id FROM exhibit_parts WHERE part_id = ?1").unwrap();
        p.exhibit_ids = stmt.query_map((id,), |r| r.get(0)).unwrap().map(|x| x.unwrap()).collect();
        let mut stmt = conn.prepare("SELECT timestamp, note FROM part_notes WHERE part_id = ?1 ORDER BY id").unwrap();
        p.notes = stmt
            .query_map((id,), |r| Ok(Note { timestamp: r.get(0)?, note: r.get(1)? }))
            .unwrap()
            .map(|x| x.unwrap())
            .collect();
        p
    })
}

fn get_test_part() -> Part {
    Part {
        id: None,
        name: "Test Part".to_string(),
        link: "https://www.example.com".to_string(),
        exhibit_ids: vec![],
        notes: vec![],
    }
}

#[test]
fn test_create_and_retrieve_part() {
    let conn = open();
    let mut part = get_test_part();
    let part_id = create_part(&conn, &part);
    part.id = Some(part_id);
    let retrieved_part = get_part(&conn, part_id).expect("Part not found");
    assert_eq!(part, retrieved_part);
}

#[test]
fn update_part_test() {
    let conn = open();
    let mut part = get_test_part();
    let part_id = create_part(&conn, &part);
    part.id = Some(part_id);
    let pre_update_part = part.clone();
    part.name = "Updated Test Part".to_string();
    let writes = part_update_writes(part_id, &part);
    let touched = run(&conn, &writes[0]);
    for w in &writes[1..] {
        run(&conn, w);
    }
    assert_eq!(touched, 1);
    let updated_part = get_part(&conn, part_id).expect("Part not found");
    assert_eq!(updated_part.id, pre_update_part.id);
    assert_ne!(updated_part.name, pre_update_part.name);
}

#[test]
fn delete_part_test() {
    let conn = open();
    let mut part = get_test_part();
    let part_id = create_part(&conn, &part);
    part.id = Some(part_id);
    let retrieved_part = get_part(&conn, part_id).expect("Part not found");
    assert_eq!(part, retrieved_part);
    run(&conn, &Write::DeletePart(part_id));
    assert!(get_part(&conn, part_id).is_none());
}

#[test]
fn part_with_links_and_notes_reads_back() {
    let conn = open();
    conn.execute(
        "INSERT INTO exhibits (name, cluster, location, status, image_url) VALUES ('E', 'C', 'L', 'S', 'U')",
        [],
    )
    .unwrap();
    let exhibit_id = conn.last_insert_rowid();
    let mut part = get_test_part();
    part.exhibit_ids = vec![exhibit_id];
    part.notes = vec![
        Note { timestamp: "2024-01-01T00:00:00Z".to_string(), note: "First note".to_string() },
        Note { timestamp: "2024-01-02T00:00:00Z".to_string(), note: "Second note".to_string() },
    ];
    let part_id = create_part(&conn, &part);
    let back = get_part(&conn, part_id).expect("Part not found");
    assert_eq!(back.exhibit_ids, vec![exhibit_id]);
    let notes: Vec<String> = back.notes.iter().map(|n| n.note.clone()).collect();
    assert_eq!(notes, vec!["First note".to_string(), "Second note".to_string()]);
    run(&conn, &Write::DeletePart(part_id));
    let links: i64 = conn.query_row("SELECT COUNT(*) FROM exhibit_parts", [], |r| r.get(0)).unwrap();
    let left: i64 = conn.query_row("SELECT COUNT(*) FROM part_notes", [], |r| r.get(0)).unwrap();
    assert_eq!((links, left), (0, 0));
}

#[test]
fn linking_a_missing_part_fails() {
    let conn = open();
    let mut part = get_test_part();
    part.exhibit_ids = vec![42];
    let row = part_row_of(&part);
    conn.execute("INSERT INTO parts (name, link) VALUES (?1, ?2)", (&row.name, &row.link)).unwrap();
    let id = conn.last_insert_rowid();
    let writes = part_create_writes(id, &part);
    let Write::Link(e, p) = &writes[0] else { panic!("expected a link") };
    let r = conn.execute("INSERT INTO exhibit_parts (exhibit_id, part_id) VALUES (?1, ?2)", (e, p));
    assert!(r.is_err());
}
