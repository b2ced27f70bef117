//! The statements that persist exhibits and parts, and what they leave in
//! the tables.
//!
//! The tables are modelled as the rows of `exhibits` and `parts` by id, the
//! set of `(exhibit_id, part_id)` links, and the notes of each exhibit and
//! each part. The link table's key is the pair, and its columns and the note
//! tables' owner columns refer to existing rows and are deleted with them; a
//! statement that would break this fails. A link table holds each pair once,
//! so an entity's links are a set; notes get increasing ids as they are added,
//! so an entity's notes are a sequence in the order they were added (the
//! order in which they are read back by id).
use crate::errors::ApiError;
use crate::models::{Exhibit, Note, Part};
use vstd::prelude::*;

verus! {

/// The columns of an exhibit's row other than its id.
#[derive(Clone, Debug, PartialEq, Eq)]
pub struct ExhibitRow {
    pub name: String,
    pub cluster: String,
    pub location: String,
    pub status: String,
    pub image_url: String,
    pub sponsor_name: Option<String>,
    pub sponsor_start_date: Option<String>,
    pub sponsor_end_date: Option<String>,
}

/// The columns of a part's row other than its id.
#[derive(Clone, Debug, PartialEq, Eq)]
pub struct PartRow {
    pub name: String,
    pub link: String,
}

/// One statement that changes the tables.
#[derive(Clone, Debug, PartialEq, Eq)]
pub enum Write {
    /// Sets the columns of the exhibit with this id, if there is one.
    UpdateExhibit(i64, ExhibitRow),
    /// Deletes the exhibit with this id, with its links and notes.
    DeleteExhibit(i64),
    /// Deletes every link of the exhibit with this id.
    UnlinkExhibit(i64),
    /// Deletes every link of the part with this id.
    UnlinkPart(i64),
    /// Links an exhibit (first) to a part (second).
    Link(i64, i64),
    /// Deletes every note of the exhibit with this id.
    ClearExhibitNotes(i64),
    /// Adds a note to the exhibit with this id.
    AddExhibitNote(i64, Note),
    /// Sets the columns of the part with this id, if there is one.
    UpdatePart(i64, PartRow),
    /// Deletes the part with this id, with its links and notes.
    DeletePart(i64),
    /// Deletes every note of the part with this id.
    ClearPartNotes(i64),
    /// Adds a note to the part with this id.
    AddPartNote(i64, Note),
}

/// The contents of the tables.
pub struct Tables {
    pub exhibits: Map<i64, ExhibitRow>,
    pub parts: Map<i64, PartRow>,
    pub links: Set<(i64, i64)>,
    pub exhibit_notes: Map<i64, Seq<Note>>,
    pub part_notes: Map<i64, Seq<Note>>,
}

/// The notes kept under `owner` (none when nothing is kept).
pub open spec fn notes_of(notes: Map<i64, Seq<Note>>, owner: i64) -> Seq<Note> {
    if notes.contains_key(owner) {
        notes[owner]
    } else {
        Seq::empty()
    }
}

/// The ids of the parts linked to exhibit `e`.
pub open spec fn parts_of(t: Tables, e: i64) -> Set<i64> {
    Set::new(|p: i64| t.links.contains((e, p)))
}

/// The ids of the exhibits linked to part `p`.
pub open spec fn exhibits_of(t: Tables, p: i64) -> Set<i64> {
    Set::new(|e: i64| t.links.contains((e, p)))
}

/// Every link and every kept note refers to an existing row.
pub open spec fn consistent(t: Tables) -> bool {
    &&& forall|l: (i64, i64)|
        #[trigger] t.links.contains(l) ==> t.exhibits.contains_key(l.0) && t.parts.contains_key(l.1)
    &&& forall|e: i64| #[trigger] t.exhibit_notes.contains_key(e) ==> t.exhibits.contains_key(e)
    &&& forall|p: i64| #[trigger] t.part_notes.contains_key(p) ==> t.parts.contains_key(p)
}

/// The ids the database may give a new exhibit row: the key is an `INTEGER
/// PRIMARY KEY`, whose new values SQLite documents as positive and not in use.
pub open spec fn assignable_exhibit_id(t: Tables, id: i64) -> bool {
    id > 0 && !t.exhibits.contains_key(id)
}

/// The ids the database may give a new part row (see
/// `assignable_exhibit_id`).
pub open spec fn assignable_part_id(t: Tables, id: i64) -> bool {
    id > 0 && !t.parts.contains_key(id)
}

/// One row when `present`, none otherwise.
pub open spec fn one_if(present: bool) -> nat {
    if present {
        1
    } else {
        0
    }
}

/// How many rows `w` touches when it runs on `t`: an update or deletion of
/// a row touches the row if it exists, an insertion one row, and clearing
/// notes every note of the owner. The count of links an unlinking removes is
/// not used and left open (`None`).
pub open spec fn rows_touched(t: Tables, w: Write) -> Option<nat> {
    match w {
        Write::UpdateExhibit(id, _) => Some(one_if(t.exhibits.contains_key(id))),
        Write::DeleteExhibit(id) => Some(one_if(t.exhibits.contains_key(id))),
        Write::UnlinkExhibit(_) => None,
        Write::UnlinkPart(_) => None,
        Write::Link(_, _) => Some(1),
        Write::ClearExhibitNotes(id) => Some(notes_of(t.exhibit_notes, id).len()),
        Write::AddExhibitNote(_, _) => Some(1),
        Write::UpdatePart(id, _) => Some(one_if(t.parts.contains_key(id))),
        Write::DeletePart(id) => Some(one_if(t.parts.contains_key(id))),
        Write::ClearPartNotes(id) => Some(notes_of(t.part_notes, id).len()),
        Write::AddPartNote(_, _) => Some(1),
    }
}

/// The SQL text of each write; its parameters are bound in the order of the
/// variant's fields (the id of an update last).
pub open spec fn statement_text(w: Write) -> Seq<char> {
    match w {
        Write::UpdateExhibit(_, _) => "UPDATE exhibits SET name = ?1, cluster = ?2, location = ?3, status = ?4, image_url = ?5, sponsor_name = ?6, sponsor_start_date = ?7, sponsor_end_date = ?8 WHERE id = ?9"@,
        Write::DeleteExhibit(_) => "DELETE FROM exhibits WHERE id = ?1"@,
        Write::UnlinkExhibit(_) => "DELETE FROM exhibit_parts WHERE exhibit_id = ?1"@,
        Write::UnlinkPart(_) => "DELETE FROM exhibit_parts WHERE part_id = ?1"@,
        Write::Link(_, _) => "INSERT INTO exhibit_parts (exhibit_id, part_id) VALUES (?1, ?2)"@,
        Write::ClearExhibitNotes(_) => "DELETE FROM exhibit_notes WHERE exhibit_id = ?1"@,
        Write::AddExhibitNote(_, _) => "INSERT INTO exhibit_notes (exhibit_id, timestamp, note) VALUES (?1, ?2, ?3)"@,
        Write::UpdatePart(_, _) => "UPDATE parts SET name = ?1, link = ?2 WHERE id = ?3"@,
        Write::DeletePart(_) => "DELETE FROM parts WHERE id = ?1"@,
        Write::ClearPartNotes(_) => "DELETE FROM part_notes WHERE part_id = ?1"@,
        Write::AddPartNote(_, _) => "INSERT INTO part_notes (part_id, timestamp, note) VALUES (?1, ?2, ?3)"@,
    }
}

impl Write {
    /// The SQL text of the write (see `statement_text`); run with the write's
    /// bound values it does to any tables what the write does.
    pub fn statement(&self) -> (r: &'static str)
        ensures
            r@ == statement_text(*self),
            forall|t: Tables| #[trigger] sql_means(t, r@, write_params(*self), after_write(t, *self)),
    {
        proof {
            assert forall|t: Tables| #[trigger] sql_means(t, statement_text(*self), write_params(*self), after_write(t, *self)) by {
                lemma_statement_means_write(t, *self);
            }
        }
        match self {
            Write::UpdateExhibit(_, _) => "UPDATE exhibits SET name = ?1, cluster = ?2, location = ?3, status = ?4, image_url = ?5, sponsor_name = ?6, sponsor_start_date = ?7, sponsor_end_date = ?8 WHERE id = ?9",
            Write::DeleteExhibit(_) => "DELETE FROM exhibits WHERE id = ?1",
            Write::UnlinkExhibit(_) => "DELETE FROM exhibit_parts WHERE exhibit_id = ?1",
            Write::UnlinkPart(_) => "DELETE FROM exhibit_parts WHERE part_id = ?1",
            Write::Link(_, _) => "INSERT INTO exhibit_parts (exhibit_id, part_id) VALUES (?1, ?2)",
            Write::ClearExhibitNotes(_) => "DELETE FROM exhibit_notes WHERE exhibit_id = ?1",
            Write::AddExhibitNote(_, _) => "INSERT INTO exhibit_notes (exhibit_id, timestamp, note) VALUES (?1, ?2, ?3)",
            Write::UpdatePart(_, _) => "UPDATE parts SET name = ?1, link = ?2 WHERE id = ?3",
            Write::DeletePart(_) => "DELETE FROM parts WHERE id = ?1",
            Write::ClearPartNotes(_) => "DELETE FROM part_notes WHERE part_id = ?1",
            Write::AddPartNote(_, _) => "INSERT INTO part_notes (part_id, timestamp, note) VALUES (?1, ?2, ?3)",
        }
    }
}

/// The tables after an exhibit row is inserted under the fresh id `id`.
pub open spec fn after_insert_exhibit(t: Tables, id: i64, row: ExhibitRow) -> Tables {
    Tables { exhibits: t.exhibits.insert(id, row), ..t }
}

/// The tables after a part row is inserted under the fresh id `id`.
pub open spec fn after_insert_part(t: Tables, id: i64, row: PartRow) -> Tables {
    Tables { parts: t.parts.insert(id, row), ..t }
}

/// The tables after `w`, or `None` when the statement fails.
pub open spec fn after_write(t: Tables, w: Write) -> Option<Tables> {
    match w {
        Write::UpdateExhibit(id, row) => if t.exhibits.contains_key(id) {
            Some(Tables { exhibits: t.exhibits.insert(id, row), ..t })
        } else {
            Some(t)
        },
        Write::DeleteExhibit(id) => Some(
            Tables {
                exhibits: t.exhibits.remove(id),
                links: t.links.filter(|l: (i64, i64)| l.0 != id),
                exhibit_notes: t.exhibit_notes.remove(id),
                ..t
            },
        ),
        Write::UnlinkExhibit(id) => Some(
            Tables { links: t.links.filter(|l: (i64, i64)| l.0 != id), ..t },
        ),
        Write::UnlinkPart(id) => Some(Tables { links: t.links.filter(|l: (i64, i64)| l.1 != id), ..t }),
        Write::Link(e, p) => if t.exhibits.contains_key(e) && t.parts.contains_key(p)
            && !t.links.contains((e, p)) {
            Some(Tables { links: t.links.insert((e, p)), ..t })
        } else {
            None
        },
        Write::ClearExhibitNotes(id) => Some(
            Tables { exhibit_notes: t.exhibit_notes.remove(id), ..t },
        ),
        Write::AddExhibitNote(id, n) => if t.exhibits.contains_key(id) {
            Some(
                Tables {
                    exhibit_notes: t.exhibit_notes.insert(id, notes_of(t.exhibit_notes, id).push(n)),
                    ..t
                },
            )
        } else {
            None
        },
        Write::UpdatePart(id, row) => if t.parts.contains_key(id) {
            Some(Tables { parts: t.parts.insert(id, row), ..t })
        } else {
            Some(t)
        },
        Write::DeletePart(id) => Some(
            Tables {
                parts: t.parts.remove(id),
                links: t.links.filter(|l: (i64, i64)| l.1 != id),
                part_notes: t.part_notes.remove(id),
                ..t
            },
        ),
        Write::ClearPartNotes(id) => Some(Tables { part_notes: t.part_notes.remove(id), ..t }),
        Write::AddPartNote(id, n) => if t.parts.contains_key(id) {
            Some(
                Tables {
                    part_notes: t.part_notes.insert(id, notes_of(t.part_notes, id).push(n)),
                    ..t
                },
            )
        } else {
            None
        },
    }
}

/// A value bound to a parameter of a statement.
pub enum SqlValue {
    Integer(i64),
    Text(Seq<char>),
    Null,
}

/// The integer a value holds (0 for any other value).
pub open spec fn integer_of(v: SqlValue) -> i64 {
    match v {
        SqlValue::Integer(i) => i,
        _ => 0,
    }
}

/// The value bound for an optional text column: the text, or NULL.
pub open spec fn optional_text(o: Option<String>) -> SqlValue {
    match o {
        Some(s) => SqlValue::Text(s@),
        None => SqlValue::Null,
    }
}

/// The values bound to a write's statement, `?1` first: the write's fields in
/// their order, except that an update binds the row's columns first and the
/// id last.
pub open spec fn write_params(w: Write) -> Seq<SqlValue> {
    match w {
        Write::UpdateExhibit(id, row) => seq![
            SqlValue::Text(row.name@),
            SqlValue::Text(row.cluster@),
            SqlValue::Text(row.location@),
            SqlValue::Text(row.status@),
            SqlValue::Text(row.image_url@),
            optional_text(row.sponsor_name),
            optional_text(row.sponsor_start_date),
            optional_text(row.sponsor_end_date),
            SqlValue::Integer(id),
        ],
        Write::DeleteExhibit(id) => seq![SqlValue::Integer(id)],
        Write::UnlinkExhibit(id) => seq![SqlValue::Integer(id)],
        Write::UnlinkPart(id) => seq![SqlValue::Integer(id)],
        Write::Link(e, p) => seq![SqlValue::Integer(e), SqlValue::Integer(p)],
        Write::ClearExhibitNotes(id) => seq![SqlValue::Integer(id)],
        Write::AddExhibitNote(id, n) => seq![
            SqlValue::Integer(id),
            SqlValue::Text(n.timestamp@),
            SqlValue::Text(n.note@),
        ],
        Write::UpdatePart(id, row) => seq![
            SqlValue::Text(row.name@),
            SqlValue::Text(row.link@),
            SqlValue::Integer(id),
        ],
        Write::DeletePart(id) => seq![SqlValue::Integer(id)],
        Write::ClearPartNotes(id) => seq![SqlValue::Integer(id)],
        Write::AddPartNote(id, n) => seq![
            SqlValue::Integer(id),
            SqlValue::Text(n.timestamp@),
            SqlValue::Text(n.note@),
        ],
    }
}

/// `row` holds, column by column, the values bound to `?1` to `?8`.
pub open spec fn exhibit_row_bound(row: ExhibitRow, p: Seq<SqlValue>) -> bool {
    &&& p[0] == SqlValue::Text(row.name@)
    &&& p[1] == SqlValue::Text(row.cluster@)
    &&& p[2] == SqlValue::Text(row.location@)
    &&& p[3] == SqlValue::Text(row.status@)
    &&& p[4] == SqlValue::Text(row.image_url@)
    &&& p[5] == optional_text(row.sponsor_name)
    &&& p[6] == optional_text(row.sponsor_start_date)
    &&& p[7] == optional_text(row.sponsor_end_date)
}

/// A note whose timestamp and text are the values bound to `?2` and `?3`.
pub open spec fn note_bound(n: Note, p: Seq<SqlValue>) -> bool {
    &&& p[1] == SqlValue::Text(n.timestamp@)
    &&& p[2] == SqlValue::Text(n.note@)
}

/// What the schema's statements mean: running `text` with the values `p`
/// on `t` may end in `r` (`None` when the database refuses it). An id column
/// compares with the value it is bound to; the link table's `exhibit_id`
/// column is a link's first component and `part_id` its second; a row or
/// note gets, column by column, the values bound to the placeholders named
/// after those columns. A text that is none of these statements means
/// nothing here.
pub open spec fn sql_means(t: Tables, text: Seq<char>, p: Seq<SqlValue>, r: Option<Tables>) -> bool {
    ||| text == "UPDATE exhibits SET name = ?1, cluster = ?2, location = ?3, status = ?4, image_url = ?5, sponsor_name = ?6, sponsor_start_date = ?7, sponsor_end_date = ?8 WHERE id = ?9"@
        && p.len() == 9 && p[8] is Integer && {
        let id = integer_of(p[8]);
        if t.exhibits.contains_key(id) {
            exists|row: ExhibitRow|
                exhibit_row_bound(row, p) && r == Some(Tables { exhibits: t.exhibits.insert(id, row), ..t })
        } else {
            r == Some(t)
        }
    }
    ||| text == "DELETE FROM exhibits WHERE id = ?1"@ && p.len() == 1 && p[0] is Integer && {
        let id = integer_of(p[0]);
        r == Some(
            Tables {
                exhibits: t.exhibits.remove(id),
                links: t.links.filter(|l: (i64, i64)| l.0 != id),
                exhibit_notes: t.exhibit_notes.remove(id),
                ..t
            },
        )
    }
    ||| text == "DELETE FROM exhibit_parts WHERE exhibit_id = ?1"@ && p.len() == 1 && p[0] is Integer && {
        let e = integer_of(p[0]);
        r == Some(Tables { links: t.links.filter(|l: (i64, i64)| l.0 != e), ..t })
    }
    ||| text == "DELETE FROM exhibit_parts WHERE part_id = ?1"@ && p.len() == 1 && p[0] is Integer && {
        let q = integer_of(p[0]);
        r == Some(Tables { links: t.links.filter(|l: (i64, i64)| l.1 != q), ..t })
    }
    ||| text == "INSERT INTO exhibit_parts (exhibit_id, part_id) VALUES (?1, ?2)"@ && p.len() == 2
        && p[0] is Integer && p[1] is Integer && {
        let e = integer_of(p[0]);
        let q = integer_of(p[1]);
        r == (if t.exhibits.contains_key(e) && t.parts.contains_key(q) && !t.links.contains((e, q)) {
            Some(Tables { links: t.links.insert((e, q)), ..t })
        } else {
            None
        })
    }
    ||| text == "DELETE FROM exhibit_notes WHERE exhibit_id = ?1"@ && p.len() == 1 && p[0] is Integer && {
        let e = integer_of(p[0]);
        r == Some(Tables { exhibit_notes: t.exhibit_notes.remove(e), ..t })
    }
    ||| text == "INSERT INTO exhibit_notes (exhibit_id, timestamp, note) VALUES (?1, ?2, ?3)"@
        && p.len() == 3 && p[0] is Integer && {
        let e = integer_of(p[0]);
        if t.exhibits.contains_key(e) {
            exists|n: Note|
                note_bound(n, p) && r == Some(
                    Tables {
                        exhibit_notes: t.exhibit_notes.insert(e, notes_of(t.exhibit_notes, e).push(n)),
                        ..t
                    },
                )
        } else {
            r is None
        }
    }
    ||| text == "UPDATE parts SET name = ?1, link = ?2 WHERE id = ?3"@ && p.len() == 3 && p[2] is Integer
        && {
        let id = integer_of(p[2]);
        if t.parts.contains_key(id) {
            exists|row: PartRow|
                p[0] == SqlValue::Text(row.name@) && p[1] == SqlValue::Text(row.link@) && r == Some(
                    Tables { parts: t.parts.insert(id, row), ..t },
                )
        } else {
            r == Some(t)
        }
    }
    ||| text == "DELETE FROM parts WHERE id = ?1"@ && p.len() == 1 && p[0] is Integer && {
        let id = integer_of(p[0]);
        r == Some(
            Tables {
                parts: t.parts.remove(id),
                links: t.links.filter(|l: (i64, i64)| l.1 != id),
                part_notes: t.part_notes.remove(id),
                ..t
            },
        )
    }
    ||| text == "DELETE FROM part_notes WHERE part_id = ?1"@ && p.len() == 1 && p[0] is Integer && {
        let q = integer_of(p[0]);
        r == Some(Tables { part_notes: t.part_notes.remove(q), ..t })
    }
    ||| text == "INSERT INTO part_notes (part_id, timestamp, note) VALUES (?1, ?2, ?3)"@ && p.len() == 3
        && p[0] is Integer && {
        let q = integer_of(p[0]);
        if t.parts.contains_key(q) {
            exists|n: Note|
                note_bound(n, p) && r == Some(
                    Tables { part_notes: t.part_notes.insert(q, notes_of(t.part_notes, q).push(n)), ..t },
                )
        } else {
            r is None
        }
    }
}

/// Every write's statement text, run with the write's bound values, does to
/// the tables what the write does (`after_write`): so the text of an
/// unlinking deletes the links by the right column, and the text of an added
/// note stores its timestamp and its text where they belong.
pub proof fn lemma_statement_means_write(t: Tables, w: Write)
    ensures
        sql_means(t, statement_text(w), write_params(w), after_write(t, w)),
{
    let p = write_params(w);
    match w {
        Write::UpdateExhibit(id, row) => {
            if t.exhibits.contains_key(id) {
                assert(exhibit_row_bound(row, p));
            }
        },
        Write::AddExhibitNote(id, n) => {
            if t.exhibits.contains_key(id) {
                assert(note_bound(n, p));
            }
        },
        Write::UpdatePart(id, row) => {
            if t.parts.contains_key(id) {
                assert(p[0] == SqlValue::Text(row.name@) && p[1] == SqlValue::Text(row.link@));
            }
        },
        Write::AddPartNote(id, n) => {
            if t.parts.contains_key(id) {
                assert(note_bound(n, p));
            }
        },
        _ => {},
    }
}

/// The tables after the writes of `ws` in order, or `None` when one fails
/// (the ones before it have then been made).
pub open spec fn after_writes(t: Tables, ws: Seq<Write>) -> Option<Tables>
    decreases ws.len(),
{
    if ws.len() == 0 {
        Some(t)
    } else {
        match after_writes(t, ws.drop_last()) {
            None => None,
            Some(t1) => after_write(t1, ws.last()),
        }
    }
}

/// Running two lists of writes one after the other is running their
/// concatenation.
pub proof fn lemma_after_writes_concat(t: Tables, a: Seq<Write>, b: Seq<Write>)
    ensures
        after_writes(t, a + b) == match after_writes(t, a) {
            None => None,
            Some(t1) => after_writes(t1, b),
        },
    decreases b.len(),
{
    if b.len() == 0 {
        assert(a + b =~= a);
    } else {
        lemma_after_writes_concat(t, a, b.drop_last());
        assert((a + b).drop_last() =~= a + b.drop_last());
        assert((a + b).last() == b.last());
    }
}

/// The row that stores the columns of `e`.
pub open spec fn exhibit_row(e: Exhibit) -> ExhibitRow {
    ExhibitRow {
        name: e.name,
        cluster: e.cluster,
        location: e.location,
        status: e.status,
        image_url: e.image_url,
        sponsor_name: e.sponsor_name,
        sponsor_start_date: e.sponsor_start_date,
        sponsor_end_date: e.sponsor_end_date,
    }
}

/// The row that stores the columns of `p`.
pub open spec fn part_row(p: Part) -> PartRow {
    PartRow { name: p.name, link: p.link }
}

/// One link of exhibit `id` per part id, in order.
pub open spec fn exhibit_link_writes(id: i64, part_ids: Seq<i64>) -> Seq<Write> {
    part_ids.map_values(|p: i64| Write::Link(id, p))
}

/// One link of part `id` per exhibit id, in order.
pub open spec fn part_link_writes(id: i64, exhibit_ids: Seq<i64>) -> Seq<Write> {
    exhibit_ids.map_values(|e: i64| Write::Link(e, id))
}

/// One note added to exhibit `id` per note, in order.
pub open spec fn exhibit_note_writes(id: i64, notes: Seq<Note>) -> Seq<Write> {
    notes.map_values(|n: Note| Write::AddExhibitNote(id, n))
}

/// One note added to part `id` per note, in order.
pub open spec fn part_note_writes(id: i64, notes: Seq<Note>) -> Seq<Write> {
    notes.map_values(|n: Note| Write::AddPartNote(id, n))
}

/// What follows the insertion of `e`'s row under the new id `id`: its links,
/// then its notes.
pub open spec fn exhibit_create_plan(id: i64, e: Exhibit) -> Seq<Write> {
    exhibit_link_writes(id, e.part_ids@) + exhibit_note_writes(id, e.notes@)
}

/// Storing `e` over the exhibit `id`: its columns, its links replaced, then
/// its notes replaced.
pub open spec fn exhibit_update_plan(id: i64, e: Exhibit) -> Seq<Write> {
    seq![Write::UpdateExhibit(id, exhibit_row(e)), Write::UnlinkExhibit(id)]
        + exhibit_link_writes(id, e.part_ids@) + seq![Write::ClearExhibitNotes(id)]
        + exhibit_note_writes(id, e.notes@)
}

/// What follows the insertion of `p`'s row under the new id `id`: its links,
/// then its notes.
pub open spec fn part_create_plan(id: i64, p: Part) -> Seq<Write> {
    part_link_writes(id, p.exhibit_ids@) + part_note_writes(id, p.notes@)
}

/// Storing `p` over the part `id`: its columns, its links replaced, then its
/// notes replaced.
pub open spec fn part_update_plan(id: i64, p: Part) -> Seq<Write> {
    seq![Write::UpdatePart(id, part_row(p)), Write::UnlinkPart(id)] + part_link_writes(
        id,
        p.exhibit_ids@,
    ) + seq![Write::ClearPartNotes(id)] + part_note_writes(id, p.notes@)
}

fn clone_text(o: &Option<String>) -> (r: Option<String>)
    ensures
        r == *o,
{
    match o {
        Some(s) => Some(s.clone()),
        None => None,
    }
}

fn clone_note(n: &Note) -> (r: Note)
    ensures
        r == *n,
{
    Note { timestamp: n.timestamp.clone(), note: n.note.clone() }
}

/// The row that stores the columns of `e`.
pub fn exhibit_row_of(e: &Exhibit) -> (r: ExhibitRow)
    ensures
        r == exhibit_row(*e),
{
    ExhibitRow {
        name: e.name.clone(),
        cluster: e.cluster.clone(),
        location: e.location.clone(),
        status: e.status.clone(),
        image_url: e.image_url.clone(),
        sponsor_name: clone_text(&e.sponsor_name),
        sponsor_start_date: clone_text(&e.sponsor_start_date),
        sponsor_end_date: clone_text(&e.sponsor_end_date),
    }
}

/// The row that stores the columns of `p`.
pub fn part_row_of(p: &Part) -> (r: PartRow)
    ensures
        r == part_row(*p),
{
    PartRow { name: p.name.clone(), link: p.link.clone() }
}

/// Appends one link per id: exhibit `owner` to each part when `of_exhibit`,
/// each exhibit to part `owner` otherwise.
fn push_links(ws: &mut Vec<Write>, owner: i64, ids: &Vec<i64>, of_exhibit: bool)
    ensures
        of_exhibit ==> final(ws)@ == old(ws)@ + exhibit_link_writes(owner, ids@),
        !of_exhibit ==> final(ws)@ == old(ws)@ + part_link_writes(owner, ids@),
{
    let ghost start = ws@;
    let n = ids.len();
    let mut i: usize = 0;
    while i < n
        invariant
            n == ids@.len(),
            i <= n,
            of_exhibit ==> ws@ =~= start + exhibit_link_writes(owner, ids@.take(i as int)),
            !of_exhibit ==> ws@ =~= start + part_link_writes(owner, ids@.take(i as int)),
        decreases n - i,
    {
        if of_exhibit {
            ws.push(Write::Link(owner, ids[i]));
        } else {
            ws.push(Write::Link(ids[i], owner));
        }
        proof {
            assert(ids@.take(i + 1) =~= ids@.take(i as int).push(ids@[i as int]));
        }
        i = i + 1;
    }
    proof {
        assert(ids@.take(n as int) =~= ids@);
    }
}

/// Appends one added note per note: to exhibit `owner` when `of_exhibit`, to
/// part `owner` otherwise.
fn push_notes(ws: &mut Vec<Write>, owner: i64, notes: &Vec<Note>, of_exhibit: bool)
    ensures
        of_exhibit ==> final(ws)@ == old(ws)@ + exhibit_note_writes(owner, notes@),
        !of_exhibit ==> final(ws)@ == old(ws)@ + part_note_writes(owner, notes@),
{
    let ghost start = ws@;
    let n = notes.len();
    let mut i: usize = 0;
    while i < n
        invariant
            n == notes@.len(),
            i <= n,
            of_exhibit ==> ws@ =~= start + exhibit_note_writes(owner, notes@.take(i as int)),
            !of_exhibit ==> ws@ =~= start + part_note_writes(owner, notes@.take(i as int)),
        decreases n - i,
    {
        let note = clone_note(&notes[i]);
        if of_exhibit {
            ws.push(Write::AddExhibitNote(owner, note));
        } else {
            ws.push(Write::AddPartNote(owner, note));
        }
        proof {
            assert(notes@.take(i + 1) =~= notes@.take(i as int).push(notes@[i as int]));
        }
        i = i + 1;
    }
    proof {
        assert(notes@.take(n as int) =~= notes@);
    }
}

/// The writes that follow the insertion of `e`'s row under the new id `id`.
pub fn exhibit_create_writes(id: i64, e: &Exhibit) -> (r: Vec<Write>)
    ensures
        r@ == exhibit_create_plan(id, *e),
{
    let mut ws: Vec<Write> = Vec::new();
    push_links(&mut ws, id, &e.part_ids, true);
    push_notes(&mut ws, id, &e.notes, true);
    assert(ws@ =~= exhibit_create_plan(id, *e));
    ws
}

/// The writes that store `e` over the exhibit `id`.
pub fn exhibit_update_writes(id: i64, e: &Exhibit) -> (r: Vec<Write>)
    ensures
        r@ == exhibit_update_plan(id, *e),
{
    let mut ws: Vec<Write> = Vec::new();
    ws.push(Write::UpdateExhibit(id, exhibit_row_of(e)));
    ws.push(Write::UnlinkExhibit(id));
    push_links(&mut ws, id, &e.part_ids, true);
    ws.push(Write::ClearExhibitNotes(id));
    push_notes(&mut ws, id, &e.notes, true);
    assert(ws@ =~= exhibit_update_plan(id, *e));
    ws
}

/// The writes that follow the insertion of `p`'s row under the new id `id`.
pub fn part_create_writes(id: i64, p: &Part) -> (r: Vec<Write>)
    ensures
        r@ == part_create_plan(id, *p),
{
    let mut ws: Vec<Write> = Vec::new();
    push_links(&mut ws, id, &p.exhibit_ids, false);
    push_notes(&mut ws, id, &p.notes, false);
    assert(ws@ =~= part_create_plan(id, *p));
    ws
}

/// The writes that store `p` over the part `id`.
pub fn part_update_writes(id: i64, p: &Part) -> (r: Vec<Write>)
    ensures
        r@ == part_update_plan(id, *p),
{
    let mut ws: Vec<Write> = Vec::new();
    ws.push(Write::UpdatePart(id, part_row_of(p)));
    ws.push(Write::UnlinkPart(id));
    push_links(&mut ws, id, &p.exhibit_ids, false);
    ws.push(Write::ClearPartNotes(id));
    push_notes(&mut ws, id, &p.notes, false);
    assert(ws@ =~= part_update_plan(id, *p));
    ws
}

/// Adding links from exhibit `id` to parts that exist, none twice and none
/// linked yet, succeeds and adds exactly those links.
proof fn lemma_exhibit_links(t: Tables, id: i64, ps: Seq<i64>)
    requires
        t.exhibits.contains_key(id),
        forall|i: int| 0 <= i < ps.len() ==> t.parts.contains_key(#[trigger] ps[i]),
        ps.no_duplicates(),
        forall|p: i64| !t.links.contains((id, p)),
    ensures
        after_writes(t, exhibit_link_writes(id, ps)) matches Some(t2) && {
            &&& t2.exhibits == t.exhibits
            &&& t2.parts == t.parts
            &&& t2.exhibit_notes == t.exhibit_notes
            &&& t2.part_notes == t.part_notes
            &&& forall|l: (i64, i64)|
                #[trigger] t2.links.contains(l) <==> (t.links.contains(l) || (l.0 == id
                    && ps.contains(l.1)))
        },
    decreases ps.len(),
{
    if ps.len() > 0 {
        let rest = ps.drop_last();
        assert forall|i: int| 0 <= i < rest.len() implies t.parts.contains_key(#[trigger] rest[i]) by {
            assert(rest[i] == ps[i]);
        }
        assert(rest.no_duplicates()) by {
            assert forall|i: int, j: int| 0 <= i < rest.len() && 0 <= j < rest.len() && i != j implies rest[i]
                != rest[j] by {
                assert(rest[i] == ps[i] && rest[j] == ps[j]);
            }
        }
        lemma_exhibit_links(t, id, rest);
        let ws = exhibit_link_writes(id, ps);
        assert(ws.drop_last() =~= exhibit_link_writes(id, rest));
        let t1 = after_writes(t, exhibit_link_writes(id, rest))->0;
        let p = ps.last();
        assert(ws.last() == Write::Link(id, p));
        assert(t.parts.contains_key(ps[ps.len() - 1]));
        assert(!rest.contains(p)) by {
            if rest.contains(p) {
                let i = choose|i: int| 0 <= i < rest.len() && rest[i] == p;
                assert(ps[i] == ps[ps.len() - 1]);
            }
        }
        assert(!t1.links.contains((id, p)));
        let t2 = after_write(t1, Write::Link(id, p))->0;
        assert forall|l: (i64, i64)|
            #[trigger] t2.links.contains(l) <==> (t.links.contains(l) || (l.0 == id && ps.contains(
                l.1,
            ))) by {
            if l.0 == id && ps.contains(l.1) && l.1 != p {
                let i = choose|i: int| 0 <= i < ps.len() && ps[i] == l.1;
                assert(rest[i] == ps[i]);
            }
            if l.0 == id && rest.contains(l.1) {
                let i = choose|i: int| 0 <= i < rest.len() && rest[i] == l.1;
                assert(ps[i] == rest[i]);
            }
            if l == (id, p) {
                assert(ps[ps.len() - 1] == p);
            }
        }
    } else {
        assert forall|l: (i64, i64)|
            #[trigger] t.links.contains(l) <==> (t.links.contains(l) || (l.0 == id && ps.contains(
                l.1,
            ))) by {}
    }
}

/// Adding links from exhibits that exist, none twice and none linked yet, to
/// part `id` succeeds and adds exactly those links.
proof fn lemma_part_links(t: Tables, id: i64, es: Seq<i64>)
    requires
        t.parts.contains_key(id),
        forall|i: int| 0 <= i < es.len() ==> t.exhibits.contains_key(#[trigger] es[i]),
        es.no_duplicates(),
        forall|e: i64| !t.links.contains((e, id)),
    ensures
        after_writes(t, part_link_writes(id, es)) matches Some(t2) && {
            &&& t2.exhibits == t.exhibits
            &&& t2.parts == t.parts
            &&& t2.exhibit_notes == t.exhibit_notes
            &&& t2.part_notes == t.part_notes
            &&& forall|l: (i64, i64)|
                #[trigger] t2.links.contains(l) <==> (t.links.contains(l) || (l.1 == id
                    && es.contains(l.0)))
        },
    decreases es.len(),
{
    if es.len() > 0 {
        let rest = es.drop_last();
        assert forall|i: int| 0 <= i < rest.len() implies t.exhibits.contains_key(#[trigger] rest[i]) by {
            assert(rest[i] == es[i]);
        }
        assert(rest.no_duplicates()) by {
            assert forall|i: int, j: int| 0 <= i < rest.len() && 0 <= j < rest.len() && i != j implies rest[i]
                != rest[j] by {
                assert(rest[i] == es[i] && rest[j] == es[j]);
            }
        }
        lemma_part_links(t, id, rest);
        let ws = part_link_writes(id, es);
        assert(ws.drop_last() =~= part_link_writes(id, rest));
        let t1 = after_writes(t, part_link_writes(id, rest))->0;
        let e = es.last();
        assert(ws.last() == Write::Link(e, id));
        assert(t.exhibits.contains_key(es[es.len() - 1]));
        assert(!rest.contains(e)) by {
            if rest.contains(e) {
                let i = choose|i: int| 0 <= i < rest.len() && rest[i] == e;
                assert(es[i] == es[es.len() - 1]);
            }
        }
        assert(!t1.links.contains((e, id)));
        let t2 = after_write(t1, Write::Link(e, id))->0;
        assert forall|l: (i64, i64)|
            #[trigger] t2.links.contains(l) <==> (t.links.contains(l) || (l.1 == id && es.contains(
                l.0,
            ))) by {
            if l.1 == id && es.contains(l.0) && l.0 != e {
                let i = choose|i: int| 0 <= i < es.len() && es[i] == l.0;
                assert(rest[i] == es[i]);
            }
            if l.1 == id && rest.contains(l.0) {
                let i = choose|i: int| 0 <= i < rest.len() && rest[i] == l.0;
                assert(es[i] == rest[i]);
            }
            if l == (e, id) {
                assert(es[es.len() - 1] == e);
            }
        }
    } else {
        assert forall|l: (i64, i64)|
            #[trigger] t.links.contains(l) <==> (t.links.contains(l) || (l.1 == id && es.contains(
                l.0,
            ))) by {}
    }
}

/// Adding notes to exhibit `id`, which exists and keeps no notes yet,
/// succeeds and leaves it exactly those notes.
proof fn lemma_exhibit_notes(t: Tables, id: i64, ns: Seq<Note>)
    requires
        t.exhibits.contains_key(id),
        !t.exhibit_notes.contains_key(id),
    ensures
        after_writes(t, exhibit_note_writes(id, ns)) matches Some(t2) && {
            &&& t2.exhibits == t.exhibits
            &&& t2.parts == t.parts
            &&& t2.links == t.links
            &&& t2.part_notes == t.part_notes
            &&& notes_of(t2.exhibit_notes, id) == ns
            &&& forall|x: i64| x != id ==> #[trigger] t2.exhibit_notes.contains_key(x)
                == t.exhibit_notes.contains_key(x)
            &&& forall|x: i64| x != id ==> #[trigger] notes_of(t2.exhibit_notes, x) == notes_of(
                t.exhibit_notes,
                x,
            )
        },
    decreases ns.len(),
{
    if ns.len() > 0 {
        let rest = ns.drop_last();
        lemma_exhibit_notes(t, id, rest);
        let ws = exhibit_note_writes(id, ns);
        assert(ws.drop_last() =~= exhibit_note_writes(id, rest));
        assert(ws.last() == Write::AddExhibitNote(id, ns.last()));
        let t1 = after_writes(t, exhibit_note_writes(id, rest))->0;
        let t2 = after_write(t1, Write::AddExhibitNote(id, ns.last()))->0;
        assert(rest.push(ns.last()) =~= ns);
        assert(notes_of(t2.exhibit_notes, id) == notes_of(t1.exhibit_notes, id).push(ns.last()));
        assert forall|x: i64| x != id implies #[trigger] notes_of(t2.exhibit_notes, x) == notes_of(
            t.exhibit_notes,
            x,
        ) by {
            assert(notes_of(t2.exhibit_notes, x) == notes_of(t1.exhibit_notes, x));
        }
    } else {
        assert(ns =~= Seq::<Note>::empty());
    }
}

/// Adding notes to part `id`, which exists and keeps no notes yet, succeeds
/// and leaves it exactly those notes.
proof fn lemma_part_notes(t: Tables, id: i64, ns: Seq<Note>)
    requires
        t.parts.contains_key(id),
        !t.part_notes.contains_key(id),
    ensures
        after_writes(t, part_note_writes(id, ns)) matches Some(t2) && {
            &&& t2.exhibits == t.exhibits
            &&& t2.parts == t.parts
            &&& t2.links == t.links
            &&& t2.exhibit_notes == t.exhibit_notes
            &&& notes_of(t2.part_notes, id) == ns
            &&& forall|x: i64| x != id ==> #[trigger] t2.part_notes.contains_key(x)
                == t.part_notes.contains_key(x)
            &&& forall|x: i64| x != id ==> #[trigger] notes_of(t2.part_notes, x) == notes_of(
                t.part_notes,
                x,
            )
        },
    decreases ns.len(),
{
    if ns.len() > 0 {
        let rest = ns.drop_last();
        lemma_part_notes(t, id, rest);
        let ws = part_note_writes(id, ns);
        assert(ws.drop_last() =~= part_note_writes(id, rest));
        assert(ws.last() == Write::AddPartNote(id, ns.last()));
        let t1 = after_writes(t, part_note_writes(id, rest))->0;
        let t2 = after_write(t1, Write::AddPartNote(id, ns.last()))->0;
        assert(rest.push(ns.last()) =~= ns);
        assert(notes_of(t2.part_notes, id) == notes_of(t1.part_notes, id).push(ns.last()));
        assert forall|x: i64| x != id implies #[trigger] notes_of(t2.part_notes, x) == notes_of(
            t.part_notes,
            x,
        ) by {
            assert(notes_of(t2.part_notes, x) == notes_of(t1.part_notes, x));
        }
    } else {
        assert(ns =~= Seq::<Note>::empty());
    }
}

/// Two writes in a row.
proof fn lemma_after_two_writes(t: Tables, a: Write, b: Write)
    ensures
        after_writes(t, seq![a, b]) == match after_write(t, a) {
            None => None,
            Some(t1) => after_write(t1, b),
        },
{
    reveal_with_fuel(after_writes, 3);
    assert(seq![a, b].drop_last() =~= seq![a]);
    assert(seq![a].drop_last() =~= Seq::<Write>::empty());
}

/// One write.
proof fn lemma_after_one_write(t: Tables, a: Write)
    ensures
        after_writes(t, seq![a]) == after_write(t, a),
{
    reveal_with_fuel(after_writes, 2);
    assert(seq![a].drop_last() =~= Seq::<Write>::empty());
}

/// Storing `e` over the existing exhibit `id`, when every part it names
/// exists and none is named twice, succeeds, its row update touching one row; the exhibit then reads back as
/// stored: its columns, the set of its part ids and its notes in
/// order. No other row, no link of another exhibit and no other note changes.
pub proof fn lemma_exhibit_update_reads_back(t: Tables, id: i64, e: Exhibit)
    requires
        t.exhibits.contains_key(id),
        forall|i: int| 0 <= i < e.part_ids@.len() ==> t.parts.contains_key(#[trigger] e.part_ids@[i]),
        e.part_ids@.no_duplicates(),
    ensures
        rows_touched(t, Write::UpdateExhibit(id, exhibit_row(e))) == Some(1nat),
        after_writes(t, exhibit_update_plan(id, e)) matches Some(t2) && {
            &&& t2.exhibits == t.exhibits.insert(id, exhibit_row(e))
            &&& t2.parts == t.parts
            &&& parts_of(t2, id) == e.part_ids@.to_set()
            &&& forall|l: (i64, i64)|
                l.0 != id ==> (#[trigger] t2.links.contains(l) <==> t.links.contains(l))
            &&& notes_of(t2.exhibit_notes, id) == e.notes@
            &&& forall|x: i64| x != id ==> #[trigger] notes_of(t2.exhibit_notes, x) == notes_of(
                t.exhibit_notes,
                x,
            )
            &&& t2.part_notes == t.part_notes
        },
{
    let head = seq![Write::UpdateExhibit(id, exhibit_row(e)), Write::UnlinkExhibit(id)];
    let links = exhibit_link_writes(id, e.part_ids@);
    let clear = seq![Write::ClearExhibitNotes(id)];
    let notes = exhibit_note_writes(id, e.notes@);
    assert(exhibit_update_plan(id, e) == head + links + clear + notes);
    lemma_after_writes_concat(t, head + links + clear, notes);
    lemma_after_writes_concat(t, head + links, clear);
    lemma_after_writes_concat(t, head, links);
    lemma_after_two_writes(t, head[0], head[1]);
    assert(head =~= seq![head[0], head[1]]);
    let ta = after_writes(t, head)->0;
    assert(ta.exhibits == t.exhibits.insert(id, exhibit_row(e)));
    assert forall|p: i64| !ta.links.contains((id, p)) by {}
    lemma_exhibit_links(ta, id, e.part_ids@);
    let tb = after_writes(ta, links)->0;
    lemma_after_one_write(tb, clear[0]);
    assert(clear =~= seq![clear[0]]);
    let tc = after_writes(tb, clear)->0;
    lemma_exhibit_notes(tc, id, e.notes@);
    let t2 = after_writes(tc, notes)->0;
    assert(parts_of(t2, id) =~= e.part_ids@.to_set());
    assert forall|x: i64| x != id implies #[trigger] notes_of(t2.exhibit_notes, x) == notes_of(
        t.exhibit_notes,
        x,
    ) by {
        assert(notes_of(tc.exhibit_notes, x) == notes_of(t.exhibit_notes, x));
    }
}

/// Inserting `e`'s row under an id the database may give it (positive and
/// unused) and then making the writes that follow, when every part it names exists and none is named twice, succeeds
/// in tables whose links and notes refer to existing rows; the exhibit then
/// reads back as created, and nothing else changes.
pub proof fn lemma_exhibit_create_reads_back(t: Tables, id: i64, e: Exhibit)
    requires
        consistent(t),
        assignable_exhibit_id(t, id),
        forall|i: int| 0 <= i < e.part_ids@.len() ==> t.parts.contains_key(#[trigger] e.part_ids@[i]),
        e.part_ids@.no_duplicates(),
    ensures
        after_writes(after_insert_exhibit(t, id, exhibit_row(e)), exhibit_create_plan(id, e)) matches Some(t2) && {
            &&& t2.exhibits == t.exhibits.insert(id, exhibit_row(e))
            &&& t2.parts == t.parts
            &&& parts_of(t2, id) == e.part_ids@.to_set()
            &&& forall|l: (i64, i64)|
                l.0 != id ==> (#[trigger] t2.links.contains(l) <==> t.links.contains(l))
            &&& notes_of(t2.exhibit_notes, id) == e.notes@
            &&& forall|x: i64| x != id ==> #[trigger] notes_of(t2.exhibit_notes, x) == notes_of(
                t.exhibit_notes,
                x,
            )
            &&& t2.part_notes == t.part_notes
        },
{
    let ta = after_insert_exhibit(t, id, exhibit_row(e));
    let links = exhibit_link_writes(id, e.part_ids@);
    let notes = exhibit_note_writes(id, e.notes@);
    lemma_after_writes_concat(ta, links, notes);
    assert forall|p: i64| !ta.links.contains((id, p)) by {
        if ta.links.contains((id, p)) {
            assert(t.links.contains((id, p)));
        }
    }
    lemma_exhibit_links(ta, id, e.part_ids@);
    let tb = after_writes(ta, links)->0;
    assert(!tb.exhibit_notes.contains_key(id));
    lemma_exhibit_notes(tb, id, e.notes@);
    let t2 = after_writes(tb, notes)->0;
    assert(parts_of(t2, id) =~= e.part_ids@.to_set());
    assert forall|l: (i64, i64)| l.0 != id implies (#[trigger] t2.links.contains(l)
        <==> t.links.contains(l)) by {}
}

/// Deleting exhibit `id` succeeds and forgets it: it touches the row when
/// there is one; the row, its links and its notes are gone (deleting it again
/// touches nothing), and every other row, link and note stays.
pub proof fn lemma_exhibit_delete_forgets(t: Tables, id: i64)
    ensures
        rows_touched(t, Write::DeleteExhibit(id)) == Some(one_if(t.exhibits.contains_key(id))),
        after_write(t, Write::DeleteExhibit(id)) matches Some(t2) && {
            &&& rows_touched(t2, Write::DeleteExhibit(id)) == Some(0nat)
            &&& t2.exhibits == t.exhibits.remove(id)
            &&& t2.parts == t.parts
            &&& parts_of(t2, id) == Set::<i64>::empty()
            &&& forall|l: (i64, i64)|
                l.0 != id ==> (#[trigger] t2.links.contains(l) <==> t.links.contains(l))
            &&& notes_of(t2.exhibit_notes, id) == Seq::<Note>::empty()
            &&& forall|x: i64| x != id ==> #[trigger] notes_of(t2.exhibit_notes, x) == notes_of(
                t.exhibit_notes,
                x,
            )
            &&& t2.part_notes == t.part_notes
        },
{
    let t2 = after_write(t, Write::DeleteExhibit(id))->0;
    assert(parts_of(t2, id) =~= Set::<i64>::empty());
}

/// Storing `p` over the existing part `id`, when every exhibit it names
/// exists and none is named twice, succeeds, its row update touching one row; the part then reads back as
/// stored: its columns, the set of its exhibit ids and its notes in
/// order. No other row, no link of another part and no other note changes.
pub proof fn lemma_part_update_reads_back(t: Tables, id: i64, p: Part)
    requires
        t.parts.contains_key(id),
        forall|i: int|
            0 <= i < p.exhibit_ids@.len() ==> t.exhibits.contains_key(#[trigger] p.exhibit_ids@[i]),
        p.exhibit_ids@.no_duplicates(),
    ensures
        rows_touched(t, Write::UpdatePart(id, part_row(p))) == Some(1nat),
        after_writes(t, part_update_plan(id, p)) matches Some(t2) && {
            &&& t2.parts == t.parts.insert(id, part_row(p))
            &&& t2.exhibits == t.exhibits
            &&& exhibits_of(t2, id) == p.exhibit_ids@.to_set()
            &&& forall|l: (i64, i64)|
                l.1 != id ==> (#[trigger] t2.links.contains(l) <==> t.links.contains(l))
            &&& notes_of(t2.part_notes, id) == p.notes@
            &&& forall|x: i64| x != id ==> #[trigger] notes_of(t2.part_notes, x) == notes_of(
                t.part_notes,
                x,
            )
            &&& t2.exhibit_notes == t.exhibit_notes
        },
{
    let head = seq![Write::UpdatePart(id, part_row(p)), Write::UnlinkPart(id)];
    let links = part_link_writes(id, p.exhibit_ids@);
    let clear = seq![Write::ClearPartNotes(id)];
    let notes = part_note_writes(id, p.notes@);
    assert(part_update_plan(id, p) == head + links + clear + notes);
    lemma_after_writes_concat(t, head + links + clear, notes);
    lemma_after_writes_concat(t, head + links, clear);
    lemma_after_writes_concat(t, head, links);
    lemma_after_two_writes(t, head[0], head[1]);
    assert(head =~= seq![head[0], head[1]]);
    let ta = after_writes(t, head)->0;
    assert(ta.parts == t.parts.insert(id, part_row(p)));
    assert forall|e: i64| !ta.links.contains((e, id)) by {}
    lemma_part_links(ta, id, p.exhibit_ids@);
    let tb = after_writes(ta, links)->0;
    lemma_after_one_write(tb, clear[0]);
    assert(clear =~= seq![clear[0]]);
    let tc = after_writes(tb, clear)->0;
    lemma_part_notes(tc, id, p.notes@);
    let t2 = after_writes(tc, notes)->0;
    assert(exhibits_of(t2, id) =~= p.exhibit_ids@.to_set());
    assert forall|x: i64| x != id implies #[trigger] notes_of(t2.part_notes, x) == notes_of(
        t.part_notes,
        x,
    ) by {
        assert(notes_of(tc.part_notes, x) == notes_of(t.part_notes, x));
    }
}

/// Inserting `p`'s row under an id the database may give it (positive and
/// unused) and then making the writes that follow, when every exhibit it names exists and none is named twice,
/// succeeds in tables whose links and notes refer to existing rows; the part
/// then reads back as created, and nothing else changes.
pub proof fn lemma_part_create_reads_back(t: Tables, id: i64, p: Part)
    requires
        consistent(t),
        assignable_part_id(t, id),
        forall|i: int|
            0 <= i < p.exhibit_ids@.len() ==> t.exhibits.contains_key(#[trigger] p.exhibit_ids@[i]),
        p.exhibit_ids@.no_duplicates(),
    ensures
        after_writes(after_insert_part(t, id, part_row(p)), part_create_plan(id, p)) matches Some(t2) && {
            &&& t2.parts == t.parts.insert(id, part_row(p))
            &&& t2.exhibits == t.exhibits
            &&& exhibits_of(t2, id) == p.exhibit_ids@.to_set()
            &&& forall|l: (i64, i64)|
                l.1 != id ==> (#[trigger] t2.links.contains(l) <==> t.links.contains(l))
            &&& notes_of(t2.part_notes, id) == p.notes@
            &&& forall|x: i64| x != id ==> #[trigger] notes_of(t2.part_notes, x) == notes_of(
                t.part_notes,
                x,
            )
            &&& t2.exhibit_notes == t.exhibit_notes
        },
{
    let ta = after_insert_part(t, id, part_row(p));
    let links = part_link_writes(id, p.exhibit_ids@);
    let notes = part_note_writes(id, p.notes@);
    lemma_after_writes_concat(ta, links, notes);
    assert forall|e: i64| !ta.links.contains((e, id)) by {
        if ta.links.contains((e, id)) {
            assert(t.links.contains((e, id)));
        }
    }
    lemma_part_links(ta, id, p.exhibit_ids@);
    let tb = after_writes(ta, links)->0;
    assert(!tb.part_notes.contains_key(id));
    lemma_part_notes(tb, id, p.notes@);
    let t2 = after_writes(tb, notes)->0;
    assert(exhibits_of(t2, id) =~= p.exhibit_ids@.to_set());
    assert forall|l: (i64, i64)| l.1 != id implies (#[trigger] t2.links.contains(l)
        <==> t.links.contains(l)) by {}
}

/// Deleting part `id` succeeds and forgets it: it touches the row when there
/// is one; the row, its links and its notes are gone (deleting it again
/// touches nothing), and every other row, link and note stays.
pub proof fn lemma_part_delete_forgets(t: Tables, id: i64)
    ensures
        rows_touched(t, Write::DeletePart(id)) == Some(one_if(t.parts.contains_key(id))),
        after_write(t, Write::DeletePart(id)) matches Some(t2) && {
            &&& rows_touched(t2, Write::DeletePart(id)) == Some(0nat)
            &&& t2.parts == t.parts.remove(id)
            &&& t2.exhibits == t.exhibits
            &&& exhibits_of(t2, id) == Set::<i64>::empty()
            &&& forall|l: (i64, i64)|
                l.1 != id ==> (#[trigger] t2.links.contains(l) <==> t.links.contains(l))
            &&& notes_of(t2.part_notes, id) == Seq::<Note>::empty()
            &&& forall|x: i64| x != id ==> #[trigger] notes_of(t2.part_notes, x) == notes_of(
                t.part_notes,
                x,
            )
            &&& t2.exhibit_notes == t.exhibit_notes
        },
{
    let t2 = after_write(t, Write::DeletePart(id))->0;
    assert(exhibits_of(t2, id) =~= Set::<i64>::empty());
}

/// Every write that succeeds keeps the links and notes referring to existing
/// rows, and so does inserting a row.
pub proof fn lemma_writes_keep_consistency(t: Tables, ws: Seq<Write>)
    requires
        consistent(t),
    ensures
        after_writes(t, ws) matches Some(t2) ==> consistent(t2),
        forall|id: i64, row: ExhibitRow| consistent(#[trigger] after_insert_exhibit(t, id, row)),
        forall|id: i64, row: PartRow| consistent(#[trigger] after_insert_part(t, id, row)),
    decreases ws.len(),
{
    if ws.len() > 0 {
        lemma_writes_keep_consistency(t, ws.drop_last());
        match after_writes(t, ws.drop_last()) {
            Some(t1) => {
                match after_write(t1, ws.last()) {
                    Some(t2) => {
                        assert(consistent(t2));
                    },
                    None => {},
                }
            },
            None => {},
        }
    }
}

/// What follows the row update that starts an update plan, given how many
/// rows it touched: when none, the entity does not exist and the update ends
/// in `NotFound` with nothing more written; otherwise the reply is 200 and the
/// rest of the plan is to be written.
pub fn rest_of_update(touched: usize, plan: Vec<Write>) -> (r: Result<(u16, Vec<Write>), ApiError>)
    requires
        plan@.len() >= 1,
    ensures
        touched == 0 ==> r == Err::<(u16, Vec<Write>), ApiError>(ApiError::NotFound),
        touched > 0 ==> (r matches Ok((status, rest)) && status == 200 && rest@ == plan@.skip(1)),
{
    if touched == 0 {
        Err(ApiError::NotFound)
    } else {
        let mut rest = plan;
        rest.remove(0);
        assert(rest@ =~= plan@.skip(1));
        Ok((200, rest))
    }
}

} // verus!
