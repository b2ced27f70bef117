//! What the HTTP endpoints decide: request payloads and their validation,
//! and the reply each database outcome leads to.
use crate::errors::{bad_request, ApiError, ErrorReply};
use crate::models::{Exhibit, Note, Sponsor};
use crate::text::{signed_decimal, signed_decimal_string, trim, trim_str};
use vstd::prelude::*;

verus! {

/// A note posted to an exhibit or a part.
#[derive(Clone, Debug, PartialEq, Eq)]
pub struct NewNote {
    pub submitter: String,
    /// Must not be empty.
    pub message: String,
}

/// An exhibit posted for creation.
#[derive(Clone, Debug, PartialEq, Eq)]
pub struct NewExhibit {
    pub name: String,
    pub cluster: String,
    pub location: String,
    pub description: String,
    pub status: String,
    pub image_url: String,
    pub sponsor: Option<Sponsor>,
    pub part_ids: Vec<i64>,
    pub notes: Vec<Note>,
}

/// A part posted for creation.
#[derive(Clone, Debug, PartialEq, Eq)]
pub struct NewPart {
    pub name: String,
    pub link: String,
    pub exhibit_ids: Vec<i64>,
    pub notes: Vec<Note>,
}

/// Links an existing part to an exhibit.
#[derive(Clone, Debug, PartialEq, Eq)]
pub struct AddExistingPartPayload {
    pub part_id: i64,
}

/// A new status for a maintenance request.
#[derive(Clone, Debug, PartialEq, Eq)]
pub struct ChangeStatusRequest {
    pub new_status: String,
}

/// The exhibit that `n` describes: no id yet, its sponsor's name and dates
/// (or none), and everything else as posted; the description is not stored.
pub open spec fn is_exhibit_of(e: Exhibit, n: NewExhibit) -> bool {
    &&& e.id is None
    &&& e.name == n.name
    &&& e.cluster == n.cluster
    &&& e.location == n.location
    &&& e.status == n.status
    &&& e.image_url == n.image_url
    &&& e.sponsor_name == (match n.sponsor {
        Some(s) => Some(s.name),
        None => None,
    })
    &&& e.sponsor_start_date == (match n.sponsor {
        Some(s) => Some(s.start_date),
        None => None,
    })
    &&& e.sponsor_end_date == (match n.sponsor {
        Some(s) => Some(s.end_date),
        None => None,
    })
    &&& e.part_ids == n.part_ids
    &&& e.notes == n.notes
}

impl NewExhibit {
    /// The exhibit the posted data describes (see `is_exhibit_of`).
    pub fn into_exhibit(self) -> (e: Exhibit)
        ensures
            is_exhibit_of(e, self),
    {
        let NewExhibit { name, cluster, location, description: _, status, image_url, sponsor, part_ids, notes } =
            self;
        let (sponsor_name, sponsor_start_date, sponsor_end_date) = match sponsor {
            Some(s) => (Some(s.name), Some(s.start_date), Some(s.end_date)),
            None => (None, None, None),
        };
        Exhibit {
            id: None,
            name,
            cluster,
            location,
            status,
            image_url,
            sponsor_name,
            sponsor_start_date,
            sponsor_end_date,
            part_ids,
            notes,
        }
    }
}

impl NewNote {
    /// Accepts the note when its message has at least one character; an empty
    /// message is refused (400) with "Note cannot be empty".
    pub fn validate(&self) -> (r: Result<(), ErrorReply>)
        ensures
            r is Ok <==> self.message@.len() >= 1,
            r matches Err(e) ==> e.status == 400 && e.body.error@ == "Note cannot be empty"@,
    {
        if self.message.as_str().unicode_len() >= 1 {
            Ok(())
        } else {
            Err(bad_request("Note cannot be empty"))
        }
    }
}

impl ChangeStatusRequest {
    /// The status to store: the requested one without surrounding whitespace.
    pub fn normalized_status(&self) -> (r: String)
        ensures
            r@ == trim(self.new_status@),
    {
        trim_str(self.new_status.as_str())
    }
}

/// The key under which a maintenance request with a numeric id is stored: the
/// id in decimal.
pub fn jotform_key(id: i64) -> (r: String)
    ensures
        r@ == signed_decimal(id as int),
{
    signed_decimal_string(id)
}

/// A lookup that found something yields it; one that found nothing is a
/// `NotFound` error.
pub fn found_or_not_found<T>(found: Option<T>) -> (r: Result<T, ApiError>)
    ensures
        found matches Some(x) ==> r == Ok::<T, ApiError>(x),
        found is None ==> r == Err::<T, ApiError>(ApiError::NotFound),
{
    match found {
        Some(x) => Ok(x),
        None => Err(ApiError::NotFound),
    }
}

/// A batch lookup of parts needs at least one id; an empty batch is refused
/// (400) with "No part IDs provided".
pub fn check_part_ids(part_ids: &Vec<i64>) -> (r: Result<(), ErrorReply>)
    ensures
        r is Ok <==> part_ids@.len() > 0,
        r matches Err(e) ==> e.status == 400 && e.body.error@ == "No part IDs provided"@,
{
    if part_ids.len() == 0 {
        Err(bad_request("No part IDs provided"))
    } else {
        Ok(())
    }
}

/// A statement failure reported as a database error with `context`.
pub fn database_failure(context: &str) -> (r: ApiError)
    ensures
        r matches ApiError::DatabaseError(m) && m@ == context@,
{
    ApiError::DatabaseError(String::from_str(context))
}

/// The reply to a deletion that touched `rows` rows: 204 when something was
/// deleted, `NotFound` otherwise.
pub fn deletion_reply(rows: usize) -> (r: Result<u16, ApiError>)
    ensures
        rows > 0 ==> r == Ok::<u16, ApiError>(204),
        rows == 0 ==> r == Err::<u16, ApiError>(ApiError::NotFound),
{
    if rows > 0 {
        Ok(204)
    } else {
        Err(ApiError::NotFound)
    }
}

/// The reply to an update that touched `rows` rows: 200 when something was
/// updated, `NotFound` otherwise.
pub fn update_reply(rows: usize) -> (r: Result<u16, ApiError>)
    ensures
        rows > 0 ==> r == Ok::<u16, ApiError>(200),
        rows == 0 ==> r == Err::<u16, ApiError>(ApiError::NotFound),
{
    if rows > 0 {
        Ok(200)
    } else {
        Err(ApiError::NotFound)
    }
}

/// What deleting an exhibit does after looking it up.
#[derive(Clone, Debug, PartialEq, Eq)]
pub enum ExhibitDeletion {
    /// The exhibit exists: delete it.
    Delete,
    /// Reply with this error.
    Fail(ApiError),
}

/// Deleting an exhibit first looks it up: a failed lookup is a database
/// error, a missing exhibit is `NotFound`, and a found one is deleted.
pub fn exhibit_deletion_after_lookup(lookup: Result<bool, String>) -> (r: ExhibitDeletion)
    ensures
        lookup == Ok::<bool, String>(true) ==> r == ExhibitDeletion::Delete,
        lookup == Ok::<bool, String>(false) ==> r == ExhibitDeletion::Fail(ApiError::NotFound),
        lookup is Err ==> (r matches ExhibitDeletion::Fail(ApiError::DatabaseError(m)) && m@
            == "Failed to get exhibit"@),
{
    match lookup {
        Ok(true) => ExhibitDeletion::Delete,
        Ok(false) => ExhibitDeletion::Fail(ApiError::NotFound),
        Err(_) => ExhibitDeletion::Fail(database_failure("Failed to get exhibit")),
    }
}

/// The reply once the exhibit's deletion ran: 204, or a database error.
pub fn exhibit_deletion_reply(deleted: Result<usize, String>) -> (r: Result<u16, ApiError>)
    ensures
        deleted is Ok ==> r == Ok::<u16, ApiError>(204),
        deleted is Err ==> (r matches Err(ApiError::DatabaseError(m)) && m@
            == "Failed to delete exhibit"@),
{
    match deleted {
        Ok(_) => Ok(204),
        Err(_) => Err(database_failure("Failed to delete exhibit")),
    }
}

/// Every table, in the order in which a wipe drops them: link and note
/// tables before the tables they refer to, then the maintenance requests.
pub open spec fn tables_in_drop_order() -> Seq<Seq<char>> {
    seq!["exhibit_parts"@, "exhibit_notes"@, "part_notes"@, "parts"@, "exhibits"@, "jotforms"@]
}

/// One step of wiping the database: the statement and the error message if it
/// fails.
#[derive(Clone, Debug, PartialEq, Eq)]
pub struct DropStep {
    pub statement: String,
    pub failure: String,
}

/// The steps of a database wipe, which removes all data: one per table in
/// drop order, "DROP TABLE IF
/// EXISTS {table}", failing with "Failed to drop {table} table".
pub fn wipe_steps() -> (r: Vec<DropStep>)
    ensures
        r@.len() == tables_in_drop_order().len(),
        forall|i: int|
            0 <= i < r@.len() ==> (#[trigger] r@[i]).statement@ == "DROP TABLE IF EXISTS "@
                + tables_in_drop_order()[i] && r@[i].failure@ == "Failed to drop "@
                + tables_in_drop_order()[i] + " table"@,
{
    let tables: [&str; 6] = [
        "exhibit_parts",
        "exhibit_notes",
        "part_notes",
        "parts",
        "exhibits",
        "jotforms",
    ];
    let mut r: Vec<DropStep> = Vec::new();
    let mut i: usize = 0;
    while i < 6
        invariant
            i <= 6,
            r@.len() == i,
            tables@ == seq!["exhibit_parts", "exhibit_notes", "part_notes", "parts", "exhibits", "jotforms"],
            forall|k: int|
                0 <= k < i ==> (#[trigger] r@[k]).statement@ == "DROP TABLE IF EXISTS "@
                    + tables@[k]@ && r@[k].failure@ == "Failed to drop "@ + tables@[k]@
                    + " table"@,
        decreases 6 - i,
    {
        let table = tables[i];
        let statement = crate::text::join2("DROP TABLE IF EXISTS ", table);
        let failure = crate::text::join3("Failed to drop ", table, " table");
        r.push(DropStep { statement, failure });
        i = i + 1;
    }
    r
}

/// One of `exhibits`, drawn at random; `NotFound` when there is none.
pub fn pick_random_exhibit(exhibits: Vec<Exhibit>) -> (r: Result<Exhibit, ApiError>)
    ensures
        exhibits@.len() == 0 ==> r == Err::<Exhibit, ApiError>(ApiError::NotFound),
        exhibits@.len() > 0 ==> (r matches Ok(e) && exhibits@.contains(e)),
{
    match crate::random::choose_position(exhibits.as_slice()) {
        Some(i) => {
            let mut v = exhibits;
            let e = v.swap_remove(i);
            Ok(e)
        },
        None => Err(ApiError::NotFound),
    }
}

} // verus!
