//! Sample data for development: a fixed set of numbered exhibits, randomly
//! filled exhibits with parts and notes, and exhibits drawn from a catalogue.
use crate::api::NewExhibit;
use crate::models::{Exhibit, Note};
use crate::random::{choose_position, random_in_range};
use crate::text::{decimal, push_decimal, signed_decimal};
use vstd::prelude::*;

verus! {

/// `prefix` followed by `n` in decimal.
pub open spec fn numbered(prefix: Seq<char>, n: int) -> Seq<char> {
    prefix + decimal(n as nat)
}

/// The `i`-th exhibit of the fixed sample set.
pub open spec fn is_sample_exhibit(e: Exhibit, i: int) -> bool {
    &&& e.id is None
    &&& e.name@ == numbered("Exhibit "@, i)
    &&& e.cluster@ == numbered("Cluster "@, i % 10 + 1)
    &&& e.location@ == numbered("Location "@, i % 5 + 1)
    &&& e.status@ == "active"@
    &&& e.image_url@ == numbered("http://localhost:3030/images/"@, i) + ".jpg"@
    &&& e.sponsor_name matches Some(s) && s@ == numbered("Sponsor "@, i % 3 + 1)
    &&& e.sponsor_start_date matches Some(s) && s@ == "2023-01-01"@
    &&& e.sponsor_end_date matches Some(s) && s@ == "2023-12-31"@
    &&& e.part_ids@ == seq![i as i64, (i + 1) as i64]
    &&& e.notes@.len() == 2
    &&& e.notes@[0].timestamp@ == "2023-10-01"@
    &&& e.notes@[0].note@ == numbered("Note 1 for Exhibit "@, i)
    &&& e.notes@[1].timestamp@ == "2023-10-02"@
    &&& e.notes@[1].note@ == numbered("Note 2 for Exhibit "@, i)
}

/// `prefix` followed by `n` in decimal.
fn numbered_string(prefix: &str, n: u64) -> (r: String)
    ensures
        r@ == numbered(prefix@, n as int),
{
    let mut r = String::from_str(prefix);
    push_decimal(&mut r, n);
    r
}

/// The `i`-th exhibit of the fixed sample set.
pub fn sample_exhibit(i: u64) -> (e: Exhibit)
    requires
        1 <= i <= 100,
    ensures
        is_sample_exhibit(e, i as int),
{
    let mut image_url = numbered_string("http://localhost:3030/images/", i);
    image_url.append(".jpg");
    let mut part_ids: Vec<i64> = Vec::new();
    part_ids.push(i as i64);
    part_ids.push((i + 1) as i64);
    assert(part_ids@ =~= seq![i as i64, (i + 1) as i64]);
    let mut notes: Vec<Note> = Vec::new();
    notes.push(
        Note {
            timestamp: String::from_str("2023-10-01"),
            note: numbered_string("Note 1 for Exhibit ", i),
        },
    );
    notes.push(
        Note {
            timestamp: String::from_str("2023-10-02"),
            note: numbered_string("Note 2 for Exhibit ", i),
        },
    );
    Exhibit {
        id: None,
        name: numbered_string("Exhibit ", i),
        cluster: numbered_string("Cluster ", i % 10 + 1),
        location: numbered_string("Location ", i % 5 + 1),
        status: String::from_str("active"),
        image_url,
        sponsor_name: Some(numbered_string("Sponsor ", i % 3 + 1)),
        sponsor_start_date: Some(String::from_str("2023-01-01")),
        sponsor_end_date: Some(String::from_str("2023-12-31")),
        part_ids,
        notes,
    }
}

/// The fixed sample set: exhibits 1 to 100, in order.
pub fn sample_exhibits() -> (r: Vec<Exhibit>)
    ensures
        r@.len() == 100,
        forall|k: int| 0 <= k < 100 ==> is_sample_exhibit(#[trigger] r@[k], k + 1),
{
    let mut r: Vec<Exhibit> = Vec::new();
    let mut i: u64 = 1;
    while i <= 100
        invariant
            1 <= i <= 101,
            r@.len() == i - 1,
            forall|k: int| 0 <= k < i - 1 ==> is_sample_exhibit(#[trigger] r@[k], k + 1),
        decreases 101 - i,
    {
        r.push(sample_exhibit(i));
        i = i + 1;
    }
    r
}

/// The clusters a random exhibit is placed in.
pub open spec fn random_clusters() -> Seq<Seq<char>> {
    seq!["Biology"@, "Physics"@, "Chemistry"@, "Astronomy"@, "Geology"@, "Technology"@]
}

/// The locations a random exhibit is placed at.
pub open spec fn random_locations() -> Seq<Seq<char>> {
    seq!["Hall A"@, "Hall B"@, "Hall C"@, "Hall D"@, "Hall E"@, "Outdoor Area"@]
}

/// The statuses a random exhibit is given.
pub open spec fn random_statuses() -> Seq<Seq<char>> {
    seq!["operational"@, "needs repair"@, "out of service"@]
}

/// A note whose date lies `days_ago` days before the day it is stored.
#[derive(Clone, Debug, PartialEq, Eq)]
pub struct GeneratedNote {
    pub days_ago: u64,
    pub note: String,
}

/// A sponsorship that started `started_days_ago` days before and ends
/// `ends_in_days` days after the day it is stored.
#[derive(Clone, Debug, PartialEq, Eq)]
pub struct GeneratedSponsor {
    pub name: String,
    pub started_days_ago: u64,
    pub ends_in_days: u64,
}

/// A random part of a random exhibit; its link depends on the exhibit's id
/// (see `sample_part_link`).
#[derive(Clone, Debug, PartialEq, Eq)]
pub struct GeneratedPart {
    pub number: u64,
    pub name: String,
    pub notes: Vec<GeneratedNote>,
}

/// A randomly filled exhibit.
#[derive(Clone, Debug, PartialEq, Eq)]
pub struct GeneratedExhibit {
    pub name: String,
    pub cluster: String,
    pub location: String,
    pub status: String,
    pub image_url: String,
    pub sponsor: Option<GeneratedSponsor>,
    pub parts: Vec<GeneratedPart>,
    pub notes: Vec<GeneratedNote>,
}

/// The `j`-th part (from 1) of random exhibit `i`.
pub open spec fn is_generated_part(p: GeneratedPart, i: int, j: int) -> bool {
    &&& p.number == j
    &&& p.name@ == numbered("Part "@, j) + numbered(" for Exhibit "@, i)
    &&& 1 <= p.notes@.len() <= 5
    &&& forall|k: int|
        0 <= k < p.notes@.len() ==> (#[trigger] p.notes@[k]).days_ago < 365 && p.notes@[k].note@
            == numbered("Note "@, k + 1) + numbered(" for Part "@, j) + numbered(
            " of Exhibit "@,
            i,
        )
}

/// Random exhibit `i`, sponsored or not.
pub open spec fn is_generated_exhibit(g: GeneratedExhibit, i: int, sponsored: bool) -> bool {
    &&& g.name@ == numbered("Exhibit "@, i)
    &&& g.image_url@ == numbered("https://picsum.photos/seed/"@, i) + "/300/200"@
    &&& random_clusters().contains(g.cluster@)
    &&& random_locations().contains(g.location@)
    &&& random_statuses().contains(g.status@)
    &&& (g.sponsor is Some <==> sponsored)
    &&& g.sponsor matches Some(s) ==> s.name@ == numbered("Sponsor "@, i) && s.started_days_ago
        < 365 && s.ends_in_days < 365
    &&& 3 <= g.parts@.len() <= 12
    &&& forall|j: int| 0 <= j < g.parts@.len() ==> is_generated_part(#[trigger] g.parts@[j], i, j + 1)
    &&& 1 <= g.notes@.len() <= 20
    &&& forall|j: int|
        0 <= j < g.notes@.len() ==> (#[trigger] g.notes@[j]).days_ago < 365 && g.notes@[j].note@
            == numbered("Note "@, j + 1) + numbered(" for Exhibit "@, i)
}

/// One of `options`, drawn at random.
fn random_choice(options: &[&str]) -> (r: String)
    requires
        options@.len() > 0,
    ensures
        exists|k: int| 0 <= k < options@.len() && r@ == options@[k]@,
{
    let k = random_in_range(0, options.len() as u64) as usize;
    String::from_str(options[k])
}

/// Notes of a random part: between one and five, each some days old.
fn generated_part(i: u64, j: u64) -> (p: GeneratedPart)
    requires
        1 <= i <= 100,
        1 <= j <= 12,
    ensures
        is_generated_part(p, i as int, j as int),
{
    let count = random_in_range(1, 6);
    let mut notes: Vec<GeneratedNote> = Vec::new();
    let mut k: u64 = 1;
    while k <= count
        invariant
            1 <= i <= 100,
            1 <= j <= 12,
            1 <= count <= 5,
            1 <= k <= count + 1,
            notes@.len() == k - 1,
            forall|m: int|
                0 <= m < notes@.len() ==> (#[trigger] notes@[m]).days_ago < 365
                    && notes@[m].note@ == numbered("Note "@, m + 1) + numbered(" for Part "@, j as int)
                    + numbered(" of Exhibit "@, i as int),
        decreases count + 1 - k,
    {
        let mut note = numbered_string("Note ", k);
        push_decimal_after(&mut note, " for Part ", j);
        push_decimal_after(&mut note, " of Exhibit ", i);
        notes.push(GeneratedNote { days_ago: random_in_range(0, 365), note });
        k = k + 1;
    }
    let mut name = numbered_string("Part ", j);
    push_decimal_after(&mut name, " for Exhibit ", i);
    GeneratedPart { number: j, name, notes }
}

/// Appends `text` and then `n` in decimal to `s`.
fn push_decimal_after(s: &mut String, text: &str, n: u64)
    ensures
        final(s)@ == old(s)@ + numbered(text@, n as int),
{
    s.append(text);
    push_decimal(s, n);
}

/// Random exhibit `i`: a random cluster, location and status, a sponsor when
/// `sponsored`, three to twelve parts with one to five notes each, and one to
/// twenty notes, every date up to a year away.
pub fn generate_random_exhibit(i: u64, sponsored: bool) -> (g: GeneratedExhibit)
    requires
        1 <= i <= 100,
    ensures
        is_generated_exhibit(g, i as int, sponsored),
{
    let clusters: [&str; 6] = ["Biology", "Physics", "Chemistry", "Astronomy", "Geology", "Technology"];
    let locations: [&str; 6] = ["Hall A", "Hall B", "Hall C", "Hall D", "Hall E", "Outdoor Area"];
    let statuses: [&str; 3] = ["operational", "needs repair", "out of service"];
    let cluster = random_choice(&clusters);
    let location = random_choice(&locations);
    let status = random_choice(&statuses);
    proof {
        let c = choose|k: int| 0 <= k < clusters@.len() && cluster@ == clusters@[k]@;
        assert(random_clusters()[c] == clusters@[c]@);
        let l = choose|k: int| 0 <= k < locations@.len() && location@ == locations@[k]@;
        assert(random_locations()[l] == locations@[l]@);
        let s = choose|k: int| 0 <= k < statuses@.len() && status@ == statuses@[k]@;
        assert(random_statuses()[s] == statuses@[s]@);
    }
    let mut image_url = numbered_string("https://picsum.photos/seed/", i);
    image_url.append("/300/200");
    let sponsor = if sponsored {
        Some(
            GeneratedSponsor {
                name: numbered_string("Sponsor ", i),
                started_days_ago: random_in_range(0, 365),
                ends_in_days: random_in_range(0, 365),
            },
        )
    } else {
        None
    };
    let part_count = random_in_range(3, 13);
    let mut parts: Vec<GeneratedPart> = Vec::new();
    let mut j: u64 = 1;
    while j <= part_count
        invariant
            1 <= i <= 100,
            3 <= part_count <= 12,
            1 <= j <= part_count + 1,
            parts@.len() == j - 1,
            forall|m: int|
                0 <= m < parts@.len() ==> is_generated_part(#[trigger] parts@[m], i as int, m + 1),
        decreases part_count + 1 - j,
    {
        parts.push(generated_part(i, j));
        j = j + 1;
    }
    let note_count = random_in_range(1, 21);
    let mut notes: Vec<GeneratedNote> = Vec::new();
    let mut k: u64 = 1;
    while k <= note_count
        invariant
            1 <= i <= 100,
            1 <= note_count <= 20,
            1 <= k <= note_count + 1,
            notes@.len() == k - 1,
            forall|m: int|
                0 <= m < notes@.len() ==> (#[trigger] notes@[m]).days_ago < 365
                    && notes@[m].note@ == numbered("Note "@, m + 1) + numbered(
                    " for Exhibit "@,
                    i as int,
                ),
        decreases note_count + 1 - k,
    {
        let mut note = numbered_string("Note ", k);
        push_decimal_after(&mut note, " for Exhibit ", i);
        notes.push(GeneratedNote { days_ago: random_in_range(0, 365), note });
        k = k + 1;
    }
    GeneratedExhibit {
        name: numbered_string("Exhibit ", i),
        cluster,
        location,
        status,
        image_url,
        sponsor,
        parts,
        notes,
    }
}

/// Link of part `part_number` of the random exhibit stored under
/// `exhibit_id`: "https://example.com/exhibit/{exhibit_id}/part/{part_number}".
pub fn sample_part_link(exhibit_id: i64, part_number: u64) -> (r: String)
    ensures
        r@ == "https://example.com/exhibit/"@ + signed_decimal(exhibit_id as int) + "/part/"@
            + decimal(part_number as nat),
{
    let mut r = String::from_str("https://example.com/exhibit/");
    let id = crate::text::signed_decimal_string(exhibit_id);
    r.append(id.as_str());
    r.append("/part/");
    push_decimal(&mut r, part_number);
    r
}

/// An entry of the catalogue of sample exhibits.
#[derive(Clone, Debug, PartialEq, Eq)]
pub struct DummyExhibitData {
    pub exhibit_name: String,
    pub exhibit_description: String,
    pub building_location: String,
    pub current_status: String,
    pub cluster: String,
    pub notes: String,
}

/// The exhibit made from a catalogue entry.
pub open spec fn is_catalogue_exhibit(e: NewExhibit, d: DummyExhibitData) -> bool {
    &&& e.name@ == d.exhibit_name@
    &&& e.cluster@ == d.cluster@
    &&& e.location@ == d.building_location@
    &&& e.description@ == d.exhibit_description@
    &&& e.status@ == d.current_status@
    &&& e.image_url@ == "https://picsum.photos/seed/"@ + d.exhibit_name@ + "/200/300"@
    &&& e.sponsor is None
    &&& e.part_ids@.len() == 0
    &&& e.notes@.len() == 0
}

/// Random exhibits 1 to 100, in order; exhibit `k + 1` is sponsored when
/// `sponsored[k]` is.
pub fn generate_random_exhibits(sponsored: &Vec<bool>) -> (r: Vec<GeneratedExhibit>)
    requires
        sponsored@.len() == 100,
    ensures
        r@.len() == 100,
        forall|k: int|
            0 <= k < 100 ==> is_generated_exhibit(#[trigger] r@[k], k + 1, sponsored@[k]),
{
    let mut r: Vec<GeneratedExhibit> = Vec::new();
    let mut i: u64 = 1;
    while i <= 100
        invariant
            1 <= i <= 101,
            sponsored@.len() == 100,
            r@.len() == i - 1,
            forall|k: int|
                0 <= k < i - 1 ==> is_generated_exhibit(#[trigger] r@[k], k + 1, sponsored@[k]),
        decreases 101 - i,
    {
        r.push(generate_random_exhibit(i, sponsored[(i - 1) as usize]));
        i = i + 1;
    }
    r
}

/// `e` is made from one of the catalogue's entries.
pub open spec fn made_from_catalogue(e: NewExhibit, exhibits: Seq<DummyExhibitData>) -> bool {
    exists|k: int| 0 <= k < exhibits.len() && is_catalogue_exhibit(e, exhibits[k])
}

/// How many exhibits one fill from the catalogue makes.
pub const DUMMY_EXHIBIT_COUNT: usize = 100;

/// `DUMMY_EXHIBIT_COUNT` exhibits, each made from an entry of the catalogue
/// drawn at random.
pub fn random_dummy_exhibits(exhibits: &Vec<DummyExhibitData>) -> (r: Vec<NewExhibit>)
    requires
        exhibits@.len() > 0,
    ensures
        r@.len() == DUMMY_EXHIBIT_COUNT,
        forall|m: int|
            0 <= m < r@.len() ==> made_from_catalogue(#[trigger] r@[m], exhibits@),
{
    let mut r: Vec<NewExhibit> = Vec::new();
    let mut i: usize = 0;
    while i < DUMMY_EXHIBIT_COUNT
        invariant
            exhibits@.len() > 0,
            i <= DUMMY_EXHIBIT_COUNT,
            r@.len() == i,
            forall|m: int|
                0 <= m < r@.len() ==> made_from_catalogue(#[trigger] r@[m], exhibits@),
        decreases DUMMY_EXHIBIT_COUNT - i,
    {
        r.push(get_random_dummy_exhibit(exhibits));
        i = i + 1;
    }
    r
}

/// An exhibit made from an entry of the catalogue drawn at random.
pub fn get_random_dummy_exhibit(exhibits: &Vec<DummyExhibitData>) -> (r: NewExhibit)
    requires
        exhibits@.len() > 0,
    ensures
        exists|k: int| 0 <= k < exhibits@.len() && is_catalogue_exhibit(r, exhibits@[k]),
{
    let k = choose_position(exhibits.as_slice()).unwrap();
    let d = &exhibits[k];
    let mut image_url = String::from_str("https://picsum.photos/seed/");
    image_url.append(d.exhibit_name.as_str());
    image_url.append("/200/300");
    let r = NewExhibit {
        name: d.exhibit_name.clone(),
        cluster: d.cluster.clone(),
        location: d.building_location.clone(),
        description: d.exhibit_description.clone(),
        status: d.current_status.clone(),
        image_url,
        sponsor: None,
        part_ids: Vec::new(),
        notes: Vec::new(),
    };
    assert(is_catalogue_exhibit(r, exhibits@[k as int]));
    r
}

} // verus!
