//! The records the service stores and exchanges.
use vstd::prelude::*;

verus! {

/// A dated note attached to an exhibit or a part.
#[derive(Clone, Debug, PartialEq, Eq)]
pub struct Note {
    pub timestamp: String,
    pub note: String,
}

/// Sponsorship of an exhibit.
#[derive(Clone, Debug, PartialEq, Eq)]
pub struct Sponsor {
    pub name: String,
    pub start_date: String,
    pub end_date: String,
}

/// An exhibit with the parts it uses and its notes.
#[derive(Clone, Debug, PartialEq, Eq)]
pub struct Exhibit {
    pub id: Option<i64>,
    pub name: String,
    pub cluster: String,
    pub location: String,
    pub status: String,
    pub image_url: String,
    pub sponsor_name: Option<String>,
    pub sponsor_start_date: Option<String>,
    pub sponsor_end_date: Option<String>,
    pub part_ids: Vec<i64>,
    pub notes: Vec<Note>,
}

/// A replacement part with the exhibits that use it and its notes.
#[derive(Clone, Debug, PartialEq, Eq)]
pub struct Part {
    pub id: Option<i64>,
    pub name: String,
    pub link: String,
    pub exhibit_ids: Vec<i64>,
    pub notes: Vec<Note>,
}

/// First and last name of whoever submitted a maintenance request.
#[derive(Clone, Debug, PartialEq, Eq)]
pub struct FullName {
    pub first: String,
    pub last: String,
}

/// Date and time of day at which a maintenance request was submitted.
#[derive(Clone, Debug, PartialEq, Eq)]
pub struct SubmissionDate {
    pub date: String,
    pub time: String,
}

/// A maintenance request as the service keeps it.
#[derive(Clone, Debug, PartialEq, Eq)]
pub struct Jotform {
    pub id: String,
    pub submitter_name: FullName,
    pub created_at: SubmissionDate,
    pub location: String,
    pub exhibit_name: String,
    pub description: String,
    pub priority_level: String,
    pub department: String,
    pub status: String,
}

/// A bug report to be filed as an issue.
#[derive(Clone, Debug, PartialEq, Eq)]
pub struct BugReport {
    pub name: String,
    pub title: String,
    pub description: String,
}

/// What the form service returns as the answer to one question, as far as the
/// service reads it: a piece of text, an object whose members may be text, or
/// anything else.
#[derive(Clone, Debug, PartialEq, Eq)]
pub enum AnswerValue {
    Text(String),
    Object(Vec<AnswerField>),
    Other,
}

/// One member of an object answer; `text` is `None` when the member's value is
/// not a piece of text.
#[derive(Clone, Debug, PartialEq, Eq)]
pub struct AnswerField {
    pub key: String,
    pub text: Option<String>,
}

/// The text held under `key` in an object answer: the first member with that
/// key decides.
pub open spec fn field_text(fields: Seq<AnswerField>, key: Seq<char>) -> Option<Seq<char>>
    decreases fields.len(),
{
    if fields.len() == 0 {
        None
    } else if fields[0].key@ == key {
        match fields[0].text {
            Some(t) => Some(t@),
            None => None,
        }
    } else {
        field_text(fields.drop_first(), key)
    }
}

/// The text held under `key` in `value`, when `value` is an object.
pub open spec fn object_text(value: AnswerValue, key: Seq<char>) -> Option<Seq<char>> {
    match value {
        AnswerValue::Object(fields) => field_text(fields@, key),
        _ => None,
    }
}

/// Skipping members whose key differs leaves the lookup unchanged.
pub proof fn lemma_field_text_skip(fields: Seq<AnswerField>, key: Seq<char>, i: int)
    requires
        0 <= i <= fields.len(),
        forall|k: int| 0 <= k < i ==> (#[trigger] fields[k]).key@ != key,
    ensures
        field_text(fields, key) == field_text(fields.skip(i), key),
    decreases i,
{
    if i == 0 {
        assert(fields.skip(0) =~= fields);
    } else {
        assert(fields[0].key@ != key);
        assert forall|k: int| 0 <= k < i - 1 implies (#[trigger] fields.drop_first()[k]).key@
            != key by {
            assert(fields.drop_first()[k] == fields[k + 1]);
        }
        lemma_field_text_skip(fields.drop_first(), key, i - 1);
        assert(fields.drop_first().skip(i - 1) =~= fields.skip(i));
    }
}

/// The text held under `key` in an object answer, if any.
pub fn find_field_text<'a>(value: &'a AnswerValue, key: &str) -> (r: Option<&'a String>)
    ensures
        r is Some == object_text(*value, key@) is Some,
        r matches Some(t) ==> t@ == object_text(*value, key@)->0,
{
    match value {
        AnswerValue::Object(fields) => {
            let n = fields.len();
            let mut i: usize = 0;
            while i < n
                invariant
                    n == fields@.len(),
                    i <= n,
                    object_text(*value, key@) == field_text(fields@, key@),
                    forall|k: int| 0 <= k < i ==> (#[trigger] fields@[k]).key@ != key@,
                decreases n - i,
            {
                if crate::text::text_is(fields[i].key.as_str(), key) {
                    proof {
                        lemma_field_text_skip(fields@, key@, i as int);
                        let rest = fields@.skip(i as int);
                        assert(rest[0] == fields@[i as int]);
                        assert(rest.len() > 0);
                        assert(field_text(rest, key@) == match fields@[i as int].text {
                            Some(t) => Some(t@),
                            None => None::<Seq<char>>,
                        });
                        assert(field_text(fields@, key@) == field_text(rest, key@));
                    }
                    return match &fields[i].text {
                        Some(t) => Some(t),
                        None => None,
                    };
                }
                i = i + 1;
            }
            proof {
                lemma_field_text_skip(fields@, key@, n as int);
            }
            None
        },
        _ => None,
    }
}

} // verus!
