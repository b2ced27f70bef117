//! Turning a submission as the form service returns it into a maintenance
//! request record.
use crate::models::{AnswerValue, FullName, Jotform, SubmissionDate, find_field_text, object_text};
use crate::text::{
    first_field, first_field_of, last_field, last_field_of, lemma_trim_idempotent, text_is, trim,
    trim_str,
};
use vstd::prelude::*;

verus! {

/// Question holding the submitter's name.
pub const QUESTION_NAME: &'static str = "4";

/// Question holding the work or building location.
pub const QUESTION_LOCATION: &'static str = "5";

/// Question holding the exhibit's name.
pub const QUESTION_EXHIBIT_NAME: &'static str = "6";

/// Question holding the description of the problem.
pub const QUESTION_DESCRIPTION: &'static str = "7";

/// Question holding the priority as offered in the form's drop-down.
pub const QUESTION_RAW_PRIORITY: &'static str = "8";

/// Question holding the department as offered in the form's drop-down.
pub const QUESTION_RAW_DEPARTMENT: &'static str = "9";

/// The answer to one question of the form.
#[derive(Clone, Debug, PartialEq, Eq)]
pub struct Answer {
    /// The question's short text, such as "Name:".
    pub name: Option<String>,
    /// The question's full text.
    pub text: Option<String>,
    /// The answer itself.
    pub answer: Option<AnswerValue>,
}

/// An answer together with the id of the question it answers.
#[derive(Clone, Debug, PartialEq, Eq)]
pub struct AnswerEntry {
    pub question_id: String,
    pub answer: Answer,
}

/// A submission as the form service returns it.
#[derive(Clone, Debug, PartialEq, Eq)]
pub struct RawSubmission {
    pub id: String,
    /// "date time" of the submission.
    pub created_at: String,
    /// The answers, keyed by question id; the first entry with an id decides.
    pub answers: Vec<AnswerEntry>,
}

/// The answer filed under question `q`.
pub open spec fn find_answer(answers: Seq<AnswerEntry>, q: Seq<char>) -> Option<Answer>
    decreases answers.len(),
{
    if answers.len() == 0 {
        None
    } else if answers[0].question_id@ == q {
        Some(answers[0].answer)
    } else {
        find_answer(answers.drop_first(), q)
    }
}

/// The value answered to question `q`, if the question is there and has one.
pub open spec fn answer_value(answers: Seq<AnswerEntry>, q: Seq<char>) -> Option<AnswerValue> {
    match find_answer(answers, q) {
        Some(a) => a.answer,
        None => None,
    }
}

/// The text answered to question `q`, if the answer is a piece of text.
pub open spec fn answer_text(answers: Seq<AnswerEntry>, q: Seq<char>) -> Option<Seq<char>> {
    match answer_value(answers, q) {
        Some(AnswerValue::Text(t)) => Some(t@),
        _ => None,
    }
}

/// A name answer: an object with a first and a last name, both text.
pub open spec fn is_name_value(v: AnswerValue) -> bool {
    &&& object_text(v, "first"@) is Some
    &&& object_text(v, "last"@) is Some
}

/// The short department label for a drop-down choice.
pub open spec fn department_label(t: Seq<char>) -> Seq<char> {
    if t == "Building Maintenance/Repair request - Operations"@ {
        "Operations"@
    } else if t == "Exhibit Maintenance/Repair request - Exhibits"@ {
        "Exhibits"@
    } else {
        "N/A"@
    }
}

/// The short priority label for a drop-down choice.
pub open spec fn priority_label(t: Seq<char>) -> Seq<char> {
    if t == "High - ASAP"@ {
        "High"@
    } else if t == "Low - as soon as possible"@ {
        "Low"@
    } else if t == "Medium - within 1-2 weeks"@ {
        "Medium"@
    } else {
        "N/A"@
    }
}

/// Skipping entries filed under other questions leaves the lookup unchanged.
pub proof fn lemma_find_answer_skip(answers: Seq<AnswerEntry>, q: Seq<char>, i: int)
    requires
        0 <= i <= answers.len(),
        forall|k: int| 0 <= k < i ==> (#[trigger] answers[k]).question_id@ != q,
    ensures
        find_answer(answers, q) == find_answer(answers.skip(i), q),
    decreases i,
{
    if i == 0 {
        assert(answers.skip(0) =~= answers);
    } else {
        assert(answers[0].question_id@ != q);
        assert forall|k: int| 0 <= k < i - 1 implies (
        #[trigger] answers.drop_first()[k]).question_id@ != q by {
            assert(answers.drop_first()[k] == answers[k + 1]);
        }
        lemma_find_answer_skip(answers.drop_first(), q, i - 1);
        assert(answers.drop_first().skip(i - 1) =~= answers.skip(i));
    }
}

/// The answer filed under question `q`, if any.
pub fn lookup_answer<'a>(answers: &'a Vec<AnswerEntry>, q: &str) -> (r: Option<&'a Answer>)
    ensures
        r is Some == find_answer(answers@, q@) is Some,
        r matches Some(a) ==> *a == find_answer(answers@, q@)->0,
{
    let n = answers.len();
    let mut i: usize = 0;
    while i < n
        invariant
            n == answers@.len(),
            i <= n,
            forall|k: int| 0 <= k < i ==> (#[trigger] answers@[k]).question_id@ != q@,
        decreases n - i,
    {
        if text_is(answers[i].question_id.as_str(), q) {
            proof {
                lemma_find_answer_skip(answers@, q@, i as int);
                let rest = answers@.skip(i as int);
                assert(rest[0] == answers@[i as int]);
            }
            return Some(&answers[i].answer);
        }
        i = i + 1;
    }
    proof {
        lemma_find_answer_skip(answers@, q@, n as int);
    }
    None
}

/// The text answered to question `q`, if the answer is a piece of text.
pub fn lookup_text<'a>(answers: &'a Vec<AnswerEntry>, q: &str) -> (r: Option<&'a String>)
    ensures
        r is Some == answer_text(answers@, q@) is Some,
        r matches Some(t) ==> t@ == answer_text(answers@, q@)->0,
{
    match lookup_answer(answers, q) {
        Some(a) => match &a.answer {
            Some(AnswerValue::Text(t)) => Some(t),
            _ => None,
        },
        None => None,
    }
}

/// The trimmed text answered to question `q_id`.
pub fn get_str(answers: &Vec<AnswerEntry>, q_id: &str) -> (r: String)
    requires
        answer_text(answers@, q_id@) is Some,
    ensures
        r@ == trim(answer_text(answers@, q_id@)->0),
{
    let t = lookup_text(answers, q_id).unwrap();
    trim_str(t.as_str())
}

/// First and last name from a name answer, each trimmed.
pub fn extract_name(answer_value: &AnswerValue) -> (r: FullName)
    requires
        is_name_value(*answer_value),
    ensures
        r.first@ == trim(object_text(*answer_value, "first"@)->0),
        r.last@ == trim(object_text(*answer_value, "last"@)->0),
{
    let first = find_field_text(answer_value, "first").unwrap();
    let last = find_field_text(answer_value, "last").unwrap();
    FullName { first: trim_str(first.as_str()), last: trim_str(last.as_str()) }
}

/// The short department label for a drop-down choice, after trimming.
pub fn parse_department(raw_department: &str) -> (r: String)
    ensures
        r@ == department_label(trim(raw_department@)),
{
    let t = trim_str(raw_department);
    if text_is(t.as_str(), "Building Maintenance/Repair request - Operations") {
        String::from_str("Operations")
    } else if text_is(t.as_str(), "Exhibit Maintenance/Repair request - Exhibits") {
        String::from_str("Exhibits")
    } else {
        String::from_str("N/A")
    }
}

/// The short priority label for a drop-down choice, after trimming.
pub fn parse_priority_level(raw_priority: &str) -> (r: String)
    ensures
        r@ == priority_label(trim(raw_priority@)),
{
    let t = trim_str(raw_priority);
    if text_is(t.as_str(), "High - ASAP") {
        String::from_str("High")
    } else if text_is(t.as_str(), "Low - as soon as possible") {
        String::from_str("Low")
    } else if text_is(t.as_str(), "Medium - within 1-2 weeks") {
        String::from_str("Medium")
    } else {
        String::from_str("N/A")
    }
}

/// Splits "date time" into its date and its time.
pub fn parse_submission_date(raw_date: &str) -> (r: SubmissionDate)
    ensures
        r.date@ == first_field(raw_date@, ' '),
        r.time@ == last_field(raw_date@, ' '),
{
    SubmissionDate { date: first_field_of(raw_date, ' '), time: last_field_of(raw_date, ' ') }
}

/// `j` is the maintenance request that `raw` describes: the submitter's first
/// and last name, the location, exhibit name and description each trimmed,
/// the short priority and department labels, the submission's date and time,
/// and status "Open".
pub open spec fn is_conversion_of(j: Jotform, raw: RawSubmission) -> bool {
    &&& j.id@ == raw.id@
    &&& j.submitter_name.first@ == trim(
        object_text(answer_value(raw.answers@, QUESTION_NAME@)->0, "first"@)->0,
    )
    &&& j.submitter_name.last@ == trim(
        object_text(answer_value(raw.answers@, QUESTION_NAME@)->0, "last"@)->0,
    )
    &&& j.created_at.date@ == first_field(raw.created_at@, ' ')
    &&& j.created_at.time@ == last_field(raw.created_at@, ' ')
    &&& j.location@ == trim(answer_text(raw.answers@, QUESTION_LOCATION@)->0)
    &&& j.exhibit_name@ == trim(answer_text(raw.answers@, QUESTION_EXHIBIT_NAME@)->0)
    &&& j.description@ == trim(answer_text(raw.answers@, QUESTION_DESCRIPTION@)->0)
    &&& j.priority_level@ == priority_label(trim(answer_text(raw.answers@, QUESTION_RAW_PRIORITY@)->0))
    &&& j.department@ == department_label(
        trim(answer_text(raw.answers@, QUESTION_RAW_DEPARTMENT@)->0),
    )
    &&& j.status@ == "Open"@
}

impl RawSubmission {
    /// Every question that the conversion reads is answered in the expected
    /// shape: a name object, and text for the other questions.
    pub open spec fn is_complete(&self) -> bool {
        &&& answer_value(self.answers@, QUESTION_NAME@) matches Some(v) && is_name_value(v)
        &&& answer_text(self.answers@, QUESTION_LOCATION@) is Some
        &&& answer_text(self.answers@, QUESTION_EXHIBIT_NAME@) is Some
        &&& answer_text(self.answers@, QUESTION_DESCRIPTION@) is Some
        &&& answer_text(self.answers@, QUESTION_RAW_PRIORITY@) is Some
        &&& answer_text(self.answers@, QUESTION_RAW_DEPARTMENT@) is Some
    }

    /// Whether the submission can be converted (see `is_complete`).
    pub fn has_required_answers(&self) -> (r: bool)
        ensures
            r == self.is_complete(),
    {
        let name_ok = match lookup_answer(&self.answers, QUESTION_NAME) {
            Some(a) => match &a.answer {
                Some(v) => find_field_text(v, "first").is_some() && find_field_text(
                    v,
                    "last",
                ).is_some(),
                None => false,
            },
            None => false,
        };
        name_ok && lookup_text(&self.answers, QUESTION_LOCATION).is_some() && lookup_text(
            &self.answers,
            QUESTION_EXHIBIT_NAME,
        ).is_some() && lookup_text(&self.answers, QUESTION_DESCRIPTION).is_some() && lookup_text(
            &self.answers,
            QUESTION_RAW_PRIORITY,
        ).is_some() && lookup_text(&self.answers, QUESTION_RAW_DEPARTMENT).is_some()
    }

    /// The maintenance request the submission describes, with status "Open".
    pub fn to_jotform(&self) -> (j: Jotform)
        requires
            self.is_complete(),
        ensures
            is_conversion_of(j, *self),
    {
        let answer_4 = lookup_answer(&self.answers, QUESTION_NAME).unwrap();
        let name_value = answer_4.answer.as_ref().unwrap();
        let submitter_name = extract_name(name_value);
        let location = get_str(&self.answers, QUESTION_LOCATION);
        let exhibit_name = get_str(&self.answers, QUESTION_EXHIBIT_NAME);
        let description = get_str(&self.answers, QUESTION_DESCRIPTION);
        let raw_priority = get_str(&self.answers, QUESTION_RAW_PRIORITY);
        let raw_department = get_str(&self.answers, QUESTION_RAW_DEPARTMENT);
        proof {
            lemma_trim_idempotent(answer_text(self.answers@, QUESTION_RAW_PRIORITY@)->0);
            lemma_trim_idempotent(answer_text(self.answers@, QUESTION_RAW_DEPARTMENT@)->0);
        }
        let priority_level = parse_priority_level(raw_priority.as_str());
        let department = parse_department(raw_department.as_str());
        let submission_date = parse_submission_date(self.created_at.as_str());
        Jotform {
            id: self.id.clone(),
            submitter_name,
            created_at: submission_date,
            location,
            exhibit_name,
            description,
            priority_level,
            department,
            status: String::from_str("Open"),
        }
    }
}

} // verus!
