//! The first form-intake format: the submitter's name is kept as one string.
use crate::jotform_api::raw_submission::{department_label, is_name_value, priority_label};
use crate::models::{AnswerValue, SubmissionDate, find_field_text, object_text};
use crate::text::{first_field, first_field_of, last_field, last_field_of, text_is, trim, trim_str};
use vstd::prelude::*;

verus! {

/// The answer to one question of the form.
#[derive(Clone, Debug, PartialEq, Eq)]
pub struct Answer {
    /// The question's short text, such as "Name:".
    pub name: Option<String>,
    /// The question's full text.
    pub text: Option<String>,
    /// The answer itself.
    pub answer: Option<AnswerValue>,
    /// The service's own rendering of the answer, such as a combined name.
    pub pretty_format: Option<String>,
}

/// An answer together with the id of the question it answers.
#[derive(Clone, Debug, PartialEq, Eq)]
pub struct AnswerEntry {
    pub question_id: String,
    pub answer: Answer,
}

/// A submission as the form service returns it.
#[derive(Clone, Debug, PartialEq, Eq)]
pub struct RawSubmission {
    pub id: String,
    pub form_id: String,
    /// "date time" of the submission.
    pub created_at: String,
    /// The answers, keyed by question id; the first entry with an id decides.
    pub answers: Vec<AnswerEntry>,
}

/// A maintenance request in this format.
#[derive(Clone, Debug, PartialEq, Eq)]
pub struct Jotform {
    pub id: String,
    pub submitter_name: String,
    pub submission_date: SubmissionDate,
    pub location: String,
    pub exhibit_name: String,
    pub description: String,
    pub priority_level: String,
    pub department: String,
    pub status: String,
}

/// The answer filed under question `q`.
pub open spec fn find_answer(answers: Seq<AnswerEntry>, q: Seq<char>) -> Option<Answer>
    decreases answers.len(),
{
    if answers.len() == 0 {
        None
    } else if answers[0].question_id@ == q {
        Some(answers[0].answer)
    } else {
        find_answer(answers.drop_first(), q)
    }
}

/// The value answered to question `q`, if the question is there and has one.
pub open spec fn answer_value(answers: Seq<AnswerEntry>, q: Seq<char>) -> Option<AnswerValue> {
    match find_answer(answers, q) {
        Some(a) => a.answer,
        None => None,
    }
}

/// The text answered to question `q`, if the answer is a piece of text.
pub open spec fn answer_text(answers: Seq<AnswerEntry>, q: Seq<char>) -> Option<Seq<char>> {
    match answer_value(answers, q) {
        Some(AnswerValue::Text(t)) => Some(t@),
        _ => None,
    }
}

/// "first last" from the trimmed parts, itself trimmed.
pub open spec fn combined_name(first: Seq<char>, last: Seq<char>) -> Seq<char> {
    trim(trim(first) + seq![' '] + trim(last))
}

/// Skipping entries filed under other questions leaves the lookup unchanged.
pub proof fn lemma_find_answer_skip(answers: Seq<AnswerEntry>, q: Seq<char>, i: int)
    requires
        0 <= i <= answers.len(),
        forall|k: int| 0 <= k < i ==> (#[trigger] answers[k]).question_id@ != q,
    ensures
        find_answer(answers, q) == find_answer(answers.skip(i), q),
    decreases i,
{
    if i == 0 {
        assert(answers.skip(0) =~= answers);
    } else {
        assert(answers[0].question_id@ != q);
        assert forall|k: int| 0 <= k < i - 1 implies (
        #[trigger] answers.drop_first()[k]).question_id@ != q by {
            assert(answers.drop_first()[k] == answers[k + 1]);
        }
        lemma_find_answer_skip(answers.drop_first(), q, i - 1);
        assert(answers.drop_first().skip(i - 1) =~= answers.skip(i));
    }
}

/// The text answered to question `q`, if the answer is a piece of text.
fn lookup_text<'a>(s: &'a RawSubmission, q: &str) -> (r: Option<&'a String>)
    ensures
        r is Some == answer_text(s.answers@, q@) is Some,
        r matches Some(t) ==> t@ == answer_text(s.answers@, q@)->0,
{
    match s.get_answer(q) {
        Some(a) => match &a.answer {
            Some(AnswerValue::Text(t)) => Some(t),
            _ => None,
        },
        None => None,
    }
}

/// `j` is the maintenance request that `raw` describes: the combined
/// submitter name, the location, exhibit name and description each trimmed,
/// the short priority and department labels, the submission's date and time,
/// and status "Open".
pub open spec fn is_conversion_of(j: Jotform, raw: RawSubmission) -> bool {
    &&& j.id@ == raw.id@
    &&& j.submitter_name@ == combined_name(
        object_text(answer_value(raw.answers@, "4"@)->0, "first"@)->0,
        object_text(answer_value(raw.answers@, "4"@)->0, "last"@)->0,
    )
    &&& j.submission_date.date@ == first_field(raw.created_at@, ' ')
    &&& j.submission_date.time@ == last_field(raw.created_at@, ' ')
    &&& j.location@ == trim(answer_text(raw.answers@, "5"@)->0)
    &&& j.exhibit_name@ == trim(answer_text(raw.answers@, "6"@)->0)
    &&& j.description@ == trim(answer_text(raw.answers@, "7"@)->0)
    &&& j.priority_level@ == priority_label(trim(answer_text(raw.answers@, "8"@)->0))
    &&& j.department@ == department_label(trim(answer_text(raw.answers@, "9"@)->0))
    &&& j.status@ == "Open"@
}

impl RawSubmission {
    /// Every question that the conversion reads is answered in the expected
    /// shape: a name object, and text for the other questions.
    pub open spec fn is_complete(&self) -> bool {
        &&& answer_value(self.answers@, "4"@) matches Some(v) && is_name_value(v)
        &&& answer_text(self.answers@, "5"@) is Some
        &&& answer_text(self.answers@, "6"@) is Some
        &&& answer_text(self.answers@, "7"@) is Some
        &&& answer_text(self.answers@, "8"@) is Some
        &&& answer_text(self.answers@, "9"@) is Some
    }

    /// The answer filed under `question_id`, if any.
    pub fn get_answer(&self, question_id: &str) -> (r: Option<&Answer>)
        ensures
            r is Some == find_answer(self.answers@, question_id@) is Some,
            r matches Some(a) ==> *a == find_answer(self.answers@, question_id@)->0,
    {
        let n = self.answers.len();
        let mut i: usize = 0;
        while i < n
            invariant
                n == self.answers@.len(),
                i <= n,
                forall|k: int| 0 <= k < i ==> (#[trigger] self.answers@[k]).question_id@
                    != question_id@,
            decreases n - i,
        {
            if text_is(self.answers[i].question_id.as_str(), question_id) {
                proof {
                    lemma_find_answer_skip(self.answers@, question_id@, i as int);
                    let rest = self.answers@.skip(i as int);
                    assert(rest[0] == self.answers@[i as int]);
                }
                return Some(&self.answers[i].answer);
            }
            i = i + 1;
        }
        proof {
            lemma_find_answer_skip(self.answers@, question_id@, n as int);
        }
        None
    }

    /// The trimmed text answered to `question_id`, or the empty string when
    /// there is no such text.
    pub fn get_str_from_answer(&self, question_id: &str) -> (r: String)
        ensures
            r@ == match answer_text(self.answers@, question_id@) {
                Some(t) => trim(t),
                None => Seq::<char>::empty(),
            },
    {
        match lookup_text(self, question_id) {
            Some(t) => trim_str(t.as_str()),
            None => String::new(),
        }
    }

    /// Whether the submission can be converted (see `is_complete`).
    pub fn has_required_answers(&self) -> (r: bool)
        ensures
            r == self.is_complete(),
    {
        let name_ok = match self.get_answer("4") {
            Some(a) => match &a.answer {
                Some(v) => find_field_text(v, "first").is_some() && find_field_text(
                    v,
                    "last",
                ).is_some(),
                None => false,
            },
            None => false,
        };
        name_ok && lookup_text(self, "5").is_some() && lookup_text(self, "6").is_some()
            && lookup_text(self, "7").is_some() && lookup_text(self, "8").is_some() && lookup_text(
            self,
            "9",
        ).is_some()
    }

    /// The maintenance request the submission describes, with status "Open".
    pub fn to_jotform(&self) -> (j: Jotform)
        requires
            self.is_complete(),
        ensures
            is_conversion_of(j, *self),
    {
        let answer_4 = self.get_answer("4").unwrap();
        let name_value = answer_4.answer.as_ref().unwrap();
        let submitter_name = RawSubmission::extract_name(name_value);
        let location = trim_str(lookup_text(self, "5").unwrap().as_str());
        let exhibit_name = trim_str(lookup_text(self, "6").unwrap().as_str());
        let description = trim_str(lookup_text(self, "7").unwrap().as_str());
        let raw_priority = trim_str(lookup_text(self, "8").unwrap().as_str());
        let raw_department = trim_str(lookup_text(self, "9").unwrap().as_str());
        let priority_level = if text_is(raw_priority.as_str(), "High - ASAP") {
            String::from_str("High")
        } else if text_is(raw_priority.as_str(), "Low - as soon as possible") {
            String::from_str("Low")
        } else if text_is(raw_priority.as_str(), "Medium - within 1-2 weeks") {
            String::from_str("Medium")
        } else {
            String::from_str("N/A")
        };
        let department = if text_is(
            raw_department.as_str(),
            "Building Maintenance/Repair request - Operations",
        ) {
            String::from_str("Operations")
        } else if text_is(raw_department.as_str(), "Exhibit Maintenance/Repair request - Exhibits") {
            String::from_str("Exhibits")
        } else {
            String::from_str("N/A")
        };
        let submission_date = SubmissionDate {
            date: first_field_of(self.created_at.as_str(), ' '),
            time: last_field_of(self.created_at.as_str(), ' '),
        };
        Jotform {
            id: self.id.clone(),
            submitter_name,
            submission_date,
            location,
            exhibit_name,
            description,
            priority_level,
            department,
            status: String::from_str("Open"),
        }
    }

    /// "first last" from a name answer: both parts trimmed, joined by one
    /// space, and the whole trimmed.
    pub fn extract_name(answer_value: &AnswerValue) -> (r: String)
        requires
            is_name_value(*answer_value),
        ensures
            r@ == combined_name(
                object_text(*answer_value, "first"@)->0,
                object_text(*answer_value, "last"@)->0,
            ),
    {
        let first = trim_str(find_field_text(answer_value, "first").unwrap().as_str());
        let last = trim_str(find_field_text(answer_value, "last").unwrap().as_str());
        proof {
            reveal_strlit(" ");
            assert(" "@ =~= seq![' ']);
        }
        let joined = crate::text::join3(first.as_str(), " ", last.as_str());
        trim_str(joined.as_str())
    }

    /// The short department label for a drop-down choice, after trimming.
    pub fn parse_department(raw_department: &str) -> (r: &'static str)
        ensures
            r@ == department_label(trim(raw_department@)),
    {
        let t = trim_str(raw_department);
        if text_is(t.as_str(), "Building Maintenance/Repair request - Operations") {
            "Operations"
        } else if text_is(t.as_str(), "Exhibit Maintenance/Repair request - Exhibits") {
            "Exhibits"
        } else {
            "N/A"
        }
    }

    /// The short priority label for a drop-down choice, after trimming.
    pub fn parse_priority_level(raw_priority: &str) -> (r: &'static str)
        ensures
            r@ == priority_label(trim(raw_priority@)),
    {
        let t = trim_str(raw_priority);
        if text_is(t.as_str(), "High - ASAP") {
            "High"
        } else if text_is(t.as_str(), "Low - as soon as possible") {
            "Low"
        } else if text_is(t.as_str(), "Medium - within 1-2 weeks") {
            "Medium"
        } else {
            "N/A"
        }
    }
}

} // verus!
