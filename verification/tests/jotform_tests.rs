use backend::jotform_api::jotform_api::{submissions_url, JotFormApiResponse};
use backend::jotform_api::raw_submission::{
    extract_name, get_str, parse_department, parse_priority_level, parse_submission_date, Answer,
    AnswerEntry, RawSubmission,
};
use backend::models::{AnswerField, AnswerValue, FullName, Jotform, SubmissionDate};

fn text(s: &str) -> Option<AnswerValue> {
    Some(AnswerValue::Text(s.to_string()))
}

fn entry(q: &str, value: Option<AnswerValue>) -> AnswerEntry {
    AnswerEntry {
        question_id: q.to_string(),
        answer: Answer { name: None, text: None, answer: value },
    }
}

fn name_value(first: &str, last: &str) -> AnswerValue {
    AnswerValue::Object(vec![
        AnswerField { key: "first".to_string(), text: Some(first.to_string()) },
        AnswerField { key: "last".to_string(), text: Some(last.to_string()) },
    ])
}

fn sample_submission() -> RawSubmission {
    RawSubmission {
        id: "6091467635319479371".to_string(),
        created_at: "2024-12-04 13:39:24".to_string(),
        answers: vec![
            entry("3", text("ignored")),
            entry("4", Some(name_value("  Kenneth ", "Smith  "))),
            entry("5", text(" Deep Space ")),
            entry("6", text("Electromagnetic Spectrum")),
            entry("7", text("It's peeling off the wall.\n")),
            entry("8", text("High - ASAP")),
            entry("9", text(" Building Maintenance/Repair request - Operations ")),
        ],
    }
}

#[test]
fn submission_converts_to_request() {
    let raw = sample_submission();
    assert!(raw.has_required_answers());
    let j = raw.to_jotform();
    assert_eq!(
        j,
        Jotform {
            id: "6091467635319479371".to_string(),
            submitter_name: FullName { first: "Kenneth".to_string(), last: "Smith".to_string() },
            created_at: SubmissionDate {
                date: "2024-12-04".to_string(),
                time: "13:39:24".to_string(),
            },
            location: "Deep Space".to_string(),
            exhibit_name: "Electromagnetic Spectrum".to_string(),
            description: "It's peeling off the wall.".to_string(),
            priority_level: "High".to_string(),
            department: "Operations".to_string(),
            status: "Open".to_string(),
        }
    );
}

#[test]
fn submission_missing_a_question_is_not_complete() {
    let mut raw = sample_submission();
    raw.answers.retain(|e| e.question_id != "7");
    assert!(!raw.has_required_answers());
}

#[test]
fn submission_with_non_text_answer_is_not_complete() {
    let mut raw = sample_submission();
    raw.answers[5] = entry("8", Some(AnswerValue::Other));
    assert!(!raw.has_required_answers());
    let mut raw = sample_submission();
    raw.answers[1] = entry("4", text("Kenneth Smith"));
    assert!(!raw.has_required_answers());
}

#[test]
fn first_answer_for_a_question_decides() {
    let answers = vec![entry("5", text(" first ")), entry("5", text("second"))];
    assert_eq!(get_str(&answers, "5"), "first");
}

#[test]
fn name_parts_are_trimmed() {
    let n = extract_name(&name_value(" Lou ", " Papai"));
    assert_eq!(n, FullName { first: "Lou".to_string(), last: "Papai".to_string() });
}

#[test]
fn department_labels() {
    assert_eq!(parse_department("Building Maintenance/Repair request - Operations"), "Operations");
    assert_eq!(parse_department("  Exhibit Maintenance/Repair request - Exhibits "), "Exhibits");
    assert_eq!(parse_department("Something else"), "N/A");
    assert_eq!(parse_department(""), "N/A");
}

#[test]
fn priority_labels() {
    assert_eq!(parse_priority_level("High - ASAP"), "High");
    assert_eq!(parse_priority_level(" Low - as soon as possible"), "Low");
    assert_eq!(parse_priority_level("Medium - within 1-2 weeks\t"), "Medium");
    assert_eq!(parse_priority_level("high - asap"), "N/A");
}

#[test]
fn submission_date_is_split() {
    let d = parse_submission_date("2024-12-27 16:46:03");
    assert_eq!(d.date, "2024-12-27");
    assert_eq!(d.time, "16:46:03");
    let d = parse_submission_date("2024-12-27");
    assert_eq!(d.date, "2024-12-27");
    assert_eq!(d.time, "2024-12-27");
}

#[test]
fn submissions_url_is_built() {
    assert_eq!(
        submissions_url("https://api.jotform.com", "123", "SECRET-REDACTED"),
        "https://api.jotform.com/form/123/submissions?apiKey=SECRET-REDACTED&limit=25"
    );
}

#[test]
fn reply_converts_every_submission() {
    let mut second = sample_submission();
    second.id = "6081117525314833207".to_string();
    second.answers[6] = entry("9", text("Exhibit Maintenance/Repair request - Exhibits"));
    let reply = JotFormApiResponse {
        response_code: 200,
        message: "success".to_string(),
        content: vec![sample_submission(), second],
        limit_left: 999,
    };
    assert!(reply.all_have_required_answers());
    let forms = reply.to_jotforms();
    assert_eq!(forms.len(), 2);
    assert_eq!(forms[0].department, "Operations");
    assert_eq!(forms[1].id, "6081117525314833207");
    assert_eq!(forms[1].department, "Exhibits");
}
